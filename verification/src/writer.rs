//! Composing the main output document: the fixed header, one section per
//! package, the marker pair wrapping the generated part, and the preserved
//! preamble in front. Writing the composed text to disk, and copying
//! fragment files in linked mode, happen outside the library.

use crate::aggregator::{
    end_marker, format_package_section, section_of, start_marker, PackageContentInfo, PackageTexts,
    PackageView, TextsView,
};
use crate::text;
use vstd::prelude::*;

verus! {

/// The fixed opening paragraphs of the generated section.
pub open spec fn header_intro() -> Seq<char> {
    "IMPORTANT: Consult these usage rules early and often when working with the packages listed below. Before attempting to use any of these packages or to discover if you should use them, review their usage rules to understand the correct patterns, conventions, and best practices.\n\nThere are general rules for rust, cargo, etc also contained directly in this file."@
}

/// The extra sentence the header carries in folder mode.
pub open spec fn folder_note() -> Seq<char> {
    "\n\nEach package's usage rules are contained in separate files within the linked folder. Please refer to the individual files for detailed usage instructions."@
}

/// The fixed general-usage document embedded in every header, under its own
/// heading.
pub open spec fn general_usage() -> Seq<char> {
    "## General Rust Usage\n\nPrefer the latest stable toolchain and let `cargo fmt` and `cargo clippy` pass cleanly before committing. Keep dependencies minimal, read a crate's documentation before adopting it, handle every `Result` instead of unwrapping, and treat compiler warnings as defects.\n"@
}

/// The header of the generated section: the fixed introduction, the folder
/// note when in folder mode, then the embedded general-usage document.
pub open spec fn header_spec(use_folder_mode: bool) -> Seq<char> {
    if use_folder_mode {
        header_intro() + folder_note() + general_usage()
    } else {
        header_intro() + general_usage()
    }
}

/// Builds the standard header for the generated section of the output file.
pub fn generate_header(use_folder_mode: bool) -> (r: String)
    ensures
        r@ == header_spec(use_folder_mode),
{
    let mut header = String::new();
    header.append(
        "IMPORTANT: Consult these usage rules early and often when working with the packages listed below. Before attempting to use any of these packages or to discover if you should use them, review their usage rules to understand the correct patterns, conventions, and best practices.\n\nThere are general rules for rust, cargo, etc also contained directly in this file.",
    );
    if use_folder_mode {
        header.append(
            "\n\nEach package's usage rules are contained in separate files within the linked folder. Please refer to the individual files for detailed usage instructions.",
        );
    }
    header.append(
        "## General Rust Usage\n\nPrefer the latest stable toolchain and let `cargo fmt` and `cargo clippy` pass cleanly before committing. Keep dependencies minimal, read a crate's documentation before adopting it, handle every `Result` instead of unwrapping, and treat compiler warnings as defects.\n",
    );
    header
}

/// The sections of the composed document, one per package, in order.
pub open spec fn sections_spec(
    packages: Seq<PackageView>,
    texts: Seq<TextsView>,
    folder: Option<Seq<char>>,
) -> Seq<Seq<char>> {
    Seq::new(packages.len(), |i: int| section_of(packages[i], texts[i], folder))
}

/// The marker-wrapped generated part of the output document.
pub open spec fn generated_section_spec(header: Seq<char>, sections: Seq<Seq<char>>) -> Seq<char> {
    start_marker() + "\n\n"@ + header + "\n"@ + text::join_with(sections, "\n\n"@) + "\n"@
        + end_marker() + "\n\n"@
}

/// The whole output document: the preamble (when non-empty) separated from
/// the generated part by a blank line, else the generated part alone.
pub open spec fn compose_spec(preamble: Option<Seq<char>>, generated: Seq<char>) -> Seq<char> {
    if preamble is Some && preamble->0.len() > 0 {
        preamble->0 + "\n\n"@ + generated
    } else {
        generated
    }
}

/// The output document composed for the given packages, texts, preamble and
/// mode.
pub open spec fn main_file_spec(
    packages: Seq<PackageView>,
    texts: Seq<TextsView>,
    preamble: Option<Seq<char>>,
    folder: Option<Seq<char>>,
) -> Seq<char> {
    compose_spec(
        preamble,
        generated_section_spec(header_spec(folder is Some), sections_spec(packages, texts, folder)),
    )
}

/// Composes the main output document: the preserved preamble first (when
/// non-empty), then the generated section between the start and end markers,
/// holding the header and one section per package, sections separated by a
/// blank line. `texts` supplies the materialized fragment texts, one entry
/// per package; in linked mode they are not consulted.
pub fn create_main_agents_file(
    packages: &Vec<PackageContentInfo>,
    texts: &Vec<PackageTexts>,
    preamble: Option<&String>,
    link_folder_name: Option<&str>,
) -> (r: String)
    requires
        texts@.len() == packages@.len(),
        link_folder_name is None ==> forall|i: int|
            0 <= i < packages@.len() ==> texts@[i].sub_texts@.len()
                == packages@[i].content.sub_files@.len(),
    ensures
        r@ == main_file_spec(
            packages.deep_view(),
            texts.deep_view(),
            preamble.deep_view(),
            link_folder_name.deep_view(),
        ),
{
    let ghost pkgs = packages.deep_view();
    let ghost txts = texts.deep_view();
    let ghost folder = link_folder_name.deep_view();
    let ghost sections = sections_spec(pkgs, txts, folder);
    let header = generate_header(link_folder_name.is_some());
    let n = packages.len();
    let mut joined = String::new();
    let mut i: usize = 0;
    while i < n
        invariant
            n == packages@.len(),
            n == texts@.len(),
            pkgs == packages.deep_view(),
            txts == texts.deep_view(),
            folder == link_folder_name.deep_view(),
            sections == sections_spec(pkgs, txts, folder),
            link_folder_name is None ==> forall|j: int|
                0 <= j < packages@.len() ==> texts@[j].sub_texts@.len()
                    == packages@[j].content.sub_files@.len(),
            0 <= i <= n,
            joined@ == text::join_with(sections.take(i as int), "\n\n"@),
        decreases n - i,
    {
        let section = format_package_section(&packages[i], link_folder_name, &texts[i]);
        proof {
            assert(pkgs[i as int] == packages@[i as int].deep_view());
            assert(txts[i as int] == texts@[i as int].deep_view());
            assert(section@ == sections[i as int]);
            text::lemma_join_push(sections.take(i as int), "\n\n"@, sections[i as int]);
            assert(sections.take(i + 1) =~= sections.take(i as int).push(sections[i as int]));
        }
        if i > 0 {
            joined.append("\n\n");
        }
        joined.append(section.as_str());
        proof {
            if i == 0 {
                assert(sections.take(0) =~= Seq::<Seq<char>>::empty());
                assert(joined@ =~= sections[0]);
            }
        }
        i = i + 1;
    }
    proof {
        assert(sections.take(n as int) =~= sections);
    }
    let mut out = String::new();
    if let Some(p) = preamble {
        if p.unicode_len() > 0 {
            out.append(p.as_str());
            out.append("\n\n");
        }
    }
    out.append("<!-- cargo-usage-rules-start -->");
    out.append("\n\n");
    out.append(header.as_str());
    out.append("\n");
    out.append(joined.as_str());
    out.append("\n");
    out.append("<!-- cargo-usage-rules-end -->");
    out.append("\n\n");
    out
}

} // verus!
