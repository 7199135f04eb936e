//! The aggregation core: selecting packages under an exclusion list,
//! rendering one package's fragments into a single document, formatting a
//! package's output section in inline or linked form, and recovering the
//! user-authored preamble of a previously generated output document.

use crate::scanner::{RuleView, SubFileView, UsageRuleSubFile, UsageRules};
use crate::text;
use vstd::prelude::*;

verus! {

/// The fragment files of one selected package, as plain path strings.
#[derive(Clone)]
pub struct PackageContent {
    pub main_file: Option<String>,
    pub sub_files: Vec<UsageRuleSubFile>,
}

/// The mathematical view of a package's fragment files.
pub struct ContentView {
    pub main_file: Option<Seq<char>>,
    pub subs: Seq<SubFileView>,
}

impl View for PackageContent {
    type V = ContentView;

    open spec fn view(&self) -> ContentView {
        ContentView { main_file: self.main_file.deep_view(), subs: self.sub_files.deep_view() }
    }
}

impl DeepView for PackageContent {
    type V = ContentView;

    open spec fn deep_view(&self) -> ContentView {
        self@
    }
}

/// One package selected for output.
#[derive(Clone)]
pub struct PackageContentInfo {
    pub name: String,
    pub content: PackageContent,
}

/// The mathematical view of a selected package.
pub struct PackageView {
    pub name: Seq<char>,
    pub content: ContentView,
}

impl View for PackageContentInfo {
    type V = PackageView;

    open spec fn view(&self) -> PackageView {
        PackageView { name: self.name@, content: self.content@ }
    }
}

impl DeepView for PackageContentInfo {
    type V = PackageView;

    open spec fn deep_view(&self) -> PackageView {
        self@
    }
}

/// The materialized text of one package's fragments, in the order of the
/// package's sub-files. Reading the backing files happens outside the
/// library and is deferred until the content is actually needed.
pub struct PackageTexts {
    pub main_text: Option<String>,
    pub sub_texts: Vec<String>,
}

/// The mathematical view of a package's materialized texts.
pub struct TextsView {
    pub main: Option<Seq<char>>,
    pub subs: Seq<Seq<char>>,
}

impl View for PackageTexts {
    type V = TextsView;

    open spec fn view(&self) -> TextsView {
        TextsView { main: self.main_text.deep_view(), subs: self.sub_texts.deep_view() }
    }
}

impl DeepView for PackageTexts {
    type V = TextsView;

    open spec fn deep_view(&self) -> TextsView {
        self@
    }
}

/// The block a sub-fragment renders to: a level-2 heading line with the
/// fragment's name, a blank line, then its raw text.
pub open spec fn heading_block(name: Seq<char>, body: Seq<char>) -> Seq<char> {
    "## "@ + name + "\n\n"@ + body
}

/// The parts a package renders from: the main text first (when present),
/// then one heading block per sub-fragment, in discovered order.
pub open spec fn render_parts(main: Option<Seq<char>>, subs: Seq<(Seq<char>, Seq<char>)>) -> Seq<
    Seq<char>,
> {
    let blocks = Seq::new(subs.len(), |i: int| heading_block(subs[i].0, subs[i].1));
    match main {
        Some(m) => seq![m] + blocks,
        None => blocks,
    }
}

/// A package's rendered content: its parts joined by a blank line.
pub open spec fn render_spec(main: Option<Seq<char>>, subs: Seq<(Seq<char>, Seq<char>)>) -> Seq<
    char,
> {
    text::join_with(render_parts(main, subs), "\n\n"@)
}

/// The (name, text) pairs of a package's sub-fragments, pairing each
/// sub-file's name with the text supplied for it.
pub open spec fn sub_pairs(subs: Seq<SubFileView>, texts: Seq<Seq<char>>) -> Seq<
    (Seq<char>, Seq<char>),
> {
    Seq::new(subs.len(), |i: int| (subs[i].name, texts[i]))
}

impl PackageContentInfo {
    /// Joins the materialized fragment texts of this package into one
    /// document: the main text first (when given), then each sub-fragment
    /// under a heading named after it, consecutive parts separated by a
    /// blank line. `sub_texts` supplies the text of each sub-file, in order.
    pub fn get_aggregated_content(&self, main_text: &Option<String>, sub_texts: &Vec<String>) -> (r:
        String)
        requires
            sub_texts@.len() == self.content.sub_files@.len(),
        ensures
            r@ == render_spec(
                main_text.deep_view(),
                sub_pairs(self.content.sub_files.deep_view(), sub_texts.deep_view()),
            ),
    {
        let ghost mv = main_text.deep_view();
        let ghost subs = sub_pairs(self.content.sub_files.deep_view(), sub_texts.deep_view());
        let mut acc = String::new();
        let mut has_part = false;
        if let Some(m) = main_text {
            acc.append(m.as_str());
            has_part = true;
        }
        proof {
            assert(subs.take(0) =~= Seq::<(Seq<char>, Seq<char>)>::empty());
            match mv {
                Some(m) => {
                    assert(render_parts(mv, subs.take(0)) =~= seq![m]);
                },
                None => {
                    assert(render_parts(mv, subs.take(0)) =~= Seq::<Seq<char>>::empty());
                },
            }
        }
        let n = sub_texts.len();
        let mut i: usize = 0;
        while i < n
            invariant
                n == sub_texts@.len(),
                n == self.content.sub_files@.len(),
                0 <= i <= n,
                mv == main_text.deep_view(),
                subs == sub_pairs(self.content.sub_files.deep_view(), sub_texts.deep_view()),
                subs.len() == n,
                has_part == (render_parts(mv, subs.take(i as int)).len() > 0),
                acc@ == text::join_with(render_parts(mv, subs.take(i as int)), "\n\n"@),
            decreases n - i,
        {
            let ghost parts = render_parts(mv, subs.take(i as int));
            let ghost block = heading_block(subs[i as int].0, subs[i as int].1);
            if has_part {
                acc.append("\n\n");
            }
            acc.append("## ");
            acc.append(self.content.sub_files[i].relative_path_name.as_str());
            acc.append("\n\n");
            acc.append(sub_texts[i].as_str());
            proof {
                assert(subs[i as int].0 == self.content.sub_files@[i as int].relative_path_name@);
                assert(subs[i as int].1 == sub_texts@[i as int]@);
                lemma_render_parts_take_step(mv, subs, i as int);
                text::lemma_join_push(parts, "\n\n"@, block);
                if parts.len() == 0 {
                    assert(acc@ =~= block);
                } else {
                    assert(acc@ =~= text::join_with(parts, "\n\n"@) + "\n\n"@ + block);
                }
            }
            has_part = true;
            i = i + 1;
        }
        proof {
            assert(subs.take(n as int) =~= subs);
        }
        acc
    }
}

/// Taking one more sub-fragment appends its heading block to the parts.
proof fn lemma_render_parts_take_step(
    main: Option<Seq<char>>,
    subs: Seq<(Seq<char>, Seq<char>)>,
    i: int,
)
    requires
        0 <= i < subs.len(),
    ensures
        render_parts(main, subs.take(i + 1)) == render_parts(main, subs.take(i)).push(
            heading_block(subs[i].0, subs[i].1),
        ),
{
    let a = render_parts(main, subs.take(i + 1));
    let b = render_parts(main, subs.take(i)).push(heading_block(subs[i].0, subs[i].1));
    assert(a =~= b);
}

/// The view a kept package turns into.
pub open spec fn package_of(rule: RuleView) -> PackageView {
    PackageView {
        name: rule.name,
        content: ContentView { main_file: rule.main_file, subs: rule.subs },
    }
}

/// The packages kept for output: the input order restricted to packages
/// whose name is not excluded.
pub open spec fn select_spec(rules: Seq<RuleView>, excluded: Seq<Seq<char>>) -> Seq<PackageView>
    decreases rules.len(),
{
    if rules.len() == 0 {
        Seq::empty()
    } else {
        let prefix = select_spec(rules.drop_last(), excluded);
        if excluded.contains(rules.last().name) {
            prefix
        } else {
            prefix.push(package_of(rules.last()))
        }
    }
}

/// Whether some entry of `names` reads the same as `name`.
fn slice_contains_name(names: &[String], name: &String) -> (r: bool)
    ensures
        r == names.deep_view().contains(name@),
{
    let n = names.len();
    let mut i: usize = 0;
    while i < n
        invariant
            n == names@.len(),
            0 <= i <= n,
            forall|j: int| 0 <= j < i ==> names@[j]@ != name@,
        decreases n - i,
    {
        if names[i].eq(name) {
            proof {
                assert(names.deep_view()[i as int] == name@);
            }
            return true;
        }
        i = i + 1;
    }
    proof {
        assert forall|j: int| 0 <= j < names.deep_view().len() implies names.deep_view()[j]
            != name@ by {
            assert(names.deep_view()[j] == names@[j]@);
        }
    }
    false
}

/// A copy of an optional text.
fn clone_opt_string(o: &Option<String>) -> (r: Option<String>)
    ensures
        r == *o,
{
    match o {
        Some(s) => Some(s.clone()),
        None => None,
    }
}

/// A copy of a sub-file list.
fn clone_sub_files(v: &Vec<UsageRuleSubFile>) -> (r: Vec<UsageRuleSubFile>)
    ensures
        r.deep_view() == v.deep_view(),
{
    let n = v.len();
    let mut r: Vec<UsageRuleSubFile> = Vec::new();
    let mut i: usize = 0;
    while i < n
        invariant
            n == v@.len(),
            0 <= i <= n,
            r.deep_view() =~= v.deep_view().take(i as int),
        decreases n - i,
    {
        let sf = &v[i];
        let copy = UsageRuleSubFile {
            relative_path_name: sf.relative_path_name.clone(),
            full_path: sf.full_path.clone(),
        };
        let ghost cview = copy.deep_view();
        let ghost old_rdv = r.deep_view();
        let ghost old_rv = r@;
        proof {
            assert(cview == v.deep_view()[i as int]);
            assert(old_rdv.len() == old_rv.len());
        }
        r.push(copy);
        proof {
            assert forall|j: int| 0 <= j < i + 1 implies r.deep_view()[j] == v.deep_view().take(
                i + 1,
            )[j] by {
                assert(r.deep_view()[j] == r@[j].deep_view());
                if j < i {
                    assert(r@[j] == old_rv[j]);
                    assert(old_rdv[j] == v.deep_view().take(i as int)[j]);
                } else {
                    assert(r@[j].deep_view() == cview);
                }
            }
            assert(r.deep_view().len() == i + 1);
            assert(r.deep_view() =~= v.deep_view().take(i + 1));
        }
        i = i + 1;
    }
    proof {
        assert(v.deep_view().take(n as int) =~= v.deep_view());
    }
    r
}

/// Keeps, in input order, every package whose name is not in
/// `remove_packages`, and drops the rest.
pub fn aggregate_content(usage_rules: Vec<UsageRules>, remove_packages: &[String]) -> (r: Vec<
    PackageContentInfo,
>)
    ensures
        r.deep_view() == select_spec(usage_rules.deep_view(), remove_packages.deep_view()),
{
    let ghost rules = usage_rules.deep_view();
    let ghost excluded = remove_packages.deep_view();
    let n = usage_rules.len();
    let mut results: Vec<PackageContentInfo> = Vec::new();
    let mut i: usize = 0;
    while i < n
        invariant
            n == usage_rules@.len(),
            rules == usage_rules.deep_view(),
            excluded == remove_packages.deep_view(),
            rules.len() == n,
            0 <= i <= n,
            results.deep_view() == select_spec(rules.take(i as int), excluded),
        decreases n - i,
    {
        proof {
            assert(rules.take(i + 1).drop_last() =~= rules.take(i as int));
            assert(rules.take(i + 1).last() == rules[i as int]);
            assert(rules[i as int] == usage_rules@[i as int].deep_view());
        }
        let rule = &usage_rules[i];
        let ghost old_results = results.deep_view();
        if !slice_contains_name(remove_packages, &rule.package_name) {
            let package_content = PackageContent {
                main_file: clone_opt_string(&rule.main_file),
                sub_files: clone_sub_files(&rule.sub_files),
            };
            results.push(
                PackageContentInfo { name: rule.package_name.clone(), content: package_content },
            );
            proof {
                assert(results.deep_view() =~= old_results.push(package_of(rules[i as int])));
            }
        }
        i = i + 1;
    }
    proof {
        assert(rules.take(n as int) =~= rules);
    }
    results
}

/// A package's output section: a heading naming the package, then the given
/// content on the next line.
pub open spec fn section_spec(name: Seq<char>, content: Seq<char>) -> Seq<char> {
    "## "@ + name + " usage\n"@ + content
}

/// The short reference a package's section carries in linked mode: a
/// markdown link into the link folder, built from the folder and package
/// names alone.
pub open spec fn linked_reference_spec(name: Seq<char>, folder: Seq<char>) -> Seq<char> {
    "["@ + name + " usage rules](./"@ + folder + "/"@ + name + "/"@ + name + ".md)"@
}

/// One package's output section: in linked mode a fixed reference link
/// derived from the folder and package names alone, in inline mode the
/// package's full rendered content, in either case under a heading naming
/// the package.
pub open spec fn section_of(pkg: PackageView, texts: TextsView, folder: Option<Seq<char>>) -> Seq<
    char,
> {
    match folder {
        Some(f) => section_spec(pkg.name, linked_reference_spec(pkg.name, f)),
        None => section_spec(
            pkg.name,
            render_spec(texts.main, sub_pairs(pkg.content.subs, texts.subs)),
        ),
    }
}

/// Formats one package's output section. With a link folder name the section
/// holds only a fixed reference link derived from the folder and package
/// names; without one it holds the package's full rendered content, built
/// from the texts supplied for its fragments.
pub fn format_package_section(
    package: &PackageContentInfo,
    link_folder_name: Option<&str>,
    texts: &PackageTexts,
) -> (r: String)
    requires
        link_folder_name is None ==> texts.sub_texts@.len() == package.content.sub_files@.len(),
    ensures
        r@ == section_of(package.deep_view(), texts.deep_view(), link_folder_name.deep_view()),
{
    let content: String = match link_folder_name {
        Some(folder) => {
            let mut link = String::new();
            link.append("[");
            link.append(package.name.as_str());
            link.append(" usage rules](./");
            link.append(folder);
            link.append("/");
            link.append(package.name.as_str());
            link.append("/");
            link.append(package.name.as_str());
            link.append(".md)");
            link
        },
        None => package.get_aggregated_content(&texts.main_text, &texts.sub_texts),
    };
    let mut r = String::new();
    r.append("## ");
    r.append(package.name.as_str());
    r.append(" usage\n");
    r.append(content.as_str());
    r
}

/// The start marker delimiting the generated section.
pub open spec fn start_marker() -> Seq<char> {
    "<!-- cargo-usage-rules-start -->"@
}

/// The end marker delimiting the generated section.
pub open spec fn end_marker() -> Seq<char> {
    "<!-- cargo-usage-rules-end -->"@
}

/// What preamble extraction yields on a prior output document: with both
/// markers present in order, everything strictly before the first start
/// marker and strictly after the first end marker, each half trimmed, joined
/// and trimmed again; otherwise (a marker missing, or the markers reversed)
/// the whole document, trimmed.
pub open spec fn extract_preamble_spec(content: Seq<char>) -> Seq<char> {
    let sm = text::first_match(content, start_marker());
    let em = text::first_match(content, end_marker());
    if sm is Some && em is Some && sm->0 <= em->0 {
        text::trim_spec(
            text::trim_spec(content.subrange(0, sm->0)) + text::trim_spec(
                content.subrange(em->0 + end_marker().len(), content.len() as int),
            ),
        )
    } else {
        text::trim_spec(content)
    }
}

/// Recovers the user-authored preamble from the content of an existing
/// output document, `None` standing for a document that does not exist (the
/// preamble is then empty). The marker-delimited generated section is
/// removed when both markers are found in order; otherwise the whole content
/// is kept, favouring preservation over cleanliness.
pub fn extract_agents_md_preamble(existing: Option<&str>) -> (r: String)
    ensures
        existing matches Some(c) ==> r@ == extract_preamble_spec(c@),
        existing is None ==> r@ == Seq::<char>::empty(),
{
    let content = match existing {
        Some(c) => c,
        None => {
            return String::new();
        },
    };
    let sm = text::find(content, "<!-- cargo-usage-rules-start -->");
    let em = text::find(content, "<!-- cargo-usage-rules-end -->");
    proof {
        text::lemma_first_match(content@, start_marker());
        text::lemma_first_match(content@, end_marker());
    }
    if let (Some(s), Some(e)) = (sm, em) {
        if s <= e {
            let n = content.unicode_len();
            let em_str = "<!-- cargo-usage-rules-end -->";
            let em_len = em_str.unicode_len();
            let before = content.substring_char(0, s);
            let after = content.substring_char(e + em_len, n);
            let mut joined = text::trim(before);
            let trimmed_after = text::trim(after);
            joined.append(trimmed_after.as_str());
            return text::trim(joined.as_str());
        }
    }
    text::trim(content)
}

} // verus!
