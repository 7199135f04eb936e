//! The library-wide laws: order-preserving selection, determinism of
//! rendering, content exclusion in linked mode, preservation of
//! user-authored text across regeneration, and idempotence of the whole
//! pipeline. Each law is a proof function whose statement stands on the spec
//! functions the executable contracts use.

use crate::aggregator::{
    end_marker, extract_preamble_spec, heading_block, package_of, render_parts, render_spec,
    section_of, select_spec, start_marker, sub_pairs, PackageView, TextsView,
};
use crate::scanner::RuleView;
use crate::text;
use crate::writer::{compose_spec, generated_section_spec};
use vstd::prelude::*;

verus! {

/// Shape facts about the two marker strings: each starts with its only `<`
/// and holds no newline, and the two differ inside their common length.
proof fn marker_char_facts()
    ensures
        start_marker().len() == 32,
        end_marker().len() == 30,
        start_marker()[0] == '<',
        end_marker()[0] == '<',
        start_marker()[23] != end_marker()[23],
        forall|j: int| 1 <= j < 32 ==> start_marker()[j] != '<',
        forall|j: int| 1 <= j < 30 ==> end_marker()[j] != '<',
        no_newline(start_marker()),
        no_newline(end_marker()),
{
    reveal_strlit("<!-- cargo-usage-rules-start -->");
    reveal_strlit("<!-- cargo-usage-rules-end -->");
}

/// `pat` holds no newline character.
spec fn no_newline(pat: Seq<char>) -> bool {
    forall|k: int| 0 <= k < pat.len() ==> pat[k] != '\n'
}

/// Facts about the blank-line separator.
proof fn newline_sep_facts()
    ensures
        "\n\n"@.len() == 2,
        "\n\n"@[0] == '\n',
        "\n\n"@[1] == '\n',
        text::all_ws("\n\n"@),
        "\n"@.len() == 1,
        "\n"@[0] == '\n',
{
    reveal_strlit("\n\n");
    reveal_strlit("\n");
}

/// A pattern longer than the text cannot occur in it.
proof fn lemma_short_no_match(x: Seq<char>, pat: Seq<char>)
    requires
        pat.len() > x.len(),
    ensures
        !text::contains_seq(x, pat),
{
    assert forall|i: int| !text::is_match_at(x, pat, i) by {}
}

/// A newline-free pattern absent from both halves of a concatenation is
/// absent from the whole, provided a newline guards the joint.
proof fn lemma_no_match_concat(x: Seq<char>, y: Seq<char>, pat: Seq<char>)
    requires
        !text::contains_seq(x, pat),
        !text::contains_seq(y, pat),
        no_newline(pat),
        pat.len() > 0,
        (x.len() > 0 && x.last() == '\n') || (y.len() > 0 && y[0] == '\n'),
    ensures
        !text::contains_seq(x + y, pat),
{
    let f = x + y;
    assert forall|i: int| !text::is_match_at(f, pat, i) by {
        if text::is_match_at(f, pat, i) {
            if i + pat.len() <= x.len() {
                text::lemma_match_within_left(x, y, pat, i);
            } else if i >= x.len() {
                text::lemma_match_within_right(x, y, pat, i);
            } else {
                text::lemma_match_chars(f, pat, i);
                if x.len() > 0 && x.last() == '\n' {
                    let k = x.len() - 1 - i;
                    assert(f[x.len() - 1] == x.last());
                    assert(pat[k] == '\n');
                } else {
                    let k = x.len() - i;
                    assert(f[x.len() as int] == y[0]);
                    assert(pat[k] == '\n');
                }
            }
        }
    }
}

/// A newline-free pattern absent from every part is absent from the text
/// the parts join to under a blank-line separator.
proof fn lemma_join_no_match(parts: Seq<Seq<char>>, pat: Seq<char>)
    requires
        forall|i: int| 0 <= i < parts.len() ==> !text::contains_seq(parts[i], pat),
        no_newline(pat),
        pat.len() > 2,
    ensures
        !text::contains_seq(text::join_with(parts, "\n\n"@), pat),
    decreases parts.len(),
{
    newline_sep_facts();
    if parts.len() == 0 {
        lemma_short_no_match(text::join_with(parts, "\n\n"@), pat);
    } else if parts.len() == 1 {
        assert(text::join_with(parts, "\n\n"@) == parts[0]);
    } else {
        let dl = parts.drop_last();
        assert(forall|i: int| 0 <= i < dl.len() ==> !text::contains_seq(#[trigger] dl[i], pat));
        lemma_join_no_match(dl, pat);
        let jd = text::join_with(dl, "\n\n"@);
        lemma_short_no_match("\n\n"@, pat);
        lemma_no_match_concat(jd, "\n\n"@, pat);
        assert((jd + "\n\n"@).last() == '\n');
        lemma_no_match_concat(jd + "\n\n"@, parts.last(), pat);
    }
}

/// In a document of the form `a`, start marker, `b`, end marker, `c`, with
/// no start marker in `a` and no end marker in `a` or `b`, the first start
/// marker stands exactly where it was put, and so does the first end marker.
proof fn lemma_composed_marker_positions(a: Seq<char>, b: Seq<char>, c: Seq<char>)
    requires
        !text::contains_seq(a, start_marker()),
        !text::contains_seq(a, end_marker()),
        !text::contains_seq(b, end_marker()),
    ensures
        text::first_match(a + start_marker() + b + end_marker() + c, start_marker()) == Some(
            a.len() as int,
        ),
        text::first_match(a + start_marker() + b + end_marker() + c, end_marker()) == Some(
            (a.len() + start_marker().len() + b.len()) as int,
        ),
{
    marker_char_facts();
    let sm = start_marker();
    let em = end_marker();
    let f = a + sm + b + em + c;
    let s = a.len() as int;
    let e = (a.len() + sm.len() + b.len()) as int;
    assert(f =~= a + (sm + (b + (em + c))));
    assert(f =~= (a + sm) + (b + (em + c)));
    assert(f =~= ((a + sm) + b) + (em + c));
    text::lemma_match_at_append(a, sm);
    text::lemma_match_extend_right(a + sm, sm, s, b + (em + c));
    assert(text::is_match_at(f, sm, s));
    text::lemma_match_chars(f, sm, s);
    text::lemma_match_at_append((a + sm) + b, em);
    text::lemma_match_extend_right(((a + sm) + b) + em, em, e, c);
    assert(((a + sm) + b) + em + c =~= f);
    assert(text::is_match_at(f, em, e));
    text::lemma_match_chars(f, em, e);
    assert forall|i: int| 0 <= i < s implies !text::is_match_at(f, sm, i) by {
        if text::is_match_at(f, sm, i) {
            if i + sm.len() <= s {
                text::lemma_match_within_left(a, sm + (b + (em + c)), sm, i);
            } else {
                text::lemma_match_chars(f, sm, i);
                let k = s - i;
                assert(f[s] == sm[0]);
                assert(f[i + k] == sm[k]);
            }
        }
    }
    text::lemma_first_match_exact(f, sm, s);
    assert forall|i: int| 0 <= i < e implies !text::is_match_at(f, em, i) by {
        if text::is_match_at(f, em, i) {
            text::lemma_match_chars(f, em, i);
            assert(f[i] == em[0]);
            if i + em.len() <= s {
                text::lemma_match_within_left(a, sm + (b + (em + c)), em, i);
            } else if i < s {
                let k = s - i;
                assert(f[s] == sm[0]);
                assert(f[i + k] == em[k]);
            } else if i == s {
                assert(f[s + 23] == sm[23]);
                assert(f[i + 23] == em[23]);
            } else if i < s + sm.len() {
                let k = i - s;
                assert(f[s + k] == sm[k]);
            } else if i + em.len() <= e {
                text::lemma_match_within_right(a + sm, b + (em + c), em, i);
                text::lemma_match_within_left(b, em + c, em, i - (a.len() + sm.len()));
            } else {
                let k = e - i;
                assert(f[e] == em[0]);
                assert(f[i + k] == em[k]);
            }
        }
    }
    text::lemma_first_match_exact(f, em, e);
}

/// Extracting the preamble of a document of the form `a`, start marker,
/// `b`, end marker, `c` keeps exactly the outside halves: `a` and `c`, each
/// trimmed, joined and trimmed again.
pub proof fn lemma_extract_around_markers(a: Seq<char>, b: Seq<char>, c: Seq<char>)
    requires
        !text::contains_seq(a, start_marker()),
        !text::contains_seq(a, end_marker()),
        !text::contains_seq(b, end_marker()),
    ensures
        extract_preamble_spec(a + start_marker() + b + end_marker() + c) == text::trim_spec(
            text::trim_spec(a) + text::trim_spec(c),
        ),
{
    marker_char_facts();
    lemma_composed_marker_positions(a, b, c);
    let f = a + start_marker() + b + end_marker() + c;
    let s = a.len() as int;
    let e = (a.len() + start_marker().len() + b.len()) as int;
    assert(f.subrange(0, s) =~= a);
    assert(f.subrange(e + end_marker().len() as int, f.len() as int) =~= c);
}

/// Running the pipeline again over its own output changes nothing: the
/// preamble recovered from a composed document is the preamble it was
/// composed with, and composing again yields the identical document. Holds
/// whenever the preamble is trimmed and neither it, the header, nor any
/// package section contains a marker occurrence.
pub proof fn lemma_regeneration_idempotent(
    pre: Seq<char>,
    header: Seq<char>,
    sections: Seq<Seq<char>>,
)
    requires
        text::is_trimmed(pre),
        !text::contains_seq(pre, start_marker()),
        !text::contains_seq(pre, end_marker()),
        !text::contains_seq(header, end_marker()),
        forall|i: int|
            0 <= i < sections.len() ==> !text::contains_seq(
                #[trigger] sections[i],
                end_marker(),
            ),
    ensures
        extract_preamble_spec(compose_spec(Some(pre), generated_section_spec(header, sections)))
            == pre,
        compose_spec(
            Some(
                extract_preamble_spec(
                    compose_spec(Some(pre), generated_section_spec(header, sections)),
                ),
            ),
            generated_section_spec(header, sections),
        ) == compose_spec(Some(pre), generated_section_spec(header, sections)),
{
    marker_char_facts();
    newline_sep_facts();
    let sm = start_marker();
    let em = end_marker();
    let nn = "\n\n"@;
    let nl = "\n"@;
    let j = text::join_with(sections, nn);
    let gen = generated_section_spec(header, sections);
    lemma_join_no_match(sections, em);
    lemma_short_no_match(nn, em);
    lemma_short_no_match(nl, em);
    lemma_no_match_concat(nn, header, em);
    lemma_no_match_concat(nn + header, nl, em);
    assert(((nn + header) + nl).last() == '\n');
    lemma_no_match_concat((nn + header) + nl, j, em);
    lemma_no_match_concat(((nn + header) + nl) + j, nl, em);
    let b = (((nn + header) + nl) + j) + nl;
    let out = compose_spec(Some(pre), gen);
    text::lemma_trim_all_ws(nn);
    if pre.len() > 0 {
        lemma_short_no_match(nn, sm);
        lemma_no_match_concat(pre, nn, sm);
        lemma_no_match_concat(pre, nn, em);
        let a = pre + nn;
        assert(out =~= a + sm + b + em + nn);
        lemma_extract_around_markers(a, b, nn);
        assert(extract_preamble_spec(out) == text::trim_spec(
            text::trim_spec(a) + text::trim_spec(nn),
        ));
        text::lemma_trim_concat_ws_right(pre, nn);
        text::lemma_trim_of_trimmed(pre);
        assert(text::trim_spec(a) == pre);
        assert(text::trim_spec(a) + text::trim_spec(nn) =~= pre);
        assert(extract_preamble_spec(out) == pre);
    } else {
        let a = Seq::<char>::empty();
        assert(pre =~= a);
        assert(out =~= a + sm + b + em + nn);
        lemma_extract_around_markers(a, b, nn);
        assert(text::trim_spec(a) == a);
        assert(text::trim_spec(a) + text::trim_spec(nn) =~= a);
        assert(extract_preamble_spec(out) == pre);
    }
}

/// Preamble round trip: in a prior output whose marker pair is well formed,
/// everything a user wrote outside the markers — including text inserted by
/// hand before the start marker — survives regeneration, and the document
/// regenerated from it holds a single recognized generated section, so
/// extracting again yields the same preserved text with nothing duplicated.
/// The preserved text must not itself contain a marker occurrence.
pub proof fn lemma_preamble_round_trip(
    a: Seq<char>,
    b: Seq<char>,
    c: Seq<char>,
    header: Seq<char>,
    sections: Seq<Seq<char>>,
)
    requires
        !text::contains_seq(a, start_marker()),
        !text::contains_seq(a, end_marker()),
        !text::contains_seq(b, end_marker()),
        !text::contains_seq(
            text::trim_spec(text::trim_spec(a) + text::trim_spec(c)),
            start_marker(),
        ),
        !text::contains_seq(text::trim_spec(text::trim_spec(a) + text::trim_spec(c)), end_marker()),
        !text::contains_seq(header, end_marker()),
        forall|i: int|
            0 <= i < sections.len() ==> !text::contains_seq(
                #[trigger] sections[i],
                end_marker(),
            ),
    ensures
        extract_preamble_spec(a + start_marker() + b + end_marker() + c) == text::trim_spec(
            text::trim_spec(a) + text::trim_spec(c),
        ),
        extract_preamble_spec(
            compose_spec(
                Some(extract_preamble_spec(a + start_marker() + b + end_marker() + c)),
                generated_section_spec(header, sections),
            ),
        ) == extract_preamble_spec(a + start_marker() + b + end_marker() + c),
{
    lemma_extract_around_markers(a, b, c);
    text::lemma_trim_is_trimmed(text::trim_spec(a) + text::trim_spec(c));
    lemma_regeneration_idempotent(
        text::trim_spec(text::trim_spec(a) + text::trim_spec(c)),
        header,
        sections,
    );
}

/// A document holding no end marker is kept whole: its preamble is the
/// entire content, trimmed, and regeneration puts the fresh generated
/// section after it instead of discarding anything.
pub proof fn lemma_missing_end_marker_preserves_all(content: Seq<char>, generated: Seq<char>)
    requires
        !text::contains_seq(content, end_marker()),
    ensures
        extract_preamble_spec(content) == text::trim_spec(content),
        compose_spec(Some(extract_preamble_spec(content)), generated) == if text::trim_spec(
            content,
        ).len() > 0 {
            text::trim_spec(content) + "\n\n"@ + generated
        } else {
            generated
        },
{
    text::lemma_first_match(content, end_marker());
}

/// Rendering is deterministic concatenation: a package with main text `m`
/// and exactly two sub-fragments renders to `m`, a blank line, the first
/// fragment's heading block, a blank line, then the second's.
pub proof fn lemma_render_two_subs(
    m: Seq<char>,
    n1: Seq<char>,
    t1: Seq<char>,
    n2: Seq<char>,
    t2: Seq<char>,
)
    ensures
        render_spec(Some(m), seq![(n1, t1), (n2, t2)]) == m + "\n\n"@ + heading_block(n1, t1)
            + "\n\n"@ + heading_block(n2, t2),
{
    let nn = "\n\n"@;
    let b1 = heading_block(n1, t1);
    let b2 = heading_block(n2, t2);
    let parts = render_parts(Some(m), seq![(n1, t1), (n2, t2)]);
    assert(parts =~= seq![m, b1, b2]);
    assert(seq![m, b1, b2].drop_last() =~= seq![m, b1]);
    assert(seq![m, b1].drop_last() =~= seq![m]);
    assert(text::join_with(seq![m], nn) == m);
    assert(text::join_with(seq![m, b1], nn) == m + nn + b1);
    assert(text::join_with(seq![m, b1, b2], nn) == (m + nn + b1) + nn + b2);
}

/// A linked-mode section is built from the folder and package names alone:
/// whatever texts the package's fragments hold, the section is the same.
pub proof fn lemma_linked_section_content_free(
    pkg: PackageView,
    t1: TextsView,
    t2: TextsView,
    folder: Seq<char>,
)
    ensures
        section_of(pkg, t1, Some(folder)) == section_of(pkg, t2, Some(folder)),
{
}

/// A fragment text longer than a linked-mode section cannot occur in it; in
/// particular a linked section never embeds such a text.
pub proof fn lemma_linked_section_omits_long_text(
    pkg: PackageView,
    t: TextsView,
    folder: Seq<char>,
    body: Seq<char>,
)
    requires
        body.len() > section_of(pkg, t, Some(folder)).len(),
    ensures
        !text::contains_seq(section_of(pkg, t, Some(folder)), body),
{
    lemma_short_no_match(section_of(pkg, t, Some(folder)), body);
}

/// An inline-mode section carries every fragment text verbatim: the main
/// text (when present) and each sub-fragment's text occur in it.
pub proof fn lemma_inline_section_contains_texts(pkg: PackageView, t: TextsView)
    requires
        t.subs.len() == pkg.content.subs.len(),
    ensures
        t.main is Some ==> text::contains_seq(section_of(pkg, t, None), t.main->0),
        forall|i: int|
            0 <= i < t.subs.len() ==> text::contains_seq(section_of(pkg, t, None), t.subs[i]),
{
    let nn = "\n\n"@;
    let pairs = sub_pairs(pkg.content.subs, t.subs);
    let content = render_spec(t.main, pairs);
    let section = section_of(pkg, t, None);
    let h = ("## "@ + pkg.name) + " usage\n"@;
    text::lemma_match_at_append(h, content);
    assert(section == h + content);
    let parts = render_parts(t.main, pairs);
    if t.main is Some {
        assert(parts[0] == t.main->0);
        let i0 = text::lemma_join_contains_part(parts, nn, 0);
        text::lemma_match_trans(section, content, t.main->0, h.len() as int, i0);
        assert(text::contains_seq(section, t.main->0));
    }
    assert forall|i: int| 0 <= i < t.subs.len() implies text::contains_seq(
        section,
        t.subs[i],
    ) by {
        let idx = if t.main is Some {
            i + 1
        } else {
            i
        };
        let block = heading_block(pairs[i].0, pairs[i].1);
        assert(parts[idx] == block);
        let ib = text::lemma_join_contains_part(parts, nn, idx);
        let hb = ("## "@ + pairs[i].0) + "\n\n"@;
        text::lemma_match_at_append(hb, pairs[i].1);
        assert(block == hb + pairs[i].1);
        text::lemma_match_trans(content, block, pairs[i].1, ib, hb.len() as int);
        text::lemma_match_trans(
            section,
            content,
            pairs[i].1,
            h.len() as int,
            ib + hb.len(),
        );
        assert(pairs[i].1 == t.subs[i]);
    }
}

/// Selection preserves order: the selected packages are exactly the input
/// sequence restricted, in order, to packages whose name is not excluded.
pub proof fn lemma_select_order(rules: Seq<RuleView>, excluded: Seq<Seq<char>>)
    ensures
        select_spec(rules, excluded) == rules.filter(
            |r: RuleView| !excluded.contains(r.name),
        ).map_values(|r: RuleView| package_of(r)),
    decreases rules.len(),
{
    reveal(Seq::filter);
    let pred = |r: RuleView| !excluded.contains(r.name);
    let f = |r: RuleView| package_of(r);
    if rules.len() == 0 {
        assert(select_spec(rules, excluded) =~= rules.filter(pred).map_values(f));
    } else {
        lemma_select_order(rules.drop_last(), excluded);
        let dl = rules.drop_last();
        if pred(rules.last()) {
            assert(rules.filter(pred) == dl.filter(pred).push(rules.last()));
            assert(rules.filter(pred).map_values(f) =~= dl.filter(pred).map_values(f).push(
                package_of(rules.last()),
            ));
        } else {
            assert(rules.filter(pred) == dl.filter(pred));
        }
    }
}

} // verus!
