//! The shape of what the per-dependency file scan produces: a package's
//! usage-rules files, recorded as plain path strings, and the rule that turns
//! a sub-file's relative path into the name it is presented under.

use vstd::prelude::*;

verus! {

/// The usage-rules files found for one package: an optional main file at the
/// package root, and any sub-files, each carrying the name it is presented
/// under together with its location on disk.
#[derive(Debug, Clone)]
pub struct UsageRules {
    pub package_name: String,
    pub package_version: String,
    pub main_file: Option<String>,
    pub sub_files: Vec<UsageRuleSubFile>,
}

/// One sub-file: the name derived from its path relative to the sub-file
/// directory, and its full path on disk.
#[derive(Debug, Clone)]
pub struct UsageRuleSubFile {
    pub relative_path_name: String,
    pub full_path: String,
}

/// The mathematical view of a sub-file: its presented name and its path.
pub struct SubFileView {
    pub name: Seq<char>,
    pub path: Seq<char>,
}

impl View for UsageRuleSubFile {
    type V = SubFileView;

    open spec fn view(&self) -> SubFileView {
        SubFileView { name: self.relative_path_name@, path: self.full_path@ }
    }
}

impl DeepView for UsageRuleSubFile {
    type V = SubFileView;

    open spec fn deep_view(&self) -> SubFileView {
        self@
    }
}

/// The mathematical view of one package's scan result.
pub struct RuleView {
    pub name: Seq<char>,
    pub version: Seq<char>,
    pub main_file: Option<Seq<char>>,
    pub subs: Seq<SubFileView>,
}

impl View for UsageRules {
    type V = RuleView;

    open spec fn view(&self) -> RuleView {
        RuleView {
            name: self.package_name@,
            version: self.package_version@,
            main_file: self.main_file.deep_view(),
            subs: self.sub_files.deep_view(),
        }
    }
}

impl DeepView for UsageRules {
    type V = RuleView;

    open spec fn deep_view(&self) -> RuleView {
        self@
    }
}

/// `s` ends with the characters `.md`.
pub open spec fn has_md_suffix(s: Seq<char>) -> bool {
    s.len() >= 3 && s[s.len() - 3] == '.' && s[s.len() - 2] == 'm' && s[s.len() - 1] == 'd'
}

/// `s` with every trailing `.md` removed.
pub open spec fn strip_md_suffix(s: Seq<char>) -> Seq<char>
    decreases s.len(),
{
    if has_md_suffix(s) {
        strip_md_suffix(s.subrange(0, s.len() - 3))
    } else {
        s
    }
}

/// The name a sub-file is presented under: its path relative to the sub-file
/// directory with the `.md` extension stripped (path separators kept as
/// they are).
pub fn sub_fragment_name(relative_path: &str) -> (r: String)
    ensures
        r@ == strip_md_suffix(relative_path@),
{
    let n = relative_path.unicode_len();
    proof {
        assert(relative_path@.subrange(0, n as int) =~= relative_path@);
    }
    let mut e: usize = n;
    while e >= 3 && relative_path.get_char(e - 3) == '.' && relative_path.get_char(e - 2) == 'm'
        && relative_path.get_char(e - 1) == 'd'
        invariant
            n == relative_path@.len(),
            e <= n,
            strip_md_suffix(relative_path@) == strip_md_suffix(
                relative_path@.subrange(0, e as int),
            ),
        decreases e,
    {
        proof {
            let cur = relative_path@.subrange(0, e as int);
            assert(has_md_suffix(cur));
            assert(cur.subrange(0, cur.len() - 3) =~= relative_path@.subrange(0, e - 3));
        }
        e = e - 3;
    }
    proof {
        let cur = relative_path@.subrange(0, e as int);
        assert(!has_md_suffix(cur));
    }
    let piece = relative_path.substring_char(0, e);
    String::from_str(piece)
}

} // verus!
