//! The dependency-selection logic: out of the full package list reported for
//! a workspace, keep exactly the direct dependencies of the root package.
//! Invoking the package-metadata tool and parsing its output happen outside
//! the library; this module works on the already-parsed plain values.

use crate::text;
use vstd::prelude::*;

verus! {

/// One resolved dependency: its name, version, and the directory its
/// manifest lives in.
#[derive(Debug, Clone)]
pub struct Dependency {
    pub name: String,
    pub version: String,
    pub path: String,
}

/// The mathematical view of a dependency.
pub struct DependencyView {
    pub name: Seq<char>,
    pub version: Seq<char>,
    pub path: Seq<char>,
}

impl View for Dependency {
    type V = DependencyView;

    open spec fn view(&self) -> DependencyView {
        DependencyView { name: self.name@, version: self.version@, path: self.path@ }
    }
}

impl DeepView for Dependency {
    type V = DependencyView;

    open spec fn deep_view(&self) -> DependencyView {
        self@
    }
}

/// One package as reported by the metadata tool: identity, the directory its
/// manifest lives in, and the names of its direct dependencies.
#[derive(Debug, Clone)]
pub struct PackageMeta {
    pub name: String,
    pub version: String,
    pub path: String,
    pub dependency_names: Vec<String>,
}

/// The mathematical view of a reported package.
pub struct PackageMetaView {
    pub name: Seq<char>,
    pub version: Seq<char>,
    pub path: Seq<char>,
    pub dependency_names: Seq<Seq<char>>,
}

impl View for PackageMeta {
    type V = PackageMetaView;

    open spec fn view(&self) -> PackageMetaView {
        PackageMetaView {
            name: self.name@,
            version: self.version@,
            path: self.path@,
            dependency_names: self.dependency_names.deep_view(),
        }
    }
}

impl DeepView for PackageMeta {
    type V = PackageMetaView;

    open spec fn deep_view(&self) -> PackageMetaView {
        self@
    }
}

/// The index of the first package called `name` at or after `from`, if any.
pub open spec fn first_named_from(pkgs: Seq<PackageMetaView>, name: Seq<char>, from: int) -> Option<
    int,
>
    decreases pkgs.len() - from,
{
    if from < 0 || from >= pkgs.len() {
        None
    } else if pkgs[from].name == name {
        Some(from)
    } else {
        first_named_from(pkgs, name, from + 1)
    }
}

/// The index of the first package called `name`, if any.
pub open spec fn first_named(pkgs: Seq<PackageMetaView>, name: Seq<char>) -> Option<int> {
    first_named_from(pkgs, name, 0)
}

/// The packages whose name occurs in `wanted`, in their input order, each
/// turned into a dependency.
pub open spec fn deps_select_spec(pkgs: Seq<PackageMetaView>, wanted: Seq<Seq<char>>) -> Seq<
    DependencyView,
>
    decreases pkgs.len(),
{
    if pkgs.len() == 0 {
        Seq::empty()
    } else {
        let prefix = deps_select_spec(pkgs.drop_last(), wanted);
        let p = pkgs.last();
        if wanted.contains(p.name) {
            prefix.push(DependencyView { name: p.name, version: p.version, path: p.path })
        } else {
            prefix
        }
    }
}

/// Whether some entry of `names` reads the same as `name`.
fn contains_name(names: &Vec<String>, name: &String) -> (r: bool)
    ensures
        r == names.deep_view().contains(name@),
{
    let n = names.len();
    let mut i: usize = 0;
    while i < n
        invariant
            n == names@.len(),
            0 <= i <= n,
            forall|j: int| 0 <= j < i ==> names@[j]@ != name@,
        decreases n - i,
    {
        if names[i].eq(name) {
            proof {
                assert(names.deep_view()[i as int] == name@);
            }
            return true;
        }
        i = i + 1;
    }
    proof {
        assert forall|j: int| 0 <= j < names.deep_view().len() implies names.deep_view()[j]
            != name@ by {
            assert(names.deep_view()[j] == names@[j]@);
        }
    }
    false
}

/// Keeps, out of all packages reported by the metadata tool, the direct
/// dependencies of the package called `root_name`: the first package of that
/// name supplies the wanted dependency names, and every package whose name is
/// among them is kept, in input order. Returns `None` when no package is
/// called `root_name`.
pub fn select_dependencies(packages: &Vec<PackageMeta>, root_name: &String) -> (r: Option<
    Vec<Dependency>,
>)
    ensures
        r is Some <==> first_named(packages.deep_view(), root_name@) is Some,
        r matches Some(deps) ==> first_named(packages.deep_view(), root_name@) matches Some(idx)
            && deps.deep_view() == deps_select_spec(
            packages.deep_view(),
            packages.deep_view()[idx].dependency_names,
        ),
{
    let ghost pkgs = packages.deep_view();
    proof {
        lemma_first_named_from(pkgs, root_name@, 0);
        assert(forall|j: int| 0 <= j < pkgs.len() ==> pkgs[j] == packages@[j].deep_view());
    }
    let n = packages.len();
    let mut root: usize = 0;
    let mut found = false;
    while root < n && !found
        invariant
            n == packages@.len(),
            pkgs == packages.deep_view(),
            pkgs.len() == n,
            forall|j: int| 0 <= j < pkgs.len() ==> pkgs[j] == packages@[j].deep_view(),
            0 <= root <= n,
            !found ==> forall|j: int| 0 <= j < root ==> pkgs[j].name != root_name@,
            found ==> root < n && pkgs[root as int].name == root_name@ && forall|j: int|
                0 <= j < root ==> pkgs[j].name != root_name@,
        decreases n - root + (if found {
            0int
        } else {
            1int
        }),
    {
        if packages[root].name.eq(root_name) {
            found = true;
        } else {
            root = root + 1;
        }
    }
    if !found {
        return None;
    }
    let wanted = &packages[root].dependency_names;
    let ghost wanted_view = pkgs[root as int].dependency_names;
    proof {
        assert(wanted.deep_view() == wanted_view);
    }
    let mut deps: Vec<Dependency> = Vec::new();
    let mut i: usize = 0;
    while i < n
        invariant
            n == packages@.len(),
            pkgs == packages.deep_view(),
            pkgs.len() == n,
            forall|j: int| 0 <= j < pkgs.len() ==> pkgs[j] == packages@[j].deep_view(),
            root < n,
            wanted == packages@[root as int].dependency_names,
            wanted.deep_view() == wanted_view,
            0 <= i <= n,
            deps.deep_view() == deps_select_spec(pkgs.take(i as int), wanted_view),
        decreases n - i,
    {
        proof {
            assert(pkgs.take(i + 1).drop_last() =~= pkgs.take(i as int));
            assert(pkgs.take(i + 1).last() == pkgs[i as int]);
        }
        let p = &packages[i];
        let ghost old_deps = deps.deep_view();
        if contains_name(wanted, &p.name) {
            deps.push(
                Dependency {
                    name: p.name.clone(),
                    version: p.version.clone(),
                    path: p.path.clone(),
                },
            );
            proof {
                assert(deps.deep_view() =~= old_deps.push(
                    DependencyView {
                        name: pkgs[i as int].name,
                        version: pkgs[i as int].version,
                        path: pkgs[i as int].path,
                    },
                ));
            }
        }
        i = i + 1;
    }
    proof {
        assert(pkgs.take(n as int) =~= pkgs);
    }
    Some(deps)
}

/// `first_named_from` returns the least index at or after `from` whose
/// package carries the name, and `None` exactly when there is none.
pub proof fn lemma_first_named_from(pkgs: Seq<PackageMetaView>, name: Seq<char>, from: int)
    requires
        0 <= from,
    ensures
        match first_named_from(pkgs, name, from) {
            Some(i) => {
                &&& from <= i < pkgs.len()
                &&& pkgs[i].name == name
                &&& forall|j: int| from <= j < i ==> pkgs[j].name != name
            },
            None => forall|j: int| from <= j < pkgs.len() ==> pkgs[j].name != name,
        },
    decreases pkgs.len() - from,
{
    if from < pkgs.len() && pkgs[from].name != name {
        lemma_first_named_from(pkgs, name, from + 1);
    }
}

/// `c` is ASCII whitespace.
pub open spec fn is_ascii_ws(c: char) -> bool {
    c == ' ' || c == '\t' || c == '\n' || c == '\u{c}' || c == '\r'
}

/// The length of the leading run of non-ASCII-whitespace characters.
pub open spec fn token_len(s: Seq<char>) -> int
    decreases s.len(),
{
    if s.len() == 0 || is_ascii_ws(s[0]) {
        0
    } else {
        1 + token_len(s.drop_first())
    }
}

/// The first whitespace-delimited token of `s`, after trimming: `None` when
/// `s` is wholly whitespace.
pub open spec fn first_token_spec(s: Seq<char>) -> Option<Seq<char>> {
    let t = text::trim_spec(s);
    if t.len() == 0 {
        None
    } else {
        Some(t.subrange(0, token_len(t)))
    }
}

/// If the first `k` characters are no whitespace and the one after them (if
/// any) is, the leading token is exactly `k` characters long.
proof fn lemma_token_len_at(s: Seq<char>, k: int)
    requires
        0 <= k <= s.len(),
        forall|j: int| 0 <= j < k ==> !is_ascii_ws(s[j]),
        k < s.len() ==> is_ascii_ws(s[k]),
    ensures
        token_len(s) == k,
    decreases k,
{
    if k == 0 {
    } else {
        let t = s.drop_first();
        assert(forall|j: int| 0 <= j < k - 1 ==> !is_ascii_ws(#[trigger] t[j]));
        lemma_token_len_at(t, k - 1);
    }
}

/// The first whitespace-delimited token of `s`, ignoring leading and
/// trailing whitespace; `None` when `s` holds none.
pub fn first_token(s: &str) -> (r: Option<String>)
    ensures
        r matches Some(t) ==> first_token_spec(s@) == Some(t@),
        r is None ==> first_token_spec(s@) is None,
{
    let trimmed = text::trim(s);
    let t = trimmed.as_str();
    let n = t.unicode_len();
    if n == 0 {
        return None;
    }
    let mut k: usize = 0;
    while k < n && !is_ascii_whitespace_char(t.get_char(k))
        invariant
            n == t@.len(),
            0 <= k <= n,
            forall|j: int| 0 <= j < k ==> !is_ascii_ws(t@[j]),
        decreases n - k,
    {
        k = k + 1;
    }
    proof {
        lemma_token_len_at(t@, k as int);
    }
    let piece = t.substring_char(0, k);
    Some(String::from_str(piece))
}

/// Decides whether `c` is ASCII whitespace.
fn is_ascii_whitespace_char(c: char) -> (r: bool)
    ensures
        r == is_ascii_ws(c),
{
    c == ' ' || c == '\t' || c == '\n' || c == '\u{c}' || c == '\r'
}

} // verus!
