use cargo_usage_rules::metadata::{first_token, select_dependencies, PackageMeta};
use cargo_usage_rules::scanner::sub_fragment_name;
use cargo_usage_rules::text::{find, trim};

#[test]
fn test_sub_fragment_name_strips_extension() {
    assert_eq!(sub_fragment_name("async.md"), "async");
}

#[test]
fn test_sub_fragment_name_keeps_nested_path() {
    assert_eq!(sub_fragment_name("patterns/builder.md"), "patterns/builder");
}

#[test]
fn test_sub_fragment_name_strips_repeated_extension() {
    assert_eq!(sub_fragment_name("notes.md.md"), "notes");
}

#[test]
fn test_sub_fragment_name_without_extension() {
    assert_eq!(sub_fragment_name("README"), "README");
}

fn meta(name: &str, version: &str, deps: &[&str]) -> PackageMeta {
    PackageMeta {
        name: name.to_string(),
        version: version.to_string(),
        path: format!("/registry/{}-{}", name, version),
        dependency_names: deps.iter().map(|d| d.to_string()).collect(),
    }
}

#[test]
fn test_select_dependencies_keeps_direct_deps() {
    let packages = vec![
        meta("main-crate", "0.1.0", &["pkg1", "pkg2"]),
        meta("pkg1", "1.0.0", &[]),
        meta("pkg2", "2.0.0", &["pkg3"]),
        meta("pkg3", "3.0.0", &[]),
    ];

    let deps = select_dependencies(&packages, &"main-crate".to_string()).unwrap();

    assert_eq!(deps.len(), 2);
    assert_eq!(deps[0].name, "pkg1");
    assert_eq!(deps[0].version, "1.0.0");
    assert_eq!(deps[1].name, "pkg2");
}

#[test]
fn test_select_dependencies_unknown_root() {
    let packages = vec![meta("pkg1", "1.0.0", &[])];

    let result = select_dependencies(&packages, &"absent".to_string());

    assert!(result.is_none());
}

#[test]
fn test_first_token_takes_leading_word() {
    assert_eq!(
        first_token("main-crate v0.1.0 (/work/main-crate)\n"),
        Some("main-crate".to_string())
    );
}

#[test]
fn test_first_token_of_blank_text() {
    assert_eq!(first_token("  \n\t "), None);
}

#[test]
fn test_trim_removes_surrounding_whitespace() {
    assert_eq!(trim("  \n hello world \t\n"), "hello world");
}

#[test]
fn test_trim_of_whitespace_only() {
    assert_eq!(trim(" \n\t "), "");
}

#[test]
fn test_find_first_occurrence() {
    assert_eq!(find("abcabc", "bc"), Some(1));
    assert_eq!(find("abcabc", "zz"), None);
    assert_eq!(find("abc", ""), Some(0));
}
