use cargo_usage_rules::aggregator::{
    aggregate_content, extract_agents_md_preamble, format_package_section, PackageContent,
    PackageContentInfo, PackageTexts,
};
use cargo_usage_rules::scanner::{UsageRuleSubFile, UsageRules};

fn create_test_usage_rules(name: &str, version: &str, main_content: Option<&str>) -> UsageRules {
    let main_file = main_content.map(|_| format!("/deps/{}/usage-rules", name));
    UsageRules {
        package_name: name.to_string(),
        package_version: version.to_string(),
        main_file,
        sub_files: vec![],
    }
}

#[test]
fn test_aggregate_content_excludes_removed_packages() {
    let rules = vec![
        create_test_usage_rules("pkg1", "1.0.0", Some("Content 1")),
        create_test_usage_rules("pkg2", "2.0.0", Some("Content 2")),
        create_test_usage_rules("pkg3", "3.0.0", Some("Content 3")),
    ];

    let remove = vec!["pkg2".to_string()];
    let result = aggregate_content(rules, &remove);

    assert_eq!(result.len(), 2);
    assert_eq!(result[0].name, "pkg1");
    assert_eq!(result[1].name, "pkg3");
}

#[test]
fn test_aggregate_content_with_empty_remove_list() {
    let rules = vec![
        create_test_usage_rules("pkg1", "1.0.0", Some("Content 1")),
        create_test_usage_rules("pkg2", "2.0.0", Some("Content 2")),
    ];

    let result = aggregate_content(rules, &[]);

    assert_eq!(result.len(), 2);
}

#[test]
fn test_aggregate_content_handles_empty_input() {
    let result = aggregate_content(vec![], &[]);
    assert_eq!(result.len(), 0);
}

#[test]
fn test_aggregate_content_keeps_sub_files() {
    let mut rule = create_test_usage_rules("pkg1", "1.0.0", Some("Content 1"));
    rule.sub_files.push(UsageRuleSubFile {
        relative_path_name: "async".to_string(),
        full_path: "/deps/pkg1/usage_rules/async.md".to_string(),
    });

    let result = aggregate_content(vec![rule], &[]);

    assert_eq!(result.len(), 1);
    assert_eq!(result[0].content.sub_files.len(), 1);
    assert_eq!(result[0].content.sub_files[0].relative_path_name, "async");
}

#[test]
fn test_get_aggregated_content_main_only() {
    let package = PackageContentInfo {
        name: "test".to_string(),
        content: PackageContent {
            main_file: Some("/deps/test/usage-rules".to_string()),
            sub_files: vec![],
        },
    };

    let content =
        package.get_aggregated_content(&Some("Main content".to_string()), &vec![]);
    assert_eq!(content, "Main content");
}

#[test]
fn test_get_aggregated_content_with_sub_files() {
    let package = PackageContentInfo {
        name: "test".to_string(),
        content: PackageContent {
            main_file: Some("/deps/test/usage-rules".to_string()),
            sub_files: vec![UsageRuleSubFile {
                relative_path_name: "async".to_string(),
                full_path: "/deps/test/usage_rules/async.md".to_string(),
            }],
        },
    };

    let content = package.get_aggregated_content(
        &Some("Main content".to_string()),
        &vec!["Async content".to_string()],
    );
    assert!(content.contains("Main content"));
    assert!(content.contains("## async"));
    assert!(content.contains("Async content"));
}

#[test]
fn test_render_main_and_one_sub_exact() {
    let package = PackageContentInfo {
        name: "test".to_string(),
        content: PackageContent {
            main_file: Some("/deps/test/usage-rules".to_string()),
            sub_files: vec![UsageRuleSubFile {
                relative_path_name: "async".to_string(),
                full_path: "/deps/test/usage_rules/async.md".to_string(),
            }],
        },
    };

    let content = package.get_aggregated_content(
        &Some("Main".to_string()),
        &vec!["Async content".to_string()],
    );
    assert_eq!(content, "Main\n\n## async\n\nAsync content");
}

#[test]
fn test_render_two_subs_exact() {
    let package = PackageContentInfo {
        name: "test".to_string(),
        content: PackageContent {
            main_file: Some("/deps/test/usage-rules".to_string()),
            sub_files: vec![
                UsageRuleSubFile {
                    relative_path_name: "n1".to_string(),
                    full_path: "/deps/test/usage_rules/n1.md".to_string(),
                },
                UsageRuleSubFile {
                    relative_path_name: "n2".to_string(),
                    full_path: "/deps/test/usage_rules/n2.md".to_string(),
                },
            ],
        },
    };

    let content = package.get_aggregated_content(
        &Some("M".to_string()),
        &vec!["t1".to_string(), "t2".to_string()],
    );
    assert_eq!(content, "M\n\n## n1\n\nt1\n\n## n2\n\nt2");
}

#[test]
fn test_render_subs_without_main() {
    let package = PackageContentInfo {
        name: "test".to_string(),
        content: PackageContent {
            main_file: None,
            sub_files: vec![UsageRuleSubFile {
                relative_path_name: "guide".to_string(),
                full_path: "/deps/test/usage_rules/guide.md".to_string(),
            }],
        },
    };

    let content = package.get_aggregated_content(&None, &vec!["Guide text".to_string()]);
    assert_eq!(content, "## guide\n\nGuide text");
}

#[test]
fn test_extract_preamble_with_markers() {
    let existing_content = "# Custom Header\n\nMy preamble\n\n<!-- cargo-usage-rules-start \
                            -->\nOld generated content\n<!-- cargo-usage-rules-end -->\n\nFooter \
                            content";

    let preamble = extract_agents_md_preamble(Some(existing_content));

    assert!(preamble.contains("Custom Header"));
    assert!(preamble.contains("My preamble"));
    assert!(preamble.contains("Footer content"));
    assert!(!preamble.contains("cargo-usage-rules"));
    assert!(!preamble.contains("Old generated content"));
}

#[test]
fn test_extract_preamble_without_markers() {
    let existing_content = "# No markers here\n\nJust regular content";

    let preamble = extract_agents_md_preamble(Some(existing_content));

    assert_eq!(preamble, "# No markers here\n\nJust regular content");
}

#[test]
fn test_extract_preamble_with_only_start_marker() {
    let existing_content = "Preamble\n\n<!-- cargo-usage-rules-start -->\nContent";

    let preamble = extract_agents_md_preamble(Some(existing_content));

    assert!(preamble.contains("Preamble"));
    assert!(preamble.contains("Content"));
}

#[test]
fn test_extract_preamble_non_existent_file() {
    let preamble = extract_agents_md_preamble(None);
    assert_eq!(preamble, "");
}

#[test]
fn test_extract_preamble_reversed_markers_keeps_all() {
    let existing_content =
        "Top\n\n<!-- cargo-usage-rules-end -->\nmiddle\n<!-- cargo-usage-rules-start -->\nBottom";

    let preamble = extract_agents_md_preamble(Some(existing_content));

    assert!(preamble.contains("Top"));
    assert!(preamble.contains("middle"));
    assert!(preamble.contains("Bottom"));
}

#[test]
fn test_format_package_section_inline() {
    let package = PackageContentInfo {
        name: "test-pkg".to_string(),
        content: PackageContent {
            main_file: Some("/deps/test-pkg/usage-rules".to_string()),
            sub_files: vec![],
        },
    };
    let texts = PackageTexts {
        main_text: Some("Test content".to_string()),
        sub_texts: vec![],
    };

    let formatted = format_package_section(&package, None, &texts);

    assert!(formatted.contains("## test-pkg usage"));
    assert!(formatted.contains("Test content"));
}

#[test]
fn test_format_package_section_linked() {
    let package = PackageContentInfo {
        name: "test-pkg".to_string(),
        content: PackageContent {
            main_file: Some("/deps/test-pkg/usage-rules".to_string()),
            sub_files: vec![],
        },
    };
    let texts = PackageTexts {
        main_text: Some("Test content".to_string()),
        sub_texts: vec![],
    };

    let formatted = format_package_section(&package, Some("usage_rules"), &texts);

    assert!(formatted.contains("## test-pkg usage"));
    assert!(formatted.contains("[test-pkg usage rules]"));
    assert!(formatted.contains("./usage_rules/test-pkg/test-pkg.md"));
    assert!(!formatted.contains("Test content"));
}

#[test]
fn test_format_package_section_inline_exact() {
    let package = PackageContentInfo {
        name: "pkg1".to_string(),
        content: PackageContent {
            main_file: Some("/deps/pkg1/usage-rules".to_string()),
            sub_files: vec![],
        },
    };
    let texts = PackageTexts {
        main_text: Some("Content 1".to_string()),
        sub_texts: vec![],
    };

    let formatted = format_package_section(&package, None, &texts);

    assert_eq!(formatted, "## pkg1 usage\nContent 1");
}
