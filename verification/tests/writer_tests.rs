use cargo_usage_rules::aggregator::{
    extract_agents_md_preamble, PackageContent, PackageContentInfo, PackageTexts,
};
use cargo_usage_rules::writer::{create_main_agents_file, generate_header};

fn test_package(name: &str) -> PackageContentInfo {
    PackageContentInfo {
        name: name.to_string(),
        content: PackageContent {
            main_file: Some(format!("/deps/{}/usage-rules", name)),
            sub_files: vec![],
        },
    }
}

fn test_texts(main: &str) -> PackageTexts {
    PackageTexts {
        main_text: Some(main.to_string()),
        sub_texts: vec![],
    }
}

#[test]
fn test_generate_header_inline_mode() {
    let header = generate_header(false);
    assert!(header.contains("IMPORTANT"));
    assert!(header.contains("General Rust Usage"));
    assert!(!header.contains("separate files"));
}

#[test]
fn test_generate_header_folder_mode() {
    let header = generate_header(true);
    assert!(header.contains("IMPORTANT"));
    assert!(header.contains("separate files"));
}

#[test]
fn test_compose_inline_has_markers_and_content() {
    let packages = vec![test_package("test-pkg")];
    let texts = vec![test_texts("Test content")];

    let content = create_main_agents_file(&packages, &texts, None, None);

    assert!(content.contains("<!-- cargo-usage-rules-start -->"));
    assert!(content.contains("<!-- cargo-usage-rules-end -->"));
    assert!(content.contains("## test-pkg usage"));
    assert!(content.contains("Test content"));
}

#[test]
fn test_compose_preserves_preamble() {
    let packages = vec![test_package("test-pkg")];
    let texts = vec![test_texts("Content")];
    let preamble = "# My Custom Header\n\nCustom preamble text".to_string();

    let content = create_main_agents_file(&packages, &texts, Some(&preamble), None);

    assert!(content.starts_with("# My Custom Header"));
    assert!(content.contains("Custom preamble text"));
}

#[test]
fn test_compose_empty_preamble_uses_default() {
    let packages = vec![test_package("test-pkg")];
    let texts = vec![test_texts("Content")];
    let preamble = String::new();

    let content = create_main_agents_file(&packages, &texts, Some(&preamble), None);

    assert!(content.contains("IMPORTANT"));
    assert!(content.starts_with("<!-- cargo-usage-rules-start -->"));
}

#[test]
fn test_compose_linked_mode_links_only() {
    let packages = vec![test_package("test-pkg")];
    let texts = vec![PackageTexts {
        main_text: None,
        sub_texts: vec![],
    }];

    let content =
        create_main_agents_file(&packages, &texts, None, Some("usage_rules_folder"));

    assert!(content.contains("<!-- cargo-usage-rules-start -->"));
    assert!(content.contains("<!-- cargo-usage-rules-end -->"));
    assert!(content.contains("## test-pkg usage"));
    assert!(content.contains("./usage_rules_folder/test-pkg/test-pkg.md"));
    assert!(content.contains("separate files"));
}

#[test]
fn test_compose_no_packages_still_marked() {
    let content = create_main_agents_file(&vec![], &vec![], None, None);

    assert!(content.starts_with("<!-- cargo-usage-rules-start -->"));
    assert!(content.trim_end().ends_with("<!-- cargo-usage-rules-end -->"));
}

#[test]
fn test_pipeline_preamble_round_trip() {
    let packages = vec![test_package("lib-simple")];
    let texts = vec![test_texts("simple library with basic usage")];
    let preamble = "# My Custom Project\n\nThis is my custom header.".to_string();

    let out1 = create_main_agents_file(&packages, &texts, Some(&preamble), None);
    let recovered = extract_agents_md_preamble(Some(&out1));

    assert_eq!(recovered, preamble);
    assert_eq!(out1.matches("<!-- cargo-usage-rules-start -->").count(), 1);
}

#[test]
fn test_pipeline_idempotent() {
    let packages = vec![test_package("lib-simple"), test_package("lib-with-subs")];
    let texts = vec![
        test_texts("simple library with basic usage"),
        test_texts("demonstrates usage rules with sub-files"),
    ];
    let preamble = "# Project".to_string();

    let out1 = create_main_agents_file(&packages, &texts, Some(&preamble), None);
    let p2 = extract_agents_md_preamble(Some(&out1));
    let out2 = create_main_agents_file(&packages, &texts, Some(&p2), None);

    assert_eq!(out1, out2);
}

#[test]
fn test_pipeline_idempotent_without_preamble() {
    let packages = vec![test_package("lib-simple")];
    let texts = vec![test_texts("simple library with basic usage")];

    let out1 = create_main_agents_file(&packages, &texts, None, None);
    let p2 = extract_agents_md_preamble(Some(&out1));
    assert_eq!(p2, "");
    let out2 = create_main_agents_file(&packages, &texts, Some(&p2), None);

    assert_eq!(out1, out2);
}

#[test]
fn test_pipeline_malformed_marker_appends() {
    let prior = "Preamble\n\n<!-- cargo-usage-rules-start -->\nContent";
    let packages = vec![test_package("lib-simple")];
    let texts = vec![test_texts("fresh")];

    let recovered = extract_agents_md_preamble(Some(prior));
    let out = create_main_agents_file(&packages, &texts, Some(&recovered), None);

    assert!(out.starts_with("Preamble\n\n<!-- cargo-usage-rules-start -->\nContent"));
    assert!(out.contains("fresh"));
}
