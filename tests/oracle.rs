use dsc::html::{extract_attr_value, extract_html_title, extract_meta_content};
use dsc::models::AboutInfo;
use dsc::version::{combine_version_info, parse_generator_content};

#[test]
fn generator_with_version_and_commit() {
    let (v, c) = parse_generator_content("Discourse 3.2.0.beta4 - https://github.com/discourse/discourse version 1a2b3c4d");
    assert_eq!(v, Some("3.2.0.beta4".to_string()));
    assert_eq!(c, Some("1a2b3c4d".to_string()));
}

#[test]
fn generator_without_prefix_or_commit() {
    assert_eq!(parse_generator_content("WordPress 6.1"), (None, None));
    assert_eq!(parse_generator_content("Discourse 3.1.0"), (Some("3.1.0".to_string()), None));
    assert_eq!(parse_generator_content("Discourse  - x"), (None, None));
    assert_eq!(parse_generator_content("x version   "), (None, None));
}

#[test]
fn version_info_prefers_about_page() {
    let about = AboutInfo { version: None, installed_version: Some("3.1.2".to_string()) };
    let info = combine_version_info(Some(about), Some("Discourse 3.0.0 - x version abc")).unwrap();
    assert_eq!(info.version, Some("3.1.2".to_string()));
    assert_eq!(info.commit, Some("abc".to_string()));
    let info = combine_version_info(None, Some("Discourse 3.0.0")).unwrap();
    assert_eq!(info.version, Some("3.0.0".to_string()));
    assert!(combine_version_info(None, None).is_none());
    let empty = AboutInfo { version: None, installed_version: None };
    assert!(combine_version_info(Some(empty), Some("nothing here")).is_none());
}

#[test]
fn html_title_any_case() {
    assert_eq!(
        extract_html_title("<html><HEAD><Title>  My Forum </TITLE></head>"),
        Some("My Forum".to_string())
    );
    assert_eq!(extract_html_title("<title>   </title>"), None);
    assert_eq!(extract_html_title("<title>never closed"), None);
    assert_eq!(extract_html_title("no title"), None);
}

#[test]
fn attribute_values() {
    assert_eq!(
        extract_attr_value("<meta NAME=\"generator\" Content=\"Discourse 3\"", "content"),
        Some("Discourse 3".to_string())
    );
    assert_eq!(extract_attr_value("<meta content='a b'", "content"), Some("a b".to_string()));
    assert_eq!(extract_attr_value("<meta content=x", "content"), None);
    assert_eq!(extract_attr_value("<meta content=\"\"", "content"), None);
    assert_eq!(extract_attr_value("<meta content=\"open", "content"), Some("open".to_string()));
}

#[test]
fn meta_content_by_name() {
    let html = "<head><meta charset=\"utf-8\"><meta name=\"description\" content=\"d\"><META NAME='Generator' CONTENT=\"Discourse 3.2.0 - x version abc\"></head>";
    assert_eq!(
        extract_meta_content(html, "generator"),
        Some("Discourse 3.2.0 - x version abc".to_string())
    );
    assert_eq!(extract_meta_content(html, "description"), Some("d".to_string()));
    assert_eq!(extract_meta_content(html, "author"), None);
    assert_eq!(extract_meta_content("<meta name=\"generator\" content=\"x\"", "generator"), None);
}
