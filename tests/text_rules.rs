use dsc::text::same_text;
use dsc::utils::{extract_title, location_from_url, normalize_baseurl, normalize_emoji_url, slugify};

#[test]
fn baseurl_loses_trailing_slashes() {
    assert_eq!(normalize_baseurl("https://forum.example.com///"), "https://forum.example.com");
    assert_eq!(normalize_baseurl("https://forum.example.com"), "https://forum.example.com");
    assert_eq!(normalize_baseurl("/"), "");
}

#[test]
fn slugs() {
    assert_eq!(slugify("Hello, World!"), "hello--world");
    assert_eq!(slugify("E2E Push 42"), "e2e-push-42");
    assert_eq!(slugify("---"), "untitled");
    assert_eq!(slugify(""), "untitled");
    assert_eq!(slugify("Café"), "caf");
}

#[test]
fn emoji_urls() {
    let base = "https://forum.example.com";
    assert_eq!(normalize_emoji_url(base, "https://cdn.example.com/a.png"), "https://cdn.example.com/a.png");
    assert_eq!(normalize_emoji_url("http://f.example", "//cdn.example.com/a.png"), "http://cdn.example.com/a.png");
    assert_eq!(normalize_emoji_url(base, "//cdn.example.com/a.png"), "https://cdn.example.com/a.png");
    assert_eq!(normalize_emoji_url(base, "/uploads/a.png"), "https://forum.example.com/uploads/a.png");
    assert_eq!(normalize_emoji_url(base, "uploads/a.png"), "https://forum.example.com/uploads/a.png");
}

#[test]
fn titles_from_markdown() {
    assert_eq!(extract_title("\n\n  # My Title  \nbody"), Some("My Title".to_string()));
    assert_eq!(extract_title("intro\n# Later"), None);
    assert_eq!(extract_title("## Sub"), None);
    assert_eq!(extract_title("   \n"), None);
    assert_eq!(extract_title("# Only"), Some("Only".to_string()));
}

#[test]
fn text_equality() {
    assert!(same_text("abc", "abc"));
    assert!(!same_text("abc", "abd"));
    assert!(!same_text("abc", "ab"));
}

#[test]
fn backup_locations() {
    use_location("  /var/discourse/shared/backups/a.tar.gz ", "local");
    use_location("https://s3.amazonaws.com/bucket/a.tar.gz", "s3.amazonaws.com");
    use_location("s3://bucket", "bucket");
    use_location("a///b", "");
    use_location("backup.tar.gz", "backup.tar.gz");
}

fn use_location(url: &str, expected: &str) {
    assert_eq!(location_from_url(url), expected, "{url:?}");
}
