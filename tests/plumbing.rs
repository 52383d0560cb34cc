use dsc::completions::{
    inject_zsh_dynamic_discourse_completion, inject_zsh_sort_style, replace_update_name_completion,
};
use dsc::config::{add_discourses, Config, DiscourseConfig};
use dsc::template::render_template;
use dsc::utils::looks_like_csv;

#[test]
fn sort_style_goes_after_autoload() {
    let script = "#compdef dsc\n\nautoload -U is-at-least\n\n_dsc() {}\n".to_string();
    assert_eq!(
        inject_zsh_sort_style(script),
        "#compdef dsc\n\nautoload -U is-at-least\n\nzstyle ':completion:*:dsc:*' sort false\n\n_dsc() {}\n"
    );
}

#[test]
fn sort_style_prepended_or_kept() {
    assert_eq!(
        inject_zsh_sort_style("_dsc() {}".to_string()),
        "zstyle ':completion:*:dsc:*' sort false\n\n_dsc() {}"
    );
    let done = "zstyle ':completion:*:dsc:*' sort false\nx".to_string();
    assert_eq!(inject_zsh_sort_style(done.clone()), done);
}

#[test]
fn update_names_placeholder_replaced_once() {
    let script = "(list)\n_arguments ':name:_default'\n(update)\n_arguments \\\n':name:_default' \\\n':name:_default'\n";
    assert_eq!(
        replace_update_name_completion(script.to_string()),
        "(list)\n_arguments ':name:_default'\n(update)\n_arguments \\\n':name:_dsc_discourse_names' \\\n':name:_default'\n"
    );
    assert_eq!(replace_update_name_completion("no update".to_string()), "no update");
}

#[test]
fn dynamic_completion_added_once() {
    let script = "autoload -U is-at-least\n(update)\n_arguments ':name:_default'\n".to_string();
    let out = inject_zsh_dynamic_discourse_completion(script);
    assert!(out.starts_with("autoload -U is-at-least\n\n_dsc_discourse_names() {\n"));
    assert!(out.ends_with("(update)\n_arguments ':name:_dsc_discourse_names'\n"));
    assert_eq!(out.matches("_dsc_discourse_names() {").count(), 1);
    let again = inject_zsh_dynamic_discourse_completion(out.clone());
    assert_eq!(again, out);
    let bare = inject_zsh_dynamic_discourse_completion("x".to_string());
    assert!(bare.starts_with("_dsc_discourse_names() {\n"));
    assert!(bare.ends_with("}\nx"));
}

#[test]
fn csv_detection() {
    assert!(looks_like_csv("\n  \nName,URL,Tags\nforum,https://x\n"));
    assert!(!looks_like_csv("https://example.com\n"));
    assert!(!looks_like_csv("name url\n"));
    assert!(!looks_like_csv("https://a.example\nname,url\n"));
    assert!(!looks_like_csv(""));
}

#[test]
fn add_discourses_skips_known_and_repeated() {
    let mut config = Config {
        discourse: vec![DiscourseConfig { name: "a".to_string(), ..DiscourseConfig::default() }],
    };
    let added = add_discourses(&mut config, " a, b ,, c, b", true);
    assert_eq!(added, vec![1, 2]);
    let names: Vec<&str> = config.discourse.iter().map(|d| d.name.as_str()).collect();
    assert_eq!(names, vec!["a", "b", "c"]);
    let b = &config.discourse[1];
    assert_eq!(b.apikey, Some(String::new()));
    assert_eq!(b.tags, Some(Vec::new()));
    assert_eq!(b.changelog_topic_id, Some(0));
    assert_eq!(b.ssh_host, Some(String::new()));
    let added = add_discourses(&mut config, "d", false);
    assert_eq!(added, vec![3]);
    assert_eq!(config.discourse[3].apikey, None);
    assert_eq!(config.discourse[3].tags, None);
}

#[test]
fn templates_fill_placeholders() {
    assert_eq!(
        render_template("echo plugin install {url}", &[("url", "https://g/x.git"), ("name", "https://g/x.git")]),
        "echo plugin install https://g/x.git"
    );
    assert_eq!(render_template("{name}-{name}-{other}", &[("name", "n")]), "n-n-{other}");
    assert_eq!(render_template("{a}", &[("a", "{b}"), ("b", "c")]), "c");
    assert_eq!(render_template("plain", &[]), "plain");
}
