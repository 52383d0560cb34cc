use dsc::groups::{decimal_string, group_payload, push_opt};
use dsc::models::GroupDetail;

fn group() -> GroupDetail {
    GroupDetail {
        id: 41,
        name: "staff-helpers".to_string(),
        full_name: Some("Staff Helpers".to_string()),
        title: None,
        grant_trust_level: Some(2),
        visibility_level: Some(0),
        mentionable_level: None,
        messageable_level: Some(99),
        default_notification_level: None,
        members_visibility_level: None,
        primary_group: Some(false),
        public_admission: Some(true),
        public_exit: None,
        allow_membership_requests: None,
        automatic_membership_email_domains: Some("example.com".to_string()),
        automatic_membership_retroactive: None,
        membership_request_template: None,
        flair_icon: None,
        flair_upload_id: Some(18446744073709551615),
        flair_color: None,
        flair_background_color: None,
        bio_raw: Some("Helpers".to_string()),
    }
}

#[test]
fn decimal_numbers() {
    assert_eq!(decimal_string(0), "0");
    assert_eq!(decimal_string(7), "7");
    assert_eq!(decimal_string(1234567890), "1234567890");
    assert_eq!(decimal_string(u64::MAX), u64::MAX.to_string());
}

#[test]
fn group_form_lists_present_settings_in_order() {
    let form = group_payload(&group());
    let pairs: Vec<(&str, &str)> = form.iter().map(|(k, v)| (k.as_str(), v.as_str())).collect();
    assert_eq!(
        pairs,
        vec![
            ("group[name]", "staff-helpers"),
            ("group[full_name]", "Staff Helpers"),
            ("group[grant_trust_level]", "2"),
            ("group[visibility_level]", "0"),
            ("group[messageable_level]", "99"),
            ("group[primary_group]", "false"),
            ("group[public_admission]", "true"),
            ("group[automatic_membership_email_domains]", "example.com"),
            ("group[flair_upload_id]", "18446744073709551615"),
            ("group[bio_raw]", "Helpers"),
        ]
    );
}

#[test]
fn push_opt_skips_absent() {
    let mut p = Vec::new();
    push_opt(&mut p, "a", None);
    push_opt(&mut p, "b", Some("1"));
    assert_eq!(p, vec![("b".to_string(), "1".to_string())]);
}
