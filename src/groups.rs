//! The form that creates a group with the settings of another.

use vstd::prelude::*;
use crate::models::GroupDetail;
use crate::report::opt_view;
use crate::text::string_of;

verus! {

/// The decimal digit for `d`.
pub open spec fn digit_char(d: nat) -> char {
    if d == 0 {
        '0'
    } else if d == 1 {
        '1'
    } else if d == 2 {
        '2'
    } else if d == 3 {
        '3'
    } else if d == 4 {
        '4'
    } else if d == 5 {
        '5'
    } else if d == 6 {
        '6'
    } else if d == 7 {
        '7'
    } else if d == 8 {
        '8'
    } else {
        '9'
    }
}

/// `n` written in decimal, without leading zeros.
pub open spec fn decimal(n: nat) -> Seq<char>
    decreases n,
{
    if n < 10 {
        seq![digit_char(n)]
    } else {
        decimal(n / 10).push(digit_char(n % 10))
    }
}

fn digit_of(d: u64) -> (r: char)
    requires
        d < 10,
    ensures
        r == digit_char(d as nat),
{
    if d == 0 {
        '0'
    } else if d == 1 {
        '1'
    } else if d == 2 {
        '2'
    } else if d == 3 {
        '3'
    } else if d == 4 {
        '4'
    } else if d == 5 {
        '5'
    } else if d == 6 {
        '6'
    } else if d == 7 {
        '7'
    } else if d == 8 {
        '8'
    } else {
        '9'
    }
}

fn decimal_chars(n: u64) -> (r: Vec<char>)
    ensures
        r@ == decimal(n as nat),
    decreases n,
{
    if n < 10 {
        let mut v: Vec<char> = Vec::new();
        v.push(digit_of(n));
        assert(v@ =~= seq![digit_char(n as nat)]);
        v
    } else {
        let mut v = decimal_chars(n / 10);
        v.push(digit_of(n % 10));
        v
    }
}

/// `n` written in decimal, as `u64::to_string` writes it.
pub fn decimal_string(n: u64) -> (r: String)
    ensures
        r@ == decimal(n as nat),
{
    string_of(&decimal_chars(n))
}

/// A flag written as `true` or `false`.
pub open spec fn bool_text(b: bool) -> Seq<char> {
    if b {
        "true"@
    } else {
        "false"@
    }
}

/// The form field `key` where the setting has a value, and nothing where it
/// has none.
pub open spec fn field(key: Seq<char>, value: Option<Seq<char>>) -> Seq<(Seq<char>, Seq<char>)> {
    match value {
        Some(v) => seq![(key, v)],
        None => Seq::empty(),
    }
}

/// A number setting as text.
pub open spec fn num(o: Option<u64>) -> Option<Seq<char>> {
    match o {
        Some(n) => Some(decimal(n as nat)),
        None => None,
    }
}

/// A flag setting as text.
pub open spec fn flag(o: Option<bool>) -> Option<Seq<char>> {
    match o {
        Some(b) => Some(bool_text(b)),
        None => None,
    }
}

/// The form that creates a copy of `g`: its name, then each setting that has
/// a value, in a fixed order.
pub open spec fn group_form(g: GroupDetail) -> Seq<(Seq<char>, Seq<char>)> {
    seq![("group[name]"@, g.name@)]
        + field("group[full_name]"@, opt_view(g.full_name))
        + field("group[title]"@, opt_view(g.title))
        + field("group[grant_trust_level]"@, num(g.grant_trust_level))
        + field("group[visibility_level]"@, num(g.visibility_level))
        + field("group[mentionable_level]"@, num(g.mentionable_level))
        + field("group[messageable_level]"@, num(g.messageable_level))
        + field("group[default_notification_level]"@, num(g.default_notification_level))
        + field("group[members_visibility_level]"@, num(g.members_visibility_level))
        + field("group[primary_group]"@, flag(g.primary_group))
        + field("group[public_admission]"@, flag(g.public_admission))
        + field("group[public_exit]"@, flag(g.public_exit))
        + field("group[allow_membership_requests]"@, flag(g.allow_membership_requests))
        + field(
            "group[automatic_membership_email_domains]"@,
            opt_view(g.automatic_membership_email_domains),
        )
        + field(
            "group[automatic_membership_retroactive]"@,
            flag(g.automatic_membership_retroactive),
        )
        + field("group[membership_request_template]"@, opt_view(g.membership_request_template))
        + field("group[flair_icon]"@, opt_view(g.flair_icon))
        + field("group[flair_upload_id]"@, num(g.flair_upload_id))
        + field("group[flair_color]"@, opt_view(g.flair_color))
        + field("group[flair_background_color]"@, opt_view(g.flair_background_color))
        + field("group[bio_raw]"@, opt_view(g.bio_raw))
}

/// The form as plain values.
pub open spec fn form_view(p: Seq<(String, String)>) -> Seq<(Seq<char>, Seq<char>)> {
    p.map_values(|kv: (String, String)| (kv.0@, kv.1@))
}

/// Adds the field `key` where `value` is given.
pub fn push_opt(payload: &mut Vec<(String, String)>, key: &str, value: Option<&str>)
    ensures
        form_view(final(payload)@) == form_view(old(payload)@) + field(
            key@,
            match value {
                Some(v) => Some(v@),
                None => None,
            },
        ),
{
    let ghost before = payload@;
    match value {
        Some(v) => {
            payload.push((String::from_str(key), String::from_str(v)));
            assert(form_view(payload@) =~= form_view(before) + seq![(key@, v@)]);
        },
        None => {
            assert(form_view(payload@) =~= form_view(before) + Seq::empty());
        },
    }
}

fn push_num(payload: &mut Vec<(String, String)>, key: &str, value: Option<u64>)
    ensures
        form_view(final(payload)@) == form_view(old(payload)@) + field(key@, num(value)),
{
    match value {
        Some(n) => {
            let s = decimal_string(n);
            push_opt(payload, key, Some(s.as_str()));
        },
        None => push_opt(payload, key, None),
    }
}

fn push_flag(payload: &mut Vec<(String, String)>, key: &str, value: Option<bool>)
    ensures
        form_view(final(payload)@) == form_view(old(payload)@) + field(key@, flag(value)),
{
    match value {
        Some(true) => push_opt(payload, key, Some("true")),
        Some(false) => push_opt(payload, key, Some("false")),
        None => push_opt(payload, key, None),
    }
}

fn push_text(payload: &mut Vec<(String, String)>, key: &str, value: &Option<String>)
    ensures
        form_view(final(payload)@) == form_view(old(payload)@) + field(key@, opt_view(*value)),
{
    match value {
        Some(v) => push_opt(payload, key, Some(v.as_str())),
        None => push_opt(payload, key, None),
    }
}

/// The form that creates a copy of `group` on a forum.
pub fn group_payload(group: &GroupDetail) -> (r: Vec<(String, String)>)
    ensures
        form_view(r@) == group_form(*group),
{
    let mut p: Vec<(String, String)> = Vec::new();
    push_opt(&mut p, "group[name]", Some(group.name.as_str()));
    push_text(&mut p, "group[full_name]", &group.full_name);
    push_text(&mut p, "group[title]", &group.title);
    push_num(&mut p, "group[grant_trust_level]", group.grant_trust_level);
    push_num(&mut p, "group[visibility_level]", group.visibility_level);
    push_num(&mut p, "group[mentionable_level]", group.mentionable_level);
    push_num(&mut p, "group[messageable_level]", group.messageable_level);
    push_num(&mut p, "group[default_notification_level]", group.default_notification_level);
    push_num(&mut p, "group[members_visibility_level]", group.members_visibility_level);
    push_flag(&mut p, "group[primary_group]", group.primary_group);
    push_flag(&mut p, "group[public_admission]", group.public_admission);
    push_flag(&mut p, "group[public_exit]", group.public_exit);
    push_flag(&mut p, "group[allow_membership_requests]", group.allow_membership_requests);
    push_text(
        &mut p,
        "group[automatic_membership_email_domains]",
        &group.automatic_membership_email_domains,
    );
    push_flag(
        &mut p,
        "group[automatic_membership_retroactive]",
        group.automatic_membership_retroactive,
    );
    push_text(&mut p, "group[membership_request_template]", &group.membership_request_template);
    push_text(&mut p, "group[flair_icon]", &group.flair_icon);
    push_num(&mut p, "group[flair_upload_id]", group.flair_upload_id);
    push_text(&mut p, "group[flair_color]", &group.flair_color);
    push_text(&mut p, "group[flair_background_color]", &group.flair_background_color);
    push_text(&mut p, "group[bio_raw]", &group.bio_raw);
    assert(form_view(p@) =~= group_form(*group));
    p
}

} // verus!
