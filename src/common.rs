//! Helpers shared by the commands: picking an instance, checking its
//! credentials, reading a tag list.

use vstd::prelude::*;
use crate::config::{find_discourse, first_named, none_named, Config, DiscourseConfig};
use crate::html::{lower_chars, lower_seq};
use crate::text::{chars_of, same_text, string_of, string_of_range, trim, trim_bounds};

verus! {

/// Why no instance could be picked.
#[derive(Clone, Copy, Debug, PartialEq, Eq, Structural)]
pub enum SelectError {
    /// No name was given.
    NameRequired,
    /// No instance has the given name.
    UnknownDiscourse,
}

/// The instance named `discourse_name`; a name is required.
pub fn select_discourse<'a>(config: &'a Config, discourse_name: Option<&str>) -> (r: Result<
    &'a DiscourseConfig,
    SelectError,
>)
    ensures
        match discourse_name {
            None => r == Err::<&DiscourseConfig, SelectError>(SelectError::NameRequired),
            Some(name) => match r {
                Ok(d) => exists|i: int|
                    first_named(config.discourse@, name@, i) && *d == config.discourse@[i],
                Err(e) => e == SelectError::UnknownDiscourse && none_named(
                    config.discourse@,
                    name@,
                ),
            },
        },
{
    match discourse_name {
        Some(name) => match find_discourse(config, name) {
            Some(d) => Ok(d),
            None => Err(SelectError::UnknownDiscourse),
        },
        None => Err(SelectError::NameRequired),
    }
}

/// The API key or user name of an instance is missing or blank.
#[derive(Clone, Copy, Debug, PartialEq, Eq, Structural)]
pub struct MissingCredentials;

/// Whether an optional setting is absent or blank.
pub open spec fn blank_setting(o: Option<String>) -> bool {
    match o {
        Some(s) => trim(s@).len() == 0,
        None => true,
    }
}

fn is_blank(o: &Option<String>) -> (r: bool)
    ensures
        r == blank_setting(*o),
{
    match o {
        Some(s) => {
            let v = chars_of(s.as_str());
            let (a, b) = trim_bounds(&v, 0, v.len());
            assert(v@.subrange(0, v@.len() as int) =~= v@);
            a == b
        },
        None => true,
    }
}

/// Checks that an instance has both an API key and an API user name.
pub fn ensure_api_credentials(discourse: &DiscourseConfig) -> (r: Result<(), MissingCredentials>)
    ensures
        r is Ok <==> !blank_setting(discourse.apikey) && !blank_setting(discourse.api_username),
{
    if is_blank(&discourse.apikey) || is_blank(&discourse.api_username) {
        Err(MissingCredentials)
    } else {
        Ok(())
    }
}

/// Whether `c` separates items of a list: a comma, or a semicolon where
/// `semicolons` holds.
pub open spec fn is_item_separator(c: char, semicolons: bool) -> bool {
    c == ',' || (semicolons && c == ';')
}

/// `s` cut at each item separator; `n` separators give `n + 1` pieces.
pub open spec fn split_items(s: Seq<char>, semicolons: bool) -> Seq<Seq<char>>
    decreases s.len(),
{
    if s.len() == 0 {
        seq![Seq::empty()]
    } else {
        let rest = split_items(s.drop_last(), semicolons);
        if is_item_separator(s.last(), semicolons) {
            rest.push(Seq::empty())
        } else {
            rest.update(rest.len() - 1, rest.last().push(s.last()))
        }
    }
}

/// The pieces trimmed, without those left empty.
pub open spec fn kept_items(pieces: Seq<Seq<char>>) -> Seq<Seq<char>>
    decreases pieces.len(),
{
    if pieces.len() == 0 {
        Seq::empty()
    } else {
        kept_items(pieces.drop_last()) + if trim(pieces.last()).len() > 0 {
            seq![trim(pieces.last())]
        } else {
            Seq::empty()
        }
    }
}

proof fn lemma_split_items_nonempty(s: Seq<char>, semicolons: bool)
    ensures
        split_items(s, semicolons).len() >= 1,
    decreases s.len(),
{
    if s.len() > 0 {
        lemma_split_items_nonempty(s.drop_last(), semicolons);
    }
}

/// The tags of a list separated by `;` or `,`, trimmed, blank ones left out.
pub fn parse_tags(raw: &str) -> (r: Vec<String>)
    ensures
        r@.map_values(|t: String| t@) == kept_items(split_items(raw@, true)),
{
    split_trimmed(raw, true)
}

/// The items of a list, trimmed, blank ones left out.
pub fn split_trimmed(raw: &str, semicolons: bool) -> (r: Vec<String>)
    ensures
        r@.map_values(|t: String| t@) == kept_items(split_items(raw@, semicolons)),
{
    let v = chars_of(raw);
    let mut out: Vec<String> = Vec::new();
    let mut start: usize = 0;
    let mut i: usize = 0;
    while i < v.len()
        invariant
            v@ == raw@,
            start <= i <= v@.len(),
            split_items(v@.subrange(0, i as int), semicolons).len() >= 1,
            split_items(v@.subrange(0, i as int), semicolons).last() == v@.subrange(start as int, i as int),
            out@.map_values(|t: String| t@) == kept_items(
                split_items(v@.subrange(0, i as int), semicolons).drop_last(),
            ),
        decreases v@.len() - i,
    {
        let ghost pre = v@.subrange(0, i as int);
        let ghost next = v@.subrange(0, i + 1);
        assert(next.drop_last() =~= pre);
        proof {
            lemma_split_items_nonempty(pre, semicolons);
        }
        let c = v[i];
        if c == ',' || (semicolons && c == ';') {
            let (a, b) = trim_bounds(&v, start, i);
            if a < b {
                let t = string_of_range(&v, a, b);
                let ghost before = out@;
                out.push(t);
                assert(out@.map_values(|t: String| t@) =~= before.map_values(|t: String| t@).push(
                    t@,
                ));
            }
            assert(split_items(next, semicolons).drop_last() =~= split_items(pre, semicolons));
            assert(out@.map_values(|t: String| t@) =~= kept_items(split_items(next, semicolons).drop_last()));
            start = i + 1;
            assert(v@.subrange(start as int, i + 1) =~= Seq::<char>::empty());
        } else {
            assert(split_items(next, semicolons).drop_last() =~= split_items(pre, semicolons).drop_last());
            assert(v@.subrange(start as int, i + 1) =~= v@.subrange(start as int, i as int).push(
                c,
            ));
        }
        i += 1;
    }
    assert(v@.subrange(0, v@.len() as int) =~= v@);
    let ghost all = split_items(v@, semicolons);
    let (a, b) = trim_bounds(&v, start, v.len());
    if a < b {
        let t = string_of_range(&v, a, b);
        let ghost before = out@;
        out.push(t);
        assert(out@.map_values(|t: String| t@) =~= before.map_values(|t: String| t@).push(t@));
    }
    assert(out@.map_values(|t: String| t@) =~= kept_items(all));
    out
}

/// Whether two texts are equal once ASCII capitals are put in lower case.
pub open spec fn same_ignoring_case(a: Seq<char>, b: Seq<char>) -> bool {
    lower_seq(a) == lower_seq(b)
}

fn eq_ignore_ascii_case(a: &str, b: &str) -> (r: bool)
    ensures
        r == same_ignoring_case(a@, b@),
{
    let la = string_of(&lower_chars(&chars_of(a)));
    let lb = string_of(&lower_chars(&chars_of(b)));
    same_text(la.as_str(), lb.as_str())
}

/// Whether `tag` equals one of `tags`, ignoring ASCII case.
pub open spec fn listed(tag: Seq<char>, tags: Seq<String>) -> bool {
    exists|j: int| 0 <= j < tags.len() && same_ignoring_case(tag, #[trigger] tags[j]@)
}

/// Whether an instance with the tags `tags` passes the tag filter `wanted`:
/// every instance passes an empty filter; an instance without tags passes no
/// other; otherwise the instance needs a tag equal to one of the filter's,
/// ignoring ASCII case.
pub open spec fn passes_tag_filter(wanted: Seq<String>, tags: Option<Seq<String>>) -> bool {
    wanted.len() == 0 || match tags {
        None => false,
        Some(t) => some_listed(wanted, t),
    }
}

/// Whether one of `wanted` equals one of `tags`, ignoring ASCII case.
pub open spec fn some_listed(wanted: Seq<String>, tags: Seq<String>) -> bool {
    exists|i: int| 0 <= i < wanted.len() && #[trigger] listed(wanted[i]@, tags)
}

/// Whether an instance with the tags `tags` passes the tag filter `filter`.
pub fn matches_tag_filter(filter: &Vec<String>, tags: &Option<Vec<String>>) -> (r: bool)
    ensures
        r == passes_tag_filter(
            filter@,
            match tags {
                Some(t) => Some(t@),
                None => None,
            },
        ),
{
    if filter.len() == 0 {
        return true;
    }
    let t = match tags {
        Some(t) => t,
        None => {
            return false;
        },
    };
    let mut i: usize = 0;
    while i < filter.len()
        invariant
            *tags == Some(*t),
            i <= filter@.len(),
            forall|a: int| 0 <= a < i ==> !#[trigger] listed(filter@[a]@, t@),
        decreases filter@.len() - i,
    {
        let mut j: usize = 0;
        while j < t.len()
            invariant
                *tags == Some(*t),
                i < filter@.len(),
                j <= t@.len(),
                forall|a: int| 0 <= a < i ==> !#[trigger] listed(filter@[a]@, t@),
                forall|b: int| 0 <= b < j ==> !same_ignoring_case(filter@[i as int]@, #[trigger] t@[b]@),
            decreases t@.len() - j,
        {
            if eq_ignore_ascii_case(filter[i].as_str(), t[j].as_str()) {
                assert(same_ignoring_case(filter@[i as int]@, t@[j as int]@));
                assert(listed(filter@[i as int]@, t@));
                assert(some_listed(filter@, t@));
                return true;
            }
            j += 1;
        }
        assert(!listed(filter@[i as int]@, t@));
        i += 1;
    }
    false
}

} // verus!
