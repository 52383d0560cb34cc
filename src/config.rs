//! The configured forum instances.

use vstd::prelude::*;
use crate::common::{kept_items, split_items, split_trimmed};
use crate::text::same_text;

verus! {

/// Configuration for a single forum instance. A blank optional field reads
/// as absent.
#[derive(Clone, Debug, Default)]
pub struct DiscourseConfig {
    pub name: String,
    pub baseurl: String,
    pub fullname: Option<String>,
    pub apikey: Option<String>,
    pub api_username: Option<String>,
    pub changelog_path: Option<String>,
    pub tags: Option<Vec<String>>,
    pub changelog_topic_id: Option<u64>,
    pub ssh_host: Option<String>,
}

/// The configured instances, in configuration order.
#[derive(Clone, Debug, Default)]
pub struct Config {
    pub discourse: Vec<DiscourseConfig>,
}

/// The position of the first instance of `list` named `name`.
pub open spec fn first_named(list: Seq<DiscourseConfig>, name: Seq<char>, i: int) -> bool {
    &&& 0 <= i < list.len()
    &&& list[i].name@ == name
    &&& forall|k: int| 0 <= k < i ==> list[k].name@ != name
}

/// No instance of `list` is named `name`.
pub open spec fn none_named(list: Seq<DiscourseConfig>, name: Seq<char>) -> bool {
    forall|k: int| 0 <= k < list.len() ==> list[k].name@ != name
}

/// The position of the first instance named `name`.
pub fn find_discourse_index(config: &Config, name: &str) -> (r: Option<usize>)
    ensures
        match r {
            Some(i) => first_named(config.discourse@, name@, i as int),
            None => none_named(config.discourse@, name@),
        },
{
    let mut i: usize = 0;
    while i < config.discourse.len()
        invariant
            i <= config.discourse@.len(),
            forall|k: int| 0 <= k < i ==> config.discourse@[k].name@ != name@,
        decreases config.discourse@.len() - i,
    {
        if same_text(config.discourse[i].name.as_str(), name) {
            return Some(i);
        }
        i += 1;
    }
    None
}

/// The first instance named `name`.
pub fn find_discourse<'a>(config: &'a Config, name: &str) -> (r: Option<&'a DiscourseConfig>)
    ensures
        match r {
            Some(d) => exists|i: int|
                first_named(config.discourse@, name@, i) && *d == config.discourse@[i],
            None => none_named(config.discourse@, name@),
        },
{
    match find_discourse_index(config, name) {
        Some(i) => Some(&config.discourse[i]),
        None => None,
    }
}

/// The first instance named `name`, to be changed in place.
pub fn find_discourse_mut<'a>(config: &'a mut Config, name: &str) -> (r: Option<
    &'a mut DiscourseConfig,
>)
    ensures
        match r {
            Some(d) => exists|i: int|
                first_named(old(config).discourse@, name@, i) && *d == old(
                    config,
                ).discourse@[i] && final(config).discourse@ == old(config).discourse@.update(
                    i,
                    *final(d),
                ),
            None => none_named(old(config).discourse@, name@) && *final(config) == *old(config),
        },
{
    match find_discourse_index(config, name) {
        Some(i) => Some(&mut config.discourse[i]),
        None => None,
    }
}

/// The host that remote commands go to: the configured address, else the
/// instance's name.
pub fn ssh_target(discourse: &DiscourseConfig) -> (r: String)
    ensures
        r@ == match discourse.ssh_host {
            Some(h) => h@,
            None => discourse.name@,
        },
{
    match &discourse.ssh_host {
        Some(h) => h.clone(),
        None => discourse.name.clone(),
    }
}

/// Whether some instance of `list` is named `name`.
pub open spec fn named_in(list: Seq<DiscourseConfig>, name: Seq<char>) -> bool {
    exists|k: int| 0 <= k < list.len() && list[k].name@ == name
}

/// The names of `candidates` that get an entry, in order: each one not
/// already configured and not earlier among the candidates.
pub open spec fn names_to_add(existing: Seq<Seq<char>>, candidates: Seq<Seq<char>>) -> Seq<
    Seq<char>,
>
    decreases candidates.len(),
{
    if candidates.len() == 0 {
        Seq::empty()
    } else {
        let before = names_to_add(existing, candidates.drop_last());
        let n = candidates.last();
        if existing.contains(n) || before.contains(n) {
            before
        } else {
            before.push(n)
        }
    }
}

/// A new entry named `name`; with `placeholders`, every optional setting is
/// written out empty, ready to be filled in the file.
pub open spec fn new_entry(d: DiscourseConfig, name: Seq<char>, placeholders: bool) -> bool {
    &&& d.name@ == name
    &&& d.baseurl@ == Seq::<char>::empty()
    &&& d.fullname is None
    &&& if placeholders {
        &&& d.apikey is Some && d.apikey->0@ == Seq::<char>::empty()
        &&& d.api_username is Some && d.api_username->0@ == Seq::<char>::empty()
        &&& d.changelog_path is Some && d.changelog_path->0@ == Seq::<char>::empty()
        &&& d.tags is Some && d.tags->0@.len() == 0
        &&& d.changelog_topic_id == Some(0u64)
        &&& d.ssh_host is Some && d.ssh_host->0@ == Seq::<char>::empty()
    } else {
        &&& d.apikey is None
        &&& d.api_username is None
        &&& d.changelog_path is None
        &&& d.tags is None
        &&& d.changelog_topic_id is None
        &&& d.ssh_host is None
    }
}

fn make_entry(name: String, placeholders: bool) -> (r: DiscourseConfig)
    ensures
        new_entry(r, name@, placeholders),
{
    if placeholders {
        DiscourseConfig {
            name,
            baseurl: String::new(),
            fullname: None,
            apikey: Some(String::new()),
            api_username: Some(String::new()),
            changelog_path: Some(String::new()),
            tags: Some(Vec::new()),
            changelog_topic_id: Some(0),
            ssh_host: Some(String::new()),
        }
    } else {
        DiscourseConfig {
            name,
            baseurl: String::new(),
            fullname: None,
            apikey: None,
            api_username: None,
            changelog_path: None,
            tags: None,
            changelog_topic_id: None,
            ssh_host: None,
        }
    }
}

/// Adds an entry for each comma-separated name of `names` (trimmed, blank
/// ones left out) that is not configured yet, in order; with
/// `placeholders`, its optional settings are written out empty. The
/// positions of the new entries are returned, so that their settings can be
/// asked for.
pub fn add_discourses(config: &mut Config, names: &str, placeholders: bool) -> (r: Vec<usize>)
    ensures
        ({
            let existing = old(config).discourse@.map_values(|d: DiscourseConfig| d.name@);
            let added = names_to_add(existing, kept_items(split_items(names@, false)));
            let n = old(config).discourse@.len();
            &&& final(config).discourse@.len() == n + added.len()
            &&& final(config).discourse@.subrange(0, n as int) == old(config).discourse@
            &&& forall|i: int|
                0 <= i < added.len() ==> new_entry(
                    #[trigger] final(config).discourse@[n + i],
                    added[i],
                    placeholders,
                )
            &&& r@.len() == added.len()
            &&& forall|i: int| 0 <= i < added.len() ==> #[trigger] r@[i] == n + i
        }),
{
    let candidates = split_trimmed(names, false);
    let ghost cands = candidates@.map_values(|t: String| t@);
    let ghost existing = config.discourse@.map_values(|d: DiscourseConfig| d.name@);
    let ghost n = config.discourse@.len();
    let ghost start = config.discourse@;
    let mut positions: Vec<usize> = Vec::new();
    let mut i: usize = 0;
    while i < candidates.len()
        invariant
            cands == candidates@.map_values(|t: String| t@),
            existing == start.map_values(|d: DiscourseConfig| d.name@),
            n == start.len(),
            i <= candidates@.len(),
            config.discourse@.len() == n + names_to_add(existing, cands.subrange(0, i as int)).len(),
            config.discourse@.subrange(0, n as int) == start,
            forall|j: int|
                0 <= j < names_to_add(existing, cands.subrange(0, i as int)).len() ==> new_entry(
                    #[trigger] config.discourse@[n + j],
                    names_to_add(existing, cands.subrange(0, i as int))[j],
                    placeholders,
                ),
            positions@.len() == names_to_add(existing, cands.subrange(0, i as int)).len(),
            forall|j: int| 0 <= j < positions@.len() ==> #[trigger] positions@[j] == n + j,
        decreases candidates@.len() - i,
    {
        let ghost before = names_to_add(existing, cands.subrange(0, i as int));
        assert(cands.subrange(0, i + 1).drop_last() =~= cands.subrange(0, i as int));
        let name = candidates[i].as_str();
        let known = find_discourse_index(config, name).is_some();
        proof {
            if known {
                let k = choose|k: int| first_named(config.discourse@, name@, k);
                if k < n {
                    assert(start[k] == config.discourse@.subrange(0, n as int)[k]);
                    assert(existing[k] == name@);
                } else {
                    assert(new_entry(config.discourse@[n + (k - n)], before[k - n], placeholders));
                    assert(before[k - n] == name@);
                }
            } else {
                assert forall|k: int| 0 <= k < existing.len() implies existing[k] != name@ by {
                    assert(start[k] == config.discourse@.subrange(0, n as int)[k]);
                    assert(config.discourse@[k].name@ != name@);
                }
                assert forall|k: int| 0 <= k < before.len() implies before[k] != name@ by {
                    assert(new_entry(config.discourse@[n + k], before[k], placeholders));
                    assert(config.discourse@[n + k].name@ != name@);
                }
            }
        }
        if !known {
            let pos = config.discourse.len();
            let entry = make_entry(candidates[i].clone(), placeholders);
            let ghost prev = config.discourse@;
            config.discourse.push(entry);
            positions.push(pos);
            assert(config.discourse@.subrange(0, n as int) =~= prev.subrange(0, n as int));
            assert forall|j: int|
                0 <= j < names_to_add(existing, cands.subrange(0, i + 1)).len() implies new_entry(
                #[trigger] config.discourse@[n + j],
                names_to_add(existing, cands.subrange(0, i + 1))[j],
                placeholders,
            ) by {
                if j < before.len() {
                    assert(config.discourse@[n + j] == prev[n + j]);
                }
            }
        }
        i += 1;
    }
    assert(cands.subrange(0, candidates@.len() as int) =~= cands);
    positions
}

} // verus!
