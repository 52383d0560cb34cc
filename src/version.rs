//! The version oracle's reading of what the forum reports about itself: the
//! about page and the generator meta tag of its home page.

use vstd::prelude::*;
use crate::models::{AboutInfo, VersionInfo};
use crate::report::opt_view;
use crate::ssh::{split_options, views, words};
use crate::text::{
    chars_of, cut_at, find_from, first_at, matches_at, occurs_at, starts_with, string_of_range, trim, trim_bounds,
};

verus! {

/// The version named by a generator tag such as `Discourse 3.2.0 - https://...`:
/// after the leading `Discourse `, up to the first ` - `, trimmed; none where
/// the tag does not start so or nothing is left.
pub open spec fn generator_version(c: Seq<char>) -> Option<Seq<char>> {
    if starts_with(c, "Discourse "@) {
        let rest = c.subrange("Discourse "@.len() as int, c.len() as int);
        let j = choose|j: int| #[trigger] cut_at(rest, " - "@, 0, j);
        let v = trim(rest.subrange(0, j));
        if v.len() > 0 {
            Some(v)
        } else {
            None
        }
    } else {
        None
    }
}

/// The commit named by a generator tag: the first word after its first
/// `version `; none where there is no such word.
pub open spec fn generator_commit(c: Seq<char>) -> Option<Seq<char>> {
    if exists|i: int| first_at(c, "version "@, i) {
        let i = choose|i: int| first_at(c, "version "@, i);
        let ws = words(c.subrange(i + "version "@.len(), c.len() as int));
        if ws.len() > 0 {
            Some(ws[0])
        } else {
            None
        }
    } else {
        None
    }
}

fn first_word(s: &str) -> (r: Option<String>)
    ensures
        match r {
            Some(w) => words(s@).len() > 0 && w@ == words(s@)[0],
            None => words(s@).len() == 0,
        },
{
    let mut ws = split_options(s);
    if ws.len() == 0 {
        None
    } else {
        assert(views(ws@)[0] == ws@[0]@);
        Some(ws.remove(0))
    }
}

/// Reads the version and the commit out of the content of the generator
/// meta tag.
pub fn parse_generator_content(content: &str) -> (r: (Option<String>, Option<String>))
    ensures
        opt_view(r.0) == generator_version(content@),
        opt_view(r.1) == generator_commit(content@),
{
    let v = chars_of(content);
    let lead = chars_of("Discourse ");
    let mut version: Option<String> = None;
    if matches_at(&v, &lead, 0) {
        let rest = string_of_range(&v, lead.len(), v.len());
        let rv = chars_of(rest.as_str());
        let sep = chars_of(" - ");
        let j = match find_from(&rv, &sep, 0) {
            Some(j) => j,
            None => rv.len(),
        };
        assert(cut_at(rv@, " - "@, 0, j as int));
        let ghost cj = choose|k: int| #[trigger] cut_at(rv@, " - "@, 0, k);
        assert(cj == j as int) by {
            if cj < j {
                assert(!occurs_at(rv@, " - "@, cj));
            } else if cj > j {
                assert(!occurs_at(rv@, " - "@, j as int));
            }
        }
        let (a, b) = trim_bounds(&rv, 0, j);
        if a < b {
            version = Some(string_of_range(&rv, a, b));
        }
    }
    let key = chars_of("version ");
    let mut commit: Option<String> = None;
    match find_from(&v, &key, 0) {
        Some(i) => {
            assert(i + key@.len() <= v.len());
            let tail = string_of_range(&v, i + key.len(), v.len());
            let ghost ci = choose|k: int| first_at(content@, "version "@, k);
            assert(first_at(content@, "version "@, i as int));
            assert(ci == i as int) by {
                if ci < i {
                    assert(!occurs_at(content@, "version "@, ci));
                } else if ci > i {
                    assert(!occurs_at(content@, "version "@, i as int));
                }
            }
            commit = first_word(tail.as_str());
        },
        None => {
            assert(forall|k: int| !first_at(content@, "version "@, k));
        },
    }
    (version, commit)
}

/// Whether a version lookup found anything.
pub open spec fn found_any(version: Option<Seq<char>>, commit: Option<Seq<char>>) -> bool {
    version is Some || commit is Some
}

/// Puts together what the about page and the generator tag say: the version
/// of the about page (its `version`, else its `installed_version`), else the
/// generator's; the generator's commit. Nothing where neither names a version
/// or a commit. `about` is absent where the page could not be had, and
/// `generator` where the home page or its tag could not.
pub fn combine_version_info(about: Option<AboutInfo>, generator: Option<&str>) -> (r: Option<
    VersionInfo,
>)
    ensures
        ({
            let about_version = match about {
                Some(a) => match opt_view(a.version) {
                    Some(v) => Some(v),
                    None => opt_view(a.installed_version),
                },
                None => None,
            };
            let gen_version = match generator {
                Some(g) => generator_version(g@),
                None => None,
            };
            let version = match about_version {
                Some(v) => Some(v),
                None => gen_version,
            };
            let commit = match generator {
                Some(g) => generator_commit(g@),
                None => None,
            };
            match r {
                Some(info) => found_any(version, commit) && opt_view(info.version) == version
                    && opt_view(info.commit) == commit,
                None => !found_any(version, commit),
            }
        }),
{
    let mut version: Option<String> = match about {
        Some(a) => match a.version {
            Some(v) => Some(v),
            None => a.installed_version,
        },
        None => None,
    };
    let mut commit: Option<String> = None;
    match generator {
        Some(g) => {
            let (gv, gc) = parse_generator_content(g);
            if version.is_none() {
                version = gv;
            }
            commit = gc;
        },
        None => {},
    }
    if version.is_none() && commit.is_none() {
        None
    } else {
        Some(VersionInfo { version, commit })
    }
}

} // verus!
