//! Decisions of the topic commands: the name a pulled topic gets, and which
//! way a sync goes.

use vstd::prelude::*;
use crate::groups::{decimal, decimal_string};
use crate::text::{chars_of, trim, trim_bounds};

verus! {

/// The instant an RFC 3339 time stamp names, as seconds since the Unix epoch
/// and the nanoseconds within that second; none where the text is not such a
/// time stamp.
pub uninterp spec fn rfc3339_instant(s: Seq<char>) -> Option<(i64, u32)>;

/// Relies on chrono's `DateTime::parse_from_rfc3339`, with `timestamp` and
/// `timestamp_subsec_nanos` of its result: the instant depends on the text
/// alone.
#[verifier::external_body]
fn parse_rfc3339(s: &str) -> (r: Option<(i64, u32)>)
    ensures
        r == rfc3339_instant(s@),
{
    match chrono::DateTime::parse_from_rfc3339(s) {
        Ok(t) => Some((t.timestamp(), t.timestamp_subsec_nanos())),
        Err(_) => None,
    }
}

/// Whether a text is absent or blank.
pub open spec fn blank(o: Option<Seq<char>>) -> bool {
    match o {
        Some(s) => trim(s).len() == 0,
        None => true,
    }
}

fn is_blank_str(o: Option<&str>) -> (r: bool)
    ensures
        r == blank(
            match o {
                Some(s) => Some(s@),
                None => None,
            },
        ),
{
    match o {
        Some(s) => {
            let v = chars_of(s);
            let (a, b) = trim_bounds(&v, 0, v.len());
            assert(v@.subrange(0, v@.len() as int) =~= v@);
            a == b
        },
        None => true,
    }
}

/// The title a pulled topic is saved under: its title where not blank, else
/// its slug where not blank, else `topic-` and its number.
pub open spec fn pulled_title(title: Option<Seq<char>>, slug: Option<Seq<char>>, id: u64) -> Seq<
    char,
> {
    if !blank(title) {
        title->0
    } else if !blank(slug) {
        slug->0
    } else {
        "topic-"@ + decimal(id as nat)
    }
}

/// The title a pulled topic is saved under.
pub fn topic_file_title(title: Option<&str>, slug: Option<&str>, topic_id: u64) -> (r: String)
    ensures
        r@ == pulled_title(
            match title {
                Some(s) => Some(s@),
                None => None,
            },
            match slug {
                Some(s) => Some(s@),
                None => None,
            },
            topic_id,
        ),
{
    if !is_blank_str(title) {
        String::from_str(title.unwrap())
    } else if !is_blank_str(slug) {
        String::from_str(slug.unwrap())
    } else {
        let n = decimal_string(topic_id);
        String::from_str("topic-").concat(n.as_str())
    }
}

/// Which way a sync copies the post.
#[derive(Clone, Copy, Debug, PartialEq, Eq, Structural)]
pub enum SyncDirection {
    /// The forum's copy is newer: write it to the file.
    Pull,
    /// The file is as new or newer: send it to the forum.
    Push,
}

/// Why a sync cannot decide.
#[derive(Clone, Copy, Debug, PartialEq, Eq, Structural)]
pub enum SyncError {
    /// The post names neither when it was updated nor when it was created.
    MissingTimestamp,
    /// The post's time stamp is not an RFC 3339 time stamp.
    BadTimestamp,
}

/// Whether instant `a` comes after instant `b`.
pub open spec fn later(a: (i64, u32), b: (i64, u32)) -> bool {
    a.0 > b.0 || (a.0 == b.0 && a.1 > b.1)
}

/// The direction of a sync: pull where the post is newer than the file.
pub open spec fn direction_spec(remote: (i64, u32), local: (i64, u32)) -> SyncDirection {
    if later(remote, local) {
        SyncDirection::Pull
    } else {
        SyncDirection::Push
    }
}

/// The direction of a sync, from the instant the post last changed and the
/// instant the file last changed.
pub fn direction_for(remote: (i64, u32), local: (i64, u32)) -> (r: SyncDirection)
    ensures
        r == direction_spec(remote, local),
{
    if remote.0 > local.0 || (remote.0 == local.0 && remote.1 > local.1) {
        SyncDirection::Pull
    } else {
        SyncDirection::Push
    }
}

/// The direction of a sync, from the post's time stamps (when it was updated,
/// else when it was created) and the instant the file last changed.
pub fn sync_direction(updated_at: Option<&str>, created_at: Option<&str>, local: (i64, u32)) -> (r:
    Result<SyncDirection, SyncError>)
    ensures
        ({
            let stamp = match updated_at {
                Some(u) => Some(u@),
                None => match created_at {
                    Some(c) => Some(c@),
                    None => None,
                },
            };
            match stamp {
                None => r == Err::<SyncDirection, SyncError>(SyncError::MissingTimestamp),
                Some(s) => match rfc3339_instant(s) {
                    None => r == Err::<SyncDirection, SyncError>(SyncError::BadTimestamp),
                    Some(t) => r == Ok::<SyncDirection, SyncError>(direction_spec(t, local)),
                },
            }
        }),
{
    let stamp = match updated_at {
        Some(u) => u,
        None => match created_at {
            Some(c) => c,
            None => {
                return Err(SyncError::MissingTimestamp);
            },
        },
    };
    match parse_rfc3339(stamp) {
        None => Err(SyncError::BadTimestamp),
        Some(t) => Ok(direction_for(t, local)),
    }
}

} // verus!
