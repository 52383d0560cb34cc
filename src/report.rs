//! The facts collected by one host's upgrade, what is read out of the cleanup
//! output, and the changelog text built from those facts.

use vstd::prelude::*;
use crate::common::{blank_setting, ensure_api_credentials};
use crate::config::DiscourseConfig;
use crate::error::UpdateError;
use crate::text::{chars_of, find_from, first_at, occurs_at, same_text, string_of_range, trim, trim_bounds};

verus! {

/// What one completed upgrade of a host found out. An unknown version is
/// absent.
#[derive(Clone, Debug, PartialEq, Eq)]
pub struct UpdateMetadata {
    pub before_version: Option<String>,
    pub after_version: Option<String>,
    pub reclaimed_space: Option<String>,
    pub before_os_version: Option<String>,
    pub after_os_version: Option<String>,
    pub os_updated: bool,
    pub server_rebooted: bool,
}

/// The view of an optional string.
pub open spec fn opt_view(o: Option<String>) -> Option<Seq<char>> {
    match o {
        Some(s) => Some(s@),
        None => None,
    }
}

/// `j` ends the line that runs on from `from`: the first line feed at or
/// after `from`, or the end of `s`.
pub open spec fn line_end(s: Seq<char>, from: int, j: int) -> bool {
    &&& from <= j <= s.len()
    &&& (j == s.len() || occurs_at(s, seq!['\n'], j))
    &&& forall|k: int| from <= k < j ==> !occurs_at(s, seq!['\n'], k)
}

/// The marker that cleanup output puts before the space it freed.
pub open spec fn reclaimed_marker() -> Seq<char> {
    "Total reclaimed space:"@
}

/// The reclaimed space named in cleanup output: the rest of the first line
/// that holds the marker, after the marker, trimmed; absent when no line holds
/// the marker.
pub open spec fn reclaimed_of(s: Seq<char>) -> Option<Seq<char>> {
    let m = reclaimed_marker();
    if exists|i: int| first_at(s, m, i) {
        let i = choose|i: int| first_at(s, m, i);
        let j = choose|j: int| #[trigger] line_end(s, i + m.len(), j);
        Some(trim(s.subrange(i + m.len(), j)))
    } else {
        None
    }
}

/// Reads the reclaimed space out of the output of the cleanup command.
pub fn parse_reclaimed_space(output: &str) -> (r: Option<String>)
    ensures
        opt_view(r) == reclaimed_of(output@),
{
    let v = chars_of(output);
    let marker = chars_of("Total reclaimed space:");
    match find_from(&v, &marker, 0) {
        None => {
            assert(forall|i: int| !first_at(output@, reclaimed_marker(), i));
            None
        },
        Some(i) => {
            assert(i + marker@.len() <= v.len());
            let start = i + marker.len();
            let nl = vec!['\n'];
            assert(nl@ == seq!['\n']);
            let end = match find_from(&v, &nl, start) {
                Some(j) => j,
                None => v.len(),
            };
            assert(first_at(output@, reclaimed_marker(), i as int));
            assert(line_end(output@, start as int, end as int));
            let (a, b) = trim_bounds(&v, start, end);
            let r = string_of_range(&v, a, b);
            let ghost ci = choose|k: int| first_at(output@, reclaimed_marker(), k);
            assert(ci == i as int) by {
                if ci < i {
                    assert(!occurs_at(output@, reclaimed_marker(), ci));
                } else if ci > i {
                    assert(!occurs_at(output@, reclaimed_marker(), i as int));
                }
            }
            let ghost cj = choose|k: int| line_end(output@, start as int, k);
            assert(cj == end as int) by {
                if cj < end {
                    assert(!occurs_at(output@, seq!['\n'], cj));
                } else if cj > end {
                    assert(!occurs_at(output@, seq!['\n'], end as int));
                }
            }
            Some(r)
        },
    }
}

/// An optional text, or `unknown` where it is absent.
pub open spec fn or_unknown(o: Option<Seq<char>>) -> Seq<char> {
    match o {
        Some(s) => s,
        None => "unknown"@,
    }
}

/// The checklist lines on the OS update and the reboot of one upgrade.
pub open spec fn status_lines(m: UpdateMetadata) -> Seq<char> {
    let os = if m.os_updated {
        "- [x] Ubuntu OS updated"@ + match (m.before_os_version, m.after_os_version) {
            (Some(b), Some(a)) => "\n  OS version: "@ + b@ + " → "@ + a@,
            _ => Seq::empty(),
        }
    } else {
        "- [ ] Ubuntu OS updated\n  (OS update was skipped or failed)"@
    };
    let reboot = if m.server_rebooted {
        "\n- [x] Server rebooted"@
    } else {
        "\n- [ ] Server rebooted\n  (Server reboot was skipped or failed)"@
    };
    os + reboot
}

/// The version an upgrade reached: the one seen after it, else the one seen
/// before it, else `unknown`.
pub open spec fn version_reached(m: Option<UpdateMetadata>) -> Seq<char> {
    match m {
        Some(m) => match m.after_version {
            Some(v) => v@,
            None => or_unknown(opt_view(m.before_version)),
        },
        None => "unknown"@,
    }
}

/// The changelog text for an upgrade: the checklist, the version reached, the
/// space reclaimed, and a run identifier line where one is given.
pub open spec fn changelog_payload(m: Option<UpdateMetadata>, run_id: Option<Seq<char>>) -> Seq<
    char,
> {
    let head = match m {
        Some(m) => status_lines(m),
        None => "- [x] Ubuntu OS updated\n- [x] Server rebooted"@,
    };
    let reclaimed = match m {
        Some(m) => or_unknown(opt_view(m.reclaimed_space)),
        None => "unknown"@,
    };
    let tail = match run_id {
        Some(id) => "\n- Run-ID: "@ + id,
        None => Seq::empty(),
    };
    head + "\n- [x] Updated Discourse to version "@ + version_reached(m)
        + "\n- [x] `./launcher cleanup` Total reclaimed space: "@ + reclaimed + tail
}

/// The optional reference seen as an optional value.
pub open spec fn opt_deref(m: Option<&UpdateMetadata>) -> Option<UpdateMetadata> {
    match m {
        Some(m) => Some(*m),
        None => None,
    }
}

/// The view of an optional string slice.
pub open spec fn opt_str_view(o: Option<&str>) -> Option<Seq<char>> {
    match o {
        Some(s) => Some(s@),
        None => None,
    }
}

fn append_or_unknown(out: &mut String, o: &Option<String>)
    ensures
        final(out)@ == old(out)@ + or_unknown(opt_view(*o)),
{
    match o {
        Some(s) => out.append(s.as_str()),
        None => out.append("unknown"),
    }
}

/// Builds the changelog text for an upgrade. It depends on its arguments
/// alone.
pub fn build_changelog_payload(metadata: Option<&UpdateMetadata>, run_id: Option<&str>) -> (r:
    String)
    ensures
        r@ == changelog_payload(opt_deref(metadata), opt_str_view(run_id)),
{
    let mut body = String::new();
    match metadata {
        Some(m) => {
            if m.os_updated {
                body.append("- [x] Ubuntu OS updated");
                match (&m.before_os_version, &m.after_os_version) {
                    (Some(b), Some(a)) => {
                        body.append("\n  OS version: ");
                        body.append(b.as_str());
                        body.append(" → ");
                        body.append(a.as_str());
                    },
                    _ => {},
                }
            } else {
                body.append("- [ ] Ubuntu OS updated\n  (OS update was skipped or failed)");
            }
            if m.server_rebooted {
                body.append("\n- [x] Server rebooted");
            } else {
                body.append("\n- [ ] Server rebooted\n  (Server reboot was skipped or failed)");
            }
            assert(body@ =~= status_lines(*m));
            body.append("\n- [x] Updated Discourse to version ");
            match &m.after_version {
                Some(v) => body.append(v.as_str()),
                None => append_or_unknown(&mut body, &m.before_version),
            }
            body.append("\n- [x] `./launcher cleanup` Total reclaimed space: ");
            append_or_unknown(&mut body, &m.reclaimed_space);
        },
        None => {
            body.append("- [x] Ubuntu OS updated\n- [x] Server rebooted");
            body.append("\n- [x] Updated Discourse to version ");
            body.append("unknown");
            body.append("\n- [x] `./launcher cleanup` Total reclaimed space: ");
            body.append("unknown");
        },
    }
    match run_id {
        Some(id) => {
            body.append("\n- Run-ID: ");
            body.append(id);
        },
        None => {},
    }
    assert(body@ =~= changelog_payload(opt_deref(metadata), opt_str_view(run_id)));
    body
}

/// The facts of an upgrade as plain values.
pub open spec fn facts_of(m: Option<UpdateMetadata>) -> Option<
    (
        Option<Seq<char>>,
        Option<Seq<char>>,
        Option<Seq<char>>,
        Option<Seq<char>>,
        Option<Seq<char>>,
        bool,
        bool,
    ),
> {
    match m {
        Some(m) => Some(
            (
                opt_view(m.before_version),
                opt_view(m.after_version),
                opt_view(m.reclaimed_space),
                opt_view(m.before_os_version),
                opt_view(m.after_os_version),
                m.os_updated,
                m.server_rebooted,
            ),
        ),
        None => None,
    }
}

/// Changelog text depends on the facts and the run identifier alone: equal
/// facts give byte-identical text.
pub proof fn lemma_payload_deterministic(
    m1: Option<UpdateMetadata>,
    m2: Option<UpdateMetadata>,
    id1: Option<Seq<char>>,
    id2: Option<Seq<char>>,
)
    requires
        facts_of(m1) == facts_of(m2),
        id1 == id2,
    ensures
        changelog_payload(m1, id1) == changelog_payload(m2, id2),
{
}

/// The run identifier line is appended exactly when an identifier is given:
/// the text with one is the text without one followed by that single line.
pub proof fn lemma_run_id_line(m: Option<UpdateMetadata>, id: Seq<char>)
    ensures
        changelog_payload(m, Some(id)) == changelog_payload(m, None) + "\n- Run-ID: "@ + id,
        changelog_payload(m, Some(id)).len() == changelog_payload(m, None).len()
            + "\n- Run-ID: "@.len() + id.len(),
{
    assert(changelog_payload(m, Some(id)) =~= changelog_payload(m, None) + "\n- Run-ID: "@ + id);
}

/// Why a changelog is not posted.
#[derive(Clone, Copy, Debug, PartialEq, Eq, Structural)]
pub enum PostSkip {
    /// The instance names no changelog topic.
    MissingTopic,
    /// The instance lacks an API key or user name.
    MissingCredentials,
    /// The operator declined.
    Declined,
}

/// The topic a changelog goes to, where the instance names one and has its
/// API credentials.
pub fn changelog_topic(discourse: &DiscourseConfig) -> (r: Result<u64, PostSkip>)
    ensures
        match discourse.changelog_topic_id {
            None => r == Err::<u64, PostSkip>(PostSkip::MissingTopic),
            Some(t) => if blank_setting(discourse.apikey) || blank_setting(discourse.api_username) {
                r == Err::<u64, PostSkip>(PostSkip::MissingCredentials)
            } else {
                r == Ok::<u64, PostSkip>(t)
            },
        },
{
    match discourse.changelog_topic_id {
        None => Err(PostSkip::MissingTopic),
        Some(t) => match ensure_api_credentials(discourse) {
            Err(_) => Err(PostSkip::MissingCredentials),
            Ok(()) => Ok(t),
        },
    }
}

/// The answers that confirm a post, once trimmed.
pub open spec fn confirms(answer: Seq<char>) -> bool {
    let t = trim(answer);
    t == "y"@ || t == "Y"@ || t == "yes"@ || t == "YES"@
}

/// Whether the operator's answer confirms the post.
pub fn is_confirmation(answer: &str) -> (r: bool)
    ensures
        r == confirms(answer@),
{
    let v = chars_of(answer);
    let (a, b) = trim_bounds(&v, 0, v.len());
    assert(v@.subrange(0, v@.len() as int) =~= v@);
    let t = string_of_range(&v, a, b);
    let s = t.as_str();
    same_text(s, "y") || same_text(s, "Y") || same_text(s, "yes") || same_text(s, "YES")
}

/// The outcome of publishing a changelog after a successful upgrade: the new
/// post's identifier, or `ReportPublishFailed`.
pub fn publish_outcome(post_id: Option<u64>) -> (r: Result<u64, UpdateError>)
    ensures
        match post_id {
            Some(id) => r == Ok::<u64, UpdateError>(id),
            None => r == Err::<u64, UpdateError>(UpdateError::ReportPublishFailed),
        },
{
    match post_id {
        Some(id) => Ok(id),
        None => Err(UpdateError::ReportPublishFailed),
    }
}

} // verus!
