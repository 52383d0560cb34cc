//! The remote command channel: which host names are acceptable, how the
//! remote shell client is invoked, and how a finished command is judged.

use vstd::prelude::*;
use crate::error::{CommandFailed, TargetError};
use crate::text::{chars_of, char_is_space, is_space, string_of_range, trim, trim_bounds};

verus! {

/// The verdict on a host name, as given: refused if it is empty, if it
/// starts with `-`, or if it holds white space anywhere.
pub open spec fn target_check(s: Seq<char>) -> Result<(), TargetError> {
    if s.len() == 0 {
        Err(TargetError::Empty)
    } else if s[0] == '-' {
        Err(TargetError::LeadingDash)
    } else if exists|i: int| 0 <= i < s.len() && is_space(#[trigger] s[i]) {
        Err(TargetError::Whitespace)
    } else {
        Ok(())
    }
}

/// Checks a host name before it is handed to the remote shell client, so that
/// it cannot be read as an option or split into several arguments.
pub fn validate_ssh_target(target: &str) -> (r: Result<(), TargetError>)
    ensures
        r == target_check(target@),
{
    let v = chars_of(target);
    if v.len() == 0 {
        return Err(TargetError::Empty);
    }
    if v[0] == '-' {
        return Err(TargetError::LeadingDash);
    }
    let mut i: usize = 0;
    while i < v.len()
        invariant
            v@ == target@,
            v@.len() > 0 && v@[0] != '-',
            i <= v@.len(),
            forall|j: int| 0 <= j < i ==> !is_space(#[trigger] v@[j]),
        decreases v@.len() - i,
    {
        if char_is_space(v[i]) {
            assert(is_space(target@[i as int]));
            return Err(TargetError::Whitespace);
        }
        i += 1;
    }
    Ok(())
}

/// `raw` trimmed, or nothing when only white space is left.
pub open spec fn non_blank(raw: Seq<char>) -> Option<Seq<char>> {
    if trim(raw).len() == 0 {
        None
    } else {
        Some(trim(raw))
    }
}

/// A configured setting trimmed, with a blank one read as unset.
pub fn non_blank_setting(raw: &str) -> (r: Option<String>)
    ensures
        match r {
            Some(s) => non_blank(raw@) == Some(s@),
            None => non_blank(raw@) is None,
        },
{
    let v = chars_of(raw);
    let (a, b) = trim_bounds(&v, 0, v.len());
    assert(v@.subrange(0, v@.len() as int) =~= v@);
    if a == b {
        None
    } else {
        Some(string_of_range(&v, a, b))
    }
}

/// The host-key policy handed to the remote shell client: the configured
/// value, `accept-new` where none is configured, and no policy at all where
/// the configured value is blank.
pub fn ssh_strict_host_key_checking(configured: Option<&str>) -> (r: Option<String>)
    ensures
        match configured {
            Some(raw) => match r {
                Some(s) => non_blank(raw@) == Some(s@),
                None => non_blank(raw@) is None,
            },
            None => r is Some && r->0@ == "accept-new"@,
        },
{
    match configured {
        Some(raw) => non_blank_setting(raw),
        None => Some(String::from_str("accept-new")),
    }
}

/// The rollback command run after a failed OS update: the configured value
/// trimmed, and none where it is unset or blank.
pub fn os_update_rollback_cmd(configured: Option<&str>) -> (r: Option<String>)
    ensures
        match configured {
            Some(raw) => match r {
                Some(s) => non_blank(raw@) == Some(s@),
                None => non_blank(raw@) is None,
            },
            None => r is None,
        },
{
    match configured {
        Some(raw) => non_blank_setting(raw),
        None => None,
    }
}

/// The view of each string of a list.
pub open spec fn views(v: Seq<String>) -> Seq<Seq<char>> {
    v.map_values(|s: String| s@)
}

/// The arguments of the remote shell client for `target`: non-interactive
/// authentication, the host-key policy if any, the extra options, then `--`
/// and the target, so that the target is never read as an option.
pub open spec fn ssh_args_spec(
    target: Seq<char>,
    strict: Option<Seq<char>>,
    extra: Seq<Seq<char>>,
) -> Seq<Seq<char>> {
    let policy = match strict {
        Some(p) => seq!["-o"@, "StrictHostKeyChecking="@ + p],
        None => Seq::empty(),
    };
    seq!["-o"@, "BatchMode=yes"@] + policy + extra + seq!["--"@, target]
}

fn push_str(out: &mut Vec<String>, s: &str)
    ensures
        final(out)@.len() == old(out)@.len() + 1,
        views(final(out)@) == views(old(out)@).push(s@),
{
    out.push(String::from_str(s));
    assert(views(final(out)@) =~= views(old(out)@).push(s@));
}

/// Builds the argument list of the remote shell client, after checking the
/// target; `extra` holds the configured options, one per element.
pub fn build_ssh_command(target: &str, strict: Option<&str>, extra: &Vec<String>) -> (r: Result<
    Vec<String>,
    TargetError,
>)
    ensures
        match target_check(target@) {
            Err(e) => r == Err::<Vec<String>, TargetError>(e),
            Ok(_) => r is Ok && views(r->Ok_0@) == ssh_args_spec(
                target@,
                match strict {
                    Some(p) => Some(p@),
                    None => None,
                },
                views(extra@),
            ),
        },
{
    match validate_ssh_target(target) {
        Err(e) => {
            return Err(e);
        },
        Ok(()) => {},
    }
    let mut out: Vec<String> = Vec::new();
    push_str(&mut out, "-o");
    push_str(&mut out, "BatchMode=yes");
    let ghost head = views(out@);
    match strict {
        Some(p) => {
            push_str(&mut out, "-o");
            let opt = String::from_str("StrictHostKeyChecking=").concat(p);
            let ghost before = out@;
            out.push(opt);
            assert(views(out@) =~= views(before).push(opt@));
            assert(views(out@) =~= head + seq!["-o"@, "StrictHostKeyChecking="@ + p@]);
        },
        None => {
            assert(views(out@) =~= head + Seq::<Seq<char>>::empty());
        },
    }
    let ghost mid = views(out@);
    let mut i: usize = 0;
    while i < extra.len()
        invariant
            i <= extra@.len(),
            views(out@) == mid + views(extra@).subrange(0, i as int),
        decreases extra@.len() - i,
    {
        let s = extra[i].clone();
        let ghost before = out@;
        out.push(s);
        assert(views(out@) =~= views(before).push(s@));
        assert(views(extra@).subrange(0, i + 1) =~= views(extra@).subrange(0, i as int).push(
            s@,
        ));
        i += 1;
        assert(views(out@) =~= mid + views(extra@).subrange(0, i as int));
    }
    assert(views(extra@).subrange(0, extra@.len() as int) =~= views(extra@));
    push_str(&mut out, "--");
    push_str(&mut out, target);
    assert(views(out@) =~= mid + views(extra@) + seq!["--"@, target@]);
    Ok(out)
}

/// The result of a finished remote command: its standard output when it
/// exited with status zero, else its error stream.
pub fn command_result(succeeded: bool, stdout: String, stderr: String) -> (r: Result<
    String,
    CommandFailed,
>)
    ensures
        succeeded ==> r == Ok::<String, CommandFailed>(stdout),
        !succeeded ==> r == Err::<String, CommandFailed>(CommandFailed { stderr }),
{
    if succeeded {
        Ok(stdout)
    } else {
        Err(CommandFailed { stderr })
    }
}

/// `s` cut at each white space character.
pub open spec fn split_spaces(s: Seq<char>) -> Seq<Seq<char>>
    decreases s.len(),
{
    if s.len() == 0 {
        seq![Seq::empty()]
    } else {
        let rest = split_spaces(s.drop_last());
        if is_space(s.last()) {
            rest.push(Seq::empty())
        } else {
            rest.update(rest.len() - 1, rest.last().push(s.last()))
        }
    }
}

/// The pieces that are not empty, in order.
pub open spec fn nonempty_pieces(pieces: Seq<Seq<char>>) -> Seq<Seq<char>>
    decreases pieces.len(),
{
    if pieces.len() == 0 {
        Seq::empty()
    } else {
        nonempty_pieces(pieces.drop_last()) + if pieces.last().len() > 0 {
            seq![pieces.last()]
        } else {
            Seq::empty()
        }
    }
}

/// The words of `s`, as `str::split_whitespace` gives them.
pub open spec fn words(s: Seq<char>) -> Seq<Seq<char>> {
    nonempty_pieces(split_spaces(s))
}

proof fn lemma_split_spaces_nonempty(s: Seq<char>)
    ensures
        split_spaces(s).len() >= 1,
    decreases s.len(),
{
    if s.len() > 0 {
        lemma_split_spaces_nonempty(s.drop_last());
    }
}

/// The extra options of the remote shell client, from the configured text:
/// its words, each one option.
pub fn split_options(raw: &str) -> (r: Vec<String>)
    ensures
        views(r@) == words(raw@),
{
    let v = chars_of(raw);
    let mut out: Vec<String> = Vec::new();
    let mut start: usize = 0;
    let mut i: usize = 0;
    while i < v.len()
        invariant
            v@ == raw@,
            start <= i <= v@.len(),
            split_spaces(v@.subrange(0, i as int)).len() >= 1,
            split_spaces(v@.subrange(0, i as int)).last() == v@.subrange(start as int, i as int),
            views(out@) == nonempty_pieces(split_spaces(v@.subrange(0, i as int)).drop_last()),
        decreases v@.len() - i,
    {
        let ghost pre = v@.subrange(0, i as int);
        let ghost next = v@.subrange(0, i + 1);
        assert(next.drop_last() =~= pre);
        proof {
            lemma_split_spaces_nonempty(pre);
        }
        let c = v[i];
        if char_is_space(c) {
            if start < i {
                let t = string_of_range(&v, start, i);
                let ghost before = out@;
                out.push(t);
                assert(views(out@) =~= views(before).push(t@));
            }
            assert(split_spaces(next).drop_last() =~= split_spaces(pre));
            assert(views(out@) =~= nonempty_pieces(split_spaces(next).drop_last()));
            start = i + 1;
            assert(v@.subrange(start as int, i + 1) =~= Seq::<char>::empty());
        } else {
            assert(split_spaces(next).drop_last() =~= split_spaces(pre).drop_last());
            assert(v@.subrange(start as int, i + 1) =~= v@.subrange(start as int, i as int).push(
                c,
            ));
        }
        i += 1;
    }
    assert(v@.subrange(0, v@.len() as int) =~= v@);
    let ghost all = split_spaces(v@);
    if start < v.len() {
        let t = string_of_range(&v, start, v.len());
        let ghost before = out@;
        out.push(t);
        assert(views(out@) =~= views(before).push(t@));
    }
    assert(views(out@) =~= nonempty_pieces(all));
    out
}

} // verus!
