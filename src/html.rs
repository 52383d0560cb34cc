//! What the version oracle and the site lookup read out of a forum's home
//! page: its title, and the content of a named meta tag. Tag and attribute
//! names match without regard to ASCII case.

use vstd::prelude::*;
use crate::text::{chars_of, cut_at, find_from, first_at, occurs_at, string_of_range, trim, trim_bounds};

verus! {

/// `c` in lower case where it is an ASCII capital letter.
pub open spec fn ascii_lower(c: char) -> char {
    if 'A' <= c && c <= 'Z' {
        ((c as u32) + 32) as char
    } else {
        c
    }
}

/// `s` with its ASCII capital letters in lower case.
pub open spec fn lower_seq(s: Seq<char>) -> Seq<char> {
    s.map_values(|c: char| ascii_lower(c))
}

fn lower_char(c: char) -> (r: char)
    ensures
        r == ascii_lower(c),
{
    if 'A' <= c && c <= 'Z' {
        let b = (c as u8) + 32;
        assert(b as u32 == (c as u32) + 32);
        b as char
    } else {
        c
    }
}

pub(crate) fn lower_chars(v: &Vec<char>) -> (r: Vec<char>)
    ensures
        r@ == lower_seq(v@),
{
    let mut out: Vec<char> = Vec::new();
    let mut i: usize = 0;
    while i < v.len()
        invariant
            i <= v@.len(),
            out@ == lower_seq(v@.subrange(0, i as int)),
        decreases v@.len() - i,
    {
        out.push(lower_char(v[i]));
        i += 1;
        assert(out@ =~= lower_seq(v@.subrange(0, i as int)));
    }
    assert(v@.subrange(0, v@.len() as int) =~= v@);
    out
}

/// Whether `p` occurs somewhere in `s`.
pub open spec fn contains(s: Seq<char>, p: Seq<char>) -> bool {
    exists|i: int| occurs_at(s, p, i)
}

pub(crate) fn contains_exec(v: &Vec<char>, p: &Vec<char>) -> (r: bool)
    ensures
        r == contains(v@, p@),
{
    match find_from(v, p, 0) {
        Some(i) => true,
        None => false,
    }
}

/// The title of a page: the text between the first `<title>` and the first
/// `</title>` after it, trimmed; none where either is missing or nothing is
/// left.
pub open spec fn html_title(html: Seq<char>) -> Option<Seq<char>> {
    let lower = lower_seq(html);
    if exists|i: int| first_at(lower, "<title>"@, i) {
        let i = choose|i: int| first_at(lower, "<title>"@, i);
        let start = i + "<title>"@.len();
        if exists|j: int| cut_at(lower, "</title>"@, start, j) && j < lower.len() {
            let j = choose|j: int| cut_at(lower, "</title>"@, start, j) && j < lower.len();
            let t = trim(html.subrange(start, j));
            if t.len() > 0 {
                Some(t)
            } else {
                None
            }
        } else {
            None
        }
    } else {
        None
    }
}

/// The title of a page.
pub fn extract_html_title(html: &str) -> (r: Option<String>)
    ensures
        match r {
            Some(t) => html_title(html@) == Some(t@),
            None => html_title(html@) is None,
        },
{
    let v = chars_of(html);
    let lower = lower_chars(&v);
    let open_tag = chars_of("<title>");
    let close_tag = chars_of("</title>");
    let i = match find_from(&lower, &open_tag, 0) {
        Some(i) => i,
        None => {
            assert(forall|k: int| !first_at(lower@, "<title>"@, k));
            return None;
        },
    };
    assert(i + open_tag@.len() <= lower.len());
    let start = i + open_tag.len();
    let ghost ci = choose|k: int| first_at(lower@, "<title>"@, k);
    assert(first_at(lower@, "<title>"@, i as int));
    assert(ci == i as int) by {
        if ci < i {
            assert(!occurs_at(lower@, "<title>"@, ci));
        } else if ci > i {
            assert(!occurs_at(lower@, "<title>"@, i as int));
        }
    }
    let end = match find_from(&lower, &close_tag, start) {
        Some(j) => j,
        None => {
            assert forall|j: int| !(cut_at(lower@, "</title>"@, start as int, j) && j < lower@.len()) by {
                if cut_at(lower@, "</title>"@, start as int, j) && j < lower@.len() {
                    assert(occurs_at(lower@, "</title>"@, j));
                }
            }
            return None;
        },
    };
    assert(cut_at(lower@, "</title>"@, start as int, end as int) && end < lower@.len()) by {
        assert(occurs_at(lower@, "</title>"@, end as int));
        reveal_strlit("</title>");
    }
    let ghost cj = choose|j: int| cut_at(lower@, "</title>"@, start as int, j) && j < lower@.len();
    assert(cj == end as int) by {
        if cj < end {
            assert(!occurs_at(lower@, "</title>"@, cj));
        } else if cj > end {
            assert(!occurs_at(lower@, "</title>"@, end as int));
        }
    }
    let (a, b) = trim_bounds(&v, start, end);
    if a < b {
        Some(string_of_range(&v, a, b))
    } else {
        None
    }
}

/// The value of the attribute `attr` of a tag: after the first `attr=` (in
/// any ASCII case), a quote, then what comes up to the same quote or the end;
/// none where no quote follows or the value is empty.
pub open spec fn attr_value(tag: Seq<char>, attr: Seq<char>) -> Option<Seq<char>> {
    let key = lower_seq(attr) + "="@;
    let lower = lower_seq(tag);
    if exists|i: int| first_at(lower, key, i) {
        let i = choose|i: int| first_at(lower, key, i);
        let pos = i + key.len();
        if pos < tag.len() && (tag[pos] == '"' || tag[pos] == '\'') {
            let q = tag[pos];
            let j = choose|j: int| #[trigger] cut_at(tag, seq![q], pos + 1, j);
            let v = tag.subrange(pos + 1, j);
            if v.len() > 0 {
                Some(v)
            } else {
                None
            }
        } else {
            None
        }
    } else {
        None
    }
}

/// The value of the attribute `attr` of a tag.
pub fn extract_attr_value(tag: &str, attr: &str) -> (r: Option<String>)
    ensures
        match r {
            Some(v) => attr_value(tag@, attr@) == Some(v@),
            None => attr_value(tag@, attr@) is None,
        },
{
    let t = chars_of(tag);
    let lower = lower_chars(&t);
    let a = chars_of(attr);
    let mut key = lower_chars(&a);
    key.push('=');
    assert(key@ =~= lower_seq(attr@) + "="@) by {
        reveal_strlit("=");
    }
    let i = match find_from(&lower, &key, 0) {
        Some(i) => i,
        None => {
            assert(forall|k: int| !first_at(lower@, key@, k));
            return None;
        },
    };
    let ghost ci = choose|k: int| first_at(lower@, key@, k);
    assert(first_at(lower@, key@, i as int));
    assert(ci == i as int) by {
        if ci < i {
            assert(!occurs_at(lower@, key@, ci));
        } else if ci > i {
            assert(!occurs_at(lower@, key@, i as int));
        }
    }
    assert(i + key@.len() <= t.len());
    let pos = i + key.len();
    if pos >= t.len() {
        return None;
    }
    let q = t[pos];
    if q != '"' && q != '\'' {
        return None;
    }
    let qv = vec![q];
    let j = match find_from(&t, &qv, pos + 1) {
        Some(j) => j,
        None => t.len(),
    };
    assert(cut_at(t@, seq![q], pos + 1, j as int)) by {
        assert(qv@ =~= seq![q]);
    }
    let ghost cj = choose|k: int| #[trigger] cut_at(t@, seq![q], pos + 1, k);
    assert(cj == j as int) by {
        if cj < j {
            assert(!occurs_at(t@, seq![q], cj));
        } else if cj > j {
            assert(!occurs_at(t@, seq![q], j as int));
        }
    }
    if pos + 1 < j {
        Some(string_of_range(&t, pos + 1, j))
    } else {
        None
    }
}

/// The content of the first meta tag from `start` on that is named `name`
/// (`name="..."` or `name='...'`, in any ASCII case) and has a content
/// attribute. The search ends at a meta tag that is never closed.
pub open spec fn meta_content_from(html: Seq<char>, name: Seq<char>, start: int) -> Option<
    Seq<char>,
>
    decreases html.len() - start,
{
    let lower = lower_seq(html);
    let a1 = "name=\""@ + lower_seq(name) + "\""@;
    let a2 = "name='"@ + lower_seq(name) + "'"@;
    if start < 0 || start > html.len() {
        None
    } else {
        let ts = choose|j: int| #[trigger] cut_at(lower, "<meta"@, start, j);
        if cut_at(lower, "<meta"@, start, ts) && ts < lower.len() {
            let te = choose|j: int| #[trigger] cut_at(lower, ">"@, ts, j);
            if cut_at(lower, ">"@, ts, te) && te < lower.len() {
                let tag_lower = lower.subrange(ts, te);
                let named = contains(tag_lower, a1) || contains(tag_lower, a2);
                match if named {
                    attr_value(html.subrange(ts, te), "content"@)
                } else {
                    None
                } {
                    Some(v) => Some(v),
                    None => meta_content_from(html, name, te + 1),
                }
            } else {
                None
            }
        } else {
            None
        }
    }
}

proof fn lemma_cut_unique(s: Seq<char>, p: Seq<char>, from: int, j: int, k: int)
    requires
        cut_at(s, p, from, j),
        cut_at(s, p, from, k),
        p.len() > 0,
    ensures
        j == k,
{
    if j < k {
        assert(!occurs_at(s, p, j));
    } else if k < j {
        assert(!occurs_at(s, p, k));
    }
}

fn cut(v: &Vec<char>, p: &Vec<char>, from: usize) -> (r: usize)
    requires
        from <= v@.len(),
        p@.len() > 0,
    ensures
        cut_at(v@, p@, from as int, r as int),
{
    match find_from(v, p, from) {
        Some(j) => j,
        None => v.len(),
    }
}

fn quoted_name(open: &str, lname: &Vec<char>, close: char) -> (r: Vec<char>)
    ensures
        r@ == open@ + lname@ + seq![close],
{
    let mut out = chars_of(open);
    let mut i: usize = 0;
    let ghost head = out@;
    while i < lname.len()
        invariant
            i <= lname@.len(),
            out@ == head + lname@.subrange(0, i as int),
        decreases lname@.len() - i,
    {
        out.push(lname[i]);
        i += 1;
        assert(out@ =~= head + lname@.subrange(0, i as int));
    }
    assert(lname@.subrange(0, lname@.len() as int) =~= lname@);
    out.push(close);
    out
}

/// The content of the meta tag named `name` in a page.
pub fn extract_meta_content(html: &str, name: &str) -> (r: Option<String>)
    ensures
        match r {
            Some(v) => meta_content_from(html@, name@, 0) == Some(v@),
            None => meta_content_from(html@, name@, 0) is None,
        },
{
    proof {
        reveal_strlit("<meta");
        reveal_strlit(">");
        reveal_strlit("\"");
        reveal_strlit("'");
    }
    let v = chars_of(html);
    let lower = lower_chars(&v);
    let n = chars_of(name);
    let lname = lower_chars(&n);
    let a1 = quoted_name("name=\"", &lname, '"');
    let a2 = quoted_name("name='", &lname, '\'');
    assert(a1@ =~= "name=\""@ + lower_seq(name@) + "\""@);
    assert(a2@ =~= "name='"@ + lower_seq(name@) + "'"@);
    let open_tag = chars_of("<meta");
    let close = chars_of(">");
    let content = chars_of("content");
    let mut start: usize = 0;
    while start <= v.len()
        invariant
            v@ == html@,
            lower@ == lower_seq(html@),
            a1@ == "name=\""@ + lower_seq(name@) + "\""@,
            a2@ == "name='"@ + lower_seq(name@) + "'"@,
            open_tag@ == "<meta"@,
            close@ == ">"@,
            open_tag@.len() == 5,
            close@.len() == 1,
            content@ == "content"@,
            start <= v@.len() + 1,
            meta_content_from(html@, name@, 0) == meta_content_from(html@, name@, start as int),
        decreases v@.len() + 1 - start,
    {
        let ts = cut(&lower, &open_tag, start);
        let ghost cts = choose|j: int| #[trigger] cut_at(lower@, "<meta"@, start as int, j);
        proof {
            lemma_cut_unique(lower@, "<meta"@, start as int, ts as int, cts);
        }
        if ts >= lower.len() {
            return None;
        }
        let te = cut(&lower, &close, ts);
        let ghost cte = choose|j: int| #[trigger] cut_at(lower@, ">"@, ts as int, j);
        proof {
            lemma_cut_unique(lower@, ">"@, ts as int, te as int, cte);
        }
        if te >= lower.len() {
            return None;
        }
        let tag_lower = slice_of(&lower, ts, te);
        let named = contains_exec(&tag_lower, &a1) || contains_exec(&tag_lower, &a2);
        if named {
            let tag = string_of_range(&v, ts, te);
            let found = extract_attr_value(tag.as_str(), "content");
            if found.is_some() {
                return found;
            }
        }
        start = te + 1;
    }
    None
}

fn slice_of(v: &Vec<char>, from: usize, to: usize) -> (r: Vec<char>)
    requires
        from <= to <= v@.len(),
    ensures
        r@ == v@.subrange(from as int, to as int),
{
    let mut out: Vec<char> = Vec::new();
    let mut i = from;
    while i < to
        invariant
            from <= i <= to <= v@.len(),
            out@ == v@.subrange(from as int, i as int),
        decreases to - i,
    {
        out.push(v[i]);
        i += 1;
        assert(out@ =~= v@.subrange(from as int, i as int));
    }
    out
}

} // verus!
