//! Small text rules: base addresses, slugs, emoji addresses, titles.

use vstd::prelude::*;
use crate::html::{contains, contains_exec, lower_chars, lower_seq};
use crate::text::{
    chars_of, cut_at, find_from, first_at, matches_at, occurs_at, starts_with, string_of_range, trim,
    trim_bounds,
};

verus! {

/// `s` without the `c` characters at its end.
pub open spec fn strip_trailing(s: Seq<char>, c: char) -> Seq<char>
    decreases s.len(),
{
    if s.len() > 0 && s.last() == c {
        strip_trailing(s.drop_last(), c)
    } else {
        s
    }
}

fn trailing_end(v: &Vec<char>, c: char) -> (r: usize)
    ensures
        r <= v@.len(),
        v@.subrange(0, r as int) == strip_trailing(v@, c),
{
    let mut b = v.len();
    assert(v@.subrange(0, b as int) =~= v@);
    while b > 0 && v[b - 1] == c
        invariant
            b <= v@.len(),
            strip_trailing(v@, c) == strip_trailing(v@.subrange(0, b as int), c),
        decreases b,
    {
        assert(v@.subrange(0, b as int).drop_last() =~= v@.subrange(0, b - 1));
        b -= 1;
    }
    b
}

/// A base address without its trailing slashes.
pub fn normalize_baseurl(baseurl: &str) -> (r: String)
    ensures
        r@ == strip_trailing(baseurl@, '/'),
{
    let v = chars_of(baseurl);
    let b = trailing_end(&v, '/');
    string_of_range(&v, 0, b)
}

/// Whether `c` is an ASCII letter or digit.
pub open spec fn is_ascii_alnum(c: char) -> bool {
    ('a' <= c && c <= 'z') || ('A' <= c && c <= 'Z') || ('0' <= c && c <= '9')
}

/// The character of a slug that stands for `c`: an ASCII letter in lower
/// case, a digit as it is, anything else a dash.
pub open spec fn slug_char(c: char) -> char {
    if 'A' <= c && c <= 'Z' {
        ((c as u32) + 32) as char
    } else if is_ascii_alnum(c) {
        c
    } else {
        '-'
    }
}

/// The slug of a title: each character mapped by `slug_char`, trailing
/// dashes removed, and `untitled` where nothing is left.
pub open spec fn slug_of(s: Seq<char>) -> Seq<char> {
    let t = strip_trailing(s.map_values(|c: char| slug_char(c)), '-');
    if t.len() == 0 {
        "untitled"@
    } else {
        t
    }
}

fn slug_char_of(c: char) -> (r: char)
    ensures
        r == slug_char(c),
{
    if 'A' <= c && c <= 'Z' {
        let b = (c as u8) + 32;
        assert(b as u32 == (c as u32) + 32);
        b as char
    } else if ('a' <= c && c <= 'z') || ('0' <= c && c <= '9') {
        c
    } else {
        '-'
    }
}

/// A name fit for a file or an address, made from arbitrary text.
pub fn slugify(input: &str) -> (r: String)
    ensures
        r@ == slug_of(input@),
{
    let v = chars_of(input);
    let mut m: Vec<char> = Vec::new();
    let mut i: usize = 0;
    while i < v.len()
        invariant
            v@ == input@,
            i <= v@.len(),
            m@ == v@.subrange(0, i as int).map_values(|c: char| slug_char(c)),
        decreases v@.len() - i,
    {
        m.push(slug_char_of(v[i]));
        i += 1;
        assert(m@ =~= v@.subrange(0, i as int).map_values(|c: char| slug_char(c)));
    }
    assert(v@.subrange(0, v@.len() as int) =~= v@);
    let b = trailing_end(&m, '-');
    if b == 0 {
        String::from_str("untitled")
    } else {
        string_of_range(&m, 0, b)
    }
}

/// The full address of an emoji image: an absolute one as it is, a
/// scheme-relative one with the scheme of the base address (`https:` unless
/// that is `http://`), a rooted one after the base address, and any other
/// after the base address and a slash.
pub open spec fn emoji_url(baseurl: Seq<char>, url: Seq<char>) -> Seq<char> {
    if starts_with(url, "http://"@) || starts_with(url, "https://"@) {
        url
    } else if starts_with(url, "//"@) {
        (if starts_with(baseurl, "http://"@) {
            "http:"@
        } else {
            "https:"@
        }) + url
    } else if starts_with(url, "/"@) {
        baseurl + url
    } else {
        baseurl + "/"@ + url
    }
}

fn has_prefix(v: &Vec<char>, p: &str) -> (r: bool)
    ensures
        r == starts_with(v@, p@),
{
    let pv = chars_of(p);
    matches_at(v, &pv, 0)
}

/// Makes the address of an emoji image absolute against the forum's base
/// address.
pub fn normalize_emoji_url(baseurl: &str, url: &str) -> (r: String)
    ensures
        r@ == emoji_url(baseurl@, url@),
{
    let u = chars_of(url);
    let b = chars_of(baseurl);
    if has_prefix(&u, "http://") || has_prefix(&u, "https://") {
        String::from_str(url)
    } else if has_prefix(&u, "//") {
        let scheme = if has_prefix(&b, "http://") {
            String::from_str("http:")
        } else {
            String::from_str("https:")
        };
        scheme.concat(url)
    } else if has_prefix(&u, "/") {
        String::from_str(baseurl).concat(url)
    } else {
        String::from_str(baseurl).concat("/").concat(url)
    }
}

/// `s` cut at each line feed.
pub open spec fn split_lines(s: Seq<char>) -> Seq<Seq<char>>
    decreases s.len(),
{
    if s.len() == 0 {
        seq![Seq::empty()]
    } else {
        let rest = split_lines(s.drop_last());
        if s.last() == '\n' {
            rest.push(Seq::empty())
        } else {
            rest.update(rest.len() - 1, rest.last().push(s.last()))
        }
    }
}

/// The first line that is not blank.
pub open spec fn first_nonblank(lines: Seq<Seq<char>>) -> Option<Seq<char>>
    decreases lines.len(),
{
    if lines.len() == 0 {
        None
    } else {
        match first_nonblank(lines.drop_last()) {
            Some(l) => Some(l),
            None => if trim(lines.last()).len() > 0 {
                Some(lines.last())
            } else {
                None
            },
        }
    }
}

/// The title of a Markdown text: its first line that is not blank, when that
/// line is a level-one heading (`# ` once trimmed), without the `# `, trimmed.
pub open spec fn title_of(raw: Seq<char>) -> Option<Seq<char>> {
    match first_nonblank(split_lines(raw)) {
        Some(l) => if starts_with(trim(l), "# "@) {
            Some(trim(trim(l).subrange(2, trim(l).len() as int)))
        } else {
            None
        },
        None => None,
    }
}

proof fn lemma_split_lines_nonempty(s: Seq<char>)
    ensures
        split_lines(s).len() >= 1,
    decreases s.len(),
{
    if s.len() > 0 {
        lemma_split_lines_nonempty(s.drop_last());
    }
}

fn title_from_line(v: &Vec<char>, a: usize, b: usize) -> (r: Option<String>)
    requires
        a <= b <= v@.len(),
    ensures
        match r {
            Some(t) => starts_with(v@.subrange(a as int, b as int), "# "@) && t@ == trim(
                v@.subrange(a as int, b as int).subrange(2, (b - a) as int),
            ),
            None => !starts_with(v@.subrange(a as int, b as int), "# "@),
        },
{
    proof {
        reveal_strlit("# ");
    }
    let head = chars_of("# ");
    if b - a >= head.len() && matches_at(v, &head, a) {
        assert(v@.subrange(a as int, b as int).subrange(0, head@.len() as int) =~= v@.subrange(
            a as int,
            a + head@.len(),
        ));
        let (x, y) = trim_bounds(v, a + head.len(), b);
        assert(v@.subrange(a as int, b as int).subrange(2, (b - a) as int) =~= v@.subrange(
            a + 2,
            b as int,
        )) by {
            assert(head@.len() == 2) by {
                reveal_strlit("# ");
            }
        }
        Some(string_of_range(v, x, y))
    } else {
        proof {
            if b - a >= head@.len() {
                assert(v@.subrange(a as int, b as int).subrange(0, head@.len() as int) =~= v@.subrange(
                    a as int,
                    a + head@.len(),
                ));
            }
        }
        None
    }
}

/// The bounds of the first line of `v` that is not blank.
fn first_nonblank_line(v: &Vec<char>) -> (r: Option<(usize, usize)>)
    ensures
        match r {
            Some((a, b)) => a <= b <= v@.len() && first_nonblank(split_lines(v@)) == Some(
                v@.subrange(a as int, b as int),
            ),
            None => first_nonblank(split_lines(v@)) is None,
        },
{
    let mut start: usize = 0;
    let mut i: usize = 0;
    assert(split_lines(v@.subrange(0, 0)) =~= seq![Seq::<char>::empty()]);
    while i <= v.len()
        invariant
            start <= i,
            i <= v@.len(),
            split_lines(v@.subrange(0, i as int)).len() >= 1,
            split_lines(v@.subrange(0, i as int)).last() == v@.subrange(start as int, i as int),
            first_nonblank(split_lines(v@.subrange(0, i as int)).drop_last()) is None,
        decreases v@.len() + 1 - i,
    {
        let ghost pre = v@.subrange(0, i as int);
        proof {
            lemma_split_lines_nonempty(pre);
        }
        let at_end = i == v.len();
        if at_end || v[i] == '\n' {
            let (a, b) = trim_bounds(v, start, i);
            if a < b {
                proof {
                    if at_end {
                        assert(pre =~= v@);
                    }
                    assert(first_nonblank(split_lines(pre)) == Some(v@.subrange(start as int, i as int)));
                    if !at_end {
                        let next = v@.subrange(0, i + 1);
                        assert(next.drop_last() =~= pre);
                        assert(split_lines(next).drop_last() =~= split_lines(pre));
                        lemma_first_nonblank_prefix(
                            v@,
                            (i + 1) as nat,
                            v@.subrange(start as int, i as int),
                        );
                    }
                }
                return Some((start, i));
            }
            if at_end {
                assert(pre =~= v@);
                return None;
            } else {
                let ghost next = v@.subrange(0, i + 1);
                assert(next.drop_last() =~= pre);
                assert(split_lines(next).drop_last() =~= split_lines(pre));
                start = i + 1;
                i += 1;
                assert(v@.subrange(start as int, i as int) =~= Seq::<char>::empty());
            }
        } else {
            let ghost next = v@.subrange(0, i + 1);
            assert(next.drop_last() =~= pre);
            assert(split_lines(next).drop_last() =~= split_lines(pre).drop_last());
            assert(v@.subrange(start as int, i + 1) =~= v@.subrange(start as int, i as int).push(
                v[i as int],
            ));
            i += 1;
        }
    }
    None
}

/// The title of a Markdown text, from its first heading line.
pub fn extract_title(raw: &str) -> (r: Option<String>)
    ensures
        opt_string_view(r) == title_of(raw@),
{
    let v = chars_of(raw);
    match first_nonblank_line(&v) {
        None => None,
        Some((start, end)) => {
            let (a, b) = trim_bounds(&v, start, end);
            title_from_line(&v, a, b)
        },
    }
}

/// Whether pasted text is a CSV table: its first line that is not blank
/// names a `name` and a `url` column (in any ASCII case) and holds a comma.
pub open spec fn csv_like(raw: Seq<char>) -> bool {
    match first_nonblank(split_lines(raw)) {
        Some(l) => contains(lower_seq(l), "name"@) && contains(lower_seq(l), "url"@) && contains(
            l,
            ","@,
        ),
        None => false,
    }
}

/// Whether pasted text looks like a CSV table rather than a list of
/// addresses.
pub fn looks_like_csv(raw: &str) -> (r: bool)
    ensures
        r == csv_like(raw@),
{
    let v = chars_of(raw);
    match first_nonblank_line(&v) {
        None => false,
        Some((a, b)) => {
            let line = string_of_range(&v, a, b);
            let lv = chars_of(line.as_str());
            let lower = lower_chars(&lv);
            let name = chars_of("name");
            let url = chars_of("url");
            let comma = chars_of(",");
            contains_exec(&lower, &name) && contains_exec(&lower, &url) && contains_exec(&lv, &comma)
        },
    }
}

/// The view of an optional string.
pub open spec fn opt_string_view(o: Option<String>) -> Option<Seq<char>> {
    match o {
        Some(s) => Some(s@),
        None => None,
    }
}

/// Once a complete line is not blank, the first such line stays the same
/// however the text goes on.
proof fn lemma_first_nonblank_prefix(s: Seq<char>, i: nat, l: Seq<char>)
    requires
        i <= s.len(),
        first_nonblank(split_lines(s.subrange(0, i as int)).drop_last()) == Some(l),
    ensures
        first_nonblank(split_lines(s)) == Some(l),
    decreases s.len() - i,
{
    let pre = s.subrange(0, i as int);
    lemma_split_lines_nonempty(pre);
    if i < s.len() {
        let next = s.subrange(0, (i + 1) as int);
        assert(next.drop_last() =~= pre);
        let lines = split_lines(pre);
        assert(lines.push(Seq::empty()).drop_last() =~= lines);
        assert(lines.update(lines.len() - 1, lines.last().push(next.last())).drop_last()
            =~= lines.drop_last());
        lemma_first_nonblank_prefix(s, i + 1, l);
    } else {
        assert(pre =~= s);
    }
}

/// Where a backup is kept, read from its address: `local` for a path, the
/// host after the first `//` (up to the next `/`), else the address itself,
/// trimmed.
pub open spec fn location_of(url: Seq<char>) -> Seq<char> {
    let t = trim(url);
    if starts_with(t, "/"@) {
        "local"@
    } else if exists|i: int| first_at(t, "//"@, i) {
        let i = choose|i: int| first_at(t, "//"@, i);
        let j = choose|j: int| #[trigger] cut_at(t, "/"@, i + 2, j);
        t.subrange(i + 2, j)
    } else {
        t
    }
}

/// Where a backup is kept, from its address.
pub fn location_from_url(url: &str) -> (r: String)
    ensures
        r@ == location_of(url@),
{
    proof {
        reveal_strlit("//");
    }
    let v = chars_of(url);
    let (a, b) = trim_bounds(&v, 0, v.len());
    assert(v@.subrange(0, v@.len() as int) =~= v@);
    let t = string_of_range(&v, a, b);
    let tv = chars_of(t.as_str());
    if has_prefix(&tv, "/") {
        return String::from_str("local");
    }
    let dbl = chars_of("//");
    let slash = chars_of("/");
    match find_from(&tv, &dbl, 0) {
        None => {
            assert(forall|k: int| !first_at(t@, "//"@, k));
            t
        },
        Some(i) => {
            let ghost ci = choose|k: int| first_at(t@, "//"@, k);
            assert(first_at(t@, "//"@, i as int));
            assert(ci == i as int) by {
                if ci < i {
                    assert(!occurs_at(t@, "//"@, ci));
                } else if ci > i {
                    assert(!occurs_at(t@, "//"@, i as int));
                }
            }
            assert(i + 2 <= tv.len());
            let j = match find_from(&tv, &slash, i + 2) {
                Some(j) => j,
                None => tv.len(),
            };
            let ghost cj = choose|k: int| #[trigger] cut_at(t@, "/"@, i + 2, k);
            assert(cut_at(t@, "/"@, i + 2, j as int));
            assert(cj == j as int) by {
                if cj < j {
                    assert(!occurs_at(t@, "/"@, cj));
                } else if cj > j {
                    assert(!occurs_at(t@, "/"@, j as int));
                }
            }
            string_of_range(&tv, i + 2, j)
        },
    }
}

} // verus!
