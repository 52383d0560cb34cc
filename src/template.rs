//! Remote command templates: `{key}` placeholders filled with values.

use vstd::prelude::*;
use crate::text::{chars_of, cut_at, find_from, occurs_at, string_of};

verus! {

/// `s` from position `i` on, with every occurrence of `p` replaced by `r`,
/// left to right, as `str::replace` does for a pattern that is not empty.
pub open spec fn replace_from(s: Seq<char>, p: Seq<char>, r: Seq<char>, i: int) -> Seq<char>
    decreases s.len() - i,
{
    if i < 0 || i > s.len() {
        Seq::empty()
    } else if p.len() == 0 {
        s.subrange(i, s.len() as int)
    } else {
        let j = choose|j: int| #[trigger] cut_at(s, p, i, j);
        if cut_at(s, p, i, j) && j < s.len() {
            s.subrange(i, j) + r + replace_from(s, p, r, j + p.len())
        } else {
            s.subrange(i, s.len() as int)
        }
    }
}

/// `s` with every occurrence of `p` replaced by `r`.
pub open spec fn replace_all(s: Seq<char>, p: Seq<char>, r: Seq<char>) -> Seq<char> {
    replace_from(s, p, r, 0)
}

/// The placeholder for `key`.
pub open spec fn placeholder(key: Seq<char>) -> Seq<char> {
    seq!['{'] + key + seq!['}']
}

/// The template with the replacements made one after the other, in order.
pub open spec fn rendered(template: Seq<char>, reps: Seq<(Seq<char>, Seq<char>)>) -> Seq<char>
    decreases reps.len(),
{
    if reps.len() == 0 {
        template
    } else {
        replace_all(rendered(template, reps.drop_last()), placeholder(reps.last().0), reps.last().1)
    }
}

fn replace_all_exec(s: &Vec<char>, p: &Vec<char>, r: &Vec<char>) -> (out: Vec<char>)
    requires
        p@.len() > 0,
    ensures
        out@ == replace_all(s@, p@, r@),
{
    let mut out: Vec<char> = Vec::new();
    let mut i: usize = 0;
    while i <= s.len()
        invariant
            p@.len() > 0,
            i <= s@.len(),
            out@ + replace_from(s@, p@, r@, i as int) == replace_all(s@, p@, r@),
        decreases s@.len() + 1 - i,
    {
        let j = match find_from(s, p, i) {
            Some(j) => j,
            None => s.len(),
        };
        let ghost cj = choose|k: int| #[trigger] cut_at(s@, p@, i as int, k);
        assert(cut_at(s@, p@, i as int, j as int));
        assert(cj == j as int) by {
            if cj < j {
                assert(!occurs_at(s@, p@, cj));
            } else if cj > j {
                assert(!occurs_at(s@, p@, j as int));
            }
        }
        let ghost before = out@;
        let mut k = i;
        while k < j
            invariant
                i <= k <= j <= s@.len(),
                out@ == before + s@.subrange(i as int, k as int),
            decreases j - k,
        {
            out.push(s[k]);
            k += 1;
            assert(out@ =~= before + s@.subrange(i as int, k as int));
        }
        if j == s.len() {
            assert(out@ + Seq::<char>::empty() =~= out@);
            assert(out@ =~= before + replace_from(s@, p@, r@, i as int));
            return out;
        }
        let ghost mid = out@;
        let mut m: usize = 0;
        while m < r.len()
            invariant
                m <= r@.len(),
                out@ == mid + r@.subrange(0, m as int),
            decreases r@.len() - m,
        {
            out.push(r[m]);
            m += 1;
            assert(out@ =~= mid + r@.subrange(0, m as int));
        }
        assert(r@.subrange(0, r@.len() as int) =~= r@);
        assert(j + p@.len() <= s.len());
        assert(before + replace_from(s@, p@, r@, i as int) =~= out@ + replace_from(
            s@,
            p@,
            r@,
            j + p@.len(),
        ));
        i = j + p.len();
    }
    out
}

/// Fills a remote command template: each `{key}` becomes its value, for each
/// pair in order.
pub fn render_template(template: &str, replacements: &[(&str, &str)]) -> (r: String)
    ensures
        r@ == rendered(
            template@,
            replacements@.map_values(|kv: (&str, &str)| (kv.0@, kv.1@)),
        ),
{
    let ghost reps = replacements@.map_values(|kv: (&str, &str)| (kv.0@, kv.1@));
    let mut out = chars_of(template);
    let mut i: usize = 0;
    while i < replacements.len()
        invariant
            i <= replacements@.len(),
            reps == replacements@.map_values(|kv: (&str, &str)| (kv.0@, kv.1@)),
            out@ == rendered(template@, reps.subrange(0, i as int)),
        decreases replacements@.len() - i,
    {
        let (key, value) = replacements[i];
        let mut pat: Vec<char> = Vec::new();
        pat.push('{');
        let kc = chars_of(key);
        let mut k: usize = 0;
        while k < kc.len()
            invariant
                k <= kc@.len(),
                pat@ == seq!['{'] + kc@.subrange(0, k as int),
            decreases kc@.len() - k,
        {
            pat.push(kc[k]);
            k += 1;
            assert(pat@ =~= seq!['{'] + kc@.subrange(0, k as int));
        }
        pat.push('}');
        assert(kc@.subrange(0, kc@.len() as int) =~= kc@);
        assert(pat@ =~= placeholder(key@));
        let vc = chars_of(value);
        out = replace_all_exec(&out, &pat, &vc);
        assert(reps.subrange(0, i + 1).drop_last() =~= reps.subrange(0, i as int));
        i += 1;
    }
    assert(reps.subrange(0, replacements@.len() as int) =~= reps);
    string_of(&out)
}

} // verus!
