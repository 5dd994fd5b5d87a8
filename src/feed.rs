//! The text of a downloaded feed: a banner of five lines may precede the
//! table, and is taken off before the table is read.

use crate::text::{chars_of, text_eq};
use vstd::prelude::*;
use vstd::string::*;

verus! {

/// How many lines the banner takes.
pub const BANNER_LINES: usize = 5;

pub open spec fn no_break(s: Seq<char>) -> bool {
    forall|q: int| 0 <= q < s.len() ==> s[q] != '\n'
}

/// Whether "No errors" stands at `p`, within the first line.
pub open spec fn banner_at(s: Seq<char>, p: int) -> bool {
    &&& 0 <= p
    &&& p + 9 <= s.len()
    &&& s.subrange(p, p + 9) == "No errors"@
    &&& no_break(s.take(p + 9))
}

pub open spec fn has_banner(s: Seq<char>) -> bool {
    exists|p: int| banner_at(s, p)
}

/// How many line breaks `s` holds.
pub open spec fn break_count(s: Seq<char>) -> nat
    decreases s.len(),
{
    if s.len() == 0 {
        0
    } else if s.last() == '\n' {
        break_count(s.drop_last()) + 1
    } else {
        break_count(s.drop_last())
    }
}

/// Whether the line break at `p` ends line `k` (counting from zero).
pub open spec fn ends_line(s: Seq<char>, k: nat, p: int) -> bool {
    0 <= p < s.len() && s[p] == '\n' && break_count(s.take(p)) == k
}

/// Whether the line break at `p` ends the banner's last line.
pub open spec fn ends_banner(s: Seq<char>, p: int) -> bool {
    ends_line(s, (BANNER_LINES - 1) as nat, p)
}

/// The text after the banner's lines; empty when the text has fewer.
pub open spec fn after_banner(s: Seq<char>) -> Seq<char> {
    if exists|p: int| ends_banner(s, p) {
        let p = choose|p: int| ends_banner(s, p);
        s.skip(p + 1)
    } else {
        Seq::empty()
    }
}

pub open spec fn without_final_break(s: Seq<char>) -> Seq<char> {
    if s.len() > 0 && s.last() == '\n' {
        s.drop_last()
    } else {
        s
    }
}

/// The table part of a feed's text: with a banner on its first line, the
/// lines after the banner's, less one final line break; otherwise all of it.
pub open spec fn table_text(s: Seq<char>) -> Seq<char> {
    if has_banner(s) {
        without_final_break(after_banner(s))
    } else {
        s
    }
}

pub proof fn lemma_break_count_mono(s: Seq<char>, a: int, b: int)
    requires
        0 <= a <= b <= s.len(),
    ensures
        break_count(s.take(a)) <= break_count(s.take(b)),
    decreases b - a,
{
    if a < b {
        lemma_break_count_mono(s, a, b - 1);
        assert(s.take(b).drop_last() =~= s.take(b - 1));
    }
}

fn find_banner(s: &str, cs: &Vec<char>) -> (r: bool)
    requires
        cs@ == s@,
    ensures
        r == has_banner(s@),
{
    let n = cs.len();
    let mut e: usize = 0;
    while e < n && cs[e] != '\n'
        invariant
            e <= n,
            n == s@.len(),
            cs@ == s@,
            forall|q: int| 0 <= q < e ==> s@[q] != '\n',
        decreases n - e,
    {
        e += 1;
    }
    let mut p: usize = 0;
    while e >= 9 && p <= e - 9
        invariant
            e <= n,
            n == s@.len(),
            cs@ == s@,
            forall|q: int| 0 <= q < e ==> s@[q] != '\n',
            e < n ==> s@[e as int] == '\n',
            forall|q: int| 0 <= q < p ==> !banner_at(s@, q),
        decreases e - p,
    {
        let sub = s.substring_char(p, p + 9);
        if text_eq(sub, "No errors") {
            proof {
                assert(banner_at(s@, p as int));
            }
            return true;
        }
        p += 1;
    }
    proof {
        assert forall|q: int| !banner_at(s@, q) by {
            if q >= p && q >= 0 && q + 9 <= s@.len() && e < n {
                assert(q + 9 > e);
                assert(s@.take(q + 9)[e as int] == '\n');
            }
        }
    }
    false
}

fn find_banner_end(s: &str, cs: &Vec<char>) -> (r: Option<usize>)
    requires
        cs@ == s@,
    ensures
        match r {
            Some(p) => ends_banner(s@, p as int) && forall|q: int|
                0 <= q < p ==> !ends_banner(s@, q),
            None => forall|q: int| !ends_banner(s@, q),
        },
{
    let n = cs.len();
    let mut count: usize = 0;
    let mut i: usize = 0;
    while i < n
        invariant
            i <= n,
            n == s@.len(),
            cs@ == s@,
            count == break_count(s@.take(i as int)),
            count <= i,
            forall|q: int| 0 <= q < i ==> !ends_banner(s@, q),
        decreases n - i,
    {
        proof {
            assert(s@.take(i + 1).drop_last() =~= s@.take(i as int));
        }
        if cs[i] == '\n' {
            if count == BANNER_LINES - 1 {
                return Some(i);
            }
            count += 1;
        }
        i += 1;
    }
    None
}

/// Takes the banner off a feed's text.
pub fn strip_banner(contents: &str) -> (r: String)
    ensures
        r@ == table_text(contents@),
{
    let cs = chars_of(contents);
    let n = cs.len();
    if !find_banner(contents, &cs) {
        return String::from_str(contents);
    }
    match find_banner_end(contents, &cs) {
        None => {
            proof {
                reveal_strlit("");
            }
            String::from_str("")
        },
        Some(p) => {
            proof {
                let c = choose|q: int| ends_banner(contents@, q);
                if c > p {
                    lemma_break_count_mono(contents@, p + 1, c);
                    assert(contents@.take(p + 1).drop_last() =~= contents@.take(p as int));
                }
                assert(c == p);
            }
            let end = if n > p + 1 && cs[n - 1] == '\n' {
                n - 1
            } else {
                n
            };
            let rest = contents.substring_char(p + 1, end);
            proof {
                assert(rest@ =~= without_final_break(contents@.skip(p + 1)));
            }
            String::from_str(rest)
        },
    }
}

} // verus!
