//! Remarks: what a report holds after its "RMK" token.

use crate::text::chars_of;
use vstd::prelude::*;
use vstd::string::*;

verus! {

/// Unicode white space, the characters that separate tokens.
pub open spec fn is_space(c: char) -> bool {
    ('\u{9}' <= c && c <= '\u{d}') || c == ' ' || c == '\u{85}' || c == '\u{a0}' || c
        == '\u{1680}' || ('\u{2000}' <= c && c <= '\u{200a}') || c == '\u{2028}' || c
        == '\u{2029}' || c == '\u{202f}' || c == '\u{205f}' || c == '\u{3000}'
}

fn is_space_exec(c: char) -> (r: bool)
    ensures
        r == is_space(c),
{
    ('\u{9}' <= c && c <= '\u{d}') || c == ' ' || c == '\u{85}' || c == '\u{a0}' || c
        == '\u{1680}' || ('\u{2000}' <= c && c <= '\u{200a}') || c == '\u{2028}' || c
        == '\u{2029}' || c == '\u{202f}' || c == '\u{205f}' || c == '\u{3000}'
}

/// The tokens of `s`: its maximal runs of characters that are not white
/// space, in order.
pub open spec fn tokens_of(s: Seq<char>) -> Seq<Seq<char>>
    decreases s.len(),
{
    if s.len() == 0 {
        Seq::empty()
    } else {
        let prev = tokens_of(s.drop_last());
        if is_space(s.last()) {
            prev
        } else if s.len() >= 2 && !is_space(s[s.len() - 2]) {
            prev.update(prev.len() - 1, prev.last().push(s.last()))
        } else {
            prev.push(seq![s.last()])
        }
    }
}

/// Tokens joined by single spaces.
pub open spec fn join_spaced(ts: Seq<Seq<char>>) -> Seq<char>
    decreases ts.len(),
{
    if ts.len() == 0 {
        Seq::empty()
    } else if ts.len() == 1 {
        ts[0]
    } else {
        join_spaced(ts.drop_last()) + seq![' '] + ts.last()
    }
}

pub open spec fn first_rmk(ts: Seq<Seq<char>>, p: int) -> bool {
    &&& 0 <= p < ts.len()
    &&& ts[p] == "RMK"@
    &&& forall|q: int| 0 <= q < p ==> ts[q] != "RMK"@
}

/// The tokens after the first "RMK" token, joined by single spaces; empty
/// when "RMK" is the last token, absent when no token is "RMK".
pub open spec fn remarks_of(s: Seq<char>) -> Option<Seq<char>> {
    let ts = tokens_of(s);
    if exists|p: int| first_rmk(ts, p) {
        let p = choose|p: int| first_rmk(ts, p);
        Some(join_spaced(ts.subrange(p + 1, ts.len() as int)))
    } else {
        None
    }
}

/// Where the tokens of `s` start and end, as `[start, end)` pairs.
fn token_spans(s: &str, cs: &Vec<char>) -> (r: Vec<(usize, usize)>)
    requires
        cs@ == s@,
    ensures
        r@.len() == tokens_of(s@).len(),
        forall|k: int|
            0 <= k < r@.len() ==> {
                let (a, b) = #[trigger] r@[k];
                &&& a <= b <= s@.len()
                &&& tokens_of(s@)[k] == s@.subrange(a as int, b as int)
            },
{
    let n = cs.len();
    let mut spans: Vec<(usize, usize)> = Vec::new();
    let mut i: usize = 0;
    while i < n
        invariant
            n == s@.len(),
            cs@ == s@,
            i <= n,
            spans@.len() == tokens_of(s@.take(i as int)).len(),
            forall|k: int|
                0 <= k < spans@.len() ==> {
                    let (a, b) = #[trigger] spans@[k];
                    &&& a <= b <= i
                    &&& tokens_of(s@.take(i as int))[k] == s@.subrange(a as int, b as int)
                },
            i > 0 && !is_space(s@[i - 1]) ==> spans@.len() > 0 && spans@.last().1 == i,
        decreases n - i,
    {
        let ghost t = s@.take(i + 1);
        let ghost prev = tokens_of(s@.take(i as int));
        proof {
            assert(t.drop_last() =~= s@.take(i as int));
            assert(t.last() == s@[i as int]);
            if i > 0 {
                assert(t[t.len() - 2] == s@[i - 1]);
            }
        }
        let c = cs[i];
        if is_space_exec(c) {
        } else if i > 0 && !is_space_exec(cs[i - 1]) {
            let last = spans.len() - 1;
            let (a, _) = spans[last];
            spans.set(last, (a, i + 1));
            proof {
                assert(s@.subrange(a as int, i + 1) =~= s@.subrange(a as int, i as int).push(c));
                assert(tokens_of(t) == prev.update(prev.len() - 1, prev.last().push(c)));
            }
        } else {
            spans.push((i, i + 1));
            proof {
                assert(s@.subrange(i as int, i + 1) =~= seq![c]);
            }
        }
        i += 1;
    }
    proof {
        assert(s@.take(n as int) =~= s@);
    }
    spans
}

/// The remarks of a report text.
pub fn extract_remarks(raw: &str) -> (r: Option<String>)
    ensures
        r.deep_view() == remarks_of(raw@),
{
    let cs = chars_of(raw);
    let spans = token_spans(raw, &cs);
    let ghost ts = tokens_of(raw@);
    let m = spans.len();
    proof {
        reveal_strlit("RMK");
    }
    let mut p: usize = 0;
    while p < m
        invariant
            m == spans@.len(),
            m == ts.len(),
            ts == tokens_of(raw@),
            cs@ == raw@,
            "RMK"@ == seq!['R', 'M', 'K'],
            forall|k: int|
                0 <= k < m ==> {
                    let (a, b) = #[trigger] spans@[k];
                    &&& a <= b <= raw@.len()
                    &&& ts[k] == raw@.subrange(a as int, b as int)
                },
            forall|q: int| 0 <= q < p ==> ts[q] != "RMK"@,
        decreases m - p,
    {
        let (a, b) = spans[p];
        let ghost tok = ts[p as int];
        assert(spans@[p as int] == (a, b));
        let is_rmk = b - a == 3 && cs[a] == 'R' && cs[a + 1] == 'M' && cs[a + 2] == 'K';
        proof {
            assert(tok.len() == b - a);
            if is_rmk {
                assert(tok =~= "RMK"@);
            } else if tok.len() == 3 {
                assert(tok[0] == cs@[a as int]);
                assert(tok[1] == cs@[a + 1]);
                assert(tok[2] == cs@[a + 2]);
            }
        }
        if is_rmk {
            proof {
                assert(first_rmk(ts, p as int));
                let c = choose|q: int| first_rmk(ts, q);
                assert(c == p) by {
                    if c < p {
                    } else if c > p {
                        assert(ts[p as int] == "RMK"@);
                    }
                }
            }
            let mut r = String::new();
            let mut j: usize = p + 1;
            proof {
                assert(ts.subrange(p + 1, j as int) =~= Seq::<Seq<char>>::empty());
                reveal_strlit(" ");
            }
            while j < m
                invariant
                    p < j <= m,
                    m == spans@.len(),
                    m == ts.len(),
                    " "@ == seq![' '],
                    forall|k: int|
                        0 <= k < m ==> {
                            let (a, b) = #[trigger] spans@[k];
                            &&& a <= b <= raw@.len()
                            &&& ts[k] == raw@.subrange(a as int, b as int)
                        },
                    r@ == join_spaced(ts.subrange(p + 1, j as int)),
                decreases m - j,
            {
                let (a, b) = spans[j];
                proof {
                    assert(spans@[j as int] == (a, b));
                    assert(ts.subrange(p + 1, j + 1).drop_last() =~= ts.subrange(p + 1, j as int));
                    assert(ts.subrange(p + 1, j + 1).last() == ts[j as int]);
                }
                if j > p + 1 {
                    r.append(" ");
                }
                r.append(raw.substring_char(a, b));
                proof {
                    if j == p + 1 {
                        assert(r@ =~= ts[j as int]);
                    }
                }
                j += 1;
            }
            return Some(r);
        }
        p += 1;
    }
    None
}

} // verus!
