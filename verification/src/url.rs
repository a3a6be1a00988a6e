//! Reformatting of an extracted raw URL: the domain part (stored in
//! reversed, domain-index order, often with a trailing dot) is re-reversed
//! and re-joined to its scheme.

use vstd::prelude::*;
use vstd::string::*;

verus! {

// ---------------------------------------------------------------------------
// The scheme separator `://`.
// ---------------------------------------------------------------------------

pub open spec fn sep_match_at(s: Seq<char>, p: int) -> bool {
    0 <= p && p + 3 <= s.len() && s[p] == ':' && s[p + 1] == '/' && s[p + 2] == '/'
}

/// All positions at or after `i` where the separator occurs. (Occurrences
/// cannot overlap: the separator's first character differs from its
/// others.)
pub open spec fn sep_positions_from(s: Seq<char>, i: int) -> Seq<int>
    decreases s.len() - i when i <= s.len()
{
    if i + 3 > s.len() {
        Seq::empty()
    } else if sep_match_at(s, i) {
        seq![i] + sep_positions_from(s, i + 1)
    } else {
        sep_positions_from(s, i + 1)
    }
}

/// All positions where the separator occurs.
pub open spec fn sep_positions(s: Seq<char>) -> Seq<int> {
    sep_positions_from(s, 0)
}

/// Positions as mathematical integers.
pub open spec fn int_positions(v: Seq<usize>) -> Seq<int> {
    v.map_values(|x: usize| x as int)
}

// ---------------------------------------------------------------------------
// Trailing dots, and reversing dot-separated segments.
// ---------------------------------------------------------------------------

/// The sequence with every trailing `.` removed.
pub open spec fn trim_dots(s: Seq<char>) -> Seq<char>
    decreases s.len(),
{
    if s.len() > 0 && s.last() == '.' {
        trim_dots(s.drop_last())
    } else {
        s
    }
}

/// Index of the last `.`, or `-1` when there is none.
pub open spec fn last_dot(s: Seq<char>) -> int
    decreases s.len(),
{
    if s.len() == 0 {
        -1
    } else if s.last() == '.' {
        s.len() - 1
    } else {
        last_dot(s.drop_last())
    }
}

pub proof fn lemma_last_dot_range(s: Seq<char>)
    ensures
        -1 <= last_dot(s) < s.len(),
        last_dot(s) >= 0 ==> s[last_dot(s)] == '.',
    decreases s.len(),
{
    if s.len() > 0 && s.last() != '.' {
        lemma_last_dot_range(s.drop_last());
    }
}

/// The dot-separated segments of `s`, in reverse order, re-joined with `.`:
/// the segment after the last dot comes first, then the rest, recursively.
pub open spec fn rev_dot(s: Seq<char>) -> Seq<char>
    decreases s.len(),
    via rev_dot_decreases
{
    if last_dot(s) < 0 {
        s
    } else {
        s.subrange(last_dot(s) + 1, s.len() as int) + "."@ + rev_dot(s.take(last_dot(s)))
    }
}

#[via_fn]
proof fn rev_dot_decreases(s: Seq<char>) {
    lemma_last_dot_range(s);
}

// ---------------------------------------------------------------------------
// The reformatting itself.
// ---------------------------------------------------------------------------

/// What reformatting yields: when the text holds exactly one `://`, the
/// scheme before it, the separator, and the domain after it with trailing
/// dots removed and its dot-separated segments reversed; any other text is
/// returned unchanged (no scheme to split on).
pub open spec fn reformat_spec(s: Seq<char>) -> Seq<char> {
    let ps = sep_positions(s);
    if ps.len() != 1 {
        s
    } else {
        s.take(ps[0]) + "://"@ + rev_dot(trim_dots(s.subrange(ps[0] + 3, s.len() as int)))
    }
}

fn find_last_dot(s: &str) -> (r: Option<usize>)
    ensures
        match r {
            Some(j) => last_dot(s@) == j as int,
            None => last_dot(s@) == -1,
        },
{
    let n = s.unicode_len();
    let mut k = n;
    proof {
        assert(s@.take(n as int) =~= s@);
    }
    while k > 0
        invariant
            0 <= k <= n,
            n == s@.len(),
            last_dot(s@) == last_dot(s@.take(k as int)),
        decreases k,
    {
        let c = s.get_char(k - 1);
        proof {
            assert(s@.take(k as int).last() == s@[k - 1]);
            assert(s@.take(k as int).drop_last() =~= s@.take(k - 1));
        }
        if c == '.' {
            return Some(k - 1);
        }
        k -= 1;
    }
    None
}

/// Reverses the dot-separated segments of a domain string.
fn reverse_domain(s: &str) -> (r: String)
    ensures
        r@ == rev_dot(s@),
    decreases s@.len(),
{
    proof {
        lemma_last_dot_range(s@);
    }
    match find_last_dot(s) {
        None => s.to_owned(),
        Some(j) => {
            let n = s.unicode_len();
            let tail = s.substring_char(j + 1, n);
            let head = s.substring_char(0, j);
            proof {
                assert(head@ == s@.take(j as int));
            }
            let mut r = tail.to_owned();
            r.append(".");
            let rec = reverse_domain(head);
            r.append(rec.as_str());
            proof {
                assert(r@ =~= rev_dot(s@));
            }
            r
        },
    }
}

/// Reformats a raw URL: splits it on `://`, strips the domain's trailing
/// dots, reverses the domain's dot-separated segments, and re-joins the
/// scheme; text without exactly one `://` is returned unchanged.
pub fn reformat_url(raw: &str) -> (r: String)
    ensures
        r@ == reformat_spec(raw@),
{
    let ghost s = raw@;
    let n = raw.unicode_len();
    let mut ps: Vec<usize> = Vec::new();
    let mut i: usize = 0;
    if n >= 3 {
        while i <= n - 3
            invariant
                0 <= i,
                3 <= n,
                i <= n - 2,
                n == s.len(),
                s == raw@,
                forall|j: int| 0 <= j < ps@.len() ==> sep_match_at(s, ps@[j] as int),
                sep_positions(s) == int_positions(ps@) + sep_positions_from(s, i as int),
            decreases n - i,
        {
            let c0 = raw.get_char(i);
            let c1 = raw.get_char(i + 1);
            let c2 = raw.get_char(i + 2);
            let hit = c0 == ':' && c1 == '/' && c2 == '/';
            proof {
                assert(hit == sep_match_at(s, i as int));
            }
            if hit {
                let ghost ps0 = ps@;
                ps.push(i);
                proof {
                    assert(int_positions(ps@) =~= int_positions(ps0) + seq![i as int]);
                    assert(sep_positions(s) =~= int_positions(ps@) + sep_positions_from(
                        s,
                        i + 1,
                    ));
                }
            } else {
                proof {
                    assert(sep_positions_from(s, i as int) == sep_positions_from(s, i + 1));
                }
            }
            i += 1;
        }
    }
    proof {
        assert(sep_positions_from(s, i as int) =~= Seq::<int>::empty());
        assert(sep_positions(s) =~= int_positions(ps@));
        assert(sep_positions(s).len() == ps@.len());
    }
    if ps.len() != 1 {
        return raw.to_owned();
    }
    let p = ps[0];
    proof {
        assert(int_positions(ps@)[0] == p as int);
        assert(sep_match_at(s, p as int));
    }
    let scheme = raw.substring_char(0, p);
    let rest = raw.substring_char(p + 3, n);
    let ghost restv = s.subrange(p + 3, n as int);
    let rest_len = n - p - 3;
    let mut end = rest_len;
    proof {
        assert(restv.take(rest_len as int) =~= restv);
    }
    loop
        invariant
            0 <= end <= rest_len,
            rest_len == restv.len(),
            restv == rest@,
            trim_dots(restv) == trim_dots(restv.take(end as int)),
        ensures
            0 <= end <= rest_len,
            trim_dots(restv) == trim_dots(restv.take(end as int)),
            end > 0 ==> restv[end - 1] != '.',
        decreases end,
    {
        if end == 0 {
            break;
        }
        let c = rest.get_char(end - 1);
        if c != '.' {
            break;
        }
        proof {
            assert(restv.take(end as int).last() == restv[end - 1]);
            assert(restv.take(end as int).drop_last() =~= restv.take(end - 1));
        }
        end -= 1;
    }
    proof {
        if end > 0 {
            assert(restv.take(end as int).last() == restv[end - 1]);
        }
        assert(trim_dots(restv.take(end as int)) == restv.take(end as int));
    }
    let domain = rest.substring_char(0, end);
    proof {
        assert(domain@ == restv.take(end as int));
    }
    let reversed = reverse_domain(domain);
    let mut out = scheme.to_owned();
    out.append("://");
    out.append(reversed.as_str());
    proof {
        assert(out@ =~= reformat_spec(s));
    }
    out
}

} // verus!
