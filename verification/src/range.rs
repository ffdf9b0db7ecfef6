//! Parsing of the HTTP `Range` header: `bytes=<start>-<end>` where either
//! side may be empty. The result is a candidate byte interval; callers
//! re-validate it against the file size before serving partial content.

use vstd::prelude::*;

verus! {

use vstd::string::StringSliceAdditionalSpecFns;

/// An ASCII decimal digit.
pub open spec fn is_digit(b: u8) -> bool {
    48 <= b <= 57
}

pub open spec fn all_digits(s: Seq<u8>) -> bool {
    forall|i: int| 0 <= i < s.len() ==> is_digit(s[i])
}

/// Value of a digit string, most significant digit first.
pub open spec fn digits_value(s: Seq<u8>) -> int
    decreases s.len(),
{
    if s.len() == 0 {
        0
    } else {
        digits_value(s.drop_last()) * 10 + (s.last() - 48)
    }
}

/// What `str::parse::<u64>` accepts: an optional leading `+`, then one or
/// more digits, and a value that fits in a `u64`.
pub open spec fn spec_parse_u64(s: Seq<u8>) -> Option<u64> {
    let t = if s.len() > 0 && s[0] == 43 {
        s.drop_first()
    } else {
        s
    };
    if t.len() > 0 && all_digits(t) && digits_value(t) <= u64::MAX {
        Some(digits_value(t) as u64)
    } else {
        None
    }
}

proof fn lemma_digits_value_nonneg(s: Seq<u8>)
    requires
        all_digits(s),
    ensures
        digits_value(s) >= 0,
    decreases s.len(),
{
    if s.len() > 0 {
        assert(all_digits(s.drop_last()));
        lemma_digits_value_nonneg(s.drop_last());
    }
}

/// A digit string is worth at least as much as any of its prefixes.
proof fn lemma_digits_value_take_le(s: Seq<u8>, j: int)
    requires
        all_digits(s),
        0 <= j <= s.len(),
    ensures
        digits_value(s.take(j)) <= digits_value(s),
    decreases s.len() - j,
{
    if j == s.len() {
        assert(s.take(j) =~= s);
    } else {
        assert(s.take(j + 1).drop_last() =~= s.take(j));
        assert(all_digits(s.take(j)));
        lemma_digits_value_nonneg(s.take(j));
        assert(digits_value(s.take(j + 1)) == digits_value(s.take(j)) * 10 + (s[j] - 48));
        lemma_digits_value_take_le(s, j + 1);
    }
}

/// Parses an unsigned decimal number as `str::parse::<u64>` would.
fn parse_u64(s: &[u8]) -> (r: Option<u64>)
    ensures
        r == spec_parse_u64(s@),
{
    let mut i: usize = 0;
    if s.len() > 0 && s[0] == 43 {
        i = 1;
    }
    let ghost off = i as int;
    let ghost t = s@.subrange(off, s@.len() as int);
    assert(t =~= if s@.len() > 0 && s@[0] == 43 { s@.drop_first() } else { s@ });
    if i == s.len() {
        return None;
    }
    let mut val: u64 = 0;
    while i < s.len()
        invariant
            0 <= off <= i <= s@.len(),
            t == s@.subrange(off, s@.len() as int),
            t == (if s@.len() > 0 && s@[0] == 43 {
                s@.drop_first()
            } else {
                s@
            }),
            all_digits(s@.subrange(off, i as int)),
            val == digits_value(s@.subrange(off, i as int)),
        decreases s@.len() - i,
    {
        let b = s[i];
        let ghost pre = s@.subrange(off, i as int);
        assert(s@.subrange(off, i + 1) =~= pre.push(b));
        assert(s@.subrange(off, i + 1).drop_last() =~= pre);
        if !(48 <= b && b <= 57) {
            assert(!all_digits(t)) by {
                assert(t[i - off] == s@[i as int]);
            }
            return None;
        }
        let d: u64 = (b - 48) as u64;
        let next = match val.checked_mul(10) {
            Some(v) => v.checked_add(d),
            None => None,
        };
        match next {
            Some(v) => {
                val = v;
            }
            None => {
                // The prefix already exceeds u64::MAX, so the whole string does.
                assert(digits_value(s@.subrange(off, i + 1)) > u64::MAX);
                proof {
                    if all_digits(t) {
                        assert(s@.subrange(off, i + 1) =~= t.take(i + 1 - off));
                        lemma_digits_value_take_le(t, i + 1 - off);
                    }
                }
                return None;
            }
        }
        i += 1;
    }
    assert(s@.subrange(off, i as int) =~= t);
    Some(val)
}

/// Number of `-` bytes in a sequence.
pub open spec fn dash_count(s: Seq<u8>) -> int
    decreases s.len(),
{
    if s.len() == 0 {
        0
    } else {
        dash_count(s.drop_last()) + if s.last() == 45 {
            1int
        } else {
            0int
        }
    }
}

/// Index of the first `-` byte, or -1 if there is none.
pub open spec fn first_dash(s: Seq<u8>) -> int
    decreases s.len(),
{
    if s.len() == 0 {
        -1
    } else if s[0] == 45 {
        0
    } else {
        let r = first_dash(s.drop_first());
        if r < 0 {
            -1
        } else {
            1 + r
        }
    }
}

proof fn lemma_first_dash_push(s: Seq<u8>, x: u8)
    ensures
        first_dash(s.push(x)) == if first_dash(s) >= 0 {
            first_dash(s)
        } else if x == 45 {
            s.len() as int
        } else {
            -1
        },
    decreases s.len(),
{
    let sp = s.push(x);
    assert(sp.len() == s.len() + 1);
    if s.len() == 0 {
        assert(sp[0] == x);
        if x != 45 {
            assert(sp.drop_first() =~= Seq::<u8>::empty());
            assert(first_dash(sp.drop_first()) == -1);
        }
    } else {
        assert(sp[0] == s[0]);
        assert(sp.drop_first() =~= s.drop_first().push(x));
        lemma_first_dash_push(s.drop_first(), x);
        if s[0] != 45 {
            let r = first_dash(sp.drop_first());
            assert(first_dash(sp) == if r < 0 {
                -1int
            } else {
                1 + r
            });
            let r0 = first_dash(s.drop_first());
            assert(first_dash(s) == if r0 < 0 {
                -1int
            } else {
                1 + r0
            });
        }
    }
}

/// `bytes=` in ASCII.
pub open spec fn has_bytes_prefix(h: Seq<u8>) -> bool {
    &&& h.len() >= 6
    &&& h[0] == 98
    &&& h[1] == 121
    &&& h[2] == 116
    &&& h[3] == 101
    &&& h[4] == 115
    &&& h[5] == 61
}

/// The candidate byte interval named by a `Range` header, given the file
/// size, before the caller's final satisfiability check:
/// - `bytes=a-b` (both sides present) with `a <= b`: the interval `[a, b]`;
/// - `bytes=a-` (end side empty) with `a < size`: the tail `[a, size-1]`;
/// - `bytes=-n` (start side empty) with `n != 0`: the last `min(n, size)`
///   bytes (for an empty file this degenerates to `(0, 0)`, which no file
///   size satisfies);
/// - anything else (bad prefix, not exactly one dash, a non-numeric or
///   overflowing non-empty side, inconsistent numbers): no range, meaning a
///   full-content response.
pub open spec fn spec_parse_range(h: Seq<u8>, file_size: u64) -> Option<(u64, u64)> {
    if !has_bytes_prefix(h) {
        None
    } else {
        let rest = h.skip(6);
        if dash_count(rest) != 1 {
            None
        } else {
            let d = first_dash(rest);
            let start_txt = rest.take(d);
            let end_txt = rest.skip(d + 1);
            let s0 = spec_parse_u64(start_txt);
            let e0 = spec_parse_u64(end_txt);
            if start_txt.len() > 0 && end_txt.len() > 0 {
                if s0 is Some && e0 is Some && s0->0 <= e0->0 {
                    Some((s0->0, e0->0))
                } else {
                    None
                }
            } else if start_txt.len() > 0 {
                if s0 is Some && s0->0 < file_size {
                    Some((s0->0, (file_size - 1) as u64))
                } else {
                    None
                }
            } else if end_txt.len() > 0 {
                if e0 is None || e0->0 == 0 {
                    None
                } else if file_size == 0 {
                    Some((0, 0))
                } else {
                    let sz = if file_size < e0->0 {
                        file_size
                    } else {
                        e0->0
                    };
                    Some(((file_size - sz) as u64, (file_size - 1) as u64))
                }
            } else {
                None
            }
        }
    }
}

/// Decimal rendering of a non-negative number, most significant digit first.
pub open spec fn spec_dec(n: int) -> Seq<u8>
    decreases n,
{
    if n < 10 {
        seq![(48 + if n >= 0 {
            n
        } else {
            0
        }) as u8]
    } else {
        spec_dec(n / 10).push((48 + n % 10) as u8)
    }
}

/// Renders a number in decimal.
pub fn u64_to_dec(n: u64) -> (r: Vec<u8>)
    ensures
        r@ == spec_dec(n as int),
    decreases n,
{
    if n < 10 {
        let mut v: Vec<u8> = Vec::new();
        v.push(48 + n as u8);
        assert(v@ =~= seq![(48 + n as int) as u8]);
        v
    } else {
        let mut v = u64_to_dec(n / 10);
        v.push(48 + (n % 10) as u8);
        v
    }
}

pub proof fn lemma_dec_all_digits(n: int)
    requires
        n >= 0,
    ensures
        all_digits(spec_dec(n)),
        spec_dec(n).len() >= 1,
        is_digit(spec_dec(n)[0]),
    decreases n,
{
    if n < 10 {
        assert(spec_dec(n) =~= seq![(48 + n) as u8]);
    } else {
        lemma_dec_all_digits(n / 10);
        assert(spec_dec(n).drop_last() =~= spec_dec(n / 10));
        assert forall|i: int| 0 <= i < spec_dec(n).len() implies is_digit(spec_dec(n)[i]) by {
            if i < spec_dec(n).len() - 1 {
                assert(spec_dec(n)[i] == spec_dec(n / 10)[i]);
            }
        }
    }
}

/// Printing a number and parsing it back yields the number.
pub proof fn lemma_dec_parse_roundtrip(n: u64)
    ensures
        spec_parse_u64(spec_dec(n as int)) == Some(n),
{
    lemma_dec_all_digits(n as int);
    lemma_dec_value(n as int);
    assert(spec_dec(n as int)[0] != 43);
}

proof fn lemma_dec_value(n: int)
    requires
        n >= 0,
    ensures
        digits_value(spec_dec(n)) == n,
    decreases n,
{
    reveal_with_fuel(digits_value, 2);
    if n < 10 {
        assert(spec_dec(n) =~= seq![(48 + n) as u8]);
        assert(spec_dec(n).drop_last() =~= Seq::<u8>::empty());
        assert(digits_value(spec_dec(n)) == digits_value(Seq::<u8>::empty()) * 10 + ((48 + n)
            - 48));
    } else {
        lemma_dec_value(n / 10);
        assert(spec_dec(n).drop_last() =~= spec_dec(n / 10));
        assert(spec_dec(n).last() == (48 + n % 10) as u8);
    }
}

proof fn lemma_all_digits_no_dash(s: Seq<u8>)
    requires
        all_digits(s),
    ensures
        dash_count(s) == 0,
        first_dash(s) == -1,
    decreases s.len(),
{
    if s.len() > 0 {
        assert(all_digits(s.drop_last()));
        lemma_all_digits_no_dash(s.drop_last());
        assert(is_digit(s.last()));
        assert(all_digits(s.drop_first()));
        lemma_all_digits_no_dash(s.drop_first());
        assert(is_digit(s[0]));
    }
}

proof fn lemma_dash_count_add(a: Seq<u8>, b: Seq<u8>)
    ensures
        dash_count(a + b) == dash_count(a) + dash_count(b),
    decreases b.len(),
{
    if b.len() == 0 {
        assert(a + b =~= a);
    } else {
        assert((a + b).drop_last() =~= a + b.drop_last());
        assert((a + b).last() == b.last());
        lemma_dash_count_add(a, b.drop_last());
    }
}

/// The bytes of the header scheme token `bytes=`.
pub open spec fn range_prefix() -> Seq<u8> {
    seq![98u8, 121u8, 116u8, 101u8, 115u8, 61u8]
}

/// A zero-length suffix request, `bytes=-0`, names no bytes and is treated
/// as no range at all, whatever the file size.
pub proof fn lemma_suffix_zero_no_range(file_size: u64)
    ensures
        spec_parse_range(range_prefix() + seq![45u8, 48u8], file_size) is None,
{
    reveal_with_fuel(dash_count, 3);
    reveal_with_fuel(first_dash, 3);
    reveal_with_fuel(digits_value, 3);
    let h = range_prefix() + seq![45u8, 48u8];
    assert(has_bytes_prefix(h));
    let rest = h.skip(6);
    assert(rest =~= seq![45u8, 48u8]);
    assert(rest.drop_last() =~= seq![45u8]);
    assert(rest.drop_last().drop_last() =~= Seq::<u8>::empty());
    assert(dash_count(rest) == 1);
    assert(first_dash(rest) == 0);
    assert(rest.take(0) =~= Seq::<u8>::empty());
    let e = rest.skip(1);
    assert(e =~= seq![48u8]);
    assert(e.drop_last() =~= Seq::<u8>::empty());
    assert(all_digits(e));
    assert(digits_value(e) == 0);
    assert(spec_parse_u64(e) == Some(0u64));
}

/// A suffix request for the whole file, `bytes=-<size>`, names exactly the
/// whole file once the size is positive.
pub proof fn lemma_suffix_whole_file(file_size: u64)
    requires
        file_size > 0,
    ensures
        spec_parse_range(range_prefix() + seq![45u8] + spec_dec(file_size as int), file_size)
            == Some((0u64, (file_size - 1) as u64)),
{
    reveal_with_fuel(dash_count, 2);
    reveal_with_fuel(first_dash, 2);
    let d = spec_dec(file_size as int);
    let h = range_prefix() + seq![45u8] + d;
    assert(has_bytes_prefix(h));
    let rest = h.skip(6);
    assert(rest =~= seq![45u8] + d);
    lemma_dec_all_digits(file_size as int);
    lemma_all_digits_no_dash(d);
    assert(dash_count(seq![45u8]) == 1) by {
        reveal_with_fuel(dash_count, 2);
        assert(seq![45u8].drop_last() =~= Seq::<u8>::empty());
    }
    lemma_dash_count_add(seq![45u8], d);
    assert(dash_count(rest) == 1);
    assert(rest[0] == 45);
    assert(first_dash(rest) == 0);
    assert(rest.take(0) =~= Seq::<u8>::empty());
    assert(spec_parse_u64(rest.take(0)) is None);
    assert(rest.skip(1) =~= d);
    lemma_dec_parse_roundtrip(file_size);
}

/// Parses a `Range` header against a file size, yielding the candidate
/// interval or `None` for a full-content response.
#[verifier::rlimit(60)]
pub fn parse_range_header(header: &str, file_size: u64) -> (r: Option<(u64, u64)>)
    ensures
        r == spec_parse_range(header.spec_bytes(), file_size),
{
    let h = header.as_bytes();
    if h.len() < 6 || h[0] != 98 || h[1] != 121 || h[2] != 116 || h[3] != 101 || h[4] != 115
        || h[5] != 61 {
        return None;
    }
    let rest: &[u8] = &h[6..h.len()];
    let ghost restv = h@.skip(6);
    assert(rest@ =~= restv);
    let mut dash_i: usize = 0;
    let mut dash_cnt: usize = 0;
    let mut k: usize = 0;
    while k < rest.len()
        invariant
            0 <= k <= rest@.len(),
            dash_cnt <= k,
            dash_cnt == dash_count(rest@.take(k as int)),
            dash_cnt > 0 ==> dash_i < k && first_dash(rest@.take(k as int)) == dash_i as int,
            dash_cnt == 0 ==> first_dash(rest@.take(k as int)) == -1,
        decreases rest@.len() - k,
    {
        let ghost pre = rest@.take(k as int);
        assert(rest@.take(k + 1) =~= pre.push(rest@[k as int]));
        assert(rest@.take(k + 1).drop_last() =~= pre);
        proof {
            lemma_first_dash_push(pre, rest@[k as int]);
        }
        if rest[k] == 45 {
            if dash_cnt == 0 {
                dash_i = k;
            }
            dash_cnt = dash_cnt + 1;
        }
        k += 1;
    }
    assert(rest@.take(rest@.len() as int) =~= rest@);
    if dash_cnt != 1 {
        return None;
    }
    let start_s: &[u8] = &rest[0..dash_i];
    let end_s: &[u8] = &rest[dash_i + 1..rest.len()];
    assert(start_s@ =~= restv.take(first_dash(restv)));
    assert(end_s@ =~= restv.skip(first_dash(restv) + 1));
    let s0 = parse_u64(start_s);
    let e0 = parse_u64(end_s);
    if start_s.len() > 0 && end_s.len() > 0 {
        match (s0, e0) {
            (Some(s), Some(e)) => if s <= e {
                Some((s, e))
            } else {
                None
            },
            _ => None,
        }
    } else if start_s.len() > 0 {
        match s0 {
            Some(s) => if s < file_size {
                Some((s, file_size - 1))
            } else {
                None
            },
            None => None,
        }
    } else if end_s.len() > 0 {
        match e0 {
            Some(e) => {
                if e == 0 {
                    None
                } else if file_size == 0 {
                    Some((0, 0))
                } else {
                    let sz = if file_size < e {
                        file_size
                    } else {
                        e
                    };
                    Some((file_size - sz, file_size - 1))
                }
            },
            None => None,
        }
    } else {
        None
    }
}

} // verus!
