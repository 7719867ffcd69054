//! Character-level text processing: whitespace trimming, splitting a
//! comma-separated list, and decimal number parsing. These are the
//! primitives behind configuration validation.

use vstd::prelude::*;

verus! {

/// The Unicode White_Space characters, the set that trimming removes.
pub open spec fn is_space(c: char) -> bool {
    let u = c as u32;
    ||| u == 0x20
    ||| (0x09 <= u && u <= 0x0d)
    ||| u == 0x85
    ||| u == 0xa0
    ||| u == 0x1680
    ||| (0x2000 <= u && u <= 0x200a)
    ||| u == 0x2028
    ||| u == 0x2029
    ||| u == 0x202f
    ||| u == 0x205f
    ||| u == 0x3000
}

pub fn is_space_char(c: char) -> (r: bool)
    ensures
        r == is_space(c),
{
    let u = c as u32;
    u == 0x20 || (0x09 <= u && u <= 0x0d) || u == 0x85 || u == 0xa0 || u == 0x1680 || (0x2000 <= u
        && u <= 0x200a) || u == 0x2028 || u == 0x2029 || u == 0x202f || u == 0x205f || u == 0x3000
}

/// A sequence with its leading whitespace removed.
pub open spec fn trim_start_spec(s: Seq<char>) -> Seq<char>
    decreases s.len(),
{
    if s.len() > 0 && is_space(s[0]) {
        trim_start_spec(s.subrange(1, s.len() as int))
    } else {
        s
    }
}

/// A sequence with its trailing whitespace removed.
pub open spec fn trim_end_spec(s: Seq<char>) -> Seq<char>
    decreases s.len(),
{
    if s.len() > 0 && is_space(s[s.len() - 1]) {
        trim_end_spec(s.subrange(0, s.len() - 1))
    } else {
        s
    }
}

/// A sequence with whitespace removed from both ends.
pub open spec fn trim_spec(s: Seq<char>) -> Seq<char> {
    trim_end_spec(trim_start_spec(s))
}

/// Remove leading and trailing whitespace from a string.
pub fn trim_str(s: &str) -> (r: String)
    ensures
        r@ == trim_spec(s@),
{
    let n = s.unicode_len();
    proof {
        assert(s@.subrange(0, n as int) =~= s@);
    }
    let mut a: usize = 0;
    while a < n
        invariant
            a <= n,
            n == s@.len(),
            trim_start_spec(s@) == trim_start_spec(s@.subrange(a as int, n as int)),
        ensures
            a <= n,
            n == s@.len(),
            trim_start_spec(s@) == s@.subrange(a as int, n as int),
        decreases n - a,
    {
        if !is_space_char(s.get_char(a)) {
            proof {
                assert(s@.subrange(a as int, n as int)[0] == s@[a as int]);
            }
            break;
        }
        proof {
            assert(s@.subrange(a as int, n as int).subrange(1, n - a) =~= s@.subrange(
                a + 1,
                n as int,
            ));
        }
        a += 1;
    }
    let mut b: usize = n;
    while b > a
        invariant
            a <= b <= n,
            n == s@.len(),
            trim_start_spec(s@) == s@.subrange(a as int, n as int),
            trim_end_spec(s@.subrange(a as int, n as int)) == trim_end_spec(
                s@.subrange(a as int, b as int),
            ),
        ensures
            a <= b <= n,
            n == s@.len(),
            trim_spec(s@) == s@.subrange(a as int, b as int),
        decreases b,
    {
        if !is_space_char(s.get_char(b - 1)) {
            proof {
                let t = s@.subrange(a as int, b as int);
                assert(t[t.len() - 1] == s@[b - 1]);
            }
            break;
        }
        proof {
            let t = s@.subrange(a as int, b as int);
            assert(t[t.len() - 1] == s@[b - 1]);
            assert(t.subrange(0, t.len() - 1) =~= s@.subrange(a as int, b - 1));
        }
        b -= 1;
    }
    let piece = s.substring_char(a, b);
    piece.to_owned()
}

/// The segments of `s` split at every comma, read left to right; `acc`
/// carries the characters of the segment under construction.
pub open spec fn split_commas(s: Seq<char>, acc: Seq<char>) -> Seq<Seq<char>>
    decreases s.len(),
{
    if s.len() == 0 {
        seq![acc]
    } else if s[0] == ',' {
        seq![acc] + split_commas(s.subrange(1, s.len() as int), Seq::empty())
    } else {
        split_commas(s.subrange(1, s.len() as int), acc.push(s[0]))
    }
}

/// The comma-separated segments of `s`, untrimmed; a string without a
/// comma is one segment, and every comma opens a new one.
pub open spec fn comma_segments(s: Seq<char>) -> Seq<Seq<char>> {
    split_commas(s, Seq::empty())
}

/// The comma-separated segments of `s`, each trimmed, with the empty
/// ones dropped: the normal form of a configured endpoint list.
pub open spec fn cleaned_segments(s: Seq<char>) -> Seq<Seq<char>> {
    comma_segments(s).map_values(|t: Seq<char>| trim_spec(t)).filter(|t: Seq<char>| t.len() > 0)
}

/// Split `s` at every comma, trim each segment, and drop the segments
/// that end up empty.
pub fn split_trimmed(s: &str) -> (r: Vec<String>)
    ensures
        r@.map_values(|t: String| t@) == cleaned_segments(s@),
{
    let raw = raw_segments(s);
    let mut out: Vec<String> = Vec::new();
    let mut j: usize = 0;
    proof {
        assert(raw@.subrange(0, 0).map_values(|t: String| t@) =~= Seq::<Seq<char>>::empty());
        assert(Seq::<Seq<char>>::empty().map_values(|t: Seq<char>| trim_spec(t)) =~= Seq::<
            Seq<char>,
        >::empty());
        assert(Seq::<Seq<char>>::empty().filter(|t: Seq<char>| t.len() > 0) =~= Seq::<
            Seq<char>,
        >::empty()) by {
            reveal(Seq::filter);
        }
    }
    while j < raw.len()
        invariant
            j <= raw.len(),
            out@.map_values(|t: String| t@) == raw@.subrange(0, j as int).map_values(
                |t: String| t@,
            ).map_values(|t: Seq<char>| trim_spec(t)).filter(|t: Seq<char>| t.len() > 0),
        decreases raw.len() - j,
    {
        let t = trim_str(raw[j].as_str());
        let ghost before = out@;
        let ghost prefix = raw@.subrange(0, j as int).map_values(|t: String| t@).map_values(
            |t: Seq<char>| trim_spec(t),
        );
        let ghost step = raw@.subrange(0, j + 1).map_values(|t: String| t@).map_values(
            |t: Seq<char>| trim_spec(t),
        );
        if !t.as_str().is_empty() {
            out.push(t);
        }
        proof {
            assert(step.drop_last() =~= prefix);
            assert(step.last() == trim_spec(raw@[j as int]@));
            reveal(Seq::filter);
            if t@.len() > 0 {
                assert(out@.map_values(|t: String| t@) =~= before.map_values(|t: String| t@).push(
                    t@,
                ));
            }
            assert(out@.map_values(|t: String| t@) =~= step.filter(|t: Seq<char>| t.len() > 0));
        }
        j += 1;
    }
    proof {
        assert(raw@.subrange(0, raw@.len() as int) =~= raw@);
    }
    out
}

/// Split `s` at every comma into its raw, untrimmed segments.
fn raw_segments(s: &str) -> (r: Vec<String>)
    ensures
        r@.map_values(|t: String| t@) == comma_segments(s@),
{
    let n = s.unicode_len();
    let mut segs: Vec<String> = Vec::new();
    let mut start: usize = 0;
    let mut i: usize = 0;
    proof {
        assert(s@.subrange(0, n as int) =~= s@);
        assert(s@.subrange(0, 0) =~= Seq::<char>::empty());
        assert(segs@.map_values(|t: String| t@) =~= Seq::<Seq<char>>::empty());
    }
    while i < n
        invariant
            start <= i <= n,
            n == s@.len(),
            comma_segments(s@) == segs@.map_values(|t: String| t@) + split_commas(
                s@.subrange(i as int, n as int),
                s@.subrange(start as int, i as int),
            ),
        decreases n - i,
    {
        let ghost rest = s@.subrange(i as int, n as int);
        let ghost acc = s@.subrange(start as int, i as int);
        proof {
            assert(rest[0] == s@[i as int]);
            assert(rest.subrange(1, rest.len() as int) =~= s@.subrange(i + 1, n as int));
        }
        if s.get_char(i) == ',' {
            let piece = s.substring_char(start, i);
            let ghost before = segs@;
            segs.push(piece.to_owned());
            proof {
                assert(s@.subrange(i + 1, i + 1) =~= Seq::<char>::empty());
                assert(segs@.map_values(|t: String| t@) =~= before.map_values(|t: String| t@).push(
                    acc,
                ));
                assert(before.map_values(|t: String| t@).push(acc) + split_commas(
                    s@.subrange(i + 1, n as int),
                    Seq::empty(),
                ) =~= before.map_values(|t: String| t@) + (seq![acc] + split_commas(
                    s@.subrange(i + 1, n as int),
                    Seq::empty(),
                )));
            }
            start = i + 1;
        } else {
            proof {
                assert(acc.push(s@[i as int]) =~= s@.subrange(start as int, i + 1));
            }
        }
        i += 1;
    }
    let piece = s.substring_char(start, n);
    let ghost before = segs@;
    segs.push(piece.to_owned());
    proof {
        assert(segs@.map_values(|t: String| t@) =~= before.map_values(|t: String| t@).push(
            s@.subrange(start as int, n as int),
        ));
        assert(before.map_values(|t: String| t@).push(s@.subrange(start as int, n as int)) =~= (
        before.map_values(|t: String| t@) + seq![s@.subrange(start as int, n as int)]));
    }
    segs
}

/// A decimal digit.
pub open spec fn is_digit(c: char) -> bool {
    0x30 <= c as u32 && c as u32 <= 0x39
}

/// The numeric value of a decimal digit.
pub open spec fn digit_val(c: char) -> int {
    c as u32 - 0x30
}

/// Whether every character of `s` is a decimal digit.
pub open spec fn all_digits(s: Seq<char>) -> bool {
    forall|i: int| 0 <= i < s.len() ==> is_digit(s[i])
}

/// The value of `s` read as a decimal numeral, most significant digit
/// first.
pub open spec fn dec_value(s: Seq<char>) -> int
    decreases s.len(),
{
    if s.len() == 0 {
        0
    } else {
        dec_value(s.subrange(0, s.len() - 1)) * 10 + digit_val(s[s.len() - 1])
    }
}

proof fn lemma_dec_value_nonneg(s: Seq<char>)
    requires
        all_digits(s),
    ensures
        dec_value(s) >= 0,
    decreases s.len(),
{
    if s.len() > 0 {
        assert(all_digits(s.subrange(0, s.len() - 1)));
        lemma_dec_value_nonneg(s.subrange(0, s.len() - 1));
    }
}

/// In a string of digits, the value of a prefix never exceeds the value
/// of the whole.
proof fn lemma_dec_value_prefix_le(s: Seq<char>, k: int)
    requires
        all_digits(s),
        0 <= k <= s.len(),
    ensures
        dec_value(s.subrange(0, k)) <= dec_value(s),
    decreases s.len() - k,
{
    if k < s.len() {
        let p = s.subrange(0, k + 1);
        assert(all_digits(p));
        assert(p.subrange(0, k) =~= s.subrange(0, k));
        lemma_dec_value_nonneg(s.subrange(0, k));
        assert(dec_value(p) == dec_value(s.subrange(0, k)) * 10 + digit_val(p[k]));
        lemma_dec_value_prefix_le(s, k + 1);
    } else {
        assert(s.subrange(0, k) =~= s);
    }
}

/// Read a string as a decimal `u64`. Returns the value exactly when the
/// string is non-empty, consists of decimal digits only, and its value
/// fits in a `u64`; returns nothing otherwise.
pub fn parse_decimal_u64(s: &str) -> (r: Option<u64>)
    ensures
        match r {
            Some(v) => s@.len() > 0 && all_digits(s@) && v == dec_value(s@),
            None => s@.len() == 0 || !all_digits(s@) || dec_value(s@) > u64::MAX,
        },
{
    let n = s.unicode_len();
    if n == 0 {
        return None;
    }
    let mut acc: u64 = 0;
    let mut i: usize = 0;
    proof {
        assert(s@.subrange(0, 0) =~= Seq::<char>::empty());
    }
    while i < n
        invariant
            i <= n,
            n == s@.len(),
            all_digits(s@.subrange(0, i as int)),
            acc == dec_value(s@.subrange(0, i as int)),
        decreases n - i,
    {
        let ghost prefix = s@.subrange(0, i as int);
        let ghost step = s@.subrange(0, i + 1);
        proof {
            assert(step.subrange(0, i as int) =~= prefix);
            assert(step[i as int] == s@[i as int]);
        }
        let c = s.get_char(i);
        let u = c as u32;
        if !(0x30 <= u && u <= 0x39) {
            assert(!is_digit(s@[i as int]));
            return None;
        }
        let d = (u - 0x30) as u64;
        if acc > (u64::MAX - d) / 10 {
            proof {
                assert(all_digits(step));
                assert(dec_value(step) == acc * 10 + d);
                assert(acc * 10 + d > u64::MAX) by (nonlinear_arith)
                    requires
                        acc > (u64::MAX - d) / 10,
                        d <= 9,
                {}
                if all_digits(s@) {
                    lemma_dec_value_prefix_le(s@, i + 1);
                    assert(dec_value(s@) > u64::MAX);
                }
            }
            return None;
        }
        proof {
            assert(acc * 10 + d <= u64::MAX) by (nonlinear_arith)
                requires
                    acc <= (u64::MAX - d) / 10,
                    d <= 9,
            {}
            assert(dec_value(step) == acc * 10 + d);
        }
        acc = acc * 10 + d;
        i += 1;
    }
    proof {
        assert(s@.subrange(0, n as int) =~= s@);
    }
    Some(acc)
}

} // verus!
