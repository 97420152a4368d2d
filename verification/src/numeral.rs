//! The integer-numeral grammar of the language's lexical conventions: the
//! conversion a read applies when it finds a string where it wants an
//! integer. A numeral may carry leading and trailing spaces and a sign,
//! and is written in decimal, or in hexadecimal after `0x`/`0X`.
//! A decimal numeral that does not fit the native integer is rejected;
//! a hexadecimal one wraps around, as the C interface's conversion does.
//!
//! The model stops at integer numerals: a numeral in float syntax (with a
//! point or an exponent) is converted by the VM through its float type,
//! which this crate refuses, so such a string stays unconverted here and
//! reads as a conversion error; the shell keeps the full conversion by
//! asking the VM itself.

use vstd::prelude::*;

verus! {

/// The space characters the numeral grammar skips.
pub open spec fn is_numeral_space(c: char) -> bool {
    c == ' ' || c == '\t' || c == '\n' || c == '\u{b}' || c == '\u{c}' || c == '\r'
}

/// The value of a decimal digit character.
pub open spec fn dec_digit_val(c: char) -> Option<u8> {
    if c == '0' {
        Some(0u8)
    } else if c == '1' {
        Some(1u8)
    } else if c == '2' {
        Some(2u8)
    } else if c == '3' {
        Some(3u8)
    } else if c == '4' {
        Some(4u8)
    } else if c == '5' {
        Some(5u8)
    } else if c == '6' {
        Some(6u8)
    } else if c == '7' {
        Some(7u8)
    } else if c == '8' {
        Some(8u8)
    } else if c == '9' {
        Some(9u8)
    } else {
        None
    }
}

/// The value of a hexadecimal digit character.
pub open spec fn hex_digit_val(c: char) -> Option<u8> {
    if dec_digit_val(c) is Some {
        dec_digit_val(c)
    } else if c == 'a' || c == 'A' {
        Some(10u8)
    } else if c == 'b' || c == 'B' {
        Some(11u8)
    } else if c == 'c' || c == 'C' {
        Some(12u8)
    } else if c == 'd' || c == 'D' {
        Some(13u8)
    } else if c == 'e' || c == 'E' {
        Some(14u8)
    } else if c == 'f' || c == 'F' {
        Some(15u8)
    } else {
        None
    }
}

/// How many leading characters are numeral space.
pub open spec fn space_run(v: Seq<char>) -> int
    decreases v.len(),
{
    if v.len() > 0 && is_numeral_space(v.first()) {
        1 + space_run(v.drop_first())
    } else {
        0
    }
}

/// How many leading characters are decimal digits.
pub open spec fn dec_run(v: Seq<char>) -> int
    decreases v.len(),
{
    if v.len() > 0 && dec_digit_val(v.first()) is Some {
        1 + dec_run(v.drop_first())
    } else {
        0
    }
}

/// How many leading characters are hexadecimal digits.
pub open spec fn hex_run(v: Seq<char>) -> int
    decreases v.len(),
{
    if v.len() > 0 && hex_digit_val(v.first()) is Some {
        1 + hex_run(v.drop_first())
    } else {
        0
    }
}

/// True when every character of `v` is numeral space.
pub open spec fn all_spaces(v: Seq<char>) -> bool {
    forall|i: int| 0 <= i < v.len() ==> is_numeral_space(#[trigger] v[i])
}

/// The decimal digits of `v` folded left to right into a magnitude,
/// rejected as soon as the value would pass `bound`.
pub open spec fn dec_magnitude(v: Seq<char>, bound: u64) -> Option<u64>
    decreases v.len(),
{
    if v.len() == 0 {
        Some(0u64)
    } else {
        match dec_magnitude(v.drop_last(), bound) {
            Some(a) => if a * 10 + dec_digit_val(v.last())->0 > bound {
                None
            } else {
                Some(((a * 10 + dec_digit_val(v.last())->0) as u64))
            },
            None => None,
        }
    }
}

/// The hexadecimal digits of `v` folded left to right into a magnitude,
/// wrapping around the native integer width.
pub open spec fn hex_magnitude(v: Seq<char>) -> u64
    decreases v.len(),
{
    if v.len() == 0 {
        0u64
    } else {
        ((hex_magnitude(v.drop_last()) * 16 + hex_digit_val(v.last())->0) as u64)
    }
}

/// The magnitude reinterpreted as the native signed integer, negated
/// first for a negative numeral (two's complement, as the C interface's
/// unsigned-to-signed cast does).
pub open spec fn signed_of_magnitude(neg: bool, a: u64) -> i64 {
    if neg {
        (0 - a as int) as i64
    } else {
        a as i64
    }
}

/// The integer a string converts to under the language's lexical
/// conventions, if it is an integer numeral: optional spaces, an optional
/// sign, then decimal digits (rejected on overflow of the native integer)
/// or `0x`/`0X` and hexadecimal digits (wrapping), then optional spaces.
pub open spec fn str2int_spec(s: Seq<char>) -> Option<i64> {
    let t = s.skip(space_run(s));
    let neg = t.len() > 0 && t.first() == '-';
    let u = if t.len() > 0 && (t.first() == '-' || t.first() == '+') {
        t.drop_first()
    } else {
        t
    };
    if u.len() >= 2 && u.first() == '0' && (u[1] == 'x' || u[1] == 'X') {
        let w = u.skip(2);
        let j = hex_run(w);
        if j == 0 || !all_spaces(w.skip(j)) {
            None
        } else {
            Some(signed_of_magnitude(neg, hex_magnitude(w.take(j))))
        }
    } else {
        let j = dec_run(u);
        let bound: u64 = if neg {
            0x8000000000000000u64
        } else {
            0x7fffffffffffffffu64
        };
        if j == 0 || !all_spaces(u.skip(j)) {
            None
        } else {
            match dec_magnitude(u.take(j), bound) {
                Some(a) => Some(signed_of_magnitude(neg, a)),
                None => None,
            }
        }
    }
}

/// A scan that saw `j` leading spaces and then stopped has found the run.
proof fn lemma_space_run(v: Seq<char>, j: int)
    requires
        0 <= j <= v.len(),
        forall|i: int| 0 <= i < j ==> is_numeral_space(#[trigger] v[i]),
        j < v.len() ==> !is_numeral_space(v[j]),
    ensures
        space_run(v) == j,
    decreases j,
{
    if j > 0 {
        assert(is_numeral_space(v[0]));
        assert forall|i: int| 0 <= i < j - 1 implies is_numeral_space(
            #[trigger] v.drop_first()[i],
        ) by {
            assert(v.drop_first()[i] == v[i + 1]);
        }
        if j - 1 < v.drop_first().len() {
            assert(v.drop_first()[j - 1] == v[j]);
        }
        lemma_space_run(v.drop_first(), j - 1);
    }
}

/// A scan that saw `j` leading decimal digits and then stopped has found
/// the run.
proof fn lemma_dec_run(v: Seq<char>, j: int)
    requires
        0 <= j <= v.len(),
        forall|i: int| 0 <= i < j ==> dec_digit_val(#[trigger] v[i]) is Some,
        j < v.len() ==> dec_digit_val(v[j]) is None,
    ensures
        dec_run(v) == j,
    decreases j,
{
    if j > 0 {
        assert(dec_digit_val(v[0]) is Some);
        assert forall|i: int| 0 <= i < j - 1 implies dec_digit_val(
            #[trigger] v.drop_first()[i],
        ) is Some by {
            assert(v.drop_first()[i] == v[i + 1]);
        }
        if j - 1 < v.drop_first().len() {
            assert(v.drop_first()[j - 1] == v[j]);
        }
        lemma_dec_run(v.drop_first(), j - 1);
    }
}

/// A scan that saw `j` leading hexadecimal digits and then stopped has
/// found the run.
proof fn lemma_hex_run(v: Seq<char>, j: int)
    requires
        0 <= j <= v.len(),
        forall|i: int| 0 <= i < j ==> hex_digit_val(#[trigger] v[i]) is Some,
        j < v.len() ==> hex_digit_val(v[j]) is None,
    ensures
        hex_run(v) == j,
    decreases j,
{
    if j > 0 {
        assert(hex_digit_val(v[0]) is Some);
        assert forall|i: int| 0 <= i < j - 1 implies hex_digit_val(
            #[trigger] v.drop_first()[i],
        ) is Some by {
            assert(v.drop_first()[i] == v[i + 1]);
        }
        if j - 1 < v.drop_first().len() {
            assert(v.drop_first()[j - 1] == v[j]);
        }
        lemma_hex_run(v.drop_first(), j - 1);
    }
}

/// A sequence whose first `j` characters are decimal digits has a digit
/// run of at least `j`.
proof fn lemma_dec_run_at_least(v: Seq<char>, j: int)
    requires
        0 <= j <= v.len(),
        forall|i: int| 0 <= i < j ==> dec_digit_val(#[trigger] v[i]) is Some,
    ensures
        dec_run(v) >= j,
    decreases j,
{
    lemma_dec_run_le(v);
    if j > 0 {
        assert(dec_digit_val(v[0]) is Some);
        assert forall|i: int| 0 <= i < j - 1 implies dec_digit_val(
            #[trigger] v.drop_first()[i],
        ) is Some by {
            assert(v.drop_first()[i] == v[i + 1]);
        }
        lemma_dec_run_at_least(v.drop_first(), j - 1);
    }
}

/// The digit run never passes the end of the sequence.
proof fn lemma_dec_run_le(v: Seq<char>)
    ensures
        0 <= dec_run(v) <= v.len(),
    decreases v.len(),
{
    if v.len() > 0 && dec_digit_val(v.first()) is Some {
        lemma_dec_run_le(v.drop_first());
    }
}

/// A rejected decimal magnitude stays rejected when the run is extended:
/// the digits still to come can only grow the value.
proof fn lemma_dec_mag_prefix_none(u: Seq<char>, k: int, m: int, bound: u64)
    requires
        0 <= k <= m <= u.len(),
        dec_magnitude(u.take(k), bound) is None,
    ensures
        dec_magnitude(u.take(m), bound) is None,
    decreases m - k,
{
    if m > k {
        lemma_dec_mag_prefix_none(u, k, m - 1, bound);
        assert(u.take(m).drop_last() =~= u.take(m - 1));
    }
}

/// Whether a character is numeral space.
fn space_char(c: char) -> (r: bool)
    ensures
        r == is_numeral_space(c),
{
    c == ' ' || c == '\t' || c == '\n' || c == '\u{b}' || c == '\u{c}' || c == '\r'
}

/// The value of a decimal digit character.
fn dec_char(c: char) -> (r: Option<u8>)
    ensures
        r == dec_digit_val(c),
{
    if c == '0' {
        Some(0)
    } else if c == '1' {
        Some(1)
    } else if c == '2' {
        Some(2)
    } else if c == '3' {
        Some(3)
    } else if c == '4' {
        Some(4)
    } else if c == '5' {
        Some(5)
    } else if c == '6' {
        Some(6)
    } else if c == '7' {
        Some(7)
    } else if c == '8' {
        Some(8)
    } else if c == '9' {
        Some(9)
    } else {
        None
    }
}

/// The value of a hexadecimal digit character.
fn hex_char(c: char) -> (r: Option<u8>)
    ensures
        r == hex_digit_val(c),
{
    match dec_char(c) {
        Some(d) => Some(d),
        None => {
            if c == 'a' || c == 'A' {
                Some(10)
            } else if c == 'b' || c == 'B' {
                Some(11)
            } else if c == 'c' || c == 'C' {
                Some(12)
            } else if c == 'd' || c == 'D' {
                Some(13)
            } else if c == 'e' || c == 'E' {
                Some(14)
            } else if c == 'f' || c == 'F' {
                Some(15)
            } else {
                None
            }
        },
    }
}

/// True when every character from `from` to the end is numeral space.
fn rest_is_spaces(s: &str, from: usize, n: usize) -> (r: bool)
    requires
        from <= n,
        n == s@.len(),
    ensures
        r == all_spaces(s@.skip(from as int)),
{
    let mut i = from;
    while i < n && space_char(s.get_char(i))
        invariant
            from <= i <= n,
            n == s@.len(),
            forall|k: int| from <= k < i ==> is_numeral_space(#[trigger] s@[k]),
        decreases n - i,
    {
        i += 1;
    }
    if i == n {
        proof {
            assert forall|k: int| 0 <= k < s@.skip(from as int).len() implies is_numeral_space(
                #[trigger] s@.skip(from as int)[k],
            ) by {
                assert(s@.skip(from as int)[k] == s@[from + k]);
            }
        }
        true
    } else {
        proof {
            assert(s@.skip(from as int)[i - from] == s@[i as int]);
        }
        false
    }
}

/// The signed reinterpretation of the accumulated magnitude.
fn signed_result(neg: bool, a: u64) -> (r: i64)
    ensures
        r == signed_of_magnitude(neg, a),
{
    if neg {
        #[verifier::truncate]
        let r = (0i128 - a as i128) as i64;
        r
    } else {
        #[verifier::truncate]
        let r = a as i64;
        r
    }
}

/// Convert a string to an integer under the language's lexical
/// conventions, if it is an integer numeral.
pub fn str_to_integer(s: &str) -> (r: Option<i64>)
    ensures
        r == str2int_spec(s@),
{
    let n = s.unicode_len();

    // Leading spaces.
    let mut i: usize = 0;
    while i < n && space_char(s.get_char(i))
        invariant
            i <= n,
            n == s@.len(),
            forall|k: int| 0 <= k < i ==> is_numeral_space(#[trigger] s@[k]),
        decreases n - i,
    {
        i += 1;
    }
    proof {
        lemma_space_run(s@, i as int);
    }
    let ghost t = s@.skip(i as int);

    // The sign.
    let mut neg = false;
    let mut start = i;
    if i < n {
        let c = s.get_char(i);
        if c == '-' {
            neg = true;
            start = i + 1;
        } else if c == '+' {
            start = i + 1;
        }
    }
    let ghost u = s@.skip(start as int);
    proof {
        assert(t == s@.skip(space_run(s@)));
        assert(t.len() == n - i);
        if i < n {
            assert(t[0] == s@[i as int]);
        }
        if start > i {
            assert(u =~= t.drop_first());
        } else {
            assert(u =~= t);
        }
        assert(u.len() == n - start);
    }

    // Hexadecimal after `0x`/`0X`, decimal otherwise.
    let hex = n - start >= 2 && s.get_char(start) == '0' && (s.get_char(start + 1) == 'x'
        || s.get_char(start + 1) == 'X');
    proof {
        if start < n {
            assert(u[0] == s@[start as int]);
        }
        if start + 1 < n {
            assert(u[1] == s@[start + 1]);
        }
    }
    if hex {
        let ghost w = s@.skip(start + 2);
        proof {
            assert(u.skip(2) =~= w);
        }
        let mut acc: u64 = 0;
        let mut j = start + 2;
        while j < n && hex_char(s.get_char(j)).is_some()
            invariant
                start + 2 <= j <= n,
                n == s@.len(),
                w == s@.skip(start + 2),
                forall|k: int| 0 <= k < j - start - 2 ==> hex_digit_val(#[trigger] w[k]) is Some,
                acc == hex_magnitude(w.take(j - start - 2)),
            decreases n - j,
        {
            let d = match hex_char(s.get_char(j)) {
                Some(d) => d,
                None => unreached(),
            };
            proof {
                assert(w[j - start - 2] == s@[j as int]);
                assert(w.take(j - start - 1).drop_last() =~= w.take(j - start - 2));
                assert(w.take(j - start - 1).last() == w[j - start - 2]);
            }
            #[verifier::truncate]
            let acc2 = (acc as u128 * 16 + d as u128) as u64;
            acc = acc2;
            j += 1;
        }
        proof {
            if j < n {
                assert(w[j - start - 2] == s@[j as int]);
            }
            lemma_hex_run(w, j - start - 2);
        }
        if j == start + 2 {
            return None;
        }
        if !rest_is_spaces(s, j, n) {
            proof {
                assert(w.skip(j - start - 2) =~= s@.skip(j as int));
            }
            return None;
        }
        proof {
            assert(w.skip(j - start - 2) =~= s@.skip(j as int));
        }
        Some(signed_result(neg, acc))
    } else {
        let bound: u64 = if neg {
            0x8000000000000000u64
        } else {
            0x7fffffffffffffffu64
        };
        let mut acc: u64 = 0;
        let mut j = start;
        let mut overflowed = false;
        while j < n && !overflowed && dec_char(s.get_char(j)).is_some()
            invariant
                start <= j <= n,
                n == s@.len(),
                u == s@.skip(start as int),
                forall|k: int| 0 <= k < j - start ==> dec_digit_val(#[trigger] u[k]) is Some,
                !overflowed ==> acc <= bound && Some(acc) == dec_magnitude(
                    u.take(j - start),
                    bound,
                ),
                overflowed ==> j < n && dec_digit_val(u[j - start]) is Some && dec_magnitude(
                    u.take(j - start + 1),
                    bound,
                ) is None,
            decreases n - j + (if overflowed {
                0int
            } else {
                1int
            }),
        {
            let d = match dec_char(s.get_char(j)) {
                Some(d) => d,
                None => unreached(),
            };
            proof {
                assert(u[j - start] == s@[j as int]);
                assert(u.take(j - start + 1).drop_last() =~= u.take(j - start));
                assert(u.take(j - start + 1).last() == u[j - start]);
            }
            let wide = acc as u128 * 10 + d as u128;
            if wide > bound as u128 {
                overflowed = true;
                proof {
                    assert(acc as int * 10 + d as int > bound as int);
                    assert(dec_magnitude(u.take(j - start + 1), bound) is None);
                }
            } else {
                proof {
                    assert(acc as int * 10 + d as int <= bound as int);
                }
                acc = wide as u64;
                j += 1;
            }
        }
        if overflowed {
            // An overflowing decimal numeral does not fit the native
            // integer: the digits still to come can only grow the value.
            proof {
                let k = j - start;
                lemma_dec_run_at_least(u, k + 1);
                lemma_dec_run_le(u);
                lemma_dec_mag_prefix_none(u, k + 1, dec_run(u), bound);
            }
            return None;
        }
        proof {
            if j < n {
                assert(u[j - start] == s@[j as int]);
            }
            lemma_dec_run(u, j - start);
            assert(dec_run(u) == j - start);
        }
        if j == start {
            return None;
        }
        if !rest_is_spaces(s, j, n) {
            proof {
                assert(u.skip(j - start) =~= s@.skip(j as int));
            }
            return None;
        }
        proof {
            assert(u.skip(j - start) =~= s@.skip(j as int));
        }
        Some(signed_result(neg, acc))
    }
}

} // verus!
