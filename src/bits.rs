//! The compact "bits" form of a hash and of a proof-of-work target.

use vstd::prelude::*;
use vstd::string::*;

use crate::digest::hex_digit;
use crate::text::digit_text;
use crate::Bits;

verus! {

/// A lowercase hexadecimal digit.
pub open spec fn is_hex_digit(c: char) -> bool {
    ('0' <= c && c <= '9') || ('a' <= c && c <= 'f')
}

/// The value of a lowercase hexadecimal digit.
pub open spec fn hex_val(c: char) -> int {
    if c <= '9' {
        c as int - 48
    } else {
        c as int - 87
    }
}

/// Every character of `s` is a lowercase hexadecimal digit.
pub open spec fn all_hex(s: Seq<char>) -> bool {
    forall|i: int| 0 <= i < s.len() ==> #[trigger] is_hex_digit(s[i])
}

/// The number that the hexadecimal digits `s` write, most significant first.
pub open spec fn hex_value(s: Seq<char>) -> int
    decreases s.len(),
{
    if s.len() == 0 {
        0
    } else {
        16 * hex_value(s.drop_last()) + hex_val(s.last())
    }
}

/// The number of '0' characters that `h` starts with.
pub open spec fn leading_zeros(h: Seq<char>) -> int
    decreases h.len(),
{
    if h.len() == 0 {
        0
    } else if h[0] == '0' {
        1 + leading_zeros(h.drop_first())
    } else {
        0
    }
}

/// The last position below `n` (and above 0) that does not hold '0', or 0.
pub open spec fn last_nonzero_below(s: Seq<char>, n: int) -> int
    decreases n,
{
    if n <= 1 {
        0
    } else if s[n - 1] != '0' {
        n - 1
    } else {
        last_nonzero_below(s, n - 1)
    }
}

/// `h` without its leading zeros.
pub open spec fn significant(h: Seq<char>) -> Seq<char> {
    h.subrange(leading_zeros(h), h.len() as int)
}

/// The last significant digit among the first six: the coefficient ends there.
pub open spec fn coefficient_end(h: Seq<char>) -> int {
    last_nonzero_below(significant(h), 6)
}

/// The exponent: half the length, rounded up, of the significant digits once
/// zeros are put in front so that the sixth digit is not '0'.
pub open spec fn exponent_of(h: Seq<char>) -> int {
    (5 - coefficient_end(h) + significant(h).len() + 1) / 2
}

/// The coefficient: the value of the first six digits after that padding.
pub open spec fn coefficient_of(h: Seq<char>) -> int {
    hex_value(significant(h).subrange(0, coefficient_end(h) + 1))
}

/// `h` has a compact value: it is hexadecimal, holds a digit other than '0' at
/// least six places before its end, and its exponent fits in seven bits.
pub open spec fn has_compact(h: Seq<char>) -> bool {
    &&& all_hex(h)
    &&& leading_zeros(h) + 6 <= h.len()
    &&& exponent_of(h) <= 127
}

/// The compact value of a hash: the exponent in the high byte, the coefficient
/// in the three low bytes.
pub open spec fn compact_value(h: Seq<char>) -> int {
    exponent_of(h) * 0x1000000 + coefficient_of(h)
}

/// The hash meets the target: it has a compact value, and that value is below.
pub open spec fn meets_target(h: Seq<char>, target: int) -> bool {
    has_compact(h) && compact_value(h) < target
}

/// A target written in hexadecimal: digits whose value fits in `Bits`.
pub open spec fn is_target_text(s: Seq<char>) -> bool {
    s.len() > 0 && all_hex(s) && hex_value(s) <= i32::MAX
}

/// `n` in lowercase hexadecimal, without leading zeros.
pub open spec fn lower_hex(n: nat) -> Seq<char>
    decreases n,
{
    if n < 16 {
        seq![hex_digit(n as int)]
    } else {
        lower_hex(n / 16) + seq![hex_digit((n % 16) as int)]
    }
}

/// Sixteen to the power `k`.
pub open spec fn pow16(k: nat) -> int
    decreases k,
{
    if k == 0 {
        1
    } else {
        16 * pow16((k - 1) as nat)
    }
}

proof fn lemma_leading_zeros(h: Seq<char>, a: int)
    requires
        0 <= a <= h.len(),
        forall|k: int| 0 <= k < a ==> h[k] == '0',
        a == h.len() || h[a] != '0',
    ensures
        leading_zeros(h) == a,
    decreases a,
{
    if a > 0 {
        lemma_leading_zeros(h.drop_first(), a - 1);
    }
}

proof fn lemma_hex_value_prefix(s: Seq<char>, k: int, m: int)
    requires
        0 <= k <= m <= s.len(),
        all_hex(s),
    ensures
        hex_value(s.subrange(0, k)) <= hex_value(s.subrange(0, m)),
    decreases m - k,
{
    if k < m {
        lemma_hex_value_prefix(s, k, m - 1);
        let t = s.subrange(0, m);
        assert(t.drop_last() =~= s.subrange(0, m - 1));
        assert(is_hex_digit(s[m - 1]));
        lemma_hex_value_nonneg(s.subrange(0, m - 1), s);
    }
}

proof fn lemma_hex_value_nonneg(t: Seq<char>, s: Seq<char>)
    requires
        all_hex(s),
        t.len() <= s.len(),
        t =~= s.subrange(0, t.len() as int),
    ensures
        hex_value(t) >= 0,
    decreases t.len(),
{
    if t.len() > 0 {
        assert(is_hex_digit(s[t.len() - 1]));
        lemma_hex_value_nonneg(t.drop_last(), s);
    }
}

proof fn lemma_ascii_digit(c: char)
    requires
        '\0' <= c <= '\u{7f}',
    ensures
        is_hex_digit(c) == ((48 <= c as u8 <= 57) || (97 <= c as u8 <= 102)),
        is_hex_digit(c) ==> hex_val(c) == (if c as u8 <= 57 {
            c as u8 - 48
        } else {
            c as u8 - 87
        }),
        (c == '0') == (c as u8 == 48),
{
}

fn is_hex_byte(x: u8) -> (r: bool)
    ensures
        r == ((48 <= x <= 57) || (97 <= x <= 102)),
{
    (48 <= x && x <= 57) || (97 <= x && x <= 102)
}

fn hex_byte_value(x: u8) -> (r: u32)
    requires
        (48 <= x <= 57) || (97 <= x <= 102),
    ensures
        r == (if x <= 57 {
            x - 48
        } else {
            x - 87
        }),
        r < 16,
{
    if x <= 57 {
        (x - 48) as u32
    } else {
        (x - 87) as u32
    }
}

/// The characters of an ASCII text are its bytes.
proof fn lemma_ascii_bytes(s: &str)
    requires
        is_ascii(s),
    ensures
        s.spec_bytes().len() == s@.len(),
        forall|i: int| 0 <= i < s@.len() ==> #[trigger] s.spec_bytes()[i] == s@[i] as u8,
        forall|i: int| 0 <= i < s@.len() ==> '\0' <= #[trigger] s@[i] <= '\u{7f}',
{
    vstd::utf8::is_ascii_chars_encode_utf8(s@);
}

/// A hexadecimal text is ASCII.
proof fn lemma_hex_is_ascii(s: &str)
    requires
        all_hex(s@),
    ensures
        is_ascii(s),
{
    assert forall|i: int| 0 <= i < s@.len() implies '\0' <= #[trigger] s@[i] <= '\u{7f}' by {
        assert(is_hex_digit(s@[i]));
    }
}

/// The compact value of `hash`, or `None` where it has none.
pub fn compact_of(hash: &str) -> (r: Option<Bits>)
    ensures
        r == (if has_compact(hash@) {
            Some(compact_value(hash@) as Bits)
        } else {
            None::<Bits>
        }),
        r is Some ==> r->Some_0 as int == compact_value(hash@),
{
    let ghost h = hash@;
    if !hash.is_ascii() {
        proof {
            if all_hex(h) {
                lemma_hex_is_ascii(hash);
            }
        }
        return None;
    }
    proof {
        lemma_ascii_bytes(hash);
    }
    let b = hash.as_bytes();
    let n = b.len();
    let mut i: usize = 0;
    while i < n
        invariant
            n == h.len(),
            b@ == hash.spec_bytes(),
            hash.spec_bytes().len() == h.len(),
            h == hash@,
            forall|q: int| 0 <= q < h.len() ==> #[trigger] hash.spec_bytes()[q] == h[q] as u8,
            forall|q: int| 0 <= q < h.len() ==> '\0' <= #[trigger] h[q] <= '\u{7f}',
            i <= n,
            forall|k: int| 0 <= k < i ==> #[trigger] is_hex_digit(h[k]),
        decreases n - i,
    {
        proof {
            lemma_ascii_digit(h[i as int]);
        }
        if !is_hex_byte(b[i]) {
            return None;
        }
        i = i + 1;
    }
    assert(all_hex(h));
    let mut a: usize = 0;
    while a < n && b[a] == 48
        invariant
            n == h.len(),
            b@ == hash.spec_bytes(),
            hash.spec_bytes().len() == h.len(),
            h == hash@,
            forall|q: int| 0 <= q < h.len() ==> #[trigger] hash.spec_bytes()[q] == h[q] as u8,
            forall|q: int| 0 <= q < h.len() ==> '\0' <= #[trigger] h[q] <= '\u{7f}',
            a <= n,
            forall|k: int| 0 <= k < a ==> h[k] == '0',
        decreases n - a,
    {
        proof {
            lemma_ascii_digit(h[a as int]);
        }
        a = a + 1;
    }
    if a < n {
        proof {
            lemma_ascii_digit(h[a as int]);
        }
    }
    proof {
        lemma_leading_zeros(h, a as int);
    }
    if a >= n || n - a < 6 {
        return None;
    }
    let ghost s = significant(h);
    assert(s.len() == n - a);
    assert(forall|k: int| 0 <= k < s.len() ==> s[k] == h[a + k]);
    let mut j: usize = 5;
    while j > 0 && b[a + j] == 48
        invariant
            n == h.len(),
            b@ == hash.spec_bytes(),
            hash.spec_bytes().len() == h.len(),
            h == hash@,
            forall|q: int| 0 <= q < h.len() ==> #[trigger] hash.spec_bytes()[q] == h[q] as u8,
            forall|q: int| 0 <= q < h.len() ==> '\0' <= #[trigger] h[q] <= '\u{7f}',
            a + 6 <= n,
            s == significant(h),
            forall|k: int| 0 <= k < s.len() ==> s[k] == h[a + k],
            a + j < n,
            s.len() == n - a,
            j <= 5,
            last_nonzero_below(s, 6) == last_nonzero_below(s, j + 1),
        decreases j,
    {
        proof {
            lemma_ascii_digit(h[a + j]);
        }
        j = j - 1;
    }
    proof {
        lemma_ascii_digit(h[a + j]);
    }
    assert(last_nonzero_below(s, j + 1) == j);
    if n - a > 254 {
        return None;
    }
    let padded = (5 - j) + (n - a);
    let exponent = (padded + 1) / 2;
    if exponent > 127 {
        return None;
    }
    let mut coeff: u32 = 0;
    let mut k: usize = 0;
    while k <= j
        invariant
            n == h.len(),
            b@ == hash.spec_bytes(),
            hash.spec_bytes().len() == h.len(),
            h == hash@,
            forall|q: int| 0 <= q < h.len() ==> #[trigger] hash.spec_bytes()[q] == h[q] as u8,
            forall|q: int| 0 <= q < h.len() ==> '\0' <= #[trigger] h[q] <= '\u{7f}',
            a + 6 <= n,
            s == significant(h),
            all_hex(h),
            forall|q: int| 0 <= q < s.len() ==> s[q] == h[a + q],
            s.len() == n - a,
            j <= 5,
            k <= j + 1,
            coeff as int == hex_value(s.subrange(0, k as int)),
            (coeff as int) < pow16(k as nat),
        decreases j + 1 - k,
    {
        assert(is_hex_digit(h[a + k]));
        proof {
            lemma_ascii_digit(h[a + k]);
        }
        let d = hex_byte_value(b[a + k]);
        assert(pow16((k + 1) as nat) == 16 * pow16(k as nat));
        assert(pow16(k as nat) <= pow16(5)) by {
            lemma_pow16_mono(k as nat, 5);
        }
        assert(pow16(5) == 1048576) by {
            reveal_with_fuel(pow16, 6);
        }
        assert(s.subrange(0, k + 1).drop_last() =~= s.subrange(0, k as int));
        coeff = coeff * 16 + d;
        k = k + 1;
    }
    assert(pow16(k as nat) <= pow16(6)) by {
        lemma_pow16_mono(k as nat, 6);
    }
    assert(pow16(6) == 16777216) by {
        reveal_with_fuel(pow16, 7);
    }
    let v = (exponent as i32) * 16777216 + (coeff as i32);
    Some(v)
}

proof fn lemma_pow16_mono(k: nat, m: nat)
    requires
        k <= m,
    ensures
        0 < pow16(k) <= pow16(m),
    decreases m,
{
    if k < m {
        lemma_pow16_mono(k, (m - 1) as nat);
    } else if k > 0 {
        lemma_pow16_mono((k - 1) as nat, (k - 1) as nat);
    }
}

/// The compact value of a hash, for a hash that has one.
pub fn get_bits_from_hash(hash: String) -> (r: Bits)
    requires
        has_compact(hash@),
    ensures
        r as int == compact_value(hash@),
{
    match compact_of(hash.as_str()) {
        Some(v) => v,
        None => 0,
    }
}

/// The value of a target written in hexadecimal, or `None` where the text is
/// not such a target.
pub fn parse_target(s: &str) -> (r: Option<Bits>)
    ensures
        r == (if is_target_text(s@) {
            Some(hex_value(s@) as Bits)
        } else {
            None::<Bits>
        }),
        r is Some ==> r->Some_0 as int == hex_value(s@),
{
    let ghost t = s@;
    if !s.is_ascii() {
        proof {
            if all_hex(t) {
                lemma_hex_is_ascii(s);
            }
        }
        return None;
    }
    proof {
        lemma_ascii_bytes(s);
    }
    let b = s.as_bytes();
    let n = b.len();
    if n == 0 {
        return None;
    }
    let mut i: usize = 0;
    while i < n
        invariant
            n == t.len(),
            b@ == s.spec_bytes(),
            s.spec_bytes().len() == t.len(),
            t == s@,
            forall|q: int| 0 <= q < t.len() ==> #[trigger] s.spec_bytes()[q] == t[q] as u8,
            forall|q: int| 0 <= q < t.len() ==> '\0' <= #[trigger] t[q] <= '\u{7f}',
            i <= n,
            forall|k: int| 0 <= k < i ==> #[trigger] is_hex_digit(t[k]),
        decreases n - i,
    {
        proof {
            lemma_ascii_digit(t[i as int]);
        }
        if !is_hex_byte(b[i]) {
            return None;
        }
        i = i + 1;
    }
    assert(all_hex(t));
    let mut v: u32 = 0;
    let mut k: usize = 0;
    while k < n
        invariant
            n == t.len(),
            b@ == s.spec_bytes(),
            s.spec_bytes().len() == t.len(),
            t == s@,
            forall|q: int| 0 <= q < t.len() ==> #[trigger] s.spec_bytes()[q] == t[q] as u8,
            forall|q: int| 0 <= q < t.len() ==> '\0' <= #[trigger] t[q] <= '\u{7f}',
            all_hex(t),
            k <= n,
            v as int == hex_value(t.subrange(0, k as int)),
            v <= i32::MAX,
        decreases n - k,
    {
        assert(is_hex_digit(t[k as int]));
        proof {
            lemma_ascii_digit(t[k as int]);
        }
        let d = hex_byte_value(b[k]);
        assert(t.subrange(0, k + 1).drop_last() =~= t.subrange(0, k as int));
        if v > (2147483647 - d) / 16 {
            proof {
                lemma_hex_value_prefix(t, k + 1, n as int);
                assert(t.subrange(0, n as int) =~= t);
            }
            return None;
        }
        v = v * 16 + d;
        k = k + 1;
    }
    assert(t.subrange(0, n as int) =~= t);
    Some(v as i32)
}

fn push_lower_hex(out: &mut String, n: u32)
    ensures
        final(out)@ == old(out)@ + lower_hex(n as nat),
    decreases n,
{
    if n >= 16 {
        push_lower_hex(out, n / 16);
    }
    out.append(digit_text(n % 16));
    assert(final(out)@ =~= old(out)@ + lower_hex(n as nat));
}

/// A target written in lowercase hexadecimal, without leading zeros.
pub fn target_text(v: Bits) -> (r: String)
    requires
        v >= 0,
    ensures
        r@ == lower_hex(v as nat),
{
    let mut out = String::new();
    push_lower_hex(&mut out, v as u32);
    assert(out@ =~= lower_hex(v as nat));
    out
}

} // verus!
