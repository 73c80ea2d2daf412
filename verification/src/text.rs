//! Plain text helpers: concatenation, hexadecimal and decimal rendering,
//! searching, and UTF-16 conversion.

use vstd::prelude::*;
use vstd::string::*;

verus! {

broadcast use vstd::string::group_string_axioms;

/// `String::push` appends one character at the end.
pub assume_specification[ String::push ](s: &mut String, ch: char)
    ensures
        final(s)@ == old(s)@.push(ch),
;

/// A text in double quotes and with escapes, as `Debug` for `str` shows it.
pub uninterp spec fn quoted_of(s: Seq<char>) -> Seq<char>;

/// `Debug` for `str`, formatted into a string: it depends on the text alone.
#[verifier::external_body]
pub(crate) fn quoted(s: &str) -> (r: String)
    ensures
        r@ == quoted_of(s@),
{
    format!("{:?}", s)
}

/// The characters of a string, in order.
pub fn chars_of(s: &str) -> (r: Vec<char>)
    ensures
        r@ == s@,
{
    let mut out: Vec<char> = Vec::new();
    for c in it: s.chars()
        invariant
            out@ == it.seq().subrange(0, it.index() as int),
            it.seq() == s@,
    {
        out.push(c);
    }
    out
}

/// `a` followed by `b`.
pub fn concat(a: &str, b: &str) -> (r: String)
    ensures
        r@ == a@ + b@,
{
    let mut s = a.to_owned();
    s.append(b);
    s
}

/// The lowercase hexadecimal digit for `v`.
pub open spec fn hex_digit(v: int) -> char {
    if v < 10 {
        ('0' as int + v) as char
    } else {
        ('a' as int + v - 10) as char
    }
}

fn hex_char(v: u8) -> (c: char)
    requires
        v < 16,
    ensures
        c == hex_digit(v as int),
{
    if v < 10 {
        (48 + v) as char
    } else {
        (87 + v) as char
    }
}

/// Two lowercase hexadecimal digits per byte, high digit first.
pub open spec fn hex_of(bytes: Seq<u8>) -> Seq<char> {
    Seq::new(
        2 * bytes.len(),
        |i: int| hex_digit(if i % 2 == 0 { bytes[i / 2] as int / 16 } else { bytes[i / 2] as int % 16 }),
    )
}

/// Render `bytes` in lowercase hexadecimal.
pub fn bytes_to_hex(bytes: &[u8]) -> (r: String)
    ensures
        r@ == hex_of(bytes@),
{
    let mut s = String::new();
    let mut i: usize = 0;
    while i < bytes.len()
        invariant
            i <= bytes@.len(),
            s@ == hex_of(bytes@.subrange(0, i as int)),
        decreases bytes@.len() - i,
    {
        let b: u8 = bytes[i];
        s.push(hex_char(b / 16));
        s.push(hex_char(b % 16));
        i += 1;
        assert(s@ =~= hex_of(bytes@.subrange(0, i as int)));
    }
    assert(bytes@.subrange(0, i as int) =~= bytes@);
    s
}

/// The uppercase hexadecimal digit for `v`.
pub open spec fn upper_hex_digit(v: int) -> char {
    if v < 10 {
        ('0' as int + v) as char
    } else {
        ('A' as int + v - 10) as char
    }
}

fn upper_hex_char(v: u32) -> (c: char)
    requires
        v < 16,
    ensures
        c == upper_hex_digit(v as int),
{
    let d: u8 = v as u8;
    if d < 10 {
        (48 + d) as char
    } else {
        (55 + d) as char
    }
}

/// `x` as eight uppercase hexadecimal digits.
pub open spec fn upper_hex8(x: u32) -> Seq<char> {
    seq![
        upper_hex_digit(x as int / 0x1000_0000 % 16),
        upper_hex_digit(x as int / 0x100_0000 % 16),
        upper_hex_digit(x as int / 0x10_0000 % 16),
        upper_hex_digit(x as int / 0x1_0000 % 16),
        upper_hex_digit(x as int / 0x1000 % 16),
        upper_hex_digit(x as int / 0x100 % 16),
        upper_hex_digit(x as int / 0x10 % 16),
        upper_hex_digit(x as int % 16),
    ]
}

/// Render `x` as eight uppercase hexadecimal digits.
pub fn u32_to_upper_hex(x: u32) -> (r: String)
    ensures
        r@ == upper_hex8(x),
{
    let mut s = String::new();
    s.push(upper_hex_char(x / 0x1000_0000 % 16));
    s.push(upper_hex_char(x / 0x100_0000 % 16));
    s.push(upper_hex_char(x / 0x10_0000 % 16));
    s.push(upper_hex_char(x / 0x1_0000 % 16));
    s.push(upper_hex_char(x / 0x1000 % 16));
    s.push(upper_hex_char(x / 0x100 % 16));
    s.push(upper_hex_char(x / 0x10 % 16));
    s.push(upper_hex_char(x % 16));
    assert(s@ =~= upper_hex8(x));
    s
}

/// The decimal digits of `n`, most significant first, without leading zeros.
pub open spec fn decimal_of(n: nat) -> Seq<char>
    decreases n,
{
    if n < 10 {
        seq![hex_digit(n as int)]
    } else {
        decimal_of(n / 10).push(hex_digit((n % 10) as int))
    }
}

/// Render `n` in decimal.
pub fn decimal(n: u64) -> (r: String)
    ensures
        r@ == decimal_of(n as nat),
    decreases n,
{
    if n < 10 {
        let mut s = String::new();
        s.push(hex_char(n as u8));
        assert(s@ =~= decimal_of(n as nat));
        s
    } else {
        let mut s = decimal(n / 10);
        s.push(hex_char((n % 10) as u8));
        s
    }
}

/// The code point of `c`.
fn code_point(c: char) -> (v: u32)
    ensures
        v == c as int,
        v <= 0x10_ffff,
{
    c as u32
}

/// `needle` occurs in `hay`.
pub open spec fn occurs_in(needle: Seq<char>, hay: Seq<char>) -> bool {
    exists|i: int| #[trigger] occurs_at(needle, hay, i)
}

/// `needle` occurs in `hay` at offset `i`.
pub open spec fn occurs_at(needle: Seq<char>, hay: Seq<char>, i: int) -> bool {
    0 <= i && i + needle.len() <= hay.len() && hay.subrange(i, i + needle.len() as int) == needle
}

pub(crate) fn matches_at(hay: &Vec<char>, needle: &Vec<char>, at: usize) -> (r: bool)
    requires
        at + needle@.len() <= hay@.len(),
    ensures
        r == occurs_at(needle@, hay@, at as int),
{
    let mut j: usize = 0;
    while j < needle.len()
        invariant
            j <= needle@.len(),
            at + needle@.len() <= hay.len(),
            forall|k: int| 0 <= k < j ==> hay@[at + k] == needle@[k],
        decreases needle@.len() - j,
    {
        if hay[at + j] != needle[j] {
            assert(hay@.subrange(at as int, at + needle@.len() as int)[j as int] != needle@[j as int]);
            return false;
        }
        j += 1;
    }
    assert(hay@.subrange(at as int, at + needle@.len() as int) =~= needle@);
    true
}

/// Whether `needle` occurs anywhere in `hay`.
pub fn contains(hay: &str, needle: &str) -> (r: bool)
    ensures
        r == occurs_in(needle@, hay@),
{
    let h = chars_of(hay);
    let n = chars_of(needle);
    if n.len() > h.len() {
        return false;
    }
    let last: usize = h.len() - n.len();
    let mut i: usize = 0;
    while i < last
        invariant
            h@ == hay@,
            n@ == needle@,
            last == h@.len() - n@.len(),
            i <= last,
            forall|k: int| 0 <= k < i ==> !occurs_at(n@, h@, k),
        decreases last - i,
    {
        if matches_at(&h, &n, i) {
            assert(occurs_at(needle@, hay@, i as int));
            return true;
        }
        i += 1;
    }
    let r = matches_at(&h, &n, last);
    assert forall|k: int| #[trigger] occurs_at(needle@, hay@, k) implies r by {
        assert(occurs_at(n@, h@, k));
    }
    r
}

/// Whether `s` ends with `suffix`.
pub open spec fn has_suffix(s: Seq<char>, suffix: Seq<char>) -> bool {
    suffix.len() <= s.len() && s.subrange(s.len() - suffix.len(), s.len() as int) == suffix
}

/// Whether `s` ends with `suffix`.
pub fn ends_with(s: &str, suffix: &str) -> (r: bool)
    ensures
        r == has_suffix(s@, suffix@),
{
    let h = chars_of(s);
    let n = chars_of(suffix);
    if n.len() > h.len() {
        return false;
    }
    matches_at(&h, &n, h.len() - n.len())
}

/// The UTF-16 code units of one character.
pub open spec fn utf16_units(c: char) -> Seq<u16> {
    let v = c as int;
    if v < 0x1_0000 {
        seq![v as u16]
    } else {
        seq![(0xd800 + (v - 0x1_0000) / 0x400) as u16, (0xdc00 + (v - 0x1_0000) % 0x400) as u16]
    }
}

/// The UTF-16 code units of a text.
pub open spec fn utf16_of(s: Seq<char>) -> Seq<u16>
    decreases s.len(),
{
    if s.len() == 0 {
        Seq::empty()
    } else {
        utf16_of(s.drop_last()) + utf16_units(s.last())
    }
}

/// Encode `s` in UTF-16 and terminate it with a zero unit.
pub fn wide_with_nul(s: &str) -> (r: Vec<u16>)
    ensures
        r@ == utf16_of(s@).push(0),
{
    let all = chars_of(s);
    let mut out: Vec<u16> = Vec::new();
    let mut i: usize = 0;
    while i < all.len()
        invariant
            i <= all@.len(),
            out@ == utf16_of(all@.subrange(0, i as int)),
        decreases all@.len() - i,
    {
        let c: char = all[i];
        let v: u32 = code_point(c);
        let ghost before = out@;
        if v < 0x1_0000 {
            out.push(v as u16);
        } else {
            out.push((0xd800 + (v - 0x1_0000) / 0x400) as u16);
            out.push((0xdc00 + (v - 0x1_0000) % 0x400) as u16);
        }
        assert(out@ =~= before + utf16_units(c));
        assert(all@.subrange(0, i + 1).drop_last() =~= all@.subrange(0, i as int));
        i += 1;
    }
    assert(all@.subrange(0, i as int) =~= all@);
    out.push(0);
    out
}

/// Compare two texts without stopping at the first difference.
pub fn equal_without_early_exit(a: &Vec<char>, b: &Vec<char>) -> (r: bool)
    ensures
        r == (a@ == b@),
{
    if a.len() != b.len() {
        return false;
    }
    let mut diff: u32 = 0;
    let mut i: usize = 0;
    assert(a@.subrange(0, 0) =~= b@.subrange(0, 0));
    while i < a.len()
        invariant
            i <= a@.len(),
            a@.len() == b@.len(),
            diff == 0 <==> a@.subrange(0, i as int) == b@.subrange(0, i as int),
        decreases a@.len() - i,
    {
        let x: u32 = code_point(a[i]);
        let y: u32 = code_point(b[i]);
        let before: u32 = diff;
        diff = diff | (x ^ y);
        assert((before | (x ^ y)) == 0 <==> before == 0 && x == y) by (bit_vector);
        proof {
            let p = a@.subrange(0, i + 1);
            let q = b@.subrange(0, i + 1);
            assert(p.drop_last() =~= a@.subrange(0, i as int));
            assert(q.drop_last() =~= b@.subrange(0, i as int));
            if before == 0 && x == y {
                assert(p =~= q);
            }
            if p == q {
                assert(p.drop_last() == q.drop_last());
                assert(p[i as int] == q[i as int]);
            }
        }
        i += 1;
    }
    assert(a@.subrange(0, i as int) =~= a@);
    assert(b@.subrange(0, i as int) =~= b@);
    diff == 0
}

/// Different byte sequences have different hexadecimal renderings.
pub proof fn law_hex_is_injective(a: Seq<u8>, b: Seq<u8>)
    ensures
        hex_of(a) == hex_of(b) <==> a == b,
{
    if hex_of(a) == hex_of(b) {
        assert(hex_of(a).len() == 2 * a.len());
        assert(hex_of(b).len() == 2 * b.len());
        assert forall|i: int| 0 <= i < a.len() implies a[i] == b[i] by {
            assert(hex_of(a)[2 * i] == hex_of(b)[2 * i]);
            assert(hex_of(a)[2 * i + 1] == hex_of(b)[2 * i + 1]);
        }
        assert(a =~= b);
    }
}

/// `needle` occurs in `hay` exactly where `hay` is something, then `needle`, then
/// something.
pub proof fn law_occurs(needle: Seq<char>, a: Seq<char>, b: Seq<char>, hay: Seq<char>)
    ensures
        occurs_in(needle, a + needle + b),
        (forall|x: Seq<char>, y: Seq<char>| hay != #[trigger] (x + needle + y)) ==> !occurs_in(
            needle,
            hay,
        ),
{
    let whole = a + needle + b;
    assert(whole.subrange(a.len() as int, a.len() as int + needle.len()) =~= needle);
    assert(occurs_at(needle, whole, a.len() as int));
    if occurs_in(needle, hay) {
        let i = choose|i: int| #[trigger] occurs_at(needle, hay, i);
        let x = hay.subrange(0, i);
        let y = hay.subrange(i + needle.len(), hay.len() as int);
        assert(hay =~= x + needle + y) by {
            assert(hay.subrange(i, i + needle.len()) == needle);
            assert forall|k: int| 0 <= k < hay.len() implies hay[k] == (x + needle + y)[k] by {
                if i <= k < i + needle.len() {
                    assert(hay.subrange(i, i + needle.len())[k - i] == needle[k - i]);
                }
            }
        }
    }
}

/// A text ends with `suffix` exactly where it is something and then `suffix`.
pub proof fn law_suffix(s: Seq<char>, suffix: Seq<char>, stem: Seq<char>)
    ensures
        has_suffix(stem + suffix, suffix),
        (forall|x: Seq<char>| s != #[trigger] (x + suffix)) ==> !has_suffix(s, suffix),
{
    let whole = stem + suffix;
    assert(whole.subrange(whole.len() - suffix.len(), whole.len() as int) =~= suffix);
    if has_suffix(s, suffix) {
        let x = s.subrange(0, s.len() - suffix.len());
        assert(s =~= x + suffix) by {
            let tail = s.subrange(s.len() - suffix.len(), s.len() as int);
            assert forall|k: int| 0 <= k < s.len() implies s[k] == (x + suffix)[k] by {
                if k >= x.len() {
                    assert(tail[k - x.len()] == suffix[k - x.len()]);
                }
            }
        }
    }
}

/// The value of a hexadecimal or decimal digit.
pub open spec fn digit_value(c: char) -> int {
    if 48 <= c as int <= 57 {
        c as int - 48
    } else if 97 <= c as int <= 102 {
        c as int - 87
    } else if 65 <= c as int <= 70 {
        c as int - 55
    } else {
        -1
    }
}

/// Lowercase hexadecimal: every byte is two digits, the high one first, none of them an
/// uppercase letter, and can be read back from them.
pub proof fn law_hex(bytes: Seq<u8>, i: int)
    requires
        0 <= i < bytes.len(),
    ensures
        hex_of(bytes).len() == 2 * bytes.len(),
        0 <= digit_value(hex_of(bytes)[2 * i]) < 16,
        0 <= digit_value(hex_of(bytes)[2 * i + 1]) < 16,
        16 * digit_value(hex_of(bytes)[2 * i]) + digit_value(hex_of(bytes)[2 * i + 1]) == bytes[i],
        !(65 <= hex_of(bytes)[2 * i] as int <= 70),
        !(65 <= hex_of(bytes)[2 * i + 1] as int <= 70),
{
    let b = bytes[i] as int;
    assert((2 * i) / 2 == i && (2 * i) % 2 == 0);
    assert((2 * i + 1) / 2 == i && (2 * i + 1) % 2 == 1);
    lemma_hex_digit(b / 16);
    lemma_hex_digit(b % 16);
}

proof fn lemma_hex_digit(v: int)
    requires
        0 <= v < 16,
    ensures
        digit_value(hex_digit(v)) == v,
        digit_value(upper_hex_digit(v)) == v,
        !(65 <= hex_digit(v) as int <= 70),
        !(97 <= upper_hex_digit(v) as int <= 102),
{
}

/// Eight uppercase hexadecimal digits, from which the number can be read back.
pub proof fn law_upper_hex(x: u32, i: int)
    requires
        0 <= i < 8,
    ensures
        upper_hex8(x).len() == 8,
        0 <= digit_value(upper_hex8(x)[i]) < 16,
        !(97 <= upper_hex8(x)[i] as int <= 102),
        digit_value(upper_hex8(x)[0]) * 0x1000_0000 + digit_value(upper_hex8(x)[1]) * 0x100_0000
            + digit_value(upper_hex8(x)[2]) * 0x10_0000 + digit_value(upper_hex8(x)[3]) * 0x1_0000
            + digit_value(upper_hex8(x)[4]) * 0x1000 + digit_value(upper_hex8(x)[5]) * 0x100
            + digit_value(upper_hex8(x)[6]) * 0x10 + digit_value(upper_hex8(x)[7]) == x,
{
    let n = x as int;
    lemma_hex_digit(n / 0x1000_0000 % 16);
    lemma_hex_digit(n / 0x100_0000 % 16);
    lemma_hex_digit(n / 0x10_0000 % 16);
    lemma_hex_digit(n / 0x1_0000 % 16);
    lemma_hex_digit(n / 0x1000 % 16);
    lemma_hex_digit(n / 0x100 % 16);
    lemma_hex_digit(n / 0x10 % 16);
    lemma_hex_digit(n % 16);
    lemma_base16(n);
    let s = upper_hex8(x);
    assert(s[0] == upper_hex_digit(n / 0x1000_0000 % 16));
    assert(s[1] == upper_hex_digit(n / 0x100_0000 % 16));
    assert(s[2] == upper_hex_digit(n / 0x10_0000 % 16));
    assert(s[3] == upper_hex_digit(n / 0x1_0000 % 16));
    assert(s[4] == upper_hex_digit(n / 0x1000 % 16));
    assert(s[5] == upper_hex_digit(n / 0x100 % 16));
    assert(s[6] == upper_hex_digit(n / 0x10 % 16));
    assert(s[7] == upper_hex_digit(n % 16));
}

/// A number below sixteen to the eighth is the sum of its digits, each with its weight.
proof fn lemma_base16(n: int)
    requires
        0 <= n < 0x1_0000_0000,
    ensures
        n / 0x1000_0000 % 16 * 0x1000_0000 + n / 0x100_0000 % 16 * 0x100_0000 + n / 0x10_0000 % 16
            * 0x10_0000 + n / 0x1_0000 % 16 * 0x1_0000 + n / 0x1000 % 16 * 0x1000 + n / 0x100 % 16
            * 0x100 + n / 0x10 % 16 * 0x10 + n % 16 == n,
{
    lemma_next_digit(n, 1);
    lemma_next_digit(n, 0x10);
    lemma_next_digit(n, 0x100);
    lemma_next_digit(n, 0x1000);
    lemma_next_digit(n, 0x1_0000);
    lemma_next_digit(n, 0x10_0000);
    lemma_next_digit(n, 0x100_0000);
    assert(0 <= n / 0x1000_0000 < 16);
    vstd::arithmetic::div_mod::lemma_small_mod((n / 0x1000_0000) as nat, 16);
}

/// A digit, and what is left behind it.
proof fn lemma_next_digit(n: int, weight: int)
    requires
        0 <= n,
        0 < weight,
    ensures
        n / weight == 16 * (n / (16 * weight)) + n / weight % 16,
        weight == 1 ==> n / weight == n,
{
    vstd::arithmetic::div_mod::lemma_div_denominator(n, weight, 16);
    vstd::arithmetic::mul::lemma_mul_is_commutative(weight, 16);
    vstd::arithmetic::div_mod::lemma_fundamental_div_mod(n / weight, 16);
    vstd::arithmetic::div_mod::lemma_div_basics(n);
}

/// The number that decimal digits write.
pub open spec fn decimal_value(s: Seq<char>) -> int
    decreases s.len(),
{
    if s.len() == 0 {
        0
    } else {
        10 * decimal_value(s.drop_last()) + digit_value(s.last())
    }
}

/// Decimal digits: the number can be read back from them, each is one of `0` to `9`, and
/// there is no zero in front of another digit.
pub proof fn law_decimal(n: nat)
    ensures
        decimal_value(decimal_of(n)) == n,
        forall|i: int|
            0 <= i < decimal_of(n).len() ==> 48 <= (#[trigger] decimal_of(n)[i]) as int <= 57,
        decimal_of(n).len() > 0,
        decimal_of(n).len() > 1 <==> n >= 10,
        n > 0 ==> decimal_of(n)[0] != '0',
    decreases n,
{
    if n < 10 {
        lemma_hex_digit(n as int);
        let s = decimal_of(n);
        assert(s.drop_last().len() == 0);
        assert(decimal_value(s.drop_last()) == 0);
        assert(digit_value('0') == 0);
    } else {
        law_decimal(n / 10);
        lemma_hex_digit((n % 10) as int);
        let head = decimal_of(n / 10);
        let s = decimal_of(n);
        assert(s.drop_last() =~= head);
        assert(s[0] == head[0]);
    }
}

/// UTF-16: a text of one character from the basic plane is its code point; one from
/// beyond it is a high and a low surrogate, from which it can be read back; and the
/// units of a text are those of its characters, one behind the other.
pub proof fn law_utf16(c: char, s: Seq<char>)
    ensures
        (c as int) < 0x1_0000 ==> utf16_units(c).len() == 1 && utf16_units(c)[0] == c as int,
        c as int >= 0x1_0000 ==> utf16_units(c).len() == 2 && 0xd800 <= utf16_units(c)[0] <= 0xdbff
            && 0xdc00 <= utf16_units(c)[1] <= 0xdfff && 0x1_0000 + (utf16_units(c)[0] - 0xd800)
            * 0x400 + (utf16_units(c)[1] - 0xdc00) == c as int,
        utf16_of(Seq::empty()).len() == 0,
        utf16_of(s.push(c)) == utf16_of(s) + utf16_units(c),
{
    assert(s.push(c).drop_last() =~= s);
}

}
