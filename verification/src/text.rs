//! Character-level text utilities shared by the bracket and profile modules.

use vstd::prelude::*;

verus! {

/// Character-for-character equality of two string slices.
pub fn str_eq(a: &str, b: &str) -> (r: bool)
    ensures
        r == (a@ == b@),
{
    let alen = a.unicode_len();
    let blen = b.unicode_len();
    if alen != blen {
        assert(a@ != b@);
        return false;
    }
    let mut i: usize = 0;
    while i < alen
        invariant
            alen == a@.len(),
            alen == b@.len(),
            0 <= i <= alen,
            forall|k: int| 0 <= k < i ==> a@[k] == b@[k],
        decreases alen - i,
    {
        if a.get_char(i) != b.get_char(i) {
            return false;
        }
        i = i + 1;
    }
    assert(a@ =~= b@);
    true
}

/// The character for a single decimal digit.
pub open spec fn dec_digit_char(d: nat) -> char {
    if d == 0 {
        '0'
    } else if d == 1 {
        '1'
    } else if d == 2 {
        '2'
    } else if d == 3 {
        '3'
    } else if d == 4 {
        '4'
    } else if d == 5 {
        '5'
    } else if d == 6 {
        '6'
    } else if d == 7 {
        '7'
    } else if d == 8 {
        '8'
    } else {
        '9'
    }
}

/// The decimal rendering of a natural number, most significant digit first,
/// without leading zeroes (a single `'0'` for zero).
pub open spec fn dec_str(n: nat) -> Seq<char>
    decreases n,
{
    if n < 10 {
        seq![dec_digit_char(n)]
    } else {
        dec_str(n / 10).push(dec_digit_char(n % 10))
    }
}

/// Appends the character for the single decimal digit `d` to `s`.
fn append_digit(s: &mut String, d: u16)
    requires
        d < 10,
    ensures
        final(s)@ == old(s)@.push(dec_digit_char(d as nat)),
{
    proof {
        reveal_strlit("0");
        reveal_strlit("1");
        reveal_strlit("2");
        reveal_strlit("3");
        reveal_strlit("4");
        reveal_strlit("5");
        reveal_strlit("6");
        reveal_strlit("7");
        reveal_strlit("8");
        reveal_strlit("9");
    }
    let ghost before = s@;
    if d == 0 {
        s.append("0");
    } else if d == 1 {
        s.append("1");
    } else if d == 2 {
        s.append("2");
    } else if d == 3 {
        s.append("3");
    } else if d == 4 {
        s.append("4");
    } else if d == 5 {
        s.append("5");
    } else if d == 6 {
        s.append("6");
    } else if d == 7 {
        s.append("7");
    } else if d == 8 {
        s.append("8");
    } else {
        s.append("9");
    }
    assert(s@ =~= before.push(dec_digit_char(d as nat)));
}

/// Renders a number in decimal.
pub fn u16_to_string(n: u16) -> (r: String)
    ensures
        r@ == dec_str(n as nat),
    decreases n,
{
    if n < 10 {
        let mut s = String::new();
        append_digit(&mut s, n);
        assert(s@ =~= seq![dec_digit_char(n as nat)]);
        s
    } else {
        let mut s = u16_to_string(n / 10);
        append_digit(&mut s, n % 10);
        s
    }
}

/// Whitespace, as trimming understands it: the characters with the Unicode
/// white-space property.
pub open spec fn is_space_char(c: char) -> bool {
    let u = c as u32;
    ||| u == 32
    ||| (9 <= u && u <= 13)
    ||| u == 0x85
    ||| u == 0xA0
    ||| u == 0x1680
    ||| (0x2000 <= u && u <= 0x200A)
    ||| u == 0x2028
    ||| u == 0x2029
    ||| u == 0x202F
    ||| u == 0x205F
    ||| u == 0x3000
}

/// Whether `c` is white space, per [`is_space_char`].
pub fn is_space(c: char) -> (r: bool)
    ensures
        r == is_space_char(c),
{
    let u = c as u32;
    u == 32 || (9 <= u && u <= 13) || u == 0x85 || u == 0xA0 || u == 0x1680 || (0x2000 <= u && u
        <= 0x200A) || u == 0x2028 || u == 0x2029 || u == 0x202F || u == 0x205F || u == 0x3000
}

/// `s` without its leading white space.
pub open spec fn trim_front_spec(s: Seq<char>) -> Seq<char>
    decreases s.len(),
{
    if s.len() > 0 && is_space_char(s[0]) {
        trim_front_spec(s.drop_first())
    } else {
        s
    }
}

/// `s` without its trailing white space.
pub open spec fn trim_back_spec(s: Seq<char>) -> Seq<char>
    decreases s.len(),
{
    if s.len() > 0 && is_space_char(s.last()) {
        trim_back_spec(s.drop_last())
    } else {
        s
    }
}

/// `s` without leading and trailing white space.
pub open spec fn trim_spec(s: Seq<char>) -> Seq<char> {
    trim_back_spec(trim_front_spec(s))
}

/// Strips leading and trailing white space.
pub fn trim_chars(s: &str) -> (r: &str)
    ensures
        r@ == trim_spec(s@),
{
    let len = s.unicode_len();
    proof {
        assert(s@.subrange(0, len as int) =~= s@);
    }
    let mut a: usize = 0;
    while a < len && is_space(s.get_char(a))
        invariant
            0 <= a <= len,
            len == s@.len(),
            trim_front_spec(s@) == trim_front_spec(s@.subrange(a as int, len as int)),
        decreases len - a,
    {
        proof {
            let cur = s@.subrange(a as int, len as int);
            assert(cur[0] == s@[a as int]);
            assert(cur.drop_first() =~= s@.subrange(a as int + 1, len as int));
        }
        a = a + 1;
    }
    proof {
        let cur = s@.subrange(a as int, len as int);
        if a < len {
            assert(cur[0] == s@[a as int]);
        }
        assert(trim_front_spec(s@) == cur);
    }
    let mut b: usize = len;
    while b > a && is_space(s.get_char(b - 1))
        invariant
            a <= b <= len,
            len == s@.len(),
            trim_front_spec(s@) == s@.subrange(a as int, len as int),
            trim_back_spec(s@.subrange(a as int, len as int)) == trim_back_spec(
                s@.subrange(a as int, b as int),
            ),
        decreases b,
    {
        proof {
            let cur = s@.subrange(a as int, b as int);
            assert(cur.last() == s@[b as int - 1]);
            assert(cur.drop_last() =~= s@.subrange(a as int, b as int - 1));
        }
        b = b - 1;
    }
    proof {
        let cur = s@.subrange(a as int, b as int);
        if b > a {
            assert(cur.last() == s@[b as int - 1]);
        }
        assert(trim_back_spec(cur) == cur);
    }
    s.substring_char(a, b)
}

/// A decimal digit.
pub open spec fn is_dec_digit(c: char) -> bool {
    48 <= c as int && c as int <= 57
}

/// The value of a decimal digit character.
pub open spec fn digit_val(c: char) -> int {
    c as int - 48
}

/// Every character of `s` is a decimal digit.
pub open spec fn all_dec_digits(s: Seq<char>) -> bool {
    forall|i: int| 0 <= i < s.len() ==> is_dec_digit(s[i])
}

/// The number a string of decimal digits denotes.
pub open spec fn digits_val(s: Seq<char>) -> int
    decreases s.len(),
{
    if s.len() == 0 {
        0
    } else {
        digits_val(s.drop_last()) * 10 + digit_val(s.last())
    }
}

/// What parsing a whole string as an unsigned 16-bit number yields: an
/// optional leading `'+'`, then one or more decimal digits, denoting a value
/// that fits; anything else fails.
pub open spec fn parse_u16_spec(s: Seq<char>) -> Option<u16> {
    let d = if s.len() > 0 && s[0] == '+' {
        s.drop_first()
    } else {
        s
    };
    if d.len() > 0 && all_dec_digits(d) && digits_val(d) <= u16::MAX {
        Some(digits_val(d) as u16)
    } else {
        None
    }
}

proof fn lemma_digits_val_nonneg(s: Seq<char>)
    requires
        all_dec_digits(s),
    ensures
        digits_val(s) >= 0,
    decreases s.len(),
{
    if s.len() > 0 {
        assert(all_dec_digits(s.drop_last()));
        lemma_digits_val_nonneg(s.drop_last());
        assert(is_dec_digit(s[s.len() - 1]));
        assert(digit_val(s.last()) >= 0);
    }
}

/// A digit string denotes at least what any of its prefixes denotes.
proof fn lemma_digits_val_prefix(s: Seq<char>, m: int)
    requires
        all_dec_digits(s),
        0 <= m <= s.len(),
    ensures
        digits_val(s.subrange(0, m)) <= digits_val(s),
    decreases s.len() - m,
{
    if m == s.len() {
        assert(s.subrange(0, m) =~= s);
    } else {
        lemma_digits_val_prefix(s, m + 1);
        let p = s.subrange(0, m + 1);
        assert(p.drop_last() =~= s.subrange(0, m));
        assert(p.last() == s[m]);
        assert(all_dec_digits(s.subrange(0, m)));
        lemma_digits_val_nonneg(s.subrange(0, m));
        assert(is_dec_digit(s[m]));
        assert(digit_val(s[m]) >= 0);
        assert(digits_val(p) == digits_val(s.subrange(0, m)) * 10 + digit_val(s[m]));
    }
}

/// Parses a whole string as an unsigned 16-bit number, per
/// [`parse_u16_spec`].
pub fn parse_u16(s: &str) -> (r: Option<u16>)
    ensures
        r == parse_u16_spec(s@),
{
    let len = s.unicode_len();
    let start: usize = if len > 0 && s.get_char(0) == '+' {
        1
    } else {
        0
    };
    let ghost d = if s@.len() > 0 && s@[0] == '+' {
        s@.drop_first()
    } else {
        s@
    };
    proof {
        assert(d =~= s@.subrange(start as int, len as int));
    }
    if start == len {
        return None;
    }
    // first pass: every remaining character must be a digit
    let mut i: usize = start;
    while i < len
        invariant
            start <= i <= len,
            len == s@.len(),
            d == s@.subrange(start as int, len as int),
            d == (if s@.len() > 0 && s@[0] == '+' {
                s@.drop_first()
            } else {
                s@
            }),
            forall|k: int| start <= k < i ==> is_dec_digit(s@[k]),
        decreases len - i,
    {
        let cu = s.get_char(i) as u32;
        if cu < 48 || cu > 57 {
            proof {
                assert(d[i - start as int] == s@[i as int]);
                assert(!all_dec_digits(d));
            }
            return None;
        }
        i = i + 1;
    }
    proof {
        assert forall|k: int| 0 <= k < d.len() implies is_dec_digit(d[k]) by {
            assert(d[k] == s@[k + start]);
        }
    }
    // second pass: accumulate, watching for values that do not fit
    let mut acc: u32 = 0;
    let mut j: usize = start;
    while j < len
        invariant
            start <= j <= len,
            len == s@.len(),
            d == s@.subrange(start as int, len as int),
            d == (if s@.len() > 0 && s@[0] == '+' {
                s@.drop_first()
            } else {
                s@
            }),
            all_dec_digits(d),
            acc == digits_val(d.subrange(0, j - start as int)),
            acc <= u16::MAX,
        decreases len - j,
    {
        let cu = s.get_char(j) as u32;
        proof {
            assert(d[j - start as int] == s@[j as int]);
            let p = d.subrange(0, j + 1 - start as int);
            assert(p.drop_last() =~= d.subrange(0, j - start as int));
            assert(p.last() == d[j - start as int]);
        }
        let dv = cu - 48;
        if acc > 6553 || (acc == 6553 && dv > 5) {
            proof {
                lemma_digits_val_prefix(d, j + 1 - start as int);
            }
            return None;
        }
        acc = acc * 10 + dv;
        j = j + 1;
    }
    proof {
        assert(d.subrange(0, d.len() as int) =~= d);
    }
    Some(acc as u16)
}

} // verus!
