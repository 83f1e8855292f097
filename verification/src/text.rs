//! Character-level text handling shared by the parsers and renderers.

use vstd::prelude::*;

verus! {

/// `c` with ASCII upper-case letters mapped to lower case; every other
/// character is left alone.
pub open spec fn lower_char(c: char) -> char {
    if 65 <= (c as u32) && (c as u32) <= 90 {
        ((c as u32) + 32) as char
    } else {
        c
    }
}

/// ASCII lower-casing of a whole text.
pub open spec fn ascii_lower(s: Seq<char>) -> Seq<char> {
    s.map_values(|c: char| lower_char(c))
}

/// Lower-casing twice is lower-casing once.
pub proof fn lemma_ascii_lower_idempotent(s: Seq<char>)
    ensures
        ascii_lower(ascii_lower(s)) == ascii_lower(s),
{
    assert(ascii_lower(ascii_lower(s)) =~= ascii_lower(s));
}

/// A text without ASCII upper-case letters is its own lower-cased form.
pub proof fn lemma_ascii_lower_of_lower(s: Seq<char>)
    requires
        forall|i: int| 0 <= i < s.len() ==> !(65 <= (#[trigger] s[i] as u32) <= 90),
    ensures
        ascii_lower(s) == s,
{
    assert(ascii_lower(s) =~= s);
}

/// Lower-casing moves exactly the ASCII upper-case letters, each by 32 code
/// points onto its lower-case letter, and keeps the length.
pub proof fn lemma_ascii_lower_chars(s: Seq<char>)
    ensures
        ascii_lower(s).len() == s.len(),
        forall|i: int| 0 <= i < s.len() ==> {
            &&& (65 <= (#[trigger] s[i] as u32) <= 90 ==> ascii_lower(s)[i] as u32 == s[i] as u32 + 32)
            &&& (!(65 <= (s[i] as u32) <= 90) ==> ascii_lower(s)[i] == s[i])
        },
{
    assert forall|i: int| 0 <= i < s.len() implies {
        &&& (65 <= (#[trigger] s[i] as u32) <= 90 ==> ascii_lower(s)[i] as u32 == s[i] as u32 + 32)
        &&& (!(65 <= (s[i] as u32) <= 90) ==> ascii_lower(s)[i] == s[i])
    } by {
        let c = s[i];
        if 65 <= (c as u32) && (c as u32) <= 90 {
            assert(((c as u32) + 32) as char as u32 == (c as u32) + 32);
        }
    }
}

/// `String::push`: appends one character to `out`; the contract claims that
/// the text afterwards is the text before with `c` at its end.
#[verifier::external_body]
pub(crate) fn push_char(out: &mut String, c: char)
    ensures
        final(out)@ == old(out)@.push(c),
{
    out.push(c);
}

pub fn lower_ascii_char(c: char) -> (r: char)
    ensures
        r == lower_char(c),
        65 <= (c as u32) <= 90 ==> r as u32 == c as u32 + 32,
        !(65 <= (c as u32) <= 90) ==> r == c,
{
    if 'A' <= c && c <= 'Z' {
        let b: u8 = c as u8;
        (b + 32) as char
    } else {
        c
    }
}

/// An owned copy of `s` with its ASCII letters lower-cased.
pub fn to_ascii_lowercase(s: &str) -> (r: String)
    ensures
        r@ == ascii_lower(s@),
        r@.len() == s@.len(),
        forall|i: int| 0 <= i < s@.len() ==> {
            &&& (65 <= (#[trigger] s@[i] as u32) <= 90 ==> r@[i] as u32 == s@[i] as u32 + 32)
            &&& (!(65 <= (s@[i] as u32) <= 90) ==> r@[i] == s@[i])
        },
{
    proof {
        lemma_ascii_lower_chars(s@);
    }
    let n: usize = s.unicode_len();
    let mut out = String::new();
    let mut i: usize = 0;
    while i < n
        invariant
            n == s@.len(),
            i <= n,
            out@ == ascii_lower(s@.subrange(0, i as int)),
        decreases n - i,
    {
        let c = s.get_char(i);
        push_char(&mut out, lower_ascii_char(c));
        proof {
            assert(s@.subrange(0, i + 1) == s@.subrange(0, i as int).push(c));
        }
        i = i + 1;
    }
    proof {
        assert(s@.subrange(0, n as int) == s@);
    }
    out
}

/// Character-wise equality of two texts.
pub fn str_eq(a: &str, b: &str) -> (r: bool)
    ensures
        r == (a@ == b@),
{
    let n: usize = a.unicode_len();
    let m: usize = b.unicode_len();
    if n != m {
        return false;
    }
    let mut i: usize = 0;
    while i < n
        invariant
            n == a@.len(),
            n == b@.len(),
            i <= n,
            forall|j: int| 0 <= j < i ==> a@[j] == b@[j],
        decreases n - i,
    {
        if a.get_char(i) != b.get_char(i) {
            return false;
        }
        i = i + 1;
    }
    proof {
        assert(a@ =~= b@);
    }
    true
}

/// The digit character for `d`, which lies in 0..10.
pub open spec fn digit_char(d: int) -> char {
    (48 + d) as char
}

/// The decimal digits of `n`, most significant first, without leading zeros.
pub open spec fn decimal(n: nat) -> Seq<char>
    decreases n,
{
    if n < 10 {
        seq![digit_char(n as int)]
    } else {
        decimal(n / 10).push(digit_char((n % 10) as int))
    }
}

/// `d` with zeros in front, up to `width` characters.
pub open spec fn zero_pad(d: Seq<char>, width: nat) -> Seq<char> {
    if d.len() < width {
        Seq::new((width - d.len()) as nat, |i: int| '0') + d
    } else {
        d
    }
}

/// `n` in decimal, zero-padded to `width` characters with the sign counted
/// in the width: what the format specification `{:0width}` prints.
pub open spec fn padded_int(n: int, width: nat) -> Seq<char> {
    if n < 0 {
        seq!['-'] + zero_pad(decimal((-n) as nat), if width > 0 { (width - 1) as nat } else { 0 })
    } else {
        zero_pad(decimal(n as nat), width)
    }
}

/// A number below 100 printed with `{:02}` is its tens digit then its units
/// digit, a leading zero included.
pub proof fn lemma_two_places(v: int)
    requires
        0 <= v < 100,
    ensures
        padded_int(v, 2) == seq![(48 + v / 10) as char, (48 + v % 10) as char],
{
    if v < 10 {
        assert(decimal(v as nat) == seq![(48 + v) as char]);
        assert(padded_int(v, 2) =~= seq![(48 + v / 10) as char, (48 + v % 10) as char]);
    } else {
        let n = v as nat;
        assert(decimal(n / 10) == seq![(48 + v / 10) as char]);
        assert(decimal(n) == decimal(n / 10).push(digit_char((n % 10) as int)));
        assert(decimal(n) =~= seq![(48 + v / 10) as char, (48 + v % 10) as char]);
    }
}

/// A number below 10000 printed with `{:04}` is its four decimal digits,
/// leading zeros included.
pub proof fn lemma_four_places(v: int)
    requires
        0 <= v < 10000,
    ensures
        padded_int(v, 4) == seq![
            (48 + v / 1000) as char,
            (48 + (v / 100) % 10) as char,
            (48 + (v / 10) % 10) as char,
            (48 + v % 10) as char,
        ],
{
    let n = v as nat;
    let expected = seq![
        (48 + v / 1000) as char,
        (48 + (v / 100) % 10) as char,
        (48 + (v / 10) % 10) as char,
        (48 + v % 10) as char,
    ];
    assert((v / 10) / 10 == v / 100) by (nonlinear_arith)
        requires
            0 <= v,
    ;
    assert((v / 100) / 10 == v / 1000) by (nonlinear_arith)
        requires
            0 <= v,
    ;
    if v < 10 {
        assert(decimal(n) == seq![(48 + v) as char]);
        assert(padded_int(v, 4) =~= expected);
    } else if v < 100 {
        assert(decimal(n / 10) == seq![(48 + v / 10) as char]);
        assert(decimal(n) =~= seq![(48 + v / 10) as char, (48 + v % 10) as char]);
        assert(padded_int(v, 4) =~= expected);
    } else if v < 1000 {
        assert(decimal(n / 100) == seq![(48 + v / 100) as char]);
        assert(decimal(n / 10) =~= seq![(48 + v / 100) as char, (48 + (v / 10) % 10) as char]);
        assert(decimal(n) =~= seq![(48 + v / 100) as char, (48 + (v / 10) % 10) as char, (48 + v % 10) as char]);
        assert(padded_int(v, 4) =~= expected);
    } else {
        assert(decimal(n / 1000) == seq![(48 + v / 1000) as char]);
        assert(decimal(n / 100) =~= seq![(48 + v / 1000) as char, (48 + (v / 100) % 10) as char]);
        assert(decimal(n / 10) =~= seq![
            (48 + v / 1000) as char,
            (48 + (v / 100) % 10) as char,
            (48 + (v / 10) % 10) as char,
        ]);
        assert(decimal(n) =~= expected);
    }
}

/// The character of the digit `d`.
pub fn digit(d: u8) -> (c: char)
    requires
        d < 10,
    ensures
        c == digit_char(d as int),
{
    (48u8 + d) as char
}

/// Appends the decimal digits of `n` to `out`.
pub fn push_decimal(out: &mut String, n: u64)
    ensures
        final(out)@ == old(out)@ + decimal(n as nat),
    decreases n,
{
    if n >= 10 {
        push_decimal(out, n / 10);
    }
    let d: u8 = (n % 10) as u8;
    push_char(out, digit(d));
    proof {
        assert(final(out)@ =~= old(out)@ + decimal(n as nat));
    }
}

/// Appends `t` to `out`, character by character.
pub fn push_str(out: &mut String, t: &str)
    ensures
        final(out)@ == old(out)@ + t@,
{
    let n: usize = t.unicode_len();
    let mut i: usize = 0;
    let ghost start = out@;
    while i < n
        invariant
            n == t@.len(),
            i <= n,
            out@ == start + t@.subrange(0, i as int),
        decreases n - i,
    {
        push_char(out, t.get_char(i));
        proof {
            assert(start + t@.subrange(0, i + 1) =~= (start + t@.subrange(0, i as int)).push(t@[i as int]));
        }
        i = i + 1;
    }
    proof {
        assert(t@.subrange(0, n as int) =~= t@);
    }
}

/// Appends `n` in decimal to `out`, zero-padded to `width` characters with
/// the sign counted in the width.
pub fn push_padded(out: &mut String, n: i64, width: usize)
    requires
        n > i64::MIN,
    ensures
        final(out)@ == old(out)@ + padded_int(n as int, width as nat),
{
    let magnitude: u64 = if n < 0 {
        (-n) as u64
    } else {
        n as u64
    };
    let mut digits = String::new();
    push_decimal(&mut digits, magnitude);
    let len: usize = digits.as_str().unicode_len();
    let ghost start = out@;
    let w: usize = if n < 0 {
        push_char(out, '-');
        if width > 0 {
            width - 1
        } else {
            0
        }
    } else {
        width
    };
    let ghost signed = out@;
    let mut k: usize = len;
    while k < w
        invariant
            len <= k,
            k <= w || k == len,
            out@ == signed + Seq::new((k - len) as nat, |i: int| '0'),
        decreases w - k,
    {
        push_char(out, '0');
        proof {
            assert(signed + Seq::new((k + 1 - len) as nat, |i: int| '0') =~= (signed + Seq::new(
                (k - len) as nat,
                |i: int| '0',
            )).push('0'));
        }
        k = k + 1;
    }
    let ghost padded = out@;
    push_str(out, digits.as_str());
    proof {
        let d = decimal(magnitude as nat);
        assert(digits@ == d);
        assert(out@ == padded + d);
        if len >= w {
            assert(k == len);
            assert(padded =~= signed);
            assert(out@ =~= signed + d);
        } else {
            assert(k == w);
        }
        if n < 0 {
            assert(out@ =~= start + padded_int(n as int, width as nat));
        } else {
            assert(out@ =~= start + padded_int(n as int, width as nat));
        }
    }
}

} // verus!
