//! Character classes, decimal numbers and small string helpers shared by the
//! lexers, the parser and the serializers.
use vstd::prelude::*;

verus! {

/// Whether `c` has the Unicode `Alphabetic` property.
pub uninterp spec fn is_alphabetic(c: char) -> bool;

/// Whether `c` belongs to one of the Unicode general categories for numbers.
pub uninterp spec fn is_numeric(c: char) -> bool;

/// Whether `c` has the Unicode `White_Space` property: the tab, line feed,
/// line and form feed controls and carriage return, the space, the next line
/// control, the no-break space, the Ogham space mark, the spaces from the en
/// quad to the hair space, the line and paragraph separators, the narrow
/// no-break space, the medium mathematical space and the ideographic space.
pub open spec fn is_whitespace(c: char) -> bool {
    let u = c as u32;
    ||| 0x9 <= u <= 0xD
    ||| u == 0x20
    ||| u == 0x85
    ||| u == 0xA0
    ||| u == 0x1680
    ||| 0x2000 <= u <= 0x200A
    ||| u == 0x2028
    ||| u == 0x2029
    ||| u == 0x202F
    ||| u == 0x205F
    ||| u == 0x3000
}

/// Whether `c` is alphabetic, as `char::is_alphabetic` tells: among the ASCII
/// characters exactly the letters, beyond them the Unicode `Alphabetic`
/// property.
pub open spec fn alphabetic(c: char) -> bool {
    if (c as u32) < 128 {
        is_ascii_letter(c)
    } else {
        is_alphabetic(c)
    }
}

/// Whether `c` is numeric, as `char::is_numeric` tells: among the ASCII
/// characters exactly the digits, beyond them the Unicode number categories.
pub open spec fn numeric(c: char) -> bool {
    if (c as u32) < 128 {
        is_ascii_digit(c)
    } else {
        is_numeric(c)
    }
}

/// An ASCII letter, `a` to `z` or `A` to `Z`.
pub open spec fn is_ascii_letter(c: char) -> bool {
    ('a' <= c && c <= 'z') || ('A' <= c && c <= 'Z')
}

/// An ASCII digit, `0` to `9`.
pub open spec fn is_ascii_digit(c: char) -> bool {
    '0' <= c && c <= '9'
}

/// Calls `char::is_alphabetic`; the result is named `is_alphabetic(c)`.
/// Among the ASCII characters exactly the letters have the property.
#[verifier::external_body]
pub fn char_is_alphabetic(c: char) -> (b: bool)
    ensures
        b == is_alphabetic(c),
        (c as u32) < 128 ==> (b <==> is_ascii_letter(c)),
        is_ascii_digit(c) ==> !b,
{
    c.is_alphabetic()
}

/// Calls `char::is_numeric`; the result is named `is_numeric(c)`. Among the
/// ASCII characters exactly the digits are numeric.
#[verifier::external_body]
pub fn char_is_numeric(c: char) -> (b: bool)
    ensures
        b == is_numeric(c),
        (c as u32) < 128 ==> (b <==> is_ascii_digit(c)),
        is_ascii_letter(c) ==> !b,
{
    c.is_numeric()
}

/// Whether `c` has the Unicode `White_Space` property, as `is_whitespace`
/// lists it; the same answer as `char::is_whitespace`.
pub fn char_is_whitespace(c: char) -> (b: bool)
    ensures
        b == is_whitespace(c),
{
    let u = c as u32;
    (0x9 <= u && u <= 0xD) || u == 0x20 || u == 0x85 || u == 0xA0 || u == 0x1680 || (0x2000 <= u && u <= 0x200A)
        || u == 0x2028 || u == 0x2029 || u == 0x202F || u == 0x205F || u == 0x3000
}

/// Calls `String::push`, which appends one character.
#[verifier::external_body]
pub fn push_char(s: &mut String, c: char)
    ensures
        final(s)@ == old(s)@.push(c),
{
    s.push(c)
}

/// The characters of a string slice, in order.
pub fn chars_of(s: &str) -> (v: Vec<char>)
    ensures
        v@ == s@,
{
    let mut v: Vec<char> = Vec::new();
    for c in it: s.chars()
        invariant
            v@ == it.seq().take(it.index() as int),
    {
        v.push(c);
    }
    v
}

/// A string holding exactly the given characters.
pub fn string_of(v: &Vec<char>) -> (s: String)
    ensures
        s@ == v@,
{
    let mut s = String::new();
    let mut i: usize = 0;
    while i < v.len()
        invariant
            i <= v.len(),
            s@ == v@.take(i as int),
        decreases v.len() - i,
    {
        push_char(&mut s, v[i]);
        i = i + 1;
        assert(s@ == v@.take(i as int));
    }
    assert(v@.take(v.len() as int) == v@);
    s
}

/// Appends a string slice.
pub fn push_str(s: &mut String, t: &str)
    ensures
        final(s)@ == old(s)@ + t@,
{
    s.append(t);
}

/// The ASCII digit for a value below ten.
pub open spec fn digit_char(d: nat) -> char {
    if d == 0 { '0' }
    else if d == 1 { '1' }
    else if d == 2 { '2' }
    else if d == 3 { '3' }
    else if d == 4 { '4' }
    else if d == 5 { '5' }
    else if d == 6 { '6' }
    else if d == 7 { '7' }
    else if d == 8 { '8' }
    else { '9' }
}

/// The value of an ASCII digit, or `None` for any other character.
pub open spec fn digit_value(c: char) -> Option<nat> {
    if '0' <= c && c <= '9' {
        Some((c as nat - '0' as nat) as nat)
    } else {
        None
    }
}

/// The decimal representation of `n`, without leading zeros.
pub open spec fn decimal(n: nat) -> Seq<char>
    decreases n,
{
    if n < 10 {
        seq![digit_char(n)]
    } else {
        decimal(n / 10).push(digit_char(n % 10))
    }
}

/// The value of a sequence of ASCII digits read in base ten, or `None` when a
/// character is not an ASCII digit. The empty sequence reads as zero.
pub open spec fn decimal_value(s: Seq<char>) -> Option<nat>
    decreases s.len(),
{
    if s.len() == 0 {
        Some(0)
    } else {
        match (decimal_value(s.drop_last()), digit_value(s.last())) {
            (Some(high), Some(low)) => Some(high * 10 + low),
            _ => None,
        }
    }
}

fn digit_of(d: usize) -> (c: char)
    requires
        d < 10,
    ensures
        c == digit_char(d as nat),
{
    if d == 0 { '0' }
    else if d == 1 { '1' }
    else if d == 2 { '2' }
    else if d == 3 { '3' }
    else if d == 4 { '4' }
    else if d == 5 { '5' }
    else if d == 6 { '6' }
    else if d == 7 { '7' }
    else if d == 8 { '8' }
    else { '9' }
}

/// The decimal representation of `n` as a vector of characters.
pub fn decimal_chars(n: usize) -> (v: Vec<char>)
    ensures
        v@ == decimal(n as nat),
    decreases n,
{
    if n < 10 {
        let mut v = Vec::new();
        v.push(digit_of(n));
        v
    } else {
        let mut v = decimal_chars(n / 10);
        v.push(digit_of(n % 10));
        v
    }
}

/// Appends the decimal representation of `n`.
pub fn push_decimal(s: &mut String, n: usize)
    ensures
        final(s)@ == old(s)@ + decimal(n as nat),
{
    let digits = decimal_chars(n);
    let mut i: usize = 0;
    while i < digits.len()
        invariant
            i <= digits.len(),
            digits@ == decimal(n as nat),
            s@ == old(s)@ + digits@.take(i as int),
        decreases digits.len() - i,
    {
        push_char(s, digits[i]);
        i = i + 1;
        assert(digits@.take(i as int) == digits@.take(i - 1) .push(digits@[i - 1]));
    }
    assert(digits@.take(digits.len() as int) == digits@);
}

/// The decimal representation of `n` as a string.
pub fn decimal_string(n: usize) -> (s: String)
    ensures
        s@ == decimal(n as nat),
{
    let mut s = String::new();
    push_decimal(&mut s, n);
    assert(s@ == Seq::<char>::empty() + decimal(n as nat));
    assert(Seq::<char>::empty() + decimal(n as nat) == decimal(n as nat));
    s
}

/// Reads a sequence of ASCII digits in base ten; `None` when a character is not
/// an ASCII digit or the value does not fit in a `usize`.
pub fn parse_decimal(s: &str) -> (r: Option<usize>)
    ensures
        r matches Some(n) ==> decimal_value(s@) == Some(n as nat),
        r is None ==> decimal_value(s@) is None || decimal_value(s@).unwrap() > usize::MAX,
{
    let chars = chars_of(s);
    let mut value: usize = 0;
    let mut i: usize = 0;
    while i < chars.len()
        invariant
            i <= chars.len(),
            chars@ == s@,
            decimal_value(chars@.take(i as int)) == Some(value as nat),
        decreases chars.len() - i,
    {
        let c = chars[i];
        assert(chars@.take(i + 1).drop_last() == chars@.take(i as int));
        if c < '0' || c > '9' {
            proof {
                lemma_decimal_value_prefix_none(chars@, (i + 1) as nat);
            }
            return None;
        }
        let d = (c as u32 - '0' as u32) as usize;
        if value > (usize::MAX - d) / 10 {
            proof {
                lemma_decimal_value_prefix_large(chars@, (i + 1) as nat);
            }
            return None;
        }
        value = value * 10 + d;
        i = i + 1;
    }
    assert(chars@.take(chars.len() as int) == chars@);
    Some(value)
}

/// Once a prefix holds a character that is not a digit, so does every longer
/// sequence.
proof fn lemma_decimal_value_prefix_none(s: Seq<char>, k: nat)
    requires
        k <= s.len(),
        decimal_value(s.take(k as int)) is None,
    ensures
        decimal_value(s) is None,
    decreases s.len() - k,
{
    if k < s.len() {
        let t = s.take((k + 1) as int);
        assert(t.drop_last() == s.take(k as int));
        lemma_decimal_value_prefix_none(s, k + 1);
    } else {
        assert(s.take(k as int) == s);
    }
}

/// Reading more digits never makes the value smaller.
proof fn lemma_decimal_value_monotone(s: Seq<char>, k: nat)
    requires
        k <= s.len(),
        decimal_value(s) is Some,
    ensures
        decimal_value(s.take(k as int)) is Some,
        decimal_value(s.take(k as int)).unwrap() <= decimal_value(s).unwrap(),
    decreases s.len() - k,
{
    if k < s.len() {
        lemma_decimal_value_monotone(s, k + 1);
        let t = s.take((k + 1) as int);
        assert(t.drop_last() == s.take(k as int));
    } else {
        assert(s.take(k as int) == s);
    }
}

proof fn lemma_decimal_value_prefix_large(s: Seq<char>, k: nat)
    requires
        k <= s.len(),
        k > 0,
        decimal_value(s.take(k - 1)) is Some,
        digit_value(s[k - 1]) is Some,
        decimal_value(s.take(k - 1)).unwrap() * 10 + digit_value(s[k - 1]).unwrap() > usize::MAX,
    ensures
        decimal_value(s) is None || decimal_value(s).unwrap() > usize::MAX,
{
    let t = s.take(k as int);
    assert(t.drop_last() == s.take(k - 1));
    assert(t.last() == s[k - 1]);
    if decimal_value(s) is Some {
        lemma_decimal_value_monotone(s, k);
    }
}

} // verus!

verus! {

/// Whether two string slices hold the same characters.
pub fn str_eq(a: &str, b: &str) -> (r: bool)
    ensures
        r == (a@ == b@),
{
    let x = chars_of(a);
    let y = chars_of(b);
    if x.len() != y.len() {
        return false;
    }
    let mut i: usize = 0;
    while i < x.len()
        invariant
            x.len() == y.len(),
            i <= x.len(),
            x@ == a@,
            y@ == b@,
            forall|k: int| 0 <= k < i ==> x@[k] == y@[k],
        decreases x.len() - i,
    {
        if x[i] != y[i] {
            return false;
        }
        i = i + 1;
    }
    assert(x@ =~= y@);
    true
}

} // verus!
