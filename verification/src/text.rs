//! Small string facts shared by the rest of the crate: Unicode white space
//! (what `str::trim` strips), decimal rendering of counters and dates, and
//! the order in which `str` comparison sorts text.

use vstd::prelude::*;
use vstd::string::*;

verus! {

/// The Unicode `White_Space` property: the characters `char::is_whitespace`
/// accepts and `str::trim` removes.
pub open spec fn is_white_space(c: char) -> bool {
    let u = c as u32;
    ||| 0x09 <= u <= 0x0D
    ||| u == 0x20
    ||| u == 0x85
    ||| u == 0xA0
    ||| u == 0x1680
    ||| 0x2000 <= u <= 0x200A
    ||| u == 0x2028
    ||| u == 0x2029
    ||| u == 0x202F
    ||| u == 0x205F
    ||| u == 0x3000
}

/// A string whose `trim()` is empty: every character is white space.
pub open spec fn is_blank(s: Seq<char>) -> bool {
    forall|i: int| 0 <= i < s.len() ==> is_white_space(#[trigger] s[i])
}

/// The ASCII digit for `d` (0..=9).
pub open spec fn digit_char(d: int) -> char {
    if d == 0 {
        '0'
    } else if d == 1 {
        '1'
    } else if d == 2 {
        '2'
    } else if d == 3 {
        '3'
    } else if d == 4 {
        '4'
    } else if d == 5 {
        '5'
    } else if d == 6 {
        '6'
    } else if d == 7 {
        '7'
    } else if d == 8 {
        '8'
    } else {
        '9'
    }
}

/// Base-ten rendering of `n` without leading zeros, as `to_string` gives it.
pub open spec fn decimal(n: nat) -> Seq<char>
    decreases n,
{
    if n < 10 {
        seq![digit_char(n as int)]
    } else {
        decimal(n / 10) + seq![digit_char((n % 10) as int)]
    }
}

/// Two-digit, zero-padded rendering of `n < 100` (the `{:02}` format).
pub open spec fn two_digits(n: nat) -> Seq<char> {
    seq![digit_char((n / 10) as int), digit_char((n % 10) as int)]
}

pub fn is_white_space_char(c: char) -> (r: bool)
    ensures
        r == is_white_space(c),
{
    let u: u32 = c as u32;
    (0x09 <= u && u <= 0x0D) || u == 0x20 || u == 0x85 || u == 0xA0 || u == 0x1680 || (0x2000
        <= u && u <= 0x200A) || u == 0x2028 || u == 0x2029 || u == 0x202F || u == 0x205F || u
        == 0x3000
}

/// `s.trim().is_empty()`: true when `s` holds nothing but white space.
pub fn is_blank_str(s: &str) -> (r: bool)
    ensures
        r == is_blank(s@),
{
    let n: usize = s.unicode_len();
    let mut i: usize = 0;
    while i < n
        invariant
            n == s@.len(),
            0 <= i <= n,
            forall|k: int| 0 <= k < i ==> is_white_space(#[trigger] s@[k]),
        decreases n - i,
    {
        let c = s.get_char(i);
        if !is_white_space_char(c) {
            assert(!is_white_space(s@[i as int]));
            return false;
        }
        i = i + 1;
    }
    true
}

/// String equality, character by character.
pub fn same_text(a: &str, b: &str) -> (r: bool)
    ensures
        r == (a@ == b@),
{
    let n: usize = a.unicode_len();
    if n != b.unicode_len() {
        return false;
    }
    let mut i: usize = 0;
    while i < n
        invariant
            n == a@.len(),
            n == b@.len(),
            0 <= i <= n,
            forall|k: int| 0 <= k < i ==> a@[k] == b@[k],
        decreases n - i,
    {
        if a.get_char(i) != b.get_char(i) {
            return false;
        }
        i = i + 1;
    }
    assert(a@ =~= b@);
    true
}

/// The one-character string for digit `d`.
pub fn digit_str(d: u64) -> (r: &'static str)
    requires
        d < 10,
    ensures
        r@ == seq![digit_char(d as int)],
{
    proof {
        reveal_strlit("0");
        reveal_strlit("1");
        reveal_strlit("2");
        reveal_strlit("3");
        reveal_strlit("4");
        reveal_strlit("5");
        reveal_strlit("6");
        reveal_strlit("7");
        reveal_strlit("8");
        reveal_strlit("9");
    }
    if d == 0 {
        "0"
    } else if d == 1 {
        "1"
    } else if d == 2 {
        "2"
    } else if d == 3 {
        "3"
    } else if d == 4 {
        "4"
    } else if d == 5 {
        "5"
    } else if d == 6 {
        "6"
    } else if d == 7 {
        "7"
    } else if d == 8 {
        "8"
    } else {
        "9"
    }
}

/// Appends the decimal rendering of `n` to `out`.
pub fn push_decimal(out: &mut String, n: u64)
    ensures
        final(out)@ == old(out)@ + decimal(n as nat),
    decreases n,
{
    if n >= 10 {
        push_decimal(out, n / 10);
    }
    let ghost mid = out@;
    out.append(digit_str(n % 10));
    assert(out@ == old(out)@ + decimal(n as nat)) by {
        if n >= 10 {
            assert(mid == old(out)@ + decimal((n / 10) as nat));
            assert(old(out)@ + decimal(n as nat) =~= mid + seq![digit_char((n % 10) as int)]);
        } else {
            assert(old(out)@ + decimal(n as nat) =~= old(out)@ + seq![digit_char((n % 10) as int)]);
        }
    }
}

/// Appends `n < 100` as two zero-padded digits.
pub fn push_two_digits(out: &mut String, n: u64)
    requires
        n < 100,
    ensures
        final(out)@ == old(out)@ + two_digits(n as nat),
{
    out.append(digit_str(n / 10));
    out.append(digit_str(n % 10));
    assert(out@ =~= old(out)@ + two_digits(n as nat));
}

/// `a` sorts before `b` as `str` comparison orders text: at the first
/// position where they differ `a` has the smaller character, or `a` is a
/// proper prefix of `b`.
pub open spec fn text_before(a: Seq<char>, b: Seq<char>) -> bool {
    exists|i: int|
        0 <= i <= a.len() && i <= b.len() && #[trigger] a.take(i) == b.take(i) && ((i < a.len()
            && i < b.len() && (a[i] as u32) < (b[i] as u32)) || (i == a.len() && i < b.len()))
}

/// A difference inside equally long leading parts decides the order,
/// whatever follows them.
pub proof fn lemma_before_extend(a1: Seq<char>, a2: Seq<char>, b1: Seq<char>, b2: Seq<char>)
    requires
        a1.len() == a2.len(),
        text_before(a1, a2),
    ensures
        text_before(a1 + b1, a2 + b2),
{
    let i = choose|i: int|
        0 <= i <= a1.len() && i <= a2.len() && #[trigger] a1.take(i) == a2.take(i) && ((i
            < a1.len() && i < a2.len() && (a1[i] as u32) < (a2[i] as u32)) || (i == a1.len() && i
            < a2.len()));
    assert((a1 + b1).take(i) =~= a1.take(i));
    assert((a2 + b2).take(i) =~= a2.take(i));
    assert((a1 + b1)[i] == a1[i]);
    assert((a2 + b2)[i] == a2[i]);
}

/// A common leading part leaves the order to what follows it.
pub proof fn lemma_before_after_common(a: Seq<char>, b1: Seq<char>, b2: Seq<char>)
    requires
        text_before(b1, b2),
    ensures
        text_before(a + b1, a + b2),
{
    let i = choose|i: int|
        0 <= i <= b1.len() && i <= b2.len() && #[trigger] b1.take(i) == b2.take(i) && ((i
            < b1.len() && i < b2.len() && (b1[i] as u32) < (b2[i] as u32)) || (i == b1.len() && i
            < b2.len()));
    let j = a.len() + i;
    assert((a + b1).take(j) =~= a + b1.take(i));
    assert((a + b2).take(j) =~= a + b2.take(i));
    if i < b1.len() && i < b2.len() {
        assert((a + b1)[j] == b1[i]);
        assert((a + b2)[j] == b2[i]);
    }
}

/// The digit characters are '0' ..= '9' in code-point order.
pub proof fn lemma_digit_char_value(d: int)
    requires
        0 <= d <= 9,
    ensures
        digit_char(d) as u32 == 48 + d,
{
}

/// Two-digit renderings sort as the numbers do.
pub proof fn lemma_two_digits_before(n1: nat, n2: nat)
    requires
        n1 < n2 < 100,
    ensures
        text_before(two_digits(n1), two_digits(n2)),
        two_digits(n1).len() == 2,
{
    let a = two_digits(n1);
    let b = two_digits(n2);
    lemma_digit_char_value((n1 / 10) as int);
    lemma_digit_char_value((n2 / 10) as int);
    lemma_digit_char_value((n1 % 10) as int);
    lemma_digit_char_value((n2 % 10) as int);
    if n1 / 10 < n2 / 10 {
        assert(a.take(0) =~= b.take(0));
    } else {
        assert(n1 % 10 < n2 % 10);
        assert(a.take(1) =~= b.take(1));
    }
}

/// A four-digit number renders as its four digits.
pub proof fn lemma_decimal_four_digits(y: nat)
    requires
        1000 <= y <= 9999,
    ensures
        decimal(y) == seq![
            digit_char((y / 1000) as int),
            digit_char(((y / 100) % 10) as int),
            digit_char(((y / 10) % 10) as int),
            digit_char((y % 10) as int),
        ],
{
    assert(y / 10 / 10 == y / 100);
    assert(y / 100 / 10 == y / 1000);
    assert(y / 1000 < 10);
    reveal_with_fuel(decimal, 4);
    assert(decimal(y / 1000) =~= seq![digit_char((y / 1000) as int)]);
    assert(decimal(y) =~= seq![
        digit_char((y / 1000) as int),
        digit_char(((y / 100) % 10) as int),
        digit_char(((y / 10) % 10) as int),
        digit_char((y % 10) as int),
    ]);
}

/// Four digits sort as the number they spell.
proof fn lemma_digit_quad_before(a1: int, b1: int, c1: int, d1: int, a2: int, b2: int, c2: int, d2: int)
    requires
        0 <= a1 <= 9 && 0 <= b1 <= 9 && 0 <= c1 <= 9 && 0 <= d1 <= 9,
        0 <= a2 <= 9 && 0 <= b2 <= 9 && 0 <= c2 <= 9 && 0 <= d2 <= 9,
        1000 * a1 + 100 * b1 + 10 * c1 + d1 < 1000 * a2 + 100 * b2 + 10 * c2 + d2,
    ensures
        text_before(
            seq![digit_char(a1), digit_char(b1), digit_char(c1), digit_char(d1)],
            seq![digit_char(a2), digit_char(b2), digit_char(c2), digit_char(d2)],
        ),
{
    let a = seq![digit_char(a1), digit_char(b1), digit_char(c1), digit_char(d1)];
    let b = seq![digit_char(a2), digit_char(b2), digit_char(c2), digit_char(d2)];
    lemma_digit_char_value(a1);
    lemma_digit_char_value(a2);
    lemma_digit_char_value(b1);
    lemma_digit_char_value(b2);
    lemma_digit_char_value(c1);
    lemma_digit_char_value(c2);
    lemma_digit_char_value(d1);
    lemma_digit_char_value(d2);
    if a1 != a2 {
        assert(a.take(0) =~= b.take(0));
    } else if b1 != b2 {
        assert(a.take(1) =~= b.take(1));
    } else if c1 != c2 {
        assert(a.take(2) =~= b.take(2));
    } else {
        assert(a.take(3) =~= b.take(3));
    }
}

/// A four-digit number is the number its digits spell.
proof fn lemma_four_digit_split(y: nat)
    requires
        y <= 9999,
    ensures
        y == 1000 * (y / 1000) + 100 * ((y / 100) % 10) + 10 * ((y / 10) % 10) + y % 10,
        y / 1000 <= 9,
{
}

/// Four-digit renderings sort as the numbers do.
pub proof fn lemma_four_digits_before(y1: nat, y2: nat)
    requires
        1000 <= y1 < y2 <= 9999,
    ensures
        text_before(decimal(y1), decimal(y2)),
        decimal(y1).len() == 4,
        decimal(y2).len() == 4,
{
    lemma_decimal_four_digits(y1);
    lemma_decimal_four_digits(y2);
    lemma_four_digit_split(y1);
    lemma_four_digit_split(y2);
    lemma_digit_quad_before(
        (y1 / 1000) as int,
        ((y1 / 100) % 10) as int,
        ((y1 / 10) % 10) as int,
        (y1 % 10) as int,
        (y2 / 1000) as int,
        ((y2 / 100) % 10) as int,
        ((y2 / 10) % 10) as int,
        (y2 % 10) as int,
    );
}

} // verus!
