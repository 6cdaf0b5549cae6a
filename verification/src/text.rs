//! Text helpers: the order on strings by which flights are listed, and the
//! decimal spelling of row numbers.

use vstd::prelude::*;

verus! {

/// `a` comes strictly before `b` in dictionary order, comparing character
/// by character from position `i` on.
pub open spec fn lex_less_from(a: Seq<char>, b: Seq<char>, i: int) -> bool
    decreases a.len() - i,
{
    if i < 0 || i >= b.len() {
        false
    } else if i >= a.len() {
        true
    } else if a[i] != b[i] {
        (a[i] as int) < (b[i] as int)
    } else {
        lex_less_from(a, b, i + 1)
    }
}

/// `a` comes strictly before `b` in dictionary order: at the first position
/// where they differ `a` has the smaller character, or `a` is a proper
/// prefix of `b`.
pub open spec fn lex_less(a: Seq<char>, b: Seq<char>) -> bool {
    lex_less_from(a, b, 0)
}

/// No string comes before itself.
pub proof fn lemma_lex_irreflexive(a: Seq<char>, i: int)
    requires
        0 <= i,
    ensures
        !lex_less_from(a, a, i),
    decreases a.len() - i,
{
    if i < a.len() {
        lemma_lex_irreflexive(a, i + 1);
    }
}

/// Two strings that agree before `i` and of which neither comes before the
/// other from `i` on are the same string.
pub proof fn lemma_lex_total(a: Seq<char>, b: Seq<char>, i: int)
    requires
        0 <= i <= a.len(),
        i <= b.len(),
        a.subrange(0, i) == b.subrange(0, i),
        !lex_less_from(a, b, i),
        !lex_less_from(b, a, i),
    ensures
        a == b,
    decreases a.len() - i,
{
    if i >= a.len() || i >= b.len() {
        assert(a.len() == b.len());
        assert(a.subrange(0, i) == a);
        assert(b.subrange(0, i) == b);
    } else {
        assert(a[i] == b[i]);
        assert(a.subrange(0, i + 1) == a.subrange(0, i).push(a[i]));
        assert(b.subrange(0, i + 1) == b.subrange(0, i).push(b[i]));
        lemma_lex_total(a, b, i + 1);
    }
}

/// Dictionary order is transitive.
pub proof fn lemma_lex_transitive(a: Seq<char>, b: Seq<char>, c: Seq<char>, i: int)
    requires
        0 <= i,
        lex_less_from(a, b, i),
        lex_less_from(b, c, i),
    ensures
        lex_less_from(a, c, i),
    decreases a.len() - i,
{
    if i < a.len() && a[i] == b[i] && b[i] == c[i] {
        lemma_lex_transitive(a, b, c, i + 1);
    }
}

/// Of two different strings one comes before the other, and never both.
pub proof fn lemma_lex_trichotomy(a: Seq<char>, b: Seq<char>)
    ensures
        a == b ==> !lex_less(a, b) && !lex_less(b, a),
        a != b ==> (lex_less(a, b) <==> !lex_less(b, a)),
{
    lemma_lex_irreflexive(a, 0);
    if a != b {
        if lex_less(a, b) && lex_less(b, a) {
            lemma_lex_transitive(a, b, a, 0);
        }
        if !lex_less(a, b) && !lex_less(b, a) {
            assert(a.subrange(0, 0) == b.subrange(0, 0));
            lemma_lex_total(a, b, 0);
        }
    }
}

/// Whether `a` comes strictly before `b` in dictionary order.
pub fn text_less(a: &str, b: &str) -> (r: bool)
    ensures
        r == lex_less(a@, b@),
{
    let a_len: usize = a.unicode_len();
    let b_len: usize = b.unicode_len();
    let mut i: usize = 0;
    while i < a_len && i < b_len
        invariant
            a_len == a@.len(),
            b_len == b@.len(),
            i <= a_len,
            i <= b_len,
            lex_less(a@, b@) == lex_less_from(a@, b@, i as int),
        decreases a_len - i,
    {
        let x: char = a.get_char(i);
        let y: char = b.get_char(i);
        if x != y {
            return (x as u32) < (y as u32);
        }
        i += 1;
    }
    i < b_len
}

/// The character that spells the digit `d`.
pub open spec fn digit_char(d: int) -> char {
    if d == 0 {
        '0'
    } else if d == 1 {
        '1'
    } else if d == 2 {
        '2'
    } else if d == 3 {
        '3'
    } else if d == 4 {
        '4'
    } else if d == 5 {
        '5'
    } else if d == 6 {
        '6'
    } else if d == 7 {
        '7'
    } else if d == 8 {
        '8'
    } else {
        '9'
    }
}

/// The decimal spelling of `n`, without leading zeros.
pub open spec fn decimal(n: nat) -> Seq<char>
    decreases n,
{
    if n < 10 {
        seq![digit_char(n as int)]
    } else {
        decimal(n / 10).push(digit_char((n % 10) as int))
    }
}

/// The one-character string that spells the digit `d`.
fn digit_text(d: u32) -> (r: &'static str)
    requires
        d < 10,
    ensures
        r@ == seq![digit_char(d as int)],
{
    proof {
        reveal_strlit("0");
        reveal_strlit("1");
        reveal_strlit("2");
        reveal_strlit("3");
        reveal_strlit("4");
        reveal_strlit("5");
        reveal_strlit("6");
        reveal_strlit("7");
        reveal_strlit("8");
        reveal_strlit("9");
    }
    let r: &'static str = match d {
        0 => "0",
        1 => "1",
        2 => "2",
        3 => "3",
        4 => "4",
        5 => "5",
        6 => "6",
        7 => "7",
        8 => "8",
        _ => "9",
    };
    assert(r@ =~= seq![digit_char(d as int)]);
    r
}

/// Spells `n` in decimal.
pub fn decimal_string(n: u32) -> (r: String)
    ensures
        r@ == decimal(n as nat),
    decreases n,
{
    if n < 10 {
        String::from_str(digit_text(n))
    } else {
        let mut r: String = decimal_string(n / 10);
        r.append(digit_text(n % 10));
        assert(r@ =~= decimal(n as nat));
        r
    }
}

/// `c` is a decimal digit.
pub open spec fn is_digit(c: char) -> bool {
    '0' as int <= c as int <= '9' as int
}

/// The number that a string of decimal digits spells; leading zeros count
/// for nothing.
pub open spec fn digits_value(s: Seq<char>) -> nat
    decreases s.len(),
{
    if s.len() == 0 {
        0
    } else {
        (digits_value(s.drop_last()) * 10 + (s.last() as int - '0' as int)) as nat
    }
}

/// Every character of `s` is a decimal digit.
pub open spec fn all_digits(s: Seq<char>) -> bool {
    forall|i: int| 0 <= i < s.len() ==> is_digit(#[trigger] s[i])
}

/// A digit added at the end multiplies the value by ten and adds the
/// digit; the value does not shrink.
pub proof fn lemma_digits_value_push(s: Seq<char>, c: char)
    requires
        is_digit(c),
    ensures
        digits_value(s.push(c)) == digits_value(s) * 10 + (c as int - '0' as int),
        digits_value(s.push(c)) >= digits_value(s),
{
    assert(s.push(c).drop_last() =~= s);
    assert(s.push(c).last() == c);
}

/// The decimal spelling of a number is made of digits and spells that
/// number.
pub proof fn lemma_decimal_digits(n: nat)
    ensures
        decimal(n).len() >= 1,
        all_digits(decimal(n)),
        digits_value(decimal(n)) == n,
    decreases n,
{
    if n < 10 {
        assert(decimal(n).drop_last() =~= Seq::<char>::empty());
        assert(digits_value(decimal(n).drop_last()) == 0);
    } else {
        lemma_decimal_digits(n / 10);
        lemma_digits_value_push(decimal(n / 10), digit_char((n % 10) as int));
    }
}

/// The value that [`read_digits`] gives for digits that spell `value`: the
/// value itself up to `u32::MAX`, and one more than `u32::MAX` for every
/// larger one.
pub open spec fn capped(value: nat) -> u64 {
    if value <= u32::MAX {
        value as u64
    } else {
        0x1_0000_0000
    }
}

/// Reads the characters of `text` from position `from` up to, not
/// including, position `to` as a decimal number. `None` where one of them
/// is no digit.
pub fn read_digits(text: &str, from: usize, to: usize) -> (r: Option<u64>)
    requires
        from <= to <= text@.len(),
    ensures
        match r {
            Some(value) => all_digits(text@.subrange(from as int, to as int)) && value == capped(
                digits_value(text@.subrange(from as int, to as int)),
            ),
            None => !all_digits(text@.subrange(from as int, to as int)),
        },
{
    let ghost digits: Seq<char> = text@.subrange(from as int, to as int);
    let mut value: u64 = 0;
    let mut i: usize = from;
    while i < to
        invariant
            from <= i <= to <= text@.len(),
            digits == text@.subrange(from as int, to as int),
            forall|j: int| 0 <= j < i - from ==> is_digit(#[trigger] digits[j]),
            value == capped(digits_value(digits.subrange(0, i - from))),
        decreases to - i,
    {
        let c: char = text.get_char(i);
        let code: u32 = c as u32;
        if code < 48 || code > 57 {
            assert(!is_digit(digits[i - from]));
            return None;
        }
        proof {
            assert(is_digit(c));
            assert(digits.subrange(0, i + 1 - from) =~= digits.subrange(0, i - from).push(c));
            lemma_digits_value_push(digits.subrange(0, i - from), c);
        }
        value = value * 10 + (code - 48) as u64;
        if value > 0x1_0000_0000 {
            value = 0x1_0000_0000;
        }
        i += 1;
    }
    assert(digits.subrange(0, i - from) =~= digits);
    Some(value)
}

/// The number that `text` spells: decimal digits, at least one, with or
/// without a plus sign before them, and a value that fits in 32 bits.
pub open spec fn number_of(text: Seq<char>) -> Option<u32> {
    let digits = if text.len() > 0 && text[0] == '+' {
        text.subrange(1, text.len() as int)
    } else {
        text
    };
    if digits.len() > 0 && all_digits(digits) && digits_value(digits) <= u32::MAX {
        Some(digits_value(digits) as u32)
    } else {
        None
    }
}

/// Reads a number.
pub fn read_number(text: &str) -> (r: Option<u32>)
    ensures
        r == number_of(text@),
{
    let len: usize = text.unicode_len();
    if len == 0 {
        return None;
    }
    let from: usize = if text.get_char(0) == '+' {
        1
    } else {
        0
    };
    if from == len {
        return None;
    }
    assert(from == 0 ==> text@.subrange(0, len as int) =~= text@);
    match read_digits(text, from, len) {
        Some(value) => if value > 0xffff_ffff {
            None
        } else {
            Some(value as u32)
        },
        None => None,
    }
}

} // verus!
