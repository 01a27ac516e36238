//! Keys of the generated requests: decimal numerals drawn from a small,
//! fixed key space.

use vstd::prelude::*;

verus! {

/// Number of distinct keys. Every generated key is the numeral of some
/// `n < KEY_SPACE`.
pub const KEY_SPACE: u32 = 1000;

/// The character that writes the digit `d`.
pub open spec fn digit_char(d: nat) -> char {
    if d == 0 {
        '0'
    } else if d == 1 {
        '1'
    } else if d == 2 {
        '2'
    } else if d == 3 {
        '3'
    } else if d == 4 {
        '4'
    } else if d == 5 {
        '5'
    } else if d == 6 {
        '6'
    } else if d == 7 {
        '7'
    } else if d == 8 {
        '8'
    } else {
        '9'
    }
}

/// Decimal notation of `n`: most significant digit first, no sign, no
/// padding.
pub open spec fn decimal(n: nat) -> Seq<char>
    decreases n,
{
    if n < 10 {
        seq![digit_char(n)]
    } else {
        decimal(n / 10).push(digit_char(n % 10))
    }
}

/// `s` is one of the `KEY_SPACE` keys.
pub open spec fn is_key(s: Seq<char>) -> bool {
    exists|n: nat| n < KEY_SPACE && s == #[trigger] decimal(n)
}

/// `c` is one of the ten ASCII digits.
pub open spec fn is_digit(c: char) -> bool {
    '0' <= c <= '9'
}

/// The number that a digit character stands for.
pub open spec fn digit_value(c: char) -> nat {
    (c as nat - '0' as nat) as nat
}

/// The number that a string of digits denotes, read left to right.
pub open spec fn numeral_value(s: Seq<char>) -> nat
    decreases s.len(),
{
    if s.len() == 0 {
        0
    } else {
        10 * numeral_value(s.drop_last()) + digit_value(s.last())
    }
}

/// `s` is a canonical numeral: at least one character, digits only, and no
/// leading zero except in `"0"` itself.
pub open spec fn is_numeral(s: Seq<char>) -> bool {
    &&& s.len() >= 1
    &&& forall|i: int| 0 <= i < s.len() ==> is_digit(#[trigger] s[i])
    &&& (s.len() > 1 ==> s[0] != '0')
}

/// The one-character string that writes the digit `d`.
fn digit_str(d: u32) -> (s: &'static str)
    requires
        d < 10,
    ensures
        s@ == seq![digit_char(d as nat)],
{
    proof {
        reveal_strlit("0");
        reveal_strlit("1");
        reveal_strlit("2");
        reveal_strlit("3");
        reveal_strlit("4");
        reveal_strlit("5");
        reveal_strlit("6");
        reveal_strlit("7");
        reveal_strlit("8");
        reveal_strlit("9");
    }
    let s = if d == 0 {
        "0"
    } else if d == 1 {
        "1"
    } else if d == 2 {
        "2"
    } else if d == 3 {
        "3"
    } else if d == 4 {
        "4"
    } else if d == 5 {
        "5"
    } else if d == 6 {
        "6"
    } else if d == 7 {
        "7"
    } else if d == 8 {
        "8"
    } else {
        "9"
    };
    assert(s@ =~= seq![digit_char(d as nat)]);
    s
}

/// Writes `index` in decimal.
pub fn key_for(index: u32) -> (key: String)
    ensures
        key@ == decimal(index as nat),
    decreases index,
{
    if index < 10 {
        String::from_str(digit_str(index))
    } else {
        let mut key = key_for(index / 10);
        key.append(digit_str(index % 10));
        assert(key@ =~= decimal(index as nat));
        key
    }
}

/// Every numeral that `decimal` writes is canonical and denotes the number
/// it was written from.
pub proof fn lemma_decimal_is_numeral(n: nat)
    ensures
        is_numeral(decimal(n)),
        numeral_value(decimal(n)) == n,
        n >= 1 ==> decimal(n)[0] != '0',
    decreases n,
{
    if n < 10 {
        assert(numeral_value(decimal(n).drop_last()) == 0);
    } else {
        lemma_decimal_is_numeral(n / 10);
        assert(decimal(n).drop_last() =~= decimal(n / 10));
    }
}

/// A string of digits that does not start with `'0'` denotes a positive
/// number.
proof fn lemma_leading_digit(s: Seq<char>)
    requires
        s.len() >= 1,
        forall|i: int| 0 <= i < s.len() ==> is_digit(#[trigger] s[i]),
        s[0] != '0',
    ensures
        numeral_value(s) >= 1,
    decreases s.len(),
{
    if s.len() == 1 {
        assert(numeral_value(s.drop_last()) == 0);
    } else {
        lemma_leading_digit(s.drop_last());
    }
}

/// `decimal` writes every canonical numeral: writing the number that one
/// denotes gives the same string back.
pub proof fn lemma_numeral_is_decimal(s: Seq<char>)
    requires
        is_numeral(s),
    ensures
        decimal(numeral_value(s)) == s,
    decreases s.len(),
{
    let head = s.drop_last();
    let last = s.last();
    assert(is_digit(last));
    assert(digit_char(digit_value(last)) == last);
    if s.len() == 1 {
        assert(numeral_value(head) == 0);
        assert(decimal(numeral_value(s)) =~= s);
    } else {
        lemma_leading_digit(head);
        lemma_numeral_is_decimal(head);
        let value = numeral_value(s);
        assert(value / 10 == numeral_value(head) && value % 10 == digit_value(last));
        assert(decimal(value) =~= head.push(last));
        assert(head.push(last) =~= s);
    }
}

/// A numeral below one thousand has at most three characters, and a longer
/// one denotes a larger number.
pub proof fn lemma_decimal_width(n: nat)
    ensures
        n < 10 <==> decimal(n).len() == 1,
        10 <= n < 100 <==> decimal(n).len() == 2,
        100 <= n < 1000 <==> decimal(n).len() == 3,
        1000 <= n <==> decimal(n).len() >= 4,
{
    reveal_with_fuel(decimal, 4);
    if n >= 1000 {
        lemma_decimal_is_numeral(n / 1000);
    }
}

/// The keys are exactly the canonical numerals of the numbers below
/// `KEY_SPACE`: digits only, nothing before or after them, no leading zero.
pub proof fn lemma_key_is_numeral(s: Seq<char>)
    ensures
        is_key(s) <==> is_numeral(s) && numeral_value(s) < KEY_SPACE,
        is_key(s) ==> 1 <= s.len() <= 3,
{
    if is_key(s) {
        let n = choose|n: nat| n < KEY_SPACE && s == #[trigger] decimal(n);
        lemma_decimal_is_numeral(n);
        lemma_decimal_width(n);
    }
    if is_numeral(s) && numeral_value(s) < KEY_SPACE {
        lemma_numeral_is_decimal(s);
    }
}

} // verus!
