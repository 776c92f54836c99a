//! Plain-text building blocks: decimal numbers, booleans and joined lists.

use vstd::prelude::*;
use vstd::string::*;

verus! {

/// The character that stands for the decimal digit `d`.
pub open spec fn digit(d: nat) -> char
    recommends
        d < 10,
{
    if d == 0 {
        '0'
    } else if d == 1 {
        '1'
    } else if d == 2 {
        '2'
    } else if d == 3 {
        '3'
    } else if d == 4 {
        '4'
    } else if d == 5 {
        '5'
    } else if d == 6 {
        '6'
    } else if d == 7 {
        '7'
    } else if d == 8 {
        '8'
    } else {
        '9'
    }
}

/// The decimal numeral of `n`: most significant digit first, no leading zero
/// except for zero itself.
pub open spec fn decimal(n: nat) -> Seq<char>
    decreases n,
{
    if n < 10 {
        seq![digit(n)]
    } else {
        decimal(n / 10).push(digit(n % 10))
    }
}

/// The text of a boolean.
pub open spec fn boolean(b: bool) -> Seq<char> {
    if b {
        "true"@
    } else {
        "false"@
    }
}

/// The parts in order, with `sep` between each two neighbours.
pub open spec fn joined(parts: Seq<Seq<char>>, sep: Seq<char>) -> Seq<char>
    decreases parts.len(),
{
    if parts.len() == 0 {
        Seq::empty()
    } else if parts.len() == 1 {
        parts[0]
    } else {
        joined(parts.drop_last(), sep) + sep + parts.last()
    }
}

/// The contents of each string of a list.
pub open spec fn contents(parts: Seq<String>) -> Seq<Seq<char>> {
    Seq::new(parts.len(), |i: int| parts[i]@)
}

/// The decimal numeral of each byte.
pub open spec fn numerals(bytes: Seq<u8>) -> Seq<Seq<char>> {
    Seq::new(bytes.len(), |i: int| decimal(bytes[i] as nat))
}

/// A byte string as a bracketed list of numbers: `[1, 2, 3]`.
pub open spec fn byte_list(bytes: Seq<u8>) -> Seq<char> {
    "["@ + joined(numerals(bytes), ", "@) + "]"@
}

/// Digits gathered least significant first, read back most significant first.
spec fn reversed_digits(digits: Seq<u8>) -> Seq<char> {
    Seq::new(digits.len(), |i: int| digit(digits[digits.len() - 1 - i] as nat))
}

fn digit_text(d: u8) -> (s: &'static str)
    requires
        d < 10,
    ensures
        s@ == seq![digit(d as nat)],
{
    proof {
        reveal_strlit("0");
        reveal_strlit("1");
        reveal_strlit("2");
        reveal_strlit("3");
        reveal_strlit("4");
        reveal_strlit("5");
        reveal_strlit("6");
        reveal_strlit("7");
        reveal_strlit("8");
        reveal_strlit("9");
    }
    let s: &'static str = if d == 0 {
        "0"
    } else if d == 1 {
        "1"
    } else if d == 2 {
        "2"
    } else if d == 3 {
        "3"
    } else if d == 4 {
        "4"
    } else if d == 5 {
        "5"
    } else if d == 6 {
        "6"
    } else if d == 7 {
        "7"
    } else if d == 8 {
        "8"
    } else {
        "9"
    };
    assert(s@ =~= seq![digit(d as nat)]);
    s
}

/// Writes `n` in decimal.
pub fn decimal_text(n: u64) -> (s: String)
    ensures
        s@ == decimal(n as nat),
{
    let mut digits: Vec<u8> = Vec::new();
    let mut rest: u64 = n;
    while rest >= 10
        invariant
            decimal(n as nat) == decimal(rest as nat) + reversed_digits(digits@),
            forall|i: int| 0 <= i < digits.len() ==> digits[i] < 10,
        decreases rest,
    {
        let low: u8 = (rest % 10) as u8;
        proof {
            let before = reversed_digits(digits@);
            let after = reversed_digits(digits@.push(low));
            assert(after =~= seq![digit(low as nat)] + before);
            assert(decimal(rest as nat) == decimal((rest / 10) as nat).push(digit(low as nat)));
            assert(decimal((rest / 10) as nat).push(digit(low as nat)) + before =~= decimal(
                (rest / 10) as nat,
            ) + after);
        }
        digits.push(low);
        rest = rest / 10;
    }
    let mut s: String = String::from_str(digit_text(rest as u8));
    let mut left: usize = digits.len();
    assert(s@ =~= decimal(rest as nat) + reversed_digits(digits@).take(0));
    while left > 0
        invariant
            left <= digits.len(),
            forall|i: int| 0 <= i < digits.len() ==> digits[i] < 10,
            s@ == decimal(rest as nat) + reversed_digits(digits@).take(digits.len() - left),
        decreases left,
    {
        left = left - 1;
        let d: u8 = digits[left];
        proof {
            let all = reversed_digits(digits@);
            let done = digits.len() - left - 1;
            assert(all.take(done + 1) =~= all.take(done) + seq![digit(d as nat)]);
        }
        s.append(digit_text(d));
    }
    proof {
        let all = reversed_digits(digits@);
        assert(all.take(digits.len() as int) =~= all);
    }
    s
}

/// Writes a boolean as `true` or `false`.
pub fn boolean_text(b: bool) -> (s: &'static str)
    ensures
        s@ == boolean(b),
{
    if b {
        "true"
    } else {
        "false"
    }
}

/// Joins the parts with `sep` between each two neighbours.
pub fn join(parts: &Vec<String>, sep: &str) -> (s: String)
    ensures
        s@ == joined(contents(parts@), sep@),
{
    let mut s: String = String::new();
    let mut i: usize = 0;
    while i < parts.len()
        invariant
            i <= parts.len(),
            s@ == joined(contents(parts@).take(i as int), sep@),
        decreases parts.len() - i,
    {
        proof {
            let all = contents(parts@);
            assert(all.take(i + 1).drop_last() =~= all.take(i as int));
            assert(all.take(i + 1).last() == parts[i as int]@);
            if i > 0 {
                assert(joined(all.take(i + 1), sep@) == joined(all.take(i as int), sep@) + sep@
                    + parts[i as int]@);
            } else {
                assert(joined(all.take(i + 1), sep@) == parts[i as int]@);
                assert(joined(all.take(0), sep@) =~= Seq::<char>::empty());
            }
        }
        if i > 0 {
            s.append(sep);
        }
        s.append(parts[i].as_str());
        i = i + 1;
    }
    proof {
        let all = contents(parts@);
        assert(all.take(parts.len() as int) =~= all);
    }
    s
}

/// Writes a byte string as a bracketed list of numbers.
pub fn byte_list_text(bytes: &Vec<u8>) -> (s: String)
    ensures
        s@ == byte_list(bytes@),
{
    let mut items: Vec<String> = Vec::new();
    let mut i: usize = 0;
    while i < bytes.len()
        invariant
            i <= bytes.len(),
            items.len() == i,
            contents(items@) == numerals(bytes@).take(i as int),
        decreases bytes.len() - i,
    {
        let item: String = decimal_text(bytes[i] as u64);
        proof {
            let grown = contents(items@.push(item));
            let wanted = numerals(bytes@).take(i + 1);
            assert forall|j: int| 0 <= j < i + 1 implies grown[j] == wanted[j] by {
                if j < i {
                    assert(contents(items@)[j] == numerals(bytes@).take(i as int)[j]);
                }
            }
            assert(grown =~= wanted);
        }
        items.push(item);
        i = i + 1;
    }
    proof {
        assert(numerals(bytes@).take(bytes.len() as int) =~= numerals(bytes@));
    }
    let mut s: String = String::from_str("[");
    let inner: String = join(&items, ", ");
    s.append(inner.as_str());
    s.append("]");
    s
}

/// A numeral has at least one digit, and two or more from ten on.
pub proof fn lemma_decimal_length(n: nat)
    ensures
        decimal(n).len() >= 1,
        n >= 10 ==> decimal(n).len() >= 2,
    decreases n,
{
    if n >= 10 {
        lemma_decimal_length(n / 10);
    }
}

/// Different numbers have different numerals.
pub proof fn lemma_decimal_is_injective(a: nat, b: nat)
    requires
        decimal(a) == decimal(b),
    ensures
        a == b,
    decreases a,
{
    lemma_decimal_length(a);
    lemma_decimal_length(b);
    if a < 10 && b < 10 {
        assert(decimal(a)[0] == digit(a));
        assert(decimal(b)[0] == digit(b));
        lemma_digit_is_injective(a, b);
    } else if a >= 10 && b >= 10 {
        let high_a = decimal(a / 10);
        let high_b = decimal(b / 10);
        assert(decimal(a).last() == digit(a % 10));
        assert(decimal(b).last() == digit(b % 10));
        assert(decimal(a).drop_last() =~= high_a);
        assert(decimal(b).drop_last() =~= high_b);
        lemma_decimal_is_injective(a / 10, b / 10);
        lemma_digit_is_injective(a % 10, b % 10);
        assert(a == 10 * (a / 10) + a % 10);
        assert(b == 10 * (b / 10) + b % 10);
    } else if a < 10 {
        assert(decimal(a).len() == 1);
    } else {
        assert(decimal(b).len() == 1);
    }
}

proof fn lemma_digit_is_injective(a: nat, b: nat)
    requires
        a < 10,
        b < 10,
        digit(a) == digit(b),
    ensures
        a == b,
{
}

/// Texts that differ still differ behind a common beginning and before a
/// common end.
pub proof fn lemma_framed_texts_differ(
    before: Seq<char>,
    a: Seq<char>,
    b: Seq<char>,
    after: Seq<char>,
)
    requires
        a != b,
    ensures
        before + a + after != before + b + after,
{
    if before + a + after == before + b + after {
        let left = before + a + after;
        let right = before + b + after;
        assert(left.len() == right.len());
        assert(a.len() == b.len());
        assert forall|i: int| 0 <= i < a.len() implies a[i] == b[i] by {
            assert(left[before.len() + i] == a[i]);
            assert(right[before.len() + i] == b[i]);
        }
        assert(a =~= b);
    }
}

} // verus!
