//! Numbers in base ten, as they stand in a header or in the environment.

use vstd::prelude::*;
use vstd::string::*;

verus! {

/// `c` is one of the ten digits.
pub open spec fn is_digit(c: char) -> bool {
    '0' <= c <= '9'
}

/// Every character of `text` is a digit.
pub open spec fn all_digits(text: Seq<char>) -> bool {
    forall|i: int| 0 <= i < text.len() ==> is_digit(#[trigger] text[i])
}

/// The number that the digits `text` spell.
pub open spec fn digits_value(text: Seq<char>) -> nat
    decreases text.len(),
{
    if text.len() == 0 {
        0
    } else {
        digits_value(text.drop_last()) * 10 + (text.last() as u32 - 48) as nat
    }
}

/// `text` without a leading plus sign.
pub open spec fn unsigned_part(text: Seq<char>) -> Seq<char> {
    if text.len() > 0 && text[0] == '+' {
        text.drop_first()
    } else {
        text
    }
}

/// The number up to `max` that `text` spells: an optional plus sign, then
/// one digit or more and nothing else. Leading zeros are allowed.
pub open spec fn decimal(text: Seq<char>, max: nat) -> Option<nat> {
    let digits = unsigned_part(text);
    if digits.len() > 0 && all_digits(digits) && digits_value(digits) <= max {
        Some(digits_value(digits))
    } else {
        None
    }
}

/// The digit for `d`, which is below ten.
pub open spec fn digit_char(d: nat) -> char {
    ((48 + d) as u8) as char
}

/// `n` in base ten, without sign or leading zeros.
pub open spec fn decimal_text(n: nat) -> Seq<char>
    decreases n,
{
    if n < 10 {
        seq![digit_char(n)]
    } else {
        decimal_text(n / 10).push(digit_char(n % 10))
    }
}

/// A number spelled by digits is at least the number that fewer of them
/// spell.
pub proof fn lemma_value_grows(text: Seq<char>, k: int)
    requires
        all_digits(text),
        0 <= k <= text.len(),
    ensures
        digits_value(text.subrange(0, k)) <= digits_value(text),
    decreases text.len(),
{
    if k == text.len() {
        assert(text.subrange(0, k) =~= text);
    } else {
        let front = text.drop_last();
        assert(front.subrange(0, k) =~= text.subrange(0, k));
        lemma_value_grows(front, k);
        assert(is_digit(text[text.len() - 1]));
    }
}

/// The number up to `max` that `text` spells, if it spells one.
pub fn parse_decimal(text: &str, max: u64) -> (value: Option<u64>)
    ensures
        match value {
            Some(v) => decimal(text@, max as nat) == Some(v as nat),
            None => decimal(text@, max as nat) is None,
        },
{
    let ghost digits = unsigned_part(text@);
    if !text.is_ascii() {
        proof {
            let i = choose|i: int|
                0 <= i < text@.len() && !('\0' <= (#[trigger] text@[i]) <= '\u{7f}');
            if text@[0] == '+' {
                assert(digits[i - 1] == text@[i]);
            }
        }
        return None;
    }
    let total: usize = text.as_bytes().len();
    proof {
        is_ascii_spec_bytes(text);
    }
    assert(total == text@.len());
    if total == 0 {
        return None;
    }
    let start: usize = if text.get_ascii(0) == 43 {
        1
    } else {
        0
    };
    assert(text@[0] == '+' <==> start == 1) by {
        assert('\0' <= text@[0] <= '\u{7f}');
    }
    assert(digits =~= text@.subrange(start as int, total as int));
    if start == total {
        return None;
    }
    let mut i: usize = start;
    let mut value: u64 = 0;
    while i < total
        invariant
            start <= i <= total,
            total == text@.len(),
            text.is_ascii(),
            digits == unsigned_part(text@),
            digits == text@.subrange(start as int, total as int),
            all_digits(digits.subrange(0, i - start)),
            value == digits_value(digits.subrange(0, i - start)),
            value <= max,
        decreases total - i,
    {
        let byte: u8 = text.get_ascii(i);
        let ghost c = text@[i as int];
        assert('\0' <= c <= '\u{7f}');
        assert(digits[i - start] == c);
        if byte < 48 || byte > 57 {
            assert(!is_digit(digits[i - start]));
            return None;
        }
        let ghost seen = digits.subrange(0, i - start + 1);
        assert(seen.drop_last() =~= digits.subrange(0, i - start));
        assert(seen.last() == c);
        assert forall|j: int| 0 <= j < seen.len() implies is_digit(#[trigger] seen[j]) by {
            if j < i - start {
                assert(digits.subrange(0, i - start)[j] == seen[j]);
            }
        }
        let wide: u128 = (value as u128) * 10 + ((byte - 48) as u128);
        assert(wide == digits_value(seen));
        if wide > max as u128 {
            proof {
                if all_digits(digits) {
                    lemma_value_grows(digits, i - start + 1);
                }
            }
            return None;
        }
        value = wide as u64;
        i += 1;
    }
    assert(digits.subrange(0, i - start) =~= digits);
    Some(value)
}

/// The text of one digit.
fn digit_text(d: u64) -> (text: &'static str)
    requires
        d < 10,
    ensures
        text@ == seq![digit_char(d as nat)],
{
    proof {
        reveal_strlit("0");
        reveal_strlit("1");
        reveal_strlit("2");
        reveal_strlit("3");
        reveal_strlit("4");
        reveal_strlit("5");
        reveal_strlit("6");
        reveal_strlit("7");
        reveal_strlit("8");
        reveal_strlit("9");
    }
    let text = if d == 0 {
        "0"
    } else if d == 1 {
        "1"
    } else if d == 2 {
        "2"
    } else if d == 3 {
        "3"
    } else if d == 4 {
        "4"
    } else if d == 5 {
        "5"
    } else if d == 6 {
        "6"
    } else if d == 7 {
        "7"
    } else if d == 8 {
        "8"
    } else {
        "9"
    };
    assert(text@ =~= seq![digit_char(d as nat)]);
    text
}

/// Appends `value` in base ten to `out`.
fn write_decimal(value: u64, out: &mut String)
    ensures
        final(out)@ == old(out)@ + decimal_text(value as nat),
    decreases value,
{
    if value >= 10 {
        write_decimal(value / 10, out);
    }
    out.append(digit_text(value % 10));
    assert(out@ =~= old(out)@ + decimal_text(value as nat));
}

/// `value` in base ten, without sign or leading zeros.
pub fn format_decimal(value: u64) -> (text: String)
    ensures
        text@ == decimal_text(value as nat),
{
    let mut text = String::new();
    write_decimal(value, &mut text);
    assert(text@ =~= decimal_text(value as nat));
    text
}

/// The text of a number consists of digits that spell it.
pub proof fn lemma_text_spells_number(n: nat)
    ensures
        decimal_text(n).len() > 0,
        all_digits(decimal_text(n)),
        digits_value(decimal_text(n)) == n,
    decreases n,
{
    let text = decimal_text(n);
    if n < 10 {
        assert(text.drop_last() =~= Seq::<char>::empty());
        assert(text.last() == digit_char(n));
        assert(digits_value(text.drop_last()) == 0);
    } else {
        lemma_text_spells_number(n / 10);
        assert(text.drop_last() =~= decimal_text(n / 10));
        assert(text.last() == digit_char(n % 10));
        assert forall|i: int| 0 <= i < text.len() implies is_digit(#[trigger] text[i]) by {
            if i < text.len() - 1 {
                assert(text[i] == decimal_text(n / 10)[i]);
            }
        }
    }
}

/// A number written in base ten reads back as itself.
pub proof fn lemma_text_round_trip(n: nat, max: nat)
    requires
        n <= max,
    ensures
        decimal(decimal_text(n), max) == Some(n),
{
    lemma_text_spells_number(n);
    assert(is_digit(decimal_text(n)[0]));
}

} // verus!
