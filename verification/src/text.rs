//! Text that is put together from parts.

use vstd::prelude::*;

verus! {

/// The decimal digit `d`.
pub open spec fn digit(d: nat) -> char {
    ('0' as u32 + d) as char
}

/// `n` in decimal, without leading zeros.
pub open spec fn decimal_text(n: nat) -> Seq<char>
    decreases n,
{
    if n < 10 {
        seq![digit(n)]
    } else {
        decimal_text(n / 10).push(digit(n % 10))
    }
}

/// The text of a digit.
fn digit_text(d: u32) -> (text: &'static str)
    requires
        d < 10,
    ensures
        text@ =~= seq![digit(d as nat)],
{
    proof {
        reveal_strlit("0");
        reveal_strlit("1");
        reveal_strlit("2");
        reveal_strlit("3");
        reveal_strlit("4");
        reveal_strlit("5");
        reveal_strlit("6");
        reveal_strlit("7");
        reveal_strlit("8");
        reveal_strlit("9");
    }
    if d == 0 {
        "0"
    } else if d == 1 {
        "1"
    } else if d == 2 {
        "2"
    } else if d == 3 {
        "3"
    } else if d == 4 {
        "4"
    } else if d == 5 {
        "5"
    } else if d == 6 {
        "6"
    } else if d == 7 {
        "7"
    } else if d == 8 {
        "8"
    } else {
        "9"
    }
}

/// `n` in decimal, without leading zeros.
pub fn decimal(n: u32) -> (text: String)
    ensures
        text@ == decimal_text(n as nat),
    decreases n,
{
    if n < 10 {
        digit_text(n).to_owned()
    } else {
        let mut text = decimal(n / 10);
        text.append(digit_text(n % 10));
        assert(text@ =~= decimal_text(n as nat));
        text
    }
}

/// `prefix`, `middle` and `suffix` one after the other.
pub fn joined(prefix: &str, middle: &str, suffix: &str) -> (text: String)
    ensures
        text@ == prefix@ + middle@ + suffix@,
{
    let mut text = prefix.to_owned();
    text.append(middle);
    text.append(suffix);
    text
}

/// The number that a text of decimal digits stands for.
pub open spec fn value(text: Seq<char>) -> int
    decreases text.len(),
{
    if text.len() == 0 {
        0
    } else {
        value(text.drop_last()) * 10 + (text.last() as u32 - '0' as u32)
    }
}

/// A number can be read back from its decimal text, which holds nothing but
/// digits and starts with none that does not count.
pub proof fn numbers_can_be_read_back(n: nat)
    ensures
        value(decimal_text(n)) == n,
        decimal_text(n).len() > 0,
        forall|i: int|
            0 <= i < decimal_text(n).len() ==> '0' <= #[trigger] decimal_text(n)[i] <= '9',
        n > 0 ==> decimal_text(n)[0] != '0',
    decreases n,
{
    let text = decimal_text(n);
    if n < 10 {
        assert(text.drop_last() =~= Seq::<char>::empty());
        assert(value(text.drop_last()) == 0);
        assert(text.last() as u32 == '0' as u32 + n);
    } else {
        numbers_can_be_read_back(n / 10);
        assert(text.drop_last() =~= decimal_text(n / 10));
        assert(text.last() as u32 == '0' as u32 + n % 10);
        assert(text[0] == decimal_text(n / 10)[0]);
        assert forall|i: int| 0 <= i < text.len() implies '0' <= #[trigger] text[i] <= '9' by {
            if i < text.len() - 1 {
                assert(text[i] == decimal_text(n / 10)[i]);
            }
        }
    }
}

} // verus!
