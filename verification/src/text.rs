//! Small helpers on text.

use vstd::prelude::*;
use vstd::string::*;

verus! {

/// The texts of some strings.
pub open spec fn texts(v: Seq<String>) -> Seq<Seq<char>> {
    v.map_values(|s: String| s@)
}

/// The digit with this value.
pub open spec fn digit(d: nat) -> char {
    "0123456789"@[d as int]
}

/// A number in decimal, without leading zeros.
pub open spec fn decimal(n: nat) -> Seq<char>
    decreases n,
{
    if n < 10 {
        seq![digit(n)]
    } else {
        decimal(n / 10).push(digit(n % 10))
    }
}

/// A number in decimal, with a minus sign where it is negative.
pub open spec fn signed_decimal(n: int) -> Seq<char> {
    if n < 0 {
        "-"@ + decimal((-n) as nat)
    } else {
        decimal(n as nat)
    }
}

/// Whether two texts are the same.
pub fn same_text(a: &str, b: &str) -> (same: bool)
    ensures
        same == (a@ == b@),
{
    let (a, b) = (a.to_owned(), b.to_owned());
    a == b
}

/// A number in decimal.
fn unsigned_text(n: u32) -> (text: String)
    ensures
        text@ == decimal(n as nat),
    decreases n,
{
    let last: usize = (n % 10) as usize;
    proof {
        reveal_strlit("0123456789");
    }
    let last_digit = "0123456789".substring_char(last, last + 1);
    assert(last_digit@ =~= seq![digit((n % 10) as nat)]);
    let mut text = if n < 10 {
        String::new()
    } else {
        unsigned_text(n / 10)
    };
    let ghost head = text@;
    text.append(last_digit);
    assert(text@ =~= head.push(digit((n % 10) as nat)));
    assert(n < 10 ==> head =~= Seq::empty());
    assert(n < 10 ==> text@ =~= seq![digit(n as nat)]);
    text
}

/// A number in decimal, with a minus sign where it is negative.
pub fn decimal_text(n: i32) -> (text: String)
    ensures
        text@ == signed_decimal(n as int),
{
    if n < 0 {
        let mut text = "-".to_owned();
        let magnitude: u32 = (-(n as i64)) as u32;
        let digits = unsigned_text(magnitude);
        text.append(digits.as_str());
        text
    } else {
        unsigned_text(n as u32)
    }
}

/// The number that a row of digits stands for.
pub open spec fn number_of(digits: Seq<char>) -> nat
    decreases digits.len(),
{
    if digits.len() == 0 {
        0
    } else {
        10 * number_of(digits.drop_last()) + (digits.last() as int - '0' as int) as nat
    }
}

/// A number in decimal is made of the characters from `0` to `9`, stands for
/// the number, and starts with a zero only where it is zero.
pub proof fn lemma_decimal_reads_back(n: nat)
    ensures
        decimal(n).len() > 0,
        forall|i: int| 0 <= i < decimal(n).len() ==> '0' <= #[trigger] decimal(n)[i] <= '9',
        number_of(decimal(n)) == n,
        decimal(n)[0] == '0' <==> n == 0,
    decreases n,
{
    lemma_digits((n % 10) as nat);
    if n < 10 {
        assert(decimal(n).drop_last() =~= Seq::empty());
        assert(number_of(decimal(n).drop_last()) == 0);
    } else {
        lemma_decimal_reads_back(n / 10);
        assert(decimal(n).drop_last() =~= decimal(n / 10));
    }
}

/// The digits stand in order.
proof fn lemma_digits(d: nat)
    requires
        d < 10,
    ensures
        digit(d) as int == '0' as int + d,
{
    reveal_strlit("0123456789");
}

/// A negative number is a minus sign before the number without its sign.
pub proof fn lemma_minus_sign(n: nat)
    ensures
        signed_decimal(n as int) == decimal(n),
        n > 0 ==> signed_decimal(-(n as int)) == seq!['-'] + decimal(n),
{
    reveal_strlit("-");
    assert("-"@ =~= seq!['-']);
}

} // verus!
