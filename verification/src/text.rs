//! Pieces of text: decimal numbers and quoted strings.
use vstd::prelude::*;

verus! {

/// The character of a decimal digit.
pub open spec fn digit_char(d: nat) -> char
    recommends
        d < 10,
{
    (48 + d) as char
}

/// A number in decimal, without leading zeros.
pub open spec fn decimal(n: nat) -> Seq<char>
    decreases n,
{
    if n < 10 {
        seq![digit_char(n)]
    } else {
        decimal(n / 10).push(digit_char(n % 10))
    }
}

/// Different numbers have different decimals.
pub proof fn law_decimal_is_injective(m: nat, n: nat)
    ensures
        decimal(m) == decimal(n) <==> m == n,
    decreases m + n,
{
    if decimal(m) == decimal(n) {
        let (left, right) = (decimal(m), decimal(n));
        lemma_decimal_len(m);
        lemma_decimal_len(n);
        assert(left.last() == right.last());
        if m >= 10 && n >= 10 {
            assert(left.drop_last() =~= decimal(m / 10));
            assert(right.drop_last() =~= decimal(n / 10));
            law_decimal_is_injective(m / 10, n / 10);
        }
    }
}

/// A decimal reads back as the number: it is made of the characters from `0` to `9`, has no
/// leading zero unless it is the number zero, and its value in base ten, taken digit by
/// digit from the left, is the number.
pub proof fn law_decimal_reads_back(n: nat)
    ensures
        decimal(n).len() >= 1,
        forall|i: int| 0 <= i < decimal(n).len() ==> '0' <= #[trigger] decimal(n)[i] <= '9',
        decimal(n)[0] == '0' <==> n == 0,
        n == 0 ==> decimal(n).len() == 1,
        decimal(n).fold_left(0int, |value: int, c: char| value * 10 + (c as int - '0' as int))
            == n,
    decreases n,
{
    let read = |value: int, c: char| value * 10 + (c as int - '0' as int);
    reveal_with_fuel(Seq::fold_left, 2);
    if n >= 10 {
        law_decimal_reads_back(n / 10);
        let (front, last) = (decimal(n / 10), digit_char(n % 10));
        assert(decimal(n) == front.push(last));
        assert(front.push(last).drop_last() =~= front);
        assert(decimal(n).fold_left(0int, read) == read(front.fold_left(0int, read), last));
    } else {
        assert(seq![digit_char(n)].drop_last() =~= Seq::<char>::empty());
        assert(decimal(n).fold_left(0int, read) == read(0, digit_char(n)));
    }
}

/// A decimal has one digit exactly if the number is below ten.
proof fn lemma_decimal_len(n: nat)
    ensures
        decimal(n).len() >= 1,
        decimal(n).len() == 1 <==> n < 10,
    decreases n,
{
    if n >= 10 {
        lemma_decimal_len(n / 10);
    }
}

/// How a string prints in debug output: in double quotes, with escapes for the
/// characters that need them.
pub uninterp spec fn quoted(s: Seq<char>) -> Seq<char>;

/// Calls `<str as Debug>::fmt`, through `format!` with `{:?}`. The contract names
/// the text that it writes, which depends on the string alone; it does not say
/// which characters are escaped.
#[verifier::external_body]
fn quote(s: &str) -> (text: String)
    ensures
        text@ == quoted(s@),
{
    format!("{:?}", s)
}

/// One decimal digit as text.
fn digit_str(d: u64) -> (text: &'static str)
    requires
        d < 10,
    ensures
        text@ == seq![digit_char(d as nat)],
{
    proof {
        reveal_strlit("0");
        reveal_strlit("1");
        reveal_strlit("2");
        reveal_strlit("3");
        reveal_strlit("4");
        reveal_strlit("5");
        reveal_strlit("6");
        reveal_strlit("7");
        reveal_strlit("8");
        reveal_strlit("9");
    }
    match d {
        0 => "0",
        1 => "1",
        2 => "2",
        3 => "3",
        4 => "4",
        5 => "5",
        6 => "6",
        7 => "7",
        8 => "8",
        _ => "9",
    }
}

/// Writes a number in decimal.
pub fn decimal_string(n: u64) -> (text: String)
    ensures
        text@ == decimal(n as nat),
        forall|i: int| 0 <= i < text@.len() ==> '0' <= #[trigger] text@[i] <= '9',
        text@.fold_left(0int, |value: int, c: char| value * 10 + (c as int - '0' as int)) == n,
    decreases n,
{
    proof {
        law_decimal_reads_back(n as nat);
    }
    let mut text = if n < 10 {
        String::new()
    } else {
        decimal_string(n / 10)
    };
    text.append(digit_str(n % 10));
    text
}

/// Writes `name(inside)`, the debug form of a variant with one field.
pub fn variant_with_field(name: &str, inside: &str) -> (text: String)
    ensures
        text@ == name@ + "("@ + inside@ + ")"@,
{
    let mut text = name.to_string();
    text.append("(");
    text.append(inside);
    text.append(")");
    text
}

/// Writes `name("value")`, the debug form of a variant that holds a string.
pub fn variant_with_string(name: &str, value: &str) -> (text: String)
    ensures
        text@ == name@ + "("@ + quoted(value@) + ")"@,
{
    let inside = quote(value);
    variant_with_field(name, inside.as_str())
}

} // verus!
