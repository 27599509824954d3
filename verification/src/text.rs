//! Text that the report is made of: decimal numbers, padded labels, equality.

use vstd::prelude::*;

verus! {

/// The decimal digit of a number below ten.
pub open spec fn digit(n: nat) -> char {
    ('0' as int + n) as char
}

/// A natural number in decimal, without leading zeros.
pub open spec fn decimal(n: nat) -> Seq<char>
    decreases n,
{
    if n < 10 {
        seq![digit(n)]
    } else {
        decimal(n / 10).push(digit(n % 10))
    }
}

/// An integer in decimal, with a minus sign where it is negative.
pub open spec fn signed_decimal(n: int) -> Seq<char> {
    if n < 0 {
        seq!['-'] + decimal((-n) as nat)
    } else {
        decimal(n as nat)
    }
}

/// `s` followed by as many spaces as bring it to `width` characters; a longer
/// `s` is left as it is.
pub open spec fn padded(s: Seq<char>, width: nat) -> Seq<char> {
    if s.len() < width {
        s + Seq::new((width - s.len()) as nat, |i: int| ' ')
    } else {
        s
    }
}

fn digit_str(n: u128) -> (s: &'static str)
    requires
        n < 10,
    ensures
        s@ =~= seq![digit(n as nat)],
{
    proof {
        reveal_strlit("0");
        reveal_strlit("1");
        reveal_strlit("2");
        reveal_strlit("3");
        reveal_strlit("4");
        reveal_strlit("5");
        reveal_strlit("6");
        reveal_strlit("7");
        reveal_strlit("8");
        reveal_strlit("9");
    }
    match n {
        0 => "0",
        1 => "1",
        2 => "2",
        3 => "3",
        4 => "4",
        5 => "5",
        6 => "6",
        7 => "7",
        8 => "8",
        _ => "9",
    }
}

/// Renders a natural number in decimal.
pub fn decimal_string(n: u128) -> (s: String)
    ensures
        s@ == decimal(n as nat),
    decreases n,
{
    if n < 10 {
        digit_str(n).to_owned()
    } else {
        let mut s = decimal_string(n / 10);
        s.append(digit_str(n % 10));
        s
    }
}

/// Renders a signed number in decimal.
pub fn signed_decimal_string(n: i32) -> (s: String)
    ensures
        s@ == signed_decimal(n as int),
{
    if n < 0 {
        let mut s = "-".to_owned();
        proof {
            reveal_strlit("-");
            assert(s@ =~= seq!['-']);
        }
        let magnitude: i64 = -(n as i64);
        s.append(decimal_string(magnitude as u128).as_str());
        s
    } else {
        decimal_string(n as u128)
    }
}

/// Pads `s` with spaces on the right to `width` characters.
pub fn padded_string(s: &str, width: usize) -> (res: String)
    ensures
        res@ == padded(s@, width as nat),
{
    let len: usize = s.unicode_len();
    let mut res = s.to_owned();
    let mut i: usize = len;
    while i < width
        invariant
            len == s@.len(),
            len <= i,
            i <= width || i == len,
            res@ =~= s@ + Seq::new((i - len) as nat, |j: int| ' '),
        decreases width - i,
    {
        proof {
            reveal_strlit(" ");
        }
        res.append(" ");
        i = i + 1;
    }
    res
}

/// Whether two strings hold the same characters.
pub fn same_text(a: &str, b: &str) -> (same: bool)
    ensures
        same == (a@ == b@),
{
    let left: String = a.to_owned();
    let right: String = b.to_owned();
    left == right
}

/// `a` followed by `b`.
pub fn joined(a: &str, b: &str) -> (res: String)
    ensures
        res@ == a@ + b@,
{
    let mut res = a.to_owned();
    res.append(b);
    res
}

// ---------------------------------------------------------------------------
// Laws
// ---------------------------------------------------------------------------
/// The number that a text of decimal digits stands for.
pub open spec fn number(s: Seq<char>) -> int
    decreases s.len(),
{
    if s.len() == 0 {
        0
    } else {
        10 * number(s.drop_last()) + (s.last() as int - '0' as int)
    }
}

/// Whether `s` is a number as it is written: digits, and no zero before others.
pub open spec fn is_written_number(s: Seq<char>) -> bool {
    &&& s.len() > 0
    &&& forall|i: int| 0 <= i < s.len() ==> '0' <= #[trigger] s[i] <= '9'
    &&& s.len() > 1 ==> s[0] != '0'
}

/// The decimal digits of a number are written without leading zeros, and they read
/// as that number again.
pub proof fn law_decimal_is_the_number(n: nat)
    ensures
        is_written_number(decimal(n)),
        number(decimal(n)) == n,
        n > 0 ==> decimal(n)[0] != '0',
    decreases n,
{
    if n < 10 {
        let s = decimal(n);
        assert(s.drop_last() =~= Seq::empty());
        reveal_with_fuel(number, 2);
    } else {
        law_decimal_is_the_number(n / 10);
        let s = decimal(n);
        assert(s.drop_last() =~= decimal(n / 10));
    }
}

/// A number is rendered as decimal digits without leading zeros, and they read as
/// that number again.
pub proof fn law_decimal_reads_back(n: u128, s: String)
    requires
        call_ensures(decimal_string, (n,), s),
    ensures
        is_written_number(s@),
        number(s@) == n,
        s@ == decimal(n as nat),
{
    law_decimal_is_the_number(n as nat);
}

/// A signed number is rendered as its magnitude, after a minus sign exactly where
/// it is negative.
pub proof fn law_signed_decimal_reads_back(n: i32, s: String)
    requires
        call_ensures(signed_decimal_string, (n,), s),
    ensures
        s@ == signed_decimal(n as int),
        n >= 0 ==> is_written_number(s@) && number(s@) == n,
        n < 0 ==> s@[0] == '-' && is_written_number(s@.skip(1)) && number(s@.skip(1)) == -n,
{
    if n >= 0 {
        law_decimal_is_the_number(n as nat);
    } else {
        law_decimal_is_the_number((-n) as nat);
        assert(s@.skip(1) =~= decimal((-n) as nat));
    }
}

/// Different numbers are rendered differently.
pub proof fn law_decimals_differ(a: nat, b: nat)
    requires
        decimal(a) == decimal(b),
    ensures
        a == b,
{
    law_decimal_is_the_number(a);
    law_decimal_is_the_number(b);
}

/// A padded text begins with the text, is at least as wide as asked for and no
/// wider than needed, and has nothing but spaces after the text.
pub proof fn law_padding_adds_only_spaces(s: &str, width: usize, res: String)
    requires
        call_ensures(padded_string, (s, width), res),
    ensures
        res@ == padded(s@, width as nat),
        res@.len() >= width,
        res@.len() == width || res@.len() == s@.len(),
        res@.len() >= s@.len(),
        res@.take(s@.len() as int) == s@,
        forall|i: int| s@.len() <= i < res@.len() ==> #[trigger] res@[i] == ' ',
{
    assert(res@.take(s@.len() as int) =~= s@);
}

/// Two texts are joined without loss: the first, and then the second.
pub proof fn law_joined_holds_both(a: &str, b: &str, res: String)
    requires
        call_ensures(joined, (a, b), res),
    ensures
        res@.len() == a@.len() + b@.len(),
        res@.take(a@.len() as int) == a@,
        res@.skip(a@.len() as int) == b@,
{
    assert(res@.take(a@.len() as int) =~= a@);
    assert(res@.skip(a@.len() as int) =~= b@);
}

/// Texts are the same exactly where they agree in length and in every character.
pub proof fn law_same_text_agrees_everywhere(a: &str, b: &str, same: bool)
    requires
        call_ensures(same_text, (a, b), same),
    ensures
        same <==> a@.len() == b@.len() && forall|i: int|
            0 <= i < a@.len() ==> #[trigger] a@[i] == b@[i],
{
    if a@.len() == b@.len() && (forall|i: int| 0 <= i < a@.len() ==> #[trigger] a@[i] == b@[i]) {
        assert(a@ =~= b@);
    }
}

} // verus!
