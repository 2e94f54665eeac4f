//! The textual form of a peer's address.

use vstd::prelude::*;
use vstd::string::StringExecFns;

verus! {

/// The character of a decimal digit.
pub open spec fn digit_char(digit: nat) -> char {
    (('0' as nat) + digit) as char
}

/// A number in decimal, without leading zeros.
pub open spec fn decimal(n: nat) -> Seq<char>
    decreases n,
{
    if n < 10 {
        seq![digit_char(n)]
    } else {
        decimal(n / 10).push(digit_char(n % 10))
    }
}

/// An address: the host, a colon and the port.
pub open spec fn address_text(ip: Seq<char>, port: u16) -> Seq<char> {
    ip.push(':') + decimal(port as nat)
}

/// The text of a decimal digit.
fn digit_text(digit: u16) -> (text: &'static str)
    requires
        digit < 10,
    ensures
        text@ == seq![digit_char(digit as nat)],
{
    proof {
        reveal_strlit("0");
        reveal_strlit("1");
        reveal_strlit("2");
        reveal_strlit("3");
        reveal_strlit("4");
        reveal_strlit("5");
        reveal_strlit("6");
        reveal_strlit("7");
        reveal_strlit("8");
        reveal_strlit("9");
    }
    match digit {
        0 => "0",
        1 => "1",
        2 => "2",
        3 => "3",
        4 => "4",
        5 => "5",
        6 => "6",
        7 => "7",
        8 => "8",
        _ => "9",
    }
}

/// Appends a number in decimal.
fn append_decimal(text: &mut String, n: u16)
    ensures
        final(text)@ == old(text)@ + decimal(n as nat),
    decreases n,
{
    if n >= 10 {
        append_decimal(text, n / 10);
    }
    text.append(digit_text(n % 10));
    assert(text@ =~= old(text)@ + decimal(n as nat));
}

/// The text of the address that a packet came from.
pub fn peer_address(ip: &str, port: u16) -> (text: String)
    ensures
        text@ == address_text(ip@, port),
{
    let mut text = ip.to_owned();
    text.append(":");
    proof {
        reveal_strlit(":");
        assert(text@ =~= ip@.push(':'));
    }
    append_decimal(&mut text, port);
    text
}

/// The number that a decimal text stands for.
pub open spec fn decimal_value(text: Seq<char>) -> int
    decreases text.len(),
{
    if text.len() == 0 {
        0
    } else {
        decimal_value(text.drop_last()) * 10 + (text.last() as int - '0' as int)
    }
}

/// The decimal text of a number is made of digits, and reads back as the number.
pub proof fn decimal_reads_back(n: nat)
    ensures
        decimal_value(decimal(n)) == n,
        decimal(n).len() > 0,
        forall|i: int| 0 <= i < decimal(n).len() ==> '0' <= #[trigger] decimal(n)[i] <= '9',
    decreases n,
{
    reveal_with_fuel(decimal_value, 2);
    if n >= 10 {
        decimal_reads_back(n / 10);
        assert(decimal(n).drop_last() =~= decimal(n / 10));
    }
}

/// Two addresses with the same text have the same host and the same port.
pub proof fn address_is_unambiguous(ip_a: Seq<char>, port_a: u16, ip_b: Seq<char>, port_b: u16)
    requires
        address_text(ip_a, port_a) == address_text(ip_b, port_b),
    ensures
        ip_a == ip_b,
        port_a == port_b,
{
    let text = address_text(ip_a, port_a);
    let digits_a = decimal(port_a as nat);
    let digits_b = decimal(port_b as nat);
    decimal_reads_back(port_a as nat);
    decimal_reads_back(port_b as nat);
    assert(text.len() == ip_a.len() + 1 + digits_a.len());
    assert(text.len() == ip_b.len() + 1 + digits_b.len());
    assert(text[ip_a.len() as int] == ':');
    assert(text[ip_b.len() as int] == ':');
    if ip_a.len() < ip_b.len() {
        assert(text[ip_b.len() as int] == digits_a[ip_b.len() - ip_a.len() - 1]);
    }
    if ip_b.len() < ip_a.len() {
        assert(text[ip_a.len() as int] == digits_b[ip_a.len() - ip_b.len() - 1]);
    }
    assert(ip_a =~= text.take(ip_a.len() as int));
    assert(ip_b =~= text.take(ip_b.len() as int));
    assert(digits_a =~= text.skip(ip_a.len() as int + 1));
    assert(digits_b =~= text.skip(ip_b.len() as int + 1));
}

/// The decimal text of a number has no zero in front, except that of zero itself.
pub proof fn decimal_has_no_leading_zero(n: nat)
    ensures
        decimal(n)[0] == '0' <==> n == 0,
        n == 0 ==> decimal(n).len() == 1,
    decreases n,
{
    if n >= 10 {
        decimal_has_no_leading_zero(n / 10);
        decimal_reads_back(n / 10);
    }
}

/// The text of an address is the host, a colon, and the port in decimal: behind the colon stand
/// digits alone, none of them a zero too many, and they read back as the port.
pub proof fn address_is_host_colon_port(ip: &str, port: u16, text: String)
    requires
        call_ensures(peer_address, (ip, port), text),
    ensures
        ({
            let host = ip@.len() as int;
            let digits = text@.skip(host + 1);
            &&& text@.len() > host + 1
            &&& text@.take(host) == ip@
            &&& text@[host] == ':'
            &&& decimal_value(digits) == port
            &&& forall|i: int| 0 <= i < digits.len() ==> '0' <= #[trigger] digits[i] <= '9'
            &&& digits[0] == '0' ==> port == 0 && digits.len() == 1
        }),
{
    decimal_reads_back(port as nat);
    decimal_has_no_leading_zero(port as nat);
    let host = ip@.len() as int;
    assert(text@.take(host) =~= ip@);
    assert(text@.skip(host + 1) =~= decimal(port as nat));
}

} // verus!
