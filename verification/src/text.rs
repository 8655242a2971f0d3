//! Text that the dialers put together.

use vstd::prelude::*;

verus! {

/// The decimal digit of a number below ten.
pub open spec fn digit(d: nat) -> char {
    (48 + d) as char
}

/// A number in decimal, without leading zeros.
pub open spec fn decimal(n: nat) -> Seq<char>
    decreases n,
{
    if n < 10 {
        seq![digit(n)]
    } else {
        decimal(n / 10).push(digit(n % 10))
    }
}

/// The number that a text of decimal digits stands for.
pub open spec fn decimal_value(text: Seq<char>) -> int
    decreases text.len(),
{
    if text.len() == 0 {
        0
    } else {
        10 * decimal_value(text.drop_last()) + (text.last() as int - 48)
    }
}

/// A host and a port as one text.
pub open spec fn endpoint(host: Seq<char>, port: u16) -> Seq<char> {
    host + seq![':'] + decimal(port as nat)
}

/// A number can be read back from its decimal text.
pub proof fn law_decimal_round_trip(n: nat)
    ensures
        decimal_value(decimal(n)) == n,
    decreases n,
{
    let text = decimal(n);
    if n < 10 {
        assert(decimal_value(text.drop_last()) == 0);
    } else {
        law_decimal_round_trip(n / 10);
        assert(text.drop_last() =~= decimal(n / 10));
    }
}

/// The text of one digit.
fn digit_text(d: u16) -> (text: &'static str)
    requires
        d < 10,
    ensures
        text@ == seq![digit(d as nat)],
{
    proof {
        reveal_strlit("0");
        reveal_strlit("1");
        reveal_strlit("2");
        reveal_strlit("3");
        reveal_strlit("4");
        reveal_strlit("5");
        reveal_strlit("6");
        reveal_strlit("7");
        reveal_strlit("8");
        reveal_strlit("9");
    }
    match d {
        0 => "0",
        1 => "1",
        2 => "2",
        3 => "3",
        4 => "4",
        5 => "5",
        6 => "6",
        7 => "7",
        8 => "8",
        _ => "9",
    }
}

/// Appends a number in decimal.
fn push_decimal(text: &mut String, n: u16)
    ensures
        final(text)@ == old(text)@ + decimal(n as nat),
    decreases n,
{
    if n >= 10 {
        push_decimal(text, n / 10);
    }
    text.append(digit_text(n % 10));
}

/// `prefix` followed by `text`.
pub fn prefixed(prefix: &str, text: &str) -> (whole: String)
    ensures
        whole@ == prefix@ + text@,
{
    let mut whole = String::new();
    whole.append(prefix);
    whole.append(text);
    whole
}

/// The text `host:port`.
pub fn host_port(host: &str, port: u16) -> (text: String)
    ensures
        text@ == endpoint(host@, port),
{
    proof {
        reveal_strlit(":");
        assert(":"@ =~= seq![':']);
    }
    let mut text = prefixed(host, ":");
    push_decimal(&mut text, port);
    text
}

/// A decimal text holds digits only, starts with a zero only if it is that
/// digit alone, and so is the one such text of its number.
pub proof fn law_decimal_is_canonical(n: nat)
    ensures
        decimal(n).len() > 0,
        forall|i: int| 0 <= i < decimal(n).len() ==> '0' <= #[trigger] decimal(n)[i] <= '9',
        decimal(n)[0] == '0' ==> n == 0,
        n < 10 ==> decimal(n).len() == 1,
    decreases n,
{
    if n >= 10 {
        law_decimal_is_canonical(n / 10);
    }
}

/// An endpoint's text is the host, a colon, and the port, each readable from
/// it again.
pub proof fn law_endpoint_parts(host: Seq<char>, port: u16)
    ensures
        endpoint(host, port).len() > host.len() + 1,
        endpoint(host, port).take(host.len() as int) == host,
        endpoint(host, port)[host.len() as int] == ':',
        decimal_value(endpoint(host, port).skip(host.len() as int + 1)) == port,
        endpoint(host, port)[host.len() as int + 1] == '0' ==> port == 0,
        port < 10 ==> endpoint(host, port).len() == host.len() + 2,
        forall|i: int|
            host.len() < i < endpoint(host, port).len() ==> '0' <= #[trigger] endpoint(
                host,
                port,
            )[i] <= '9',
{
    let text = endpoint(host, port);
    let digits = decimal(port as nat);
    law_decimal_is_canonical(port as nat);
    law_decimal_round_trip(port as nat);
    assert(text.take(host.len() as int) =~= host);
    assert(text.skip(host.len() as int + 1) =~= digits);
    assert(text[host.len() as int + 1] == digits[0]);
    assert forall|i: int| host.len() < i < text.len() implies '0' <= #[trigger] text[i]
        <= '9' by {
        assert(text[i] == digits[i - host.len() - 1]);
    }
}

} // verus!
