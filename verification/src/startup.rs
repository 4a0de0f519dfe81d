//! What starting the application computes before it binds and serves.

use vstd::prelude::*;
use vstd::string::StringExecFns;

use crate::text::push_char;

verus! {

/// The base URL that links in emails start with.
pub struct ApplicationBaseUrl(pub String);

/// The decimal digit of a value below 10.
pub open spec fn decimal_digit(d: nat) -> char {
    (48 + d) as char
}

/// The decimal text of a number, without leading zeros.
pub open spec fn decimal(n: nat) -> Seq<char>
    decreases n,
{
    if n < 10 {
        seq![decimal_digit(n)]
    } else {
        decimal(n / 10).push(decimal_digit(n % 10))
    }
}

/// The number that a string of decimal digits reads as, most significant digit first.
pub open spec fn digits_value(s: Seq<char>) -> int
    decreases s.len(),
{
    if s.len() == 0 {
        0
    } else {
        digits_value(s.drop_last()) * 10 + (s.last() as int - 48)
    }
}

/// The decimal text of a number is its usual numeral: it is not empty, every character is one
/// of `0` to `9`, the digits read back as the number, and only zero itself starts with `0`.
pub proof fn law_decimal_reads_back(n: nat)
    ensures
        decimal(n).len() >= 1,
        forall|i: int| 0 <= i < decimal(n).len() ==> '0' <= #[trigger] decimal(n)[i] <= '9',
        digits_value(decimal(n)) == n,
        decimal(n)[0] == '0' ==> n == 0,
    decreases n,
{
    if n < 10 {
        assert(decimal(n).drop_last() =~= seq![]);
        assert(decimal(n).last() as int == 48 + n);
        assert(digits_value(decimal(n).drop_last()) == 0);
    } else {
        let q = (n / 10) as nat;
        law_decimal_reads_back(q);
        let d = decimal(n);
        assert(d.drop_last() =~= decimal(q));
        assert forall|i: int| 0 <= i < d.len() implies '0' <= #[trigger] d[i] <= '9' by {
            if i < decimal(q).len() {
                assert(d[i] == decimal(q)[i]);
            }
        }
        assert(d[0] == decimal(q)[0]);
        assert(d.last() as int == 48 + n % 10);
        assert(digits_value(d) == q * 10 + n % 10);
        assert(n == q * 10 + n % 10);
    }
}

/// Appends the decimal text of `n` to `s`.
fn push_decimal(s: &mut String, n: u16)
    ensures
        final(s)@ == old(s)@ + decimal(n as nat),
    decreases n,
{
    if n >= 10 {
        push_decimal(s, n / 10);
    }
    push_char(s, ((n % 10) as u8 + 48) as char);
    assert(s@ =~= old(s)@ + decimal(n as nat)) by {
        if n >= 10 {
            assert((old(s)@ + decimal((n / 10) as nat)).push(decimal_digit((n % 10) as nat))
                =~= old(s)@ + decimal((n / 10) as nat).push(decimal_digit((n % 10) as nat)));
        }
    }
}

/// The address the application listens on: `host:port`.
pub fn bind_address(host: &str, port: u16) -> (a: String)
    ensures
        a@ == host@ + seq![':'] + decimal(port as nat),
{
    let mut a = String::from_str(host);
    push_char(&mut a, ':');
    push_decimal(&mut a, port);
    a
}

} // verus!
