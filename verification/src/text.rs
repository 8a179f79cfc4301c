//! Decimal numbers and the names and addresses that are built from them.

use crate::ids::PeerId;
use vstd::prelude::*;
use vstd::string::StringExecFns;

verus! {

/// The decimal digit of `d`, for `d < 10`.
pub open spec fn digit(d: nat) -> char {
    ('0' as u32 + d) as char
}

/// `n` in decimal, without leading zeros.
pub open spec fn decimal(n: nat) -> Seq<char>
    decreases n,
{
    if n < 10 {
        seq![digit(n)]
    } else {
        decimal(n / 10).push(digit(n % 10))
    }
}

/// The digit of `d` as text.
fn digit_str(d: u16) -> (s: &'static str)
    requires
        d < 10,
    ensures
        s@ == seq![digit(d as nat)],
{
    let s = match d {
        0 => "0",
        1 => "1",
        2 => "2",
        3 => "3",
        4 => "4",
        5 => "5",
        6 => "6",
        7 => "7",
        8 => "8",
        _ => "9",
    };
    proof {
        reveal_strlit("0");
        reveal_strlit("1");
        reveal_strlit("2");
        reveal_strlit("3");
        reveal_strlit("4");
        reveal_strlit("5");
        reveal_strlit("6");
        reveal_strlit("7");
        reveal_strlit("8");
        reveal_strlit("9");
        assert(s@ =~= seq![digit(d as nat)]);
    }
    s
}

/// `n` in decimal.
pub fn decimal_string(n: u16) -> (s: String)
    ensures
        s@ == decimal(n as nat),
    decreases n,
{
    if n < 10 {
        String::from_str(digit_str(n))
    } else {
        let mut s = decimal_string(n / 10);
        s.append(digit_str(n % 10));
        proof {
            assert(s@ =~= decimal(n as nat));
        }
        s
    }
}

/// How a peer is called where it has no other name.
pub open spec fn peer_name_spec(id: PeerId) -> Seq<char> {
    "peer-"@ + decimal(id as nat)
}

/// How clients call the peer.
pub open spec fn node_name_spec(id: PeerId) -> Seq<char> {
    "node #"@ + decimal(id as nat)
}

/// A host and a port as one address.
pub open spec fn host_port_spec(host: Seq<char>, port: int) -> Seq<char> {
    host + ":"@ + decimal(port as nat)
}

/// `peer-` and the peer's number.
pub fn peer_name(id: PeerId) -> (name: String)
    ensures
        name@ == peer_name_spec(id),
{
    String::from_str("peer-").concat(decimal_string(id).as_str())
}

/// `node #` and the peer's number.
pub fn node_name(id: PeerId) -> (name: String)
    ensures
        name@ == node_name_spec(id),
{
    String::from_str("node #").concat(decimal_string(id).as_str())
}

/// The host, a colon and the port.
pub fn host_port(host: &str, port: u16) -> (address: String)
    ensures
        address@ == host_port_spec(host@, port as int),
{
    String::from_str(host).concat(":").concat(decimal_string(port).as_str())
}

/// A decimal number is not empty and consists of digits.
pub proof fn lemma_decimal_digits(n: nat)
    ensures
        decimal(n).len() > 0,
        forall|i: int| 0 <= i < decimal(n).len() ==> '0' <= #[trigger] decimal(n)[i] <= '9',
    decreases n,
{
    if n >= 10 {
        lemma_decimal_digits(n / 10);
    }
}

/// Different numbers have different decimal forms.
pub proof fn lemma_decimal_injective(a: nat, b: nat)
    requires
        decimal(a) == decimal(b),
    ensures
        a == b,
    decreases a,
{
    lemma_decimal_digits(a / 10);
    lemma_decimal_digits(b / 10);
    assert(decimal(a).last() == digit(a % 10));
    assert(decimal(b).last() == digit(b % 10));
    assert(a % 10 == b % 10);
    if a >= 10 && b >= 10 {
        assert(decimal(a).drop_last() =~= decimal(a / 10));
        assert(decimal(b).drop_last() =~= decimal(b / 10));
        lemma_decimal_injective(a / 10, b / 10);
    } else if a >= 10 {
        assert(decimal(a).len() == decimal(a / 10).len() + 1);
        assert(decimal(b).len() == 1);
    } else if b >= 10 {
        assert(decimal(b).len() == decimal(b / 10).len() + 1);
        assert(decimal(a).len() == 1);
    }
}

/// The addresses of different ports of one host differ.
pub proof fn lemma_host_port_injective(host: Seq<char>, a: nat, b: nat)
    requires
        host_port_spec(host, a as int) == host_port_spec(host, b as int),
    ensures
        a == b,
{
    let front = host + ":"@;
    assert(host_port_spec(host, a as int).skip(front.len() as int) =~= decimal(a));
    assert(host_port_spec(host, b as int).skip(front.len() as int) =~= decimal(b));
    lemma_decimal_injective(a, b);
}

} // verus!
