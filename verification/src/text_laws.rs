//! What holds of numbers, names, hexadecimal text and module maps, in terms of what the functions
//! are given and what they answer.

use crate::hex_codec::{hex_decode, hex_digit, hex_encode, hex_value, InvalidHex};
use crate::ids::{max_evil, one_honest, threshold, PeerId};
use crate::module_map::{lemma_zip_at, ModuleMap};
use crate::modules::ModuleKind;
use crate::serde_tls_cert;
use crate::serde_tls_key;
use crate::text::{decimal, decimal_string, digit, host_port, node_name, peer_name};
use crate::text_order::{bytes_before, compare, Order};
use crate::tls::{Certificate, PrivateKey};
use vstd::prelude::*;
use vstd::utf8::encode_utf8;

verus! {

/// A number below ten is written as its digit, and a digit behind a number other than zero makes
/// it ten times as large plus the digit.
pub proof fn decimal_notation(n: nat, d: nat)
    requires
        d < 10,
    ensures
        decimal(d) == seq!["0123456789"@[d as int]],
        n > 0 ==> decimal(10 * n + d) == decimal(n) + decimal(d),
{
    reveal_strlit("0123456789");
    assert(decimal(d) =~= seq![digit(d)]);
    if n > 0 {
        let m = 10 * n + d;
        assert(m / 10 == n && m % 10 == d);
        assert(decimal(m) =~= decimal(n) + decimal(d));
    }
}

/// Numbers, peers and addresses are written with the number in decimal.
pub proof fn names_hold_the_number(
    n: u16,
    host: &str,
    number: String,
    peer: String,
    node: String,
    address: String,
)
    requires
        call_ensures(decimal_string, (n,), number),
        call_ensures(peer_name, (n,), peer),
        call_ensures(node_name, (n,), node),
        call_ensures(host_port, (host, n), address),
    ensures
        number@ == decimal(n as nat),
        peer@ == seq!['p', 'e', 'e', 'r', '-'] + decimal(n as nat),
        node@ == seq!['n', 'o', 'd', 'e', ' ', '#'] + decimal(n as nat),
        address@ == host@ + seq![':'] + decimal(n as nat),
{
    reveal_strlit("peer-");
    reveal_strlit("node #");
    reveal_strlit(":");
    assert("peer-"@ =~= seq!['p', 'e', 'e', 'r', '-']);
    assert("node #"@ =~= seq!['n', 'o', 'd', 'e', ' ', '#']);
    assert(":"@ =~= seq![':']);
}

/// Fewer than a third of the members may misbehave, and no larger number would do; one more than
/// that has an honest one among them; and as many as agree are left when these are silent. Any
/// two groups of the latter size share an honest member.
pub proof fn quorum_sizes(peers: &[PeerId], evil: usize, honest: usize, agree: usize)
    requires
        peers@.len() > 0,
        call_ensures(max_evil, (peers,), evil),
        call_ensures(one_honest, (peers,), honest),
        call_ensures(threshold, (peers,), agree),
    ensures
        3 * evil < peers@.len() <= 3 * evil + 3,
        honest == evil + 1,
        agree + evil == peers@.len(),
        2 * agree - peers@.len() > evil,
{
}

/// The sixteen digits, in either case.
proof fn lemma_hex_digits(n: int, c: char)
    requires
        0 <= n < 16,
    ensures
        hex_digit(n) == "0123456789abcdef"@[n],
        hex_value(c) == Some(n) <==> c == "0123456789abcdef"@[n] || c == "0123456789ABCDEF"@[n],
{
    reveal_strlit("0123456789abcdef");
    reveal_strlit("0123456789ABCDEF");
}

proof fn lemma_encoded(bytes: Seq<u8>, i: int)
    requires
        0 <= i < bytes.len(),
    ensures
        hex_encode(bytes).len() == 2 * bytes.len(),
        hex_encode(bytes)[2 * i] == "0123456789abcdef"@[bytes[i] as int / 16],
        hex_encode(bytes)[2 * i + 1] == "0123456789abcdef"@[bytes[i] as int % 16],
{
    let b = bytes[i] as int;
    lemma_hex_digits(b / 16, 'x');
    lemma_hex_digits(b % 16, 'x');
    assert((2 * i) / 2 == i && (2 * i) % 2 == 0);
    assert((2 * i + 1) / 2 == i && (2 * i + 1) % 2 == 1);
}

proof fn lemma_decoded(text: Seq<char>, bytes: Seq<u8>, i: int)
    requires
        hex_decode(text) == Some(bytes),
        0 <= i < bytes.len(),
    ensures
        text.len() == 2 * bytes.len(),
        ({
            let high = bytes[i] as int / 16;
            ||| text[2 * i] == "0123456789abcdef"@[high]
            ||| text[2 * i] == "0123456789ABCDEF"@[high]
        }),
        ({
            let low = bytes[i] as int % 16;
            ||| text[2 * i + 1] == "0123456789abcdef"@[low]
            ||| text[2 * i + 1] == "0123456789ABCDEF"@[low]
        }),
{
    assert(hex_value(text[2 * i]) is Some);
    assert(hex_value(text[2 * i + 1]) is Some);
    let high = hex_value(text[2 * i])->0;
    let low = hex_value(text[2 * i + 1])->0;
    assert(0 <= high < 16 && 0 <= low < 16);
    assert(bytes[i] == (16 * high + low) as u8);
    assert(bytes[i] as int / 16 == high && bytes[i] as int % 16 == low);
    lemma_hex_digits(high, text[2 * i]);
    lemma_hex_digits(low, text[2 * i + 1]);
}

/// A text that is no hexadecimal form of anything has an odd number of characters, or one that
/// is no digit.
proof fn lemma_not_decoded(text: Seq<char>)
    requires
        hex_decode(text) is None,
    ensures
        text.len() % 2 == 1 || exists|i: int|
            0 <= i < text.len() && !"0123456789abcdef"@.contains(#[trigger] text[i])
                && !"0123456789ABCDEF"@.contains(text[i]),
{
    if text.len() % 2 == 0 {
        let i = choose|i: int| 0 <= i < text.len() && (#[trigger] hex_value(text[i])) is None;
        if "0123456789abcdef"@.contains(text[i]) {
            reveal_strlit("0123456789abcdef");
            let n = choose|n: int|
                0 <= n < "0123456789abcdef"@.len() && "0123456789abcdef"@[n] == text[i];
            lemma_hex_digits(n, text[i]);
        }
        if "0123456789ABCDEF"@.contains(text[i]) {
            reveal_strlit("0123456789ABCDEF");
            let n = choose|n: int|
                0 <= n < "0123456789ABCDEF"@.len() && "0123456789ABCDEF"@[n] == text[i];
            lemma_hex_digits(n, text[i]);
        }
    }
}

/// A certificate is written as two lower-case digits for each byte, the high one first, and read
/// back from that.
pub proof fn certificate_text(
    cert: &Certificate,
    text: String,
    input: &str,
    read: Result<Certificate, InvalidHex>,
    i: int,
)
    requires
        call_ensures(serde_tls_cert::serialize, (cert,), text),
        call_ensures(serde_tls_cert::deserialize, (input,), read),
    ensures
        text@.len() == 2 * cert.0@.len(),
        0 <= i < cert.0@.len() ==> text@[2 * i] == "0123456789abcdef"@[cert.0@[i] as int / 16],
        0 <= i < cert.0@.len() ==> text@[2 * i + 1] == "0123456789abcdef"@[cert.0@[i] as int % 16],
        input@ == text@ ==> read is Ok && read->Ok_0.0@ == cert.0@,
{
    if 0 <= i < cert.0@.len() {
        lemma_encoded(cert.0@, i);
    }
    crate::hex_codec::hex_round_trip(cert.0@);
}

/// A private key is written as two lower-case digits for each byte, the high one first, and read
/// back from that.
pub proof fn private_key_text(
    key: &PrivateKey,
    text: String,
    input: &str,
    read: Result<PrivateKey, InvalidHex>,
    i: int,
)
    requires
        call_ensures(serde_tls_key::serialize, (key,), text),
        call_ensures(serde_tls_key::deserialize, (input,), read),
    ensures
        text@.len() == 2 * key.0@.len(),
        0 <= i < key.0@.len() ==> text@[2 * i] == "0123456789abcdef"@[key.0@[i] as int / 16],
        0 <= i < key.0@.len() ==> text@[2 * i + 1] == "0123456789abcdef"@[key.0@[i] as int % 16],
        input@ == text@ ==> read is Ok && read->Ok_0.0@ == key.0@,
{
    if 0 <= i < key.0@.len() {
        lemma_encoded(key.0@, i);
    }
    crate::hex_codec::hex_round_trip(key.0@);
}

/// What is read as a certificate are the bytes whose digits, in either case, the text gives. Only
/// a text with an odd number of characters, or with one that is no digit, is refused.
pub proof fn certificate_is_read(text: &str, read: Result<Certificate, InvalidHex>, i: int)
    requires
        call_ensures(serde_tls_cert::deserialize, (text,), read),
    ensures
        match read {
            Ok(cert) => text@.len() == 2 * cert.0@.len() && (0 <= i < cert.0@.len() ==> {
                let high = cert.0@[i] as int / 16;
                let low = cert.0@[i] as int % 16;
                &&& text@[2 * i] == "0123456789abcdef"@[high] || text@[2 * i]
                    == "0123456789ABCDEF"@[high]
                &&& text@[2 * i + 1] == "0123456789abcdef"@[low] || text@[2 * i + 1]
                    == "0123456789ABCDEF"@[low]
            }),
            Err(_) => text@.len() % 2 == 1 || exists|k: int|
                0 <= k < text@.len() && !"0123456789abcdef"@.contains(#[trigger] text@[k])
                    && !"0123456789ABCDEF"@.contains(text@[k]),
        },
{
    match read {
        Ok(cert) => {
            if 0 <= i < cert.0@.len() {
                lemma_decoded(text@, cert.0@, i);
            }
        },
        Err(_) => {
            lemma_not_decoded(text@);
        },
    }
}

/// What is read as a private key are the bytes whose digits, in either case, the text gives. Only
/// a text with an odd number of characters, or with one that is no digit, is refused.
pub proof fn private_key_is_read(text: &str, read: Result<PrivateKey, InvalidHex>, i: int)
    requires
        call_ensures(serde_tls_key::deserialize, (text,), read),
    ensures
        match read {
            Ok(key) => text@.len() == 2 * key.0@.len() && (0 <= i < key.0@.len() ==> {
                let high = key.0@[i] as int / 16;
                let low = key.0@[i] as int % 16;
                &&& text@[2 * i] == "0123456789abcdef"@[high] || text@[2 * i]
                    == "0123456789ABCDEF"@[high]
                &&& text@[2 * i + 1] == "0123456789abcdef"@[low] || text@[2 * i + 1]
                    == "0123456789ABCDEF"@[low]
            }),
            Err(_) => text@.len() % 2 == 1 || exists|k: int|
                0 <= k < text@.len() && !"0123456789abcdef"@.contains(#[trigger] text@[k])
                    && !"0123456789ABCDEF"@.contains(text@[k]),
        },
{
    match read {
        Ok(key) => {
            if 0 <= i < key.0@.len() {
                lemma_decoded(text@, key.0@, i);
            }
        },
        Err(_) => {
            lemma_not_decoded(text@);
        },
    }
}

/// A text that is no hexadecimal form is called invalid.
pub proof fn refused_hex_is_called(error: InvalidHex, text: &'static str)
    requires
        call_ensures(InvalidHex::message, (error,), text),
    ensures
        text@ == seq!['I', 'n', 'v', 'a', 'l', 'i', 'd', ' ', 'h', 'e', 'x'],
{
    reveal_strlit("Invalid hex");
    assert("Invalid hex"@ =~= seq!['I', 'n', 'v', 'a', 'l', 'i', 'd', ' ', 'h', 'e', 'x']);
}

/// Where two byte strings part.
proof fn lemma_parting(a: Seq<u8>, b: Seq<u8>)
    requires
        bytes_before(a, b),
    ensures
        exists|i: int|
            0 <= i <= a.len() && i < b.len() && #[trigger] a.take(i) == b.take(i) && (i == a.len()
                || a[i] < b[i]),
    decreases a.len(),
{
    if a.len() == 0 || a[0] != b[0] {
        assert(a.take(0) =~= b.take(0));
    } else {
        let a2 = a.drop_first();
        let b2 = b.drop_first();
        lemma_parting(a2, b2);
        let i = choose|i: int|
            0 <= i <= a2.len() && i < b2.len() && #[trigger] a2.take(i) == b2.take(i) && (i
                == a2.len() || a2[i] < b2[i]);
        assert(a.take(i + 1) =~= seq![a[0]] + a2.take(i));
        assert(b.take(i + 1) =~= seq![b[0]] + b2.take(i));
        assert(a.take(i + 1) == b.take(i + 1));
    }
}

/// Of two different texts, the one comes first that ends where they part, or has the smaller byte
/// there.
pub proof fn texts_are_ordered_by_bytes(a: &str, b: &str, order: Order)
    requires
        call_ensures(compare, (a, b), order),
    ensures
        order == Order::Same <==> a@ == b@,
        ({
            let x = encode_utf8(a@);
            let y = encode_utf8(b@);
            &&& order == Order::Before ==> exists|i: int|
                0 <= i <= x.len() && i < y.len() && #[trigger] x.take(i) == y.take(i) && (i
                    == x.len() || x[i] < y[i])
            &&& order == Order::After ==> exists|i: int|
                0 <= i <= y.len() && i < x.len() && #[trigger] y.take(i) == x.take(i) && (i
                    == y.len() || y[i] < x[i])
        }),
{
    let x = encode_utf8(a@);
    let y = encode_utf8(b@);
    if order == Order::Before {
        lemma_parting(x, y);
    }
    if order == Order::After {
        lemma_parting(y, x);
    }
}

/// The wallet, the mint and the lightning module are called `wallet`, `mint` and `ln`, and
/// nothing else is.
pub proof fn modules_are_called(
    kind: ModuleKind,
    text: &'static str,
    name: &str,
    found: Option<ModuleKind>,
)
    requires
        call_ensures(ModuleKind::name, (kind,), text),
        call_ensures(ModuleKind::from_name, (name,), found),
    ensures
        kind == ModuleKind::Wallet ==> text@ == "wallet"@,
        kind == ModuleKind::Mint ==> text@ == "mint"@,
        kind == ModuleKind::Ln ==> text@ == "ln"@,
        found == Some(kind) <==> name@ == text@,
{
    reveal_strlit("wallet");
    reveal_strlit("mint");
    reveal_strlit("ln");
    assert("wallet"@.len() == 6);
    assert("mint"@.len() == 4);
    assert("ln"@.len() == 2);
}

/// A module map gives back the last value that was put under a name, and changes nothing under
/// other names. A new map has nothing.
pub proof fn module_map_reads_what_was_put<V>(
    empty: ModuleMap<V>,
    before: ModuleMap<V>,
    name: String,
    value: V,
    after: ModuleMap<V>,
    asked: &str,
    in_empty: Option<&V>,
    in_before: Option<&V>,
    in_after: Option<&V>,
)
    requires
        call_ensures(ModuleMap::<V>::new, (), empty),
        call_ensures(ModuleMap::<V>::insert, (before, name, value), after),
        call_ensures(ModuleMap::<V>::get, (&empty, asked), in_empty),
        call_ensures(ModuleMap::<V>::get, (&before, asked), in_before),
        call_ensures(ModuleMap::<V>::get, (&after, asked), in_after),
    ensures
        in_empty is None,
        asked@ == name@ ==> in_after == Some(&value),
        asked@ != name@ ==> in_after == in_before,
{
}

/// The positions of a module map list its names in the order of their bytes, each once, with the
/// value that is found under the name.
pub proof fn module_map_is_listed_in_order<V>(
    map: &ModuleMap<V>,
    len: usize,
    i: usize,
    j: usize,
    name_i: &String,
    name_j: &String,
    value_i: &V,
    asked: &str,
    found: Option<&V>,
)
    requires
        call_ensures(ModuleMap::<V>::len, (map,), len),
        i < j < len,
        call_ensures(ModuleMap::<V>::name_at, (map, i), name_i),
        call_ensures(ModuleMap::<V>::name_at, (map, j), name_j),
        call_ensures(ModuleMap::<V>::value_at, (map, i), value_i),
        call_ensures(ModuleMap::<V>::get, (map, asked), found),
    ensures
        name_i@ != name_j@,
        ({
            let x = encode_utf8(name_i@);
            let y = encode_utf8(name_j@);
            exists|k: int|
                0 <= k <= x.len() && k < y.len() && #[trigger] x.take(k) == y.take(k) && (k
                    == x.len() || x[k] < y[k])
        }),
        asked@ == name_i@ ==> found == Some(value_i),
        found is Some ==> exists|k: int|
            0 <= k < len && #[trigger] map.names()[k] == asked@ && map.values()[k] == *found->0,
{
    crate::module_map::lemma_ascending_distinct(map.names());
    lemma_zip_at(map.names(), map.values(), i as int);
    lemma_parting(encode_utf8(name_i@), encode_utf8(name_j@));
    if found is Some {
        let k = map.names().index_of(asked@);
        assert(map.names().contains(asked@));
        assert(map.names()[k] == asked@);
    }
}

} // verus!
