use federation_config::address::{InvalidUrl, Url};
use federation_config::hex_codec::InvalidHex;
use federation_config::ids::{max_evil, one_honest, threshold, PeerId};
use federation_config::module_map::ModuleMap;
use federation_config::modules::ModuleKind;
use federation_config::serde_tls_cert;
use federation_config::serde_tls_key;
use federation_config::text::{decimal_string, host_port, node_name, peer_name};
use federation_config::text_order::{compare, Order};
use federation_config::tls::{Certificate, PrivateKey};

#[test]
fn certificate_is_written_in_lower_case_hex() {
    let cert = Certificate(vec![0x00, 0x1f, 0xa0, 0xff]);
    assert_eq!(serde_tls_cert::serialize(&cert), "001fa0ff");
    assert_eq!(serde_tls_cert::serialize(&Certificate(vec![])), "");
}

#[test]
fn certificate_comes_back_from_text() {
    let bytes: Vec<u8> = (0..=255).collect();
    let cert = Certificate(bytes.clone());
    let text = serde_tls_cert::serialize(&cert);
    assert_eq!(text.len(), 512);
    assert_eq!(serde_tls_cert::deserialize(&text), Ok(Certificate(bytes)));
}

#[test]
fn certificate_is_read_in_either_case() {
    assert_eq!(
        serde_tls_cert::deserialize("DeadBEEF"),
        Ok(Certificate(vec![0xde, 0xad, 0xbe, 0xef]))
    );
    assert_eq!(serde_tls_cert::deserialize(""), Ok(Certificate(vec![])));
}

#[test]
fn certificate_text_must_be_hex() {
    assert_eq!(serde_tls_cert::deserialize("abc"), Err(InvalidHex));
    assert_eq!(serde_tls_cert::deserialize("0g"), Err(InvalidHex));
    assert_eq!(serde_tls_cert::deserialize(" 00 "), Err(InvalidHex));
    assert_eq!(serde_tls_cert::deserialize("é"), Err(InvalidHex));
}

#[test]
fn key_comes_back_from_text() {
    let key = PrivateKey(vec![0x30, 0x81, 0x87]);
    assert_eq!(serde_tls_key::serialize(&key), "308187");
    assert_eq!(serde_tls_key::deserialize("308187"), Ok(key));
}

#[test]
fn bad_text_is_called_invalid_hex() {
    assert_eq!(serde_tls_cert::deserialize("0").unwrap_err().message(), "Invalid hex");
    assert_eq!(serde_tls_key::deserialize("x0").unwrap_err().message(), "Invalid hex");
}

#[test]
fn key_text_must_be_hex() {
    assert_eq!(serde_tls_key::deserialize("3"), Err(InvalidHex));
    assert_eq!(serde_tls_key::deserialize("zz"), Err(InvalidHex));
}

#[test]
fn numbers_are_written_in_decimal() {
    assert_eq!(decimal_string(0), "0");
    assert_eq!(decimal_string(9), "9");
    assert_eq!(decimal_string(10), "10");
    assert_eq!(decimal_string(20407), "20407");
    assert_eq!(decimal_string(65535), "65535");
}

#[test]
fn names_and_addresses_hold_the_number() {
    assert_eq!(peer_name(0), "peer-0");
    assert_eq!(peer_name(42), "peer-42");
    assert_eq!(node_name(0), "node #0");
    assert_eq!(node_name(365), "node #365");
    assert_eq!(host_port("127.0.0.1", 8080), "127.0.0.1:8080");
    assert_eq!(host_port("", 1), ":1");
}

#[test]
fn quorum_sizes() {
    let ids: Vec<PeerId> = (0..10).collect();
    let sizes: Vec<(usize, usize, usize)> = [1usize, 2, 3, 4, 6, 7, 10]
        .iter()
        .map(|&n| (max_evil(&ids[..n]), one_honest(&ids[..n]), threshold(&ids[..n])))
        .collect();
    assert_eq!(
        sizes,
        vec![
            (0, 1, 1),
            (0, 1, 2),
            (0, 1, 3),
            (1, 2, 3),
            (1, 2, 5),
            (2, 3, 5),
            (3, 4, 7)
        ]
    );
}

#[test]
fn texts_are_ordered_by_their_bytes() {
    assert_eq!(compare("ln", "ln"), Order::Same);
    assert_eq!(compare("ln", "mint"), Order::Before);
    assert_eq!(compare("wallet", "mint"), Order::After);
    assert_eq!(compare("", "a"), Order::Before);
    assert_eq!(compare("ab", "a"), Order::After);
    assert_eq!(compare("Z", "a"), Order::Before);
    assert_eq!(compare("é", "z"), Order::After);
}

#[test]
fn module_map_keeps_the_last_value_of_each_name() {
    let map = ModuleMap::new()
        .insert("wallet".to_owned(), 1)
        .insert("ln".to_owned(), 2)
        .insert("mint".to_owned(), 3)
        .insert("ln".to_owned(), 4);
    assert_eq!(map.len(), 3);
    let entries: Vec<(&str, i32)> = (0..map.len())
        .map(|i| (map.name_at(i).as_str(), *map.value_at(i)))
        .collect();
    assert_eq!(entries, vec![("ln", 4), ("mint", 3), ("wallet", 1)]);
    assert_eq!(map.get("mint"), Some(&3));
    assert_eq!(map.get("min"), None);
    assert_eq!(map.clone(), map);
}

#[test]
fn module_kinds_are_found_by_name() {
    for kind in [ModuleKind::Wallet, ModuleKind::Mint, ModuleKind::Ln] {
        assert_eq!(ModuleKind::from_name(kind.name()), Some(kind));
    }
    assert_eq!(ModuleKind::Wallet.name(), "wallet");
    assert_eq!(ModuleKind::Mint.name(), "mint");
    assert_eq!(ModuleKind::Ln.name(), "ln");
    assert_eq!(ModuleKind::from_name("Wallet"), None);
    assert_eq!(ModuleKind::from_name(""), None);
}

#[test]
fn urls_are_normalized() {
    let url = Url::parse("ws://10.42.0.10:5000").unwrap();
    assert_eq!(url.as_str(), "ws://10.42.0.10:5000/");
    assert_eq!(url.clone(), url);
    assert_eq!(Url::parse("WS://Example.org:80/a").unwrap().as_str(), "ws://example.org/a");
}

#[test]
fn texts_that_are_no_urls_are_rejected() {
    assert_eq!(Url::parse("127.0.0.1"), Err(InvalidUrl));
    assert_eq!(Url::parse("ws://"), Err(InvalidUrl));
    assert_eq!(Url::parse("ws://host:99999"), Err(InvalidUrl));
}
