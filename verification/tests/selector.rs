use solidcpp::selector::{selector_for, selector_from_digest, selector_of_signature, signature_text};

fn strings(items: &[&str]) -> Vec<String> {
    items.iter().map(|s| s.to_string()).collect()
}

#[test]
fn transfer_has_the_well_known_selector() {
    let (selector, signature) = selector_for("transfer", &strings(&["address", "uint256"]));
    assert_eq!(signature, "transfer(address,uint256)");
    assert_eq!(selector.bytes, [0xa9, 0x05, 0x9c, 0xbb]);
    assert_eq!(selector.value, 0xa9059cbb);
}

#[test]
fn known_signatures_have_their_selectors() {
    assert_eq!(selector_of_signature("balanceOf(address)").bytes, [0x70, 0xa0, 0x82, 0x31]);
    assert_eq!(selector_of_signature("totalSupply()").bytes, [0x18, 0x16, 0x0d, 0xdd]);
    assert_eq!(selector_of_signature("approve(address,uint256)").value, 0x095ea7b3);
    assert_eq!(
        selector_of_signature("Transfer(address,address,uint256)").bytes,
        [0xdd, 0xf2, 0x52, 0xad]
    );
}

#[test]
fn the_empty_message_hashes_to_the_keccak_constant() {
    assert_eq!(selector_of_signature("").bytes, [0xc5, 0xd2, 0x46, 0x01]);
}

#[test]
fn selector_is_the_same_on_every_computation() {
    let types = strings(&["address", "uint256"]);
    let first = selector_for("transfer", &types);
    let second = selector_for("transfer", &types);
    assert_eq!(first.0.bytes, second.0.bytes);
    assert_eq!(first.0.value, second.0.value);
    assert_eq!(first.1, second.1);
}

#[test]
fn signature_joins_types_with_commas_only() {
    assert_eq!(signature_text("f", &strings(&[])), "f()");
    assert_eq!(signature_text("f", &strings(&["bool"])), "f(bool)");
    assert_eq!(signature_text("f", &strings(&["bool", "(uint8,string)", "address"])), "f(bool,(uint8,string),address)");
    assert_eq!(signature_text("", &strings(&["", ""])), "(,)");
}

#[test]
fn selector_is_the_front_of_the_digest_in_big_endian() {
    let mut digest = [0u8; 32];
    for (i, byte) in digest.iter_mut().enumerate() {
        *byte = (i as u8) + 1;
    }
    let selector = selector_from_digest(&digest);
    assert_eq!(selector.bytes, [1, 2, 3, 4]);
    assert_eq!(selector.value, 0x01020304);
    digest[0] = 0xff;
    digest[3] = 0;
    let selector = selector_from_digest(&digest);
    assert_eq!(selector.value, 0xff020300);
}

#[test]
fn signatures_are_hashed_as_utf8() {
    // keccak256("é()") starts with these bytes only if the two-byte encoding was hashed
    let wide = selector_of_signature("\u{e9}()");
    let plain = selector_of_signature("e()");
    assert_ne!(wide.bytes, plain.bytes);
}
