use transfer_balances::hex_text::decode_hex;
use transfer_balances::preimage::preimage_entry;
use transfer_balances::{map_hashes_to_addresses, AddressIndex, CallTrace, PreimageRevelation};

fn address(last: u8, fill: u8) -> Vec<u8> {
    let mut a = vec![fill; 20];
    a[19] = last;
    a
}

fn hex_of(b: &[u8]) -> String {
    b.iter().map(|x| format!("{:02x}", x)).collect()
}

fn preimage_for(addr: &[u8], slot: u8) -> String {
    format!("{}{}{}{:02x}", "0".repeat(24), hex_of(addr), "0".repeat(62), slot)
}

fn revelation(hash: &str, preimage: &str) -> PreimageRevelation {
    PreimageRevelation { hash: hash.to_string(), preimage: preimage.to_string() }
}

fn call_with(revs: Vec<PreimageRevelation>) -> CallTrace {
    CallTrace { storage_changes: vec![], keccak_preimages: revs }
}

const H1: &str = "1111111111111111111111111111111111111111111111111111111111111111";
const H2: &str = "2222222222222222222222222222222222222222222222222222222222222222";

#[test]
fn well_formed_preimage_maps_hash_to_address() {
    let a = address(0x01, 0xaa);
    let index = map_hashes_to_addresses(&call_with(vec![revelation(H1, &preimage_for(&a, 0))]));
    assert_eq!(index.get(&vec![0x11u8; 32]), Some(&a));
}

#[test]
fn wrong_length_preimages_add_nothing() {
    let a = address(0x01, 0xaa);
    let full = preimage_for(&a, 0);
    let short = &full[..126];
    let long = format!("{}00", full);
    let index = map_hashes_to_addresses(&call_with(vec![
        revelation(H1, short),
        revelation(H2, &long),
        revelation(H2, ""),
    ]));
    assert_eq!(index.get(&vec![0x11u8; 32]), None);
    assert_eq!(index.get(&vec![0x22u8; 32]), None);
}

#[test]
fn nonzero_address_padding_is_skipped() {
    let a = address(0x01, 0xaa);
    let mut p = preimage_for(&a, 0);
    p.replace_range(0..1, "1");
    assert!(preimage_entry(&H1.to_string(), &p).is_none());
    let index = map_hashes_to_addresses(&call_with(vec![revelation(H1, &p)]));
    assert_eq!(index.get(&vec![0x11u8; 32]), None);
}

#[test]
fn undecodable_entries_are_skipped_alone() {
    let a = address(0x01, 0xaa);
    let b = address(0x02, 0xbb);
    let mut bad_address = preimage_for(&a, 0);
    bad_address.replace_range(30..31, "g");
    let index = map_hashes_to_addresses(&call_with(vec![
        revelation("zz", &preimage_for(&a, 0)),
        revelation(H1, &bad_address),
        revelation(H2, &preimage_for(&b, 3)),
    ]));
    assert_eq!(index.get(&vec![0x11u8; 32]), None);
    assert_eq!(index.get(&vec![0x22u8; 32]), Some(&b));
}

#[test]
fn later_revelation_of_a_hash_wins() {
    let a = address(0x01, 0xaa);
    let b = address(0x02, 0xbb);
    let index = map_hashes_to_addresses(&call_with(vec![
        revelation(H1, &preimage_for(&a, 0)),
        revelation(&format!("0x{}", H1), &preimage_for(&b, 0)),
    ]));
    assert_eq!(index.get(&vec![0x11u8; 32]), Some(&b));
}

#[test]
fn address_index_insert_and_get() {
    let mut index = AddressIndex::new();
    assert_eq!(index.get(&vec![1u8]), None);
    index.insert(vec![1u8], vec![9u8]);
    index.insert(vec![2u8], vec![8u8]);
    index.insert(vec![1u8], vec![7u8]);
    assert_eq!(index.get(&vec![1u8]), Some(&vec![7u8]));
    assert_eq!(index.get(&vec![2u8]), Some(&vec![8u8]));
    assert_eq!(index.get(&vec![3u8]), None);
}

#[test]
fn hex_decoding() {
    assert_eq!(decode_hex("0x0aFf"), Some(vec![0x0a, 0xff]));
    assert_eq!(decode_hex("0aff"), Some(vec![0x0a, 0xff]));
    assert_eq!(decode_hex(""), Some(vec![]));
    assert_eq!(decode_hex("a"), None);
    assert_eq!(decode_hex("abc"), None);
    assert_eq!(decode_hex("xy"), None);
}

#[test]
fn non_hex_slot_word_is_skipped() {
    let a = address(0x01, 0xaa);
    let mut p = preimage_for(&a, 0);
    p.replace_range(64..65, "z");
    assert_eq!(p.len(), 128);
    assert!(preimage_entry(&H1.to_string(), &p).is_none());
    let index = map_hashes_to_addresses(&call_with(vec![revelation(H1, &p)]));
    assert_eq!(index.get(&vec![0x11u8; 32]), None);
}

#[test]
fn multi_byte_character_in_preimage_is_skipped() {
    let a = address(0x01, 0xaa);
    for at in [24usize, 64, 126] {
        let mut p = preimage_for(&a, 0);
        p.replace_range(at..at + 1, "é");
        assert_eq!(p.chars().count(), 128);
        assert!(preimage_entry(&H1.to_string(), &p).is_none());
        let index = map_hashes_to_addresses(&call_with(vec![revelation(H1, &p)]));
        assert_eq!(index.get(&vec![0x11u8; 32]), None);
    }
    // Shifted by a two-byte character: 128 bytes, fewer characters.
    let mut p = preimage_for(&a, 0);
    p.replace_range(126..128, "é");
    assert_eq!(p.len(), 128);
    assert!(preimage_entry(&H1.to_string(), &p).is_none());
}

#[test]
fn upper_case_address_and_any_slot_are_accepted() {
    let a = address(0x01, 0xaa);
    let p = format!("{}{}{}", "0".repeat(24), hex_of(&a).to_uppercase(), "0A".repeat(32));
    let index = map_hashes_to_addresses(&call_with(vec![revelation(H1, &p)]));
    assert_eq!(index.get(&vec![0x11u8; 32]), Some(&a));
}
