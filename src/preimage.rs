//! Recovery of account addresses from the keccak preimages that a call
//! revealed: the address index.
use crate::hex_text::{
    decode_hex, decode_hex_text, is_hex_char, has_hex_prefix, hex_digit_value, hex_pairs, is_hex_digit,
    lower_hex, lower_hex_digit,
};
use crate::trace::CallTrace;
use vstd::prelude::*;

verus! {

/// Hex characters in a preimage of one mapping key: two 32-byte words.
pub const EXPECTED_PREIMAGE_LENGTH: usize = 128;

/// Hex characters of zero padding in front of the address.
pub const ADDRESS_START: usize = 24;

/// Hex characters up to the end of the address.
pub const ADDRESS_END: usize = 64;

/// A keccak preimage that a call revealed: the hash and the text it was
/// computed from, both in hex.
pub struct PreimageRevelation {
    pub hash: String,
    pub preimage: String,
}

/// The address that a preimage of the shape `zero padding ‖ address ‖ slot`
/// holds, still as text: the preimage is 128 hex digits, 64 bytes, the first
/// 24 of them zero; `None` for any other text.
pub open spec fn preimage_address_text(p: Seq<char>) -> Option<Seq<char>> {
    if p.len() == EXPECTED_PREIMAGE_LENGTH && (forall|i: int|
        0 <= i < p.len() ==> #[trigger] is_hex_digit(p[i])) && (forall|i: int|
        0 <= i < ADDRESS_START ==> #[trigger] p[i] == '0') {
        Some(p.subrange(ADDRESS_START as int, ADDRESS_END as int))
    } else {
        None
    }
}

/// The entry `hash → address` that one revelation contributes, if any.
pub open spec fn revelation_entry(hash: Seq<char>, preimage: Seq<char>) -> Option<
    (Seq<u8>, Seq<u8>),
> {
    match preimage_address_text(preimage) {
        Some(addr) => match (decode_hex_text(hash), decode_hex_text(addr)) {
            (Some(h), Some(a)) => Some((h, a)),
            _ => None,
        },
        None => None,
    }
}

/// The index that the revelations `revs` give, taken in order: a later entry
/// for the same hash replaces an earlier one.
pub open spec fn index_of(revs: Seq<PreimageRevelation>) -> Map<Seq<u8>, Seq<u8>>
    decreases revs.len(),
{
    if revs.len() == 0 {
        Map::empty()
    } else {
        let prev = index_of(revs.drop_last());
        match revelation_entry(revs.last().hash@, revs.last().preimage@) {
            Some((h, a)) => prev.insert(h, a),
            None => prev,
        }
    }
}

/// The map that a list of entries gives: a later entry for the same key
/// replaces an earlier one.
pub open spec fn entries_map(entries: Seq<(Vec<u8>, Vec<u8>)>) -> Map<Seq<u8>, Seq<u8>>
    decreases entries.len(),
{
    if entries.len() == 0 {
        Map::empty()
    } else {
        entries_map(entries.drop_last()).insert(entries.last().0@, entries.last().1@)
    }
}

/// Storage-slot identifier to 20-byte account address, for one call.
pub struct AddressIndex {
    entries: Vec<(Vec<u8>, Vec<u8>)>,
}

impl View for AddressIndex {
    type V = Map<Seq<u8>, Seq<u8>>;

    closed spec fn view(&self) -> Map<Seq<u8>, Seq<u8>> {
        entries_map(self.entries@)
    }
}

proof fn lemma_entries_map_suffix(entries: Seq<(Vec<u8>, Vec<u8>)>, i: int, key: Seq<u8>)
    requires
        0 <= i <= entries.len(),
        forall|j: int| i <= j < entries.len() ==> (#[trigger] entries[j]).0@ != key,
    ensures
        entries_map(entries).contains_key(key) == entries_map(entries.take(i)).contains_key(key),
        entries_map(entries).contains_key(key) ==> entries_map(entries)[key] == entries_map(
            entries.take(i),
        )[key],
    decreases entries.len() - i,
{
    if i < entries.len() {
        lemma_entries_map_suffix(entries, i + 1, key);
        assert(entries.take(i + 1).drop_last() =~= entries.take(i));
        assert(entries.take(i + 1).last() == entries[i]);
    } else {
        assert(entries.take(i) =~= entries);
    }
}

/// Byte-wise equality of two byte strings.
pub fn bytes_equal(a: &Vec<u8>, b: &Vec<u8>) -> (r: bool)
    ensures
        r == (a@ == b@),
{
    if a.len() != b.len() {
        return false;
    }
    let mut i: usize = 0;
    while i < a.len()
        invariant
            a@.len() == b@.len(),
            0 <= i <= a@.len(),
            forall|j: int| 0 <= j < i ==> a@[j] == b@[j],
        decreases a@.len() - i,
    {
        if a[i] != b[i] {
            return false;
        }
        i = i + 1;
    }
    assert(a@ =~= b@);
    true
}

impl AddressIndex {
    pub fn new() -> (r: AddressIndex)
        ensures
            r@ == Map::<Seq<u8>, Seq<u8>>::empty(),
    {
        AddressIndex { entries: Vec::new() }
    }

    /// Maps `hash` to `address`, replacing any address it had.
    pub fn insert(&mut self, hash: Vec<u8>, address: Vec<u8>)
        ensures
            final(self)@ == old(self)@.insert(hash@, address@),
    {
        self.entries.push((hash, address));
        assert(self.entries@.drop_last() =~= old(self).entries@);
    }

    /// The address that `hash` maps to.
    pub fn get(&self, hash: &Vec<u8>) -> (r: Option<&Vec<u8>>)
        ensures
            r matches Some(a) ==> self@.contains_key(hash@) && self@[hash@] == a@,
            r is None ==> !self@.contains_key(hash@),
    {
        let mut i: usize = self.entries.len();
        while i > 0
            invariant
                0 <= i <= self.entries@.len(),
                forall|j: int| i <= j < self.entries@.len() ==> (#[trigger] self.entries@[j]).0@ != hash@,
            decreases i,
        {
            if bytes_equal(&self.entries[i - 1].0, hash) {
                proof {
                    lemma_entries_map_suffix(self.entries@, i as int, hash@);
                    assert(self.entries@.take(i as int).drop_last() =~= self.entries@.take(i - 1));
                }
                return Some(&self.entries[i - 1].1);
            }
            i = i - 1;
        }
        proof {
            lemma_entries_map_suffix(self.entries@, 0, hash@);
            assert(self.entries@.take(0) =~= Seq::<(Vec<u8>, Vec<u8>)>::empty());
        }
        None
    }
}

/// The entry `hash → address` that one revelation contributes, if any.
pub fn preimage_entry(hash: &String, preimage: &String) -> (r: Option<(Vec<u8>, Vec<u8>)>)
    ensures
        r matches Some((h, a)) ==> revelation_entry(hash@, preimage@) == Some((h@, a@)),
        r is None ==> revelation_entry(hash@, preimage@) is None,
{
    let p = preimage.as_str();
    if p.unicode_len() != EXPECTED_PREIMAGE_LENGTH {
        return None;
    }
    let mut k: usize = 0;
    while k < EXPECTED_PREIMAGE_LENGTH
        invariant
            p@ == preimage@,
            p@.len() == EXPECTED_PREIMAGE_LENGTH,
            0 <= k <= EXPECTED_PREIMAGE_LENGTH,
            forall|j: int| 0 <= j < k ==> #[trigger] is_hex_digit(p@[j]),
        decreases EXPECTED_PREIMAGE_LENGTH - k,
    {
        if !is_hex_char(p.get_char(k)) {
            return None;
        }
        k = k + 1;
    }
    let mut i: usize = 0;
    while i < ADDRESS_START
        invariant
            p@ == preimage@,
            forall|j: int| 0 <= j < p@.len() ==> #[trigger] is_hex_digit(p@[j]),
            p@.len() == EXPECTED_PREIMAGE_LENGTH,
            0 <= i <= ADDRESS_START,
            forall|j: int| 0 <= j < i ==> #[trigger] p@[j] == '0',
        decreases ADDRESS_START - i,
    {
        if p.get_char(i) != '0' {
            return None;
        }
        i = i + 1;
    }
    let address_text = p.substring_char(ADDRESS_START, ADDRESS_END);
    match (decode_hex(hash.as_str()), decode_hex(address_text)) {
        (Some(h), Some(a)) => Some((h, a)),
        _ => None,
    }
}

/// Builds the address index of a call from the preimages it revealed, in
/// the order given; malformed revelations are skipped.
pub fn map_hashes_to_addresses(call: &CallTrace) -> (r: AddressIndex)
    ensures
        r@ == index_of(call.keccak_preimages@),
{
    let revs = &call.keccak_preimages;
    let mut index = AddressIndex::new();
    let mut i: usize = 0;
    while i < revs.len()
        invariant
            0 <= i <= revs@.len(),
            index@ == index_of(revs@.take(i as int)),
        decreases revs@.len() - i,
    {
        let rev = &revs[i];
        match preimage_entry(&rev.hash, &rev.preimage) {
            Some((h, a)) => index.insert(h, a),
            None => {},
        }
        proof {
            assert(revs@.take(i + 1).drop_last() =~= revs@.take(i as int));
            assert(revs@.take(i + 1).last() == revs@[i as int]);
        }
        i = i + 1;
    }
    proof {
        assert(revs@.take(revs@.len() as int) =~= revs@);
    }
    index
}

/// A revelation whose preimage is not 128 hex characters long contributes
/// nothing to the index, wherever it stands among the others.
pub proof fn lemma_wrong_length_preimage_ignored(
    before: Seq<PreimageRevelation>,
    rev: PreimageRevelation,
    after: Seq<PreimageRevelation>,
)
    requires
        rev.preimage@.len() != EXPECTED_PREIMAGE_LENGTH,
    ensures
        index_of(before.push(rev) + after) == index_of(before + after),
    decreases after.len(),
{
    if after.len() == 0 {
        assert(before.push(rev) + after =~= before.push(rev));
        assert(before.push(rev).drop_last() =~= before);
        assert(before + after =~= before);
    } else {
        lemma_wrong_length_preimage_ignored(before, rev, after.drop_last());
        assert((before.push(rev) + after).drop_last() =~= before.push(rev) + after.drop_last());
        assert((before + after).drop_last() =~= before + after.drop_last());
    }
}

/// `n` zero digits.
pub open spec fn zero_digits(n: nat) -> Seq<char> {
    Seq::new(n, |i: int| '0')
}

proof fn lemma_lower_hex_digit(v: int)
    requires
        0 <= v < 16,
    ensures
        is_hex_digit(lower_hex_digit(v)),
        hex_digit_value(lower_hex_digit(v)) == v,
        lower_hex_digit(v) != 'x',
{
}

proof fn lemma_lower_hex_decodes(b: Seq<u8>)
    ensures
        hex_pairs(lower_hex(b)) == Some(b),
        !has_hex_prefix(lower_hex(b)),
{
    let s = lower_hex(b);
    assert forall|i: int| 0 <= i < s.len() implies #[trigger] is_hex_digit(s[i]) by {
        if i % 2 == 0 {
            lemma_lower_hex_digit(b[i / 2] as int / 16);
        } else {
            lemma_lower_hex_digit(b[i / 2] as int % 16);
        }
    }
    let d = Seq::new(
        (s.len() / 2) as nat,
        |i: int| (hex_digit_value(s[2 * i]) * 16 + hex_digit_value(s[2 * i + 1])) as u8,
    );
    assert forall|i: int| 0 <= i < b.len() implies d[i] == b[i] by {
        let x = b[i] as int;
        assert((2 * i) / 2 == i && (2 * i) % 2 == 0);
        assert((2 * i + 1) / 2 == i && (2 * i + 1) % 2 == 1);
        lemma_lower_hex_digit(x / 16);
        lemma_lower_hex_digit(x % 16);
        assert((x / 16) * 16 + x % 16 == x);
    }
    assert(d =~= b);
    if s.len() >= 2 {
        lemma_lower_hex_digit(b[0] as int % 16);
        assert(1int / 2 == 0 && 1int % 2 == 1);
    }
}

/// A preimage made of zero padding, the 40 hex digits of an address in
/// either case and the 64 hex digits of a slot index maps its hash to the 20
/// bytes that the address digits spell.
pub proof fn lemma_hex_preimage_maps_address(
    revs: Seq<PreimageRevelation>,
    rev: PreimageRevelation,
    address_text: Seq<char>,
    slot_text: Seq<char>,
)
    requires
        address_text.len() == ADDRESS_END - ADDRESS_START,
        slot_text.len() == EXPECTED_PREIMAGE_LENGTH - ADDRESS_END,
        forall|i: int| 0 <= i < address_text.len() ==> #[trigger] is_hex_digit(address_text[i]),
        forall|i: int| 0 <= i < slot_text.len() ==> #[trigger] is_hex_digit(slot_text[i]),
        rev.preimage@ == zero_digits(ADDRESS_START as nat) + address_text + slot_text,
        decode_hex_text(rev.hash@) is Some,
    ensures
        hex_pairs(address_text) is Some,
        (hex_pairs(address_text)->0).len() == 20,
        index_of(revs.push(rev)) == index_of(revs).insert(
            decode_hex_text(rev.hash@)->0,
            hex_pairs(address_text)->0,
        ),
{
    let p = rev.preimage@;
    let z = zero_digits(ADDRESS_START as nat);
    assert(p.len() == EXPECTED_PREIMAGE_LENGTH);
    assert forall|i: int| 0 <= i < p.len() implies #[trigger] is_hex_digit(p[i]) by {
        if i < ADDRESS_START {
            assert(p[i] == z[i]);
        } else if i < ADDRESS_END {
            assert(p[i] == address_text[i - ADDRESS_START]);
        } else {
            assert(p[i] == slot_text[i - ADDRESS_END]);
        }
    }
    assert forall|i: int| 0 <= i < ADDRESS_START implies #[trigger] p[i] == '0' by {
        assert(p[i] == z[i]);
    }
    assert(p.subrange(ADDRESS_START as int, ADDRESS_END as int) =~= address_text);
    assert(is_hex_digit(address_text[1]));
    assert(!has_hex_prefix(address_text));
    assert(revs.push(rev).drop_last() =~= revs);
}

/// A preimage made of zero padding, a 20-byte address in lower-case hex and
/// a zero slot index maps its hash to exactly that address.
pub proof fn lemma_well_formed_preimage_maps_address(
    revs: Seq<PreimageRevelation>,
    rev: PreimageRevelation,
    address: Seq<u8>,
)
    requires
        address.len() == 20,
        rev.preimage@ == zero_digits(ADDRESS_START as nat) + lower_hex(address) + zero_digits(64),
        decode_hex_text(rev.hash@) is Some,
    ensures
        index_of(revs.push(rev)) == index_of(revs).insert(decode_hex_text(rev.hash@)->0, address),
{
    lemma_lower_hex_decodes(address);
    let a = lower_hex(address);
    let slot = zero_digits(64);
    assert forall|i: int| 0 <= i < a.len() implies #[trigger] is_hex_digit(a[i]) by {}
    assert forall|i: int| 0 <= i < slot.len() implies #[trigger] is_hex_digit(slot[i]) by {}
    lemma_hex_preimage_maps_address(revs, rev, a, slot);
}

} // verus!
