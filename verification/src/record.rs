//! The durable byte form of an item.
//!
//! A record is, in this order: the id, the creation time and the update time,
//! each as eight little-endian bytes; one byte that counts the owner's bytes,
//! then those bytes; the length of the name's UTF-8 form as eight
//! little-endian bytes, then that form; and the UTF-8 form of the description,
//! which runs to the end. Decoding accepts exactly the byte strings that
//! encoding produces, and gives back the item that was encoded.

use crate::identity::{Identity, MAX_IDENTITY_BYTES};
use crate::item::{Item, ItemView};
use vstd::bytes::{
    lemma_auto_spec_u64_to_from_le_bytes, spec_u64_from_le_bytes, spec_u64_to_le_bytes,
    u64_from_le_bytes, u64_to_le_bytes,
};
use vstd::prelude::*;
use vstd::slice::{slice_subrange, slice_to_vec};
use vstd::utf8::{
    decode_utf8, decode_utf8_encode_utf8, encode_utf8, encode_utf8_decode_utf8,
    encode_utf8_valid_utf8, valid_utf8,
};

verus! {

/// The bytes of a record before the owner: three integers and the owner's length.
pub const FIXED_BYTES: usize = 25;

/// The bytes that a record adds to its two texts, at most.
pub const OVERHEAD_BYTES: u64 = 62;

/// The greatest number of bytes a stored record can have.
pub const MAX_RECORD_BYTES: u64 = 0xffff_ffff;

/// The greatest number of bytes the UTF-8 forms of a name and a description
/// can have together, so that the record stays within [`MAX_RECORD_BYTES`].
pub const MAX_TEXT_BYTES: u64 = 0xffff_ffc1;

/// Whether a name and a description are short enough to be stored.
pub open spec fn texts_fit(name: Seq<char>, description: Seq<char>) -> bool {
    encode_utf8(name).len() + encode_utf8(description).len() <= MAX_TEXT_BYTES
}

/// Tests whether a name and a description are short enough to be stored.
pub fn check_texts(name: &String, description: &String) -> (ok: bool)
    ensures
        ok == texts_fit(name@, description@),
{
    let name_len = name.as_str().as_bytes().len() as u64;
    let description_len = description.as_str().as_bytes().len() as u64;
    name_len <= MAX_TEXT_BYTES && description_len <= MAX_TEXT_BYTES - name_len
}

/// The record of an item.
pub open spec fn encode_record(item: ItemView) -> Seq<u8> {
    spec_u64_to_le_bytes(item.id) + spec_u64_to_le_bytes(item.created_at) + spec_u64_to_le_bytes(
        item.updated_at,
    ) + seq![item.owner.len() as u8] + item.owner + spec_u64_to_le_bytes(
        encode_utf8(item.name).len() as u64,
    ) + encode_utf8(item.name) + encode_utf8(item.description)
}

/// The item that a byte string is the record of, if it is one.
pub open spec fn decode_record(bytes: Seq<u8>) -> Option<ItemView> {
    if bytes.len() < FIXED_BYTES {
        None
    } else {
        let owner_len = bytes[24] as int;
        let name_at = FIXED_BYTES + owner_len + 8;
        if owner_len > MAX_IDENTITY_BYTES || bytes.len() < name_at {
            None
        } else {
            let name_len = spec_u64_from_le_bytes(bytes.subrange(name_at - 8, name_at)) as int;
            if bytes.len() - name_at < name_len {
                None
            } else {
                let name = bytes.subrange(name_at, name_at + name_len);
                let description = bytes.subrange(name_at + name_len, bytes.len() as int);
                if valid_utf8(name) && valid_utf8(description) {
                    Some(
                        ItemView {
                            id: spec_u64_from_le_bytes(bytes.subrange(0, 8)),
                            owner: bytes.subrange(FIXED_BYTES as int, FIXED_BYTES + owner_len),
                            name: decode_utf8(name),
                            description: decode_utf8(description),
                            created_at: spec_u64_from_le_bytes(bytes.subrange(8, 16)),
                            updated_at: spec_u64_from_le_bytes(bytes.subrange(16, 24)),
                        },
                    )
                } else {
                    None
                }
            }
        }
    }
}

/// The length of a record: its two texts and what the format adds. A record
/// of an identity's item whose texts fit is within [`MAX_RECORD_BYTES`].
pub proof fn lemma_record_len(item: ItemView)
    ensures
        encode_record(item).len() == FIXED_BYTES + item.owner.len() + 8 + encode_utf8(
            item.name,
        ).len() + encode_utf8(item.description).len(),
        item.owner.len() <= MAX_IDENTITY_BYTES && texts_fit(item.name, item.description)
            ==> encode_record(item).len() <= MAX_RECORD_BYTES,
        OVERHEAD_BYTES == FIXED_BYTES + MAX_IDENTITY_BYTES + 8,
        MAX_TEXT_BYTES + OVERHEAD_BYTES == MAX_RECORD_BYTES,
{
    lemma_auto_spec_u64_to_from_le_bytes();
}

/// Decoding a record gives back the item it was made from: no field is lost
/// or changed, whatever characters the texts hold.
pub proof fn lemma_decode_encode(item: ItemView)
    requires
        item.owner.len() <= MAX_IDENTITY_BYTES,
        encode_utf8(item.name).len() <= u64::MAX,
    ensures
        decode_record(encode_record(item)) == Some(item),
{
    lemma_auto_spec_u64_to_from_le_bytes();
    let bytes = encode_record(item);
    let name = encode_utf8(item.name);
    let description = encode_utf8(item.description);
    let owner_len = item.owner.len() as int;
    let name_at = FIXED_BYTES + owner_len + 8;
    let name_len = name.len() as int;
    assert(bytes.len() == name_at + name_len + description.len());
    assert(bytes[24] == item.owner.len() as u8);
    assert(bytes.subrange(0, 8) =~= spec_u64_to_le_bytes(item.id));
    assert(bytes.subrange(8, 16) =~= spec_u64_to_le_bytes(item.created_at));
    assert(bytes.subrange(16, 24) =~= spec_u64_to_le_bytes(item.updated_at));
    assert(bytes.subrange(FIXED_BYTES as int, FIXED_BYTES + owner_len) =~= item.owner);
    assert(bytes.subrange(name_at - 8, name_at) =~= spec_u64_to_le_bytes(name.len() as u64));
    assert(bytes.subrange(name_at, name_at + name_len) =~= name);
    assert(bytes.subrange(name_at + name_len, bytes.len() as int) =~= description);
    encode_utf8_valid_utf8(item.name);
    encode_utf8_valid_utf8(item.description);
    encode_utf8_decode_utf8(item.name);
    encode_utf8_decode_utf8(item.description);
}

/// A byte string that decodes is the record of the item it decodes to: an
/// item has one record only.
pub proof fn lemma_encode_decode(bytes: Seq<u8>)
    requires
        decode_record(bytes) is Some,
    ensures
        encode_record(decode_record(bytes)->0) == bytes,
        decode_record(bytes)->0.owner.len() <= MAX_IDENTITY_BYTES,
{
    lemma_auto_spec_u64_to_from_le_bytes();
    let item = decode_record(bytes)->0;
    let owner_len = bytes[24] as int;
    let name_at = FIXED_BYTES + owner_len + 8;
    let name_len = spec_u64_from_le_bytes(bytes.subrange(name_at - 8, name_at)) as int;
    let name = bytes.subrange(name_at, name_at + name_len);
    let description = bytes.subrange(name_at + name_len, bytes.len() as int);
    decode_utf8_encode_utf8(name);
    decode_utf8_encode_utf8(description);
    assert(spec_u64_to_le_bytes(item.id) == bytes.subrange(0, 8));
    assert(spec_u64_to_le_bytes(item.created_at) == bytes.subrange(8, 16));
    assert(spec_u64_to_le_bytes(item.updated_at) == bytes.subrange(16, 24));
    assert(spec_u64_to_le_bytes(name_len as u64) == bytes.subrange(name_at - 8, name_at));
    assert(encode_record(item) =~= bytes);
}

/// Calls `String::from_utf8`: the text that the bytes are the UTF-8 form of,
/// or `None` where they are no such form.
#[verifier::external_body]
fn string_from_utf8(bytes: Vec<u8>) -> (text: Option<String>)
    ensures
        text is Some <==> valid_utf8(bytes@),
        text matches Some(s) ==> s@ == decode_utf8(bytes@),
{
    String::from_utf8(bytes).ok()
}

/// Appends `more` to `out`.
fn append_bytes(out: &mut Vec<u8>, more: &[u8])
    ensures
        final(out)@ == old(out)@ + more@,
{
    let mut i: usize = 0;
    while i < more.len()
        invariant
            i <= more@.len(),
            out@ == old(out)@ + more@.subrange(0, i as int),
        decreases more@.len() - i,
    {
        out.push(more[i]);
        i += 1;
    }
}

impl Item {
    /// The record of this item.
    pub fn to_bytes(&self) -> (bytes: Vec<u8>)
        ensures
            bytes@ == encode_record(self@),
            decode_record(bytes@) == Some(self@),
            self@.owner.len() <= MAX_IDENTITY_BYTES,
    {
        let owner = self.owner.as_bytes();
        let name = self.name.as_str().as_bytes();
        let description = self.description.as_str().as_bytes();
        let mut out = u64_to_le_bytes(self.id);
        append_bytes(&mut out, u64_to_le_bytes(self.created_at).as_slice());
        append_bytes(&mut out, u64_to_le_bytes(self.updated_at).as_slice());
        out.push(owner.len() as u8);
        append_bytes(&mut out, owner);
        append_bytes(&mut out, u64_to_le_bytes(name.len() as u64).as_slice());
        append_bytes(&mut out, name);
        append_bytes(&mut out, description);
        proof {
            assert(out@ =~= encode_record(self@));
            lemma_decode_encode(self@);
        }
        out
    }

    /// The item that `bytes` is the record of, or `None` where it is the
    /// record of none.
    pub fn from_bytes(bytes: &[u8]) -> (item: Option<Item>)
        ensures
            match item {
                Some(item) => decode_record(bytes@) == Some(item@),
                None => decode_record(bytes@) is None,
            },
    {
        if bytes.len() < FIXED_BYTES {
            return None;
        }
        let owner_len = bytes[24] as usize;
        if owner_len > MAX_IDENTITY_BYTES || bytes.len() - FIXED_BYTES < owner_len + 8 {
            return None;
        }
        let name_at = FIXED_BYTES + owner_len + 8;
        let name_len = u64_from_le_bytes(slice_subrange(bytes, name_at - 8, name_at));
        if ((bytes.len() - name_at) as u64) < name_len {
            return None;
        }
        let text_at = name_at + name_len as usize;
        let owner = Identity::new(slice_to_vec(slice_subrange(bytes, FIXED_BYTES, name_at - 8)));
        let name = string_from_utf8(slice_to_vec(slice_subrange(bytes, name_at, text_at)));
        let description = string_from_utf8(
            slice_to_vec(slice_subrange(bytes, text_at, bytes.len())),
        );
        match (owner, name, description) {
            (Some(owner), Some(name), Some(description)) => Some(
                Item {
                    id: u64_from_le_bytes(slice_subrange(bytes, 0, 8)),
                    owner,
                    name,
                    description,
                    created_at: u64_from_le_bytes(slice_subrange(bytes, 8, 16)),
                    updated_at: u64_from_le_bytes(slice_subrange(bytes, 16, 24)),
                },
            ),
            _ => None,
        }
    }
}

} // verus!
