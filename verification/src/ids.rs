use vstd::prelude::*;
use vstd::bytes::*;
use crate::errors::RollError;

verus! {

/// Group constant shared by every instance of the collection this pool accepts.
pub const PANDA_GROUP: u128 = 2;

/// Identifier of one fungible-class token: a (group, item) pair, equal when the
/// fields are equal.
#[derive(Clone, Copy, PartialEq, Eq, Structural, Debug)]
pub struct InstanceId {
    pub group: u128,
    pub item: u128,
}

/// The fixed, precompiled allow-list of item identifiers, in ascending order.
pub open spec fn allowed_items() -> Seq<u128> {
    seq![100u128, 101, 102, 103, 104, 105, 106, 107, 108, 109, 110, 111]
}

/// An id is accepted when its group matches the collection's group and its item
/// is on the allow-list.
pub open spec fn valid_panda(id: InstanceId) -> bool {
    id.group == PANDA_GROUP && allowed_items().contains(id.item)
}

/// The allow-list as a vector.
pub fn allowed_item_ids() -> (r: Vec<u128>)
    ensures
        r@ == allowed_items(),
{
    let r: Vec<u128> = vec![100, 101, 102, 103, 104, 105, 106, 107, 108, 109, 110, 111];
    proof {
        assert(r@ =~= allowed_items());
    }
    r
}

/// Membership scan over the precompiled allow-list.
pub fn is_allowed_item(item: u128) -> (r: bool)
    ensures
        r == allowed_items().contains(item),
{
    let ids = allowed_item_ids();
    let n = ids.len();
    let mut i: usize = 0;
    while i < n
        invariant
            ids@ == allowed_items(),
            n == ids@.len(),
            0 <= i <= n,
            forall|j: int| 0 <= j < i ==> ids@[j] != item,
        decreases n - i,
    {
        if ids[i] == item {
            proof {
                assert(allowed_items().contains(item));
            }
            return true;
        }
        i += 1;
    }
    proof {
        assert(!allowed_items().contains(item));
    }
    false
}

/// 32-byte storage record of an id: the group then the item, each as 16
/// little-endian bytes.
pub open spec fn id_record(id: InstanceId) -> Seq<u8> {
    spec_u128_to_le_bytes(id.group) + spec_u128_to_le_bytes(id.item)
}

/// The id that a well-formed 32-byte record decodes to.
pub open spec fn record_id(b: Seq<u8>) -> InstanceId
    recommends
        b.len() == 32,
{
    InstanceId {
        group: spec_u128_from_le_bytes(b.subrange(0, 16)),
        item: spec_u128_from_le_bytes(b.subrange(16, 32)),
    }
}

/// Serializes an id to its 32-byte record.
pub fn encode_id(id: &InstanceId) -> (r: Vec<u8>)
    ensures
        r@ == id_record(*id),
        r@.len() == 32,
{
    let mut r = u128_to_le_bytes(id.group);
    let mut t = u128_to_le_bytes(id.item);
    r.append(&mut t);
    proof {
        lemma_auto_spec_u128_to_from_le_bytes();
    }
    r
}

/// Decodes a stored record; anything but exactly 32 bytes is a corrupt entry.
pub fn decode_record(b: &Vec<u8>) -> (r: Result<InstanceId, RollError>)
    ensures
        b@.len() == 32 ==> r == Ok::<InstanceId, RollError>(record_id(b@)),
        b@.len() != 32 ==> r == Err::<InstanceId, RollError>(RollError::CorruptEntry),
{
    if b.len() != 32 {
        return Err(RollError::CorruptEntry);
    }
    let group_bytes = vstd::slice::slice_subrange(b.as_slice(), 0, 16);
    let item_bytes = vstd::slice::slice_subrange(b.as_slice(), 16, 32);
    let group = u128_from_le_bytes(group_bytes);
    let item = u128_from_le_bytes(item_bytes);
    Ok(InstanceId { group, item })
}

/// Encoding then decoding gives the id back.
pub proof fn lemma_record_of_id(id: InstanceId)
    ensures
        id_record(id).len() == 32,
        record_id(id_record(id)) == id,
{
    lemma_auto_spec_u128_to_from_le_bytes();
    assert(id_record(id).subrange(0, 16) =~= spec_u128_to_le_bytes(id.group));
    assert(id_record(id).subrange(16, 32) =~= spec_u128_to_le_bytes(id.item));
}

/// Decoding then encoding gives a well-formed record back byte for byte.
pub proof fn lemma_id_of_record(b: Seq<u8>)
    requires
        b.len() == 32,
    ensures
        id_record(record_id(b)) == b,
{
    lemma_auto_spec_u128_to_from_le_bytes();
    assert(id_record(record_id(b)) =~= b);
}

} // verus!
