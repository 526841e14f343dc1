use vstd::prelude::*;

verus! {

/// Whether `raw` consensus-decodes to a block; a function of the bytes alone.
pub uninterp spec fn block_decodes(raw: Seq<u8>) -> bool;

/// The 32-byte hash of the block that `raw` consensus-encodes; a function of
/// the bytes alone.
pub uninterp spec fn block_hash_of(raw: Seq<u8>) -> Seq<u8>;

/// Whether `raw` consensus-decodes to a transaction; a function of the bytes
/// alone.
pub uninterp spec fn tx_decodes(raw: Seq<u8>) -> bool;

/// The 32-byte id of the transaction that `raw` consensus-encodes; a function
/// of the bytes alone.
pub uninterp spec fn txid_of(raw: Seq<u8>) -> Seq<u8>;

/// The UTF-8 JSON array listing the given byte strings in order, each decoded
/// as UTF-8 and quoted with JSON escaping; a function of the byte strings
/// alone.
pub uninterp spec fn json_of(items: Seq<Seq<u8>>) -> Seq<u8>;

/// Relies on bitcoin's consensus decoding of a `Block` and on
/// `Header::block_hash`: decoding succeeds or fails on the raw bytes alone,
/// and the hash is a 32-byte function of them.
#[verifier::external_body]
pub(crate) fn decode_block_hash(raw: &Vec<u8>) -> (r: Option<Vec<u8>>)
    ensures
        r is Some <==> block_decodes(raw@),
        r matches Some(h) ==> h@ == block_hash_of(raw@) && h@.len() == 32,
{
    match bitcoin::consensus::encode::deserialize::<bitcoin::Block>(raw.as_slice()) {
        Ok(block) => {
            let h = block.block_hash();
            Some(<bitcoin::BlockHash as bitcoin::hashes::Hash>::as_byte_array(&h).to_vec())
        },
        Err(_) => None,
    }
}

/// Relies on bitcoin's consensus decoding of a `Transaction` and on
/// `Transaction::compute_txid`: decoding succeeds or fails on the raw bytes
/// alone, and the id is a 32-byte function of them.
#[verifier::external_body]
pub(crate) fn decode_txid(raw: &Vec<u8>) -> (r: Option<Vec<u8>>)
    ensures
        r is Some <==> tx_decodes(raw@),
        r matches Some(t) ==> t@ == txid_of(raw@) && t@.len() == 32,
{
    match bitcoin::consensus::encode::deserialize::<bitcoin::Transaction>(raw.as_slice()) {
        Ok(tx) => {
            let t = tx.compute_txid();
            Some(<bitcoin::Txid as bitcoin::hashes::Hash>::as_byte_array(&t).to_vec())
        },
        Err(_) => None,
    }
}

/// Relies on serde_json::to_string on a vector of strings. On a vector of
/// strings the encoder cannot fail — its errors arise only from a fallible
/// `Serialize` impl or a non-string map key — so the JSON text is owed
/// outright, and it is a function of the items alone (each decoded as UTF-8,
/// losslessly for the ASCII labels this crate builds).
#[verifier::external_body]
pub(crate) fn json_string_array(items: &Vec<Vec<u8>>) -> (r: Vec<u8>)
    ensures
        r@ == json_of(items@.map_values(|v: Vec<u8>| v@)),
{
    let mut strings: Vec<String> = Vec::new();
    for item in items.iter() {
        strings.push(String::from_utf8_lossy(item).into_owned());
    }
    match serde_json::to_string(&strings) {
        Ok(s) => s.into_bytes(),
        Err(_) => Vec::new(),
    }
}

} // verus!
