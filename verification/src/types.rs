use vstd::prelude::*;
use crate::ids::InstanceId;

verus! {

/// One token movement: an instance id together with an amount.
#[derive(Clone, Copy, PartialEq, Eq, Structural, Debug)]
pub struct Transfer {
    pub id: InstanceId,
    pub value: u128,
}

/// Per-invocation immutable data the host hands to the core: the tokens
/// attached to the call and the raw bytes of the current block and of the
/// current transaction, as committed on chain.
#[derive(Debug)]
pub struct CallContext {
    pub incoming: Vec<Transfer>,
    pub block_bytes: Vec<u8>,
    pub tx_bytes: Vec<u8>,
}

/// What a call returns to the host: outgoing token movements and a payload.
#[derive(Debug)]
pub struct CallResponse {
    pub transfers: Vec<Transfer>,
    pub data: Vec<u8>,
}

/// Ghost shape of a response, for contracts.
#[verifier::ext_equal]
pub ghost struct ReplyModel {
    pub transfers: Seq<Transfer>,
    pub data: Seq<u8>,
}

impl CallResponse {
    /// The ghost shape of this response.
    pub open spec fn model(self) -> ReplyModel {
        ReplyModel { transfers: self.transfers@, data: self.data@ }
    }

    /// The shape of an empty response.
    pub open spec fn empty_reply() -> ReplyModel {
        ReplyModel { transfers: Seq::empty(), data: Seq::empty() }
    }

    /// The shape of a response that forwards `incoming` with payload `data`.
    pub open spec fn reply(incoming: Seq<Transfer>, data: Seq<u8>) -> ReplyModel {
        ReplyModel { transfers: incoming, data: data }
    }

    /// An empty response: no transfers, no payload.
    pub fn new_empty() -> (r: Self)
        ensures
            r.model() == Self::empty_reply(),
    {
        let r = CallResponse { transfers: Vec::new(), data: Vec::new() };
        proof {
            assert(r.model() =~= Self::empty_reply());
        }
        r
    }

    /// A response that forwards the attached tokens unchanged, with no payload.
    pub fn forward(incoming: &Vec<Transfer>) -> (r: Self)
        ensures
            r.model() == Self::reply(incoming@, Seq::empty()),
    {
        let n = incoming.len();
        let mut transfers: Vec<Transfer> = Vec::new();
        let mut i: usize = 0;
        while i < n
            invariant
                n == incoming@.len(),
                0 <= i <= n,
                transfers@ =~= incoming@.take(i as int),
            decreases n - i,
        {
            transfers.push(incoming[i]);
            i += 1;
        }
        let r = CallResponse { transfers, data: Vec::new() };
        proof {
            assert(r.transfers@ =~= incoming@);
            assert(r.model() =~= Self::reply(incoming@, Seq::empty()));
        }
        r
    }
}

/// The ghost value of a `Result` of a call: the response reduced to its shape,
/// the error kept as it is.
pub open spec fn result_model(r: Result<CallResponse, crate::errors::RollError>) -> Result<
    ReplyModel,
    crate::errors::RollError,
> {
    match r {
        Ok(resp) => Ok(resp.model()),
        Err(e) => Err(e),
    }
}

} // verus!
