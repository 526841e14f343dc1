use vstd::prelude::*;
use vstd::bytes::spec_u128_to_le_bytes;
use vstd::bytes::u128_to_le_bytes;
use vstd::string::StringSliceAdditionalSpecFns;
use crate::codec::label_of;
use crate::codec::id_label;
use crate::errors::RollError;
use crate::host::block_decodes;
use crate::host::block_hash_of;
use crate::host::tx_decodes;
use crate::host::txid_of;
use crate::host::json_of;
use crate::host::decode_block_hash;
use crate::host::decode_txid;
use crate::host::json_string_array;
use crate::ids::InstanceId;
use crate::ids::valid_panda;
use crate::ids::is_allowed_item;
use crate::ids::record_id;
use crate::ids::lemma_id_of_record;
use crate::ids::PANDA_GROUP;
use crate::state::PandaRoll;
use crate::state::StoreModel;
use crate::state::push_model;
use crate::state::pop_model;
use crate::state::mark_model;
use crate::state::top_record;
use crate::types::CallContext;
use crate::types::CallResponse;
use crate::types::ReplyModel;
use crate::types::Transfer;
use crate::types::result_model;

verus! {

/// The display name of the contract.
pub open spec fn spec_name() -> Seq<char> {
    "Alkane Panda Roll"@
}

/// The display name of the contract, as UTF-8 bytes.
pub open spec fn spec_name_bytes() -> Seq<u8> {
    "Alkane Panda Roll".spec_bytes()
}

/// The ticker symbol of the contract.
pub open spec fn spec_symbol() -> Seq<char> {
    "alkane-panda-roll"@
}

/// The ticker symbol of the contract, as UTF-8 bytes.
pub open spec fn spec_symbol_bytes() -> Seq<u8> {
    "alkane-panda-roll".spec_bytes()
}

/// Mod-256 sum of the two outcome bytes.
pub open spec fn roll_byte(b1: u8, b2: u8) -> u8 {
    ((b1 + b2) % 256) as u8
}

/// The derived multiplier: 0 (loss) where the combined byte is below 141,
/// 2 (win) from 141 up.
pub open spec fn spec_multiplier(b1: u8, b2: u8) -> u8 {
    if roll_byte(b1, b2) < 141 {
        0
    } else {
        2
    }
}

/// The multiplier derived from the raw hashes: the last byte of each, combined
/// mod 256.
pub open spec fn multiplier_model(bh: Seq<u8>, txid: Seq<u8>) -> u8
    recommends
        bh.len() == 32,
        txid.len() == 32,
{
    spec_multiplier(bh[31], txid[31])
}

/// Whether every attached token passes the allow-list.
pub open spec fn all_valid(incoming: Seq<Transfer>) -> bool {
    forall|k: int| 0 <= k < incoming.len() ==> valid_panda(incoming[k].id)
}

/// A batch of pushes, first token first.
pub open spec fn push_all_model(m: StoreModel, incoming: Seq<Transfer>) -> StoreModel
    decreases incoming.len(),
{
    if incoming.len() == 0 {
        m
    } else {
        push_all_model(push_model(m, incoming[0].id), incoming.drop_first())
    }
}

/// Outcome of a deposit at the model level.
#[verifier::ext_equal]
pub ghost struct DepositOutcome {
    pub store: StoreModel,
    pub reply: Result<ReplyModel, RollError>,
}

/// A deposit validates every attached token against the allow-list, then
/// pushes them all, in order; it mutates nothing when any token is invalid or
/// the batch would overflow the counter.
pub open spec fn deposit_model(m: StoreModel, incoming: Seq<Transfer>) -> DepositOutcome {
    if !all_valid(incoming) {
        DepositOutcome { store: m, reply: Err(RollError::InvalidAsset) }
    } else if m.count > u128::MAX - incoming.len() {
        DepositOutcome { store: m, reply: Err(RollError::Overflow) }
    } else {
        DepositOutcome { store: push_all_model(m, incoming), reply: Ok(CallResponse::empty_reply()) }
    }
}

/// Outcome of a roll at the model level.
#[verifier::ext_equal]
pub ghost struct RollOutcome {
    pub store: StoreModel,
    pub reply: Result<ReplyModel, RollError>,
}

/// One roll, given the already-committed chain data: the replay check, the
/// single-token check, the allow-list check and the pool check, in that order,
/// each leaving the state untouched on failure; then the transaction is marked
/// and, on a loss, the attached token joins the pool while, on a win, the top
/// pool token is released to the caller as a transfer of amount 1.
pub open spec fn roll_model(
    m: StoreModel,
    incoming: Seq<Transfer>,
    txid: Seq<u8>,
    bh: Seq<u8>,
) -> RollOutcome
    recommends
        txid.len() == 32,
        bh.len() == 32,
{
    if m.seen.contains(txid) {
        RollOutcome { store: m, reply: Err(RollError::DuplicateTransaction) }
    } else if incoming.len() != 1 {
        RollOutcome { store: m, reply: Err(RollError::WrongAssetCount) }
    } else if !valid_panda(incoming[0].id) {
        RollOutcome { store: m, reply: Err(RollError::InvalidAsset) }
    } else if m.count == 0 {
        RollOutcome { store: m, reply: Err(RollError::PoolEmpty) }
    } else if multiplier_model(bh, txid) == 0 {
        if m.count == u128::MAX {
            RollOutcome { store: m, reply: Err(RollError::Overflow) }
        } else {
            RollOutcome {
                store: push_model(mark_model(m, txid), incoming[0].id),
                reply: Ok(CallResponse::empty_reply()),
            }
        }
    } else {
        if top_record(m).len() != 32 {
            RollOutcome { store: m, reply: Err(RollError::CorruptEntry) }
        } else {
            RollOutcome {
                store: pop_model(mark_model(m, txid)),
                reply: Ok(
                    ReplyModel {
                        transfers: seq![Transfer { id: record_id(top_record(m)), value: 1 }],
                        data: Seq::empty(),
                    },
                ),
            }
        }
    }
}

/// Concatenation of the records of the first `n` stack slots, in ascending
/// slot order.
pub open spec fn stack_bytes(m: StoreModel, n: int) -> Seq<u8>
    decreases n,
{
    if n <= 0 {
        Seq::empty()
    } else {
        stack_bytes(m, n - 1) + m.slots[n as u128]
    }
}

/// The "group:item" labels of the records of the first `n` stack slots, in
/// ascending slot order.
pub open spec fn stack_labels(m: StoreModel, n: int) -> Seq<Seq<u8>>
    decreases n,
{
    if n <= 0 {
        Seq::empty()
    } else {
        stack_labels(m, n - 1).push(label_of(record_id(m.slots[n as u128])))
    }
}

/// Whether the first `n` stack slots all hold 32-byte records.
pub open spec fn stack_wf(m: StoreModel, n: int) -> bool {
    forall|i: int| 1 <= i <= n ==> (#[trigger] m.slots[i as u128]).len() == 32
}

/// The combined multiplier: exactly 0 below the 141 boundary, 2 at it and
/// above.
pub fn multiplier_from_bytes(b1: u8, b2: u8) -> (m: u8)
    ensures
        m == spec_multiplier(b1, b2),
{
    let v = ((b1 as u16) + (b2 as u16)) % 256;
    if v < 141 {
        0
    } else {
        2
    }
}

impl PandaRoll {
    /// Whether an id is a recognized member of the collection.
    pub fn is_valid_panda(&self, id: &InstanceId) -> (r: bool)
        ensures
            r == valid_panda(*id),
    {
        id.group == PANDA_GROUP && is_allowed_item(id.item)
    }

    /// The contract display name.
    pub fn name(&self) -> (r: String)
        ensures
            r@ == spec_name(),
    {
        String::from_str("Alkane Panda Roll")
    }

    /// The contract ticker symbol.
    pub fn symbol(&self) -> (r: String)
        ensures
            r@ == spec_symbol(),
    {
        String::from_str("alkane-panda-roll")
    }

    /// The hash of the current block, decoded from the raw bytes in the call
    /// context; owed exactly where the bytes decode.
    pub fn block_hash(&self, ctx: &CallContext) -> (r: Result<Vec<u8>, RollError>)
        ensures
            r is Ok <==> block_decodes(ctx.block_bytes@),
            r matches Ok(h) ==> h@ == block_hash_of(ctx.block_bytes@) && h@.len() == 32,
            r matches Err(e) ==> e == RollError::MalformedBlock,
    {
        match decode_block_hash(&ctx.block_bytes) {
            Some(h) => Ok(h),
            None => Err(RollError::MalformedBlock),
        }
    }

    /// The id of the current transaction, decoded from the raw bytes in the
    /// call context; owed exactly where the bytes decode.
    pub fn transaction_id(&self, ctx: &CallContext) -> (r: Result<Vec<u8>, RollError>)
        ensures
            r is Ok <==> tx_decodes(ctx.tx_bytes@),
            r matches Ok(t) ==> t@ == txid_of(ctx.tx_bytes@) && t@.len() == 32,
            r matches Err(e) ==> e == RollError::MalformedTransaction,
    {
        match decode_txid(&ctx.tx_bytes) {
            Some(t) => Ok(t),
            None => Err(RollError::MalformedTransaction),
        }
    }

    /// The multiplier for this call: the last byte of the block hash plus the
    /// last byte of the transaction id, mod 256, mapped to 0 below 141 and to
    /// 2 otherwise.
    pub fn calculate_random_multiplier(&self, ctx: &CallContext) -> (r: Result<u8, RollError>)
        ensures
            !block_decodes(ctx.block_bytes@) ==> r == Err::<u8, RollError>(
                RollError::MalformedBlock,
            ),
            block_decodes(ctx.block_bytes@) && !tx_decodes(ctx.tx_bytes@) ==> r == Err::<
                u8,
                RollError,
            >(RollError::MalformedTransaction),
            block_decodes(ctx.block_bytes@) && tx_decodes(ctx.tx_bytes@) ==> r == Ok::<
                u8,
                RollError,
            >(multiplier_model(block_hash_of(ctx.block_bytes@), txid_of(ctx.tx_bytes@))),
    {
        let bh = match self.block_hash(ctx) {
            Ok(h) => h,
            Err(e) => {
                return Err(e);
            },
        };
        let tx = match self.transaction_id(ctx) {
            Ok(t) => t,
            Err(e) => {
                return Err(e);
            },
        };
        Ok(multiplier_from_bytes(bh[31], tx[31]))
    }

    /// One-time setup: flips the initialization flag and forwards any attached
    /// tokens back to the caller unchanged.
    pub fn initialize(&mut self, ctx: &CallContext) -> (r: Result<CallResponse, RollError>)
        ensures
            old(self).model().initialized ==> r == Err::<CallResponse, RollError>(
                RollError::AlreadyInitialized,
            ) && final(self).model() == old(self).model(),
            !old(self).model().initialized ==> final(self).model() == crate::state::init_model(
                old(self).model(),
            ) && result_model(r) == Ok::<ReplyModel, RollError>(
                CallResponse::reply(ctx.incoming@, Seq::empty()),
            ),
    {
        match self.observe_initialization() {
            Err(e) => Err(e),
            Ok(()) => Ok(CallResponse::forward(&ctx.incoming)),
        }
    }

    /// Forwards the attached tokens and returns the display name as bytes.
    pub fn get_name(&self, ctx: &CallContext) -> (r: CallResponse)
        ensures
            r.model() == CallResponse::reply(ctx.incoming@, spec_name_bytes()),
    {
        let mut r = CallResponse::forward(&ctx.incoming);
        r.data = "Alkane Panda Roll".as_bytes_vec();
        proof {
            assert(r.model() =~= CallResponse::reply(ctx.incoming@, spec_name_bytes()));
        }
        r
    }

    /// Forwards the attached tokens and returns the ticker symbol as bytes.
    pub fn get_symbol(&self, ctx: &CallContext) -> (r: CallResponse)
        ensures
            r.model() == CallResponse::reply(ctx.incoming@, spec_symbol_bytes()),
    {
        let mut r = CallResponse::forward(&ctx.incoming);
        r.data = "alkane-panda-roll".as_bytes_vec();
        proof {
            assert(r.model() =~= CallResponse::reply(ctx.incoming@, spec_symbol_bytes()));
        }
        r
    }

    /// Consumes every attached token into the pool: validates them all against
    /// the allow-list first, then pushes them in order. On any failure nothing
    /// is mutated.
    pub fn deposit(&mut self, ctx: &CallContext) -> (r: Result<CallResponse, RollError>)
        ensures
            final(self).model() == deposit_model(old(self).model(), ctx.incoming@).store,
            result_model(r) == deposit_model(old(self).model(), ctx.incoming@).reply,
    {
        let n = ctx.incoming.len();
        let mut i: usize = 0;
        while i < n
            invariant
                n == ctx.incoming@.len(),
                0 <= i <= n,
                forall|k: int| 0 <= k < i ==> valid_panda(ctx.incoming@[k].id),
            decreases n - i,
        {
            let id = ctx.incoming[i].id;
            if !self.is_valid_panda(&id) {
                proof {
                    assert(!all_valid(ctx.incoming@));
                }
                return Err(RollError::InvalidAsset);
            }
            i += 1;
        }
        proof {
            assert(all_valid(ctx.incoming@));
        }
        let count = self.instances_count();
        if count > u128::MAX - (n as u128) {
            return Err(RollError::Overflow);
        }
        let ghost m0 = old(self).model();
        let mut j: usize = 0;
        proof {
            assert(ctx.incoming@.take(0) =~= Seq::<Transfer>::empty());
        }
        while j < n
            invariant
                n == ctx.incoming@.len(),
                0 <= j <= n,
                all_valid(ctx.incoming@),
                m0.count + n <= u128::MAX,
                self.model() == push_all_model(m0, ctx.incoming@.take(j as int)),
                self.model().count == m0.count + j,
            decreases n - j,
        {
            let id = ctx.incoming[j].id;
            match self.add_instance(&id) {
                Ok(_) => {},
                Err(e) => {
                    proof {
                        assert(false);
                    }
                    return Err(e);
                },
            }
            proof {
                assert(ctx.incoming@.take(j + 1) =~= ctx.incoming@.take(j as int).push(
                    ctx.incoming@[j as int],
                ));
                lemma_push_all_snoc(m0, ctx.incoming@.take(j as int), ctx.incoming@[j as int]);
            }
            j += 1;
        }
        proof {
            assert(ctx.incoming@.take(n as int) =~= ctx.incoming@);
        }
        Ok(CallResponse::new_empty())
    }

    /// One roll, with the transaction id and block hash already decoded.
    /// `roll_model` gives the exact outcome; no failure mutates anything.
    pub fn roll_decoded(
        &mut self,
        incoming: &Vec<Transfer>,
        txid: &Vec<u8>,
        block_hash: &Vec<u8>,
    ) -> (r: Result<CallResponse, RollError>)
        requires
            txid@.len() == 32,
            block_hash@.len() == 32,
        ensures
            final(self).model() == roll_model(
                old(self).model(),
                incoming@,
                txid@,
                block_hash@,
            ).store,
            result_model(r) == roll_model(old(self).model(), incoming@, txid@, block_hash@).reply,
    {
        if self.has_tx_hash(txid) {
            return Err(RollError::DuplicateTransaction);
        }
        if incoming.len() != 1 {
            return Err(RollError::WrongAssetCount);
        }
        let attached = incoming[0];
        if !self.is_valid_panda(&attached.id) {
            return Err(RollError::InvalidAsset);
        }
        let count = self.instances_count();
        if count == 0 {
            return Err(RollError::PoolEmpty);
        }
        let multiplier = multiplier_from_bytes(block_hash[31], txid[31]);
        if multiplier == 0 {
            if count == u128::MAX {
                return Err(RollError::Overflow);
            }
            self.add_tx_hash(txid);
            match self.add_instance(&attached.id) {
                Ok(_) => {},
                Err(e) => {
                    proof {
                        assert(false);
                    }
                    return Err(e);
                },
            }
            return Ok(CallResponse::new_empty());
        }
        proof {
            assert(((count - 1) + 1) as u128 == count);
        }
        match self.lookup_instance(count - 1) {
            Err(e) => {
                return Err(e);
            },
            Ok(_) => {},
        }
        self.add_tx_hash(txid);
        match self.pop_instance() {
            Ok(popped) => {
                let mut resp = CallResponse::new_empty();
                resp.transfers.push(Transfer { id: popped, value: 1 });
                proof {
                    let o = roll_model(old(self).model(), incoming@, txid@, block_hash@);
                    assert(resp.transfers@ =~= seq![
                        Transfer { id: record_id(top_record(old(self).model())), value: 1 },
                    ]);
                    assert(result_model(Ok::<CallResponse, RollError>(resp)) == o.reply);
                }
                Ok(resp)
            },
            Err(e) => {
                proof {
                    assert(false);
                }
                Err(e)
            },
        }
    }

    /// One roll against the raw chain data in the call context: decodes the
    /// transaction id and the block hash, then proceeds exactly as
    /// `roll_model` says; undecodable chain data is rejected before any
    /// mutation.
    pub fn roll(&mut self, ctx: &CallContext) -> (r: Result<CallResponse, RollError>)
        ensures
            !tx_decodes(ctx.tx_bytes@) ==> r == Err::<CallResponse, RollError>(
                RollError::MalformedTransaction,
            ) && final(self).model() == old(self).model(),
            tx_decodes(ctx.tx_bytes@) && !block_decodes(ctx.block_bytes@) ==> r == Err::<
                CallResponse,
                RollError,
            >(RollError::MalformedBlock) && final(self).model() == old(self).model(),
            tx_decodes(ctx.tx_bytes@) && block_decodes(ctx.block_bytes@) ==> final(self).model()
                == roll_model(
                old(self).model(),
                ctx.incoming@,
                txid_of(ctx.tx_bytes@),
                block_hash_of(ctx.block_bytes@),
            ).store && result_model(r) == roll_model(
                old(self).model(),
                ctx.incoming@,
                txid_of(ctx.tx_bytes@),
                block_hash_of(ctx.block_bytes@),
            ).reply,
    {
        let txid = match self.transaction_id(ctx) {
            Ok(t) => t,
            Err(e) => {
                return Err(e);
            },
        };
        let bh = match self.block_hash(ctx) {
            Ok(h) => h,
            Err(e) => {
                return Err(e);
            },
        };
        self.roll_decoded(&ctx.incoming, &txid, &bh)
    }

    /// Forwards the attached tokens and returns the pool size as 16
    /// little-endian bytes.
    pub fn get_panda_stack_count(&self, ctx: &CallContext) -> (r: CallResponse)
        ensures
            r.model() == CallResponse::reply(
                ctx.incoming@,
                spec_u128_to_le_bytes(self.model().count),
            ),
    {
        let mut r = CallResponse::forward(&ctx.incoming);
        r.data = u128_to_le_bytes(self.instances_count());
        proof {
            assert(r.model() =~= CallResponse::reply(
                ctx.incoming@,
                spec_u128_to_le_bytes(self.model().count),
            ));
        }
        r
    }

    /// Forwards the attached tokens and returns the concatenated 32-byte
    /// records of the whole stack, in ascending index order. Fails with
    /// `CorruptEntry` exactly where some slot within the count is malformed.
    pub fn get_panda_stack(&self, ctx: &CallContext) -> (r: Result<CallResponse, RollError>)
        ensures
            stack_wf(self.model(), self.model().count as int) ==> (r matches Ok(resp)
                && resp.model() == CallResponse::reply(
                ctx.incoming@,
                stack_bytes(self.model(), self.model().count as int),
            )),
            !stack_wf(self.model(), self.model().count as int) ==> r == Err::<
                CallResponse,
                RollError,
            >(RollError::CorruptEntry),
    {
        let count = self.instances_count();
        let mut data: Vec<u8> = Vec::new();
        let mut i: u128 = 0;
        while i < count
            invariant
                count == self.model().count,
                0 <= i <= count,
                stack_wf(self.model(), i as int),
                data@ == stack_bytes(self.model(), i as int),
            decreases count - i,
        {
            match self.lookup_instance(i) {
                Err(e) => {
                    proof {
                        assert(self.model().slots[(i + 1) as u128].len() != 32);
                        assert(!stack_wf(self.model(), count as int));
                    }
                    return Err(e);
                },
                Ok(id) => {
                    let mut rec = crate::ids::encode_id(&id);
                    data.append(&mut rec);
                    proof {
                        lemma_id_of_record(self.model().slots[(i + 1) as u128]);
                        assert(data@ =~= stack_bytes(self.model(), i + 1));
                    }
                },
            }
            i += 1;
        }
        let mut r = CallResponse::forward(&ctx.incoming);
        r.data = data;
        proof {
            assert(r.model() =~= CallResponse::reply(
                ctx.incoming@,
                stack_bytes(self.model(), count as int),
            ));
        }
        Ok(r)
    }

    /// Forwards the attached tokens and returns the stack as a UTF-8 JSON
    /// array of "group:item" strings, in ascending index order; owed outright
    /// on a well-formed stack.
    pub fn get_panda_stack_json(&self, ctx: &CallContext) -> (r: Result<CallResponse, RollError>)
        ensures
            stack_wf(self.model(), self.model().count as int) ==> (r matches Ok(resp)
                && resp.model() == CallResponse::reply(
                ctx.incoming@,
                json_of(stack_labels(self.model(), self.model().count as int)),
            )),
            !stack_wf(self.model(), self.model().count as int) ==> r == Err::<
                CallResponse,
                RollError,
            >(RollError::CorruptEntry),
    {
        let count = self.instances_count();
        let mut labels: Vec<Vec<u8>> = Vec::new();
        let mut i: u128 = 0;
        proof {
            assert(labels@.map_values(|v: Vec<u8>| v@) =~= stack_labels(self.model(), 0));
        }
        while i < count
            invariant
                count == self.model().count,
                0 <= i <= count,
                stack_wf(self.model(), i as int),
                labels@.map_values(|v: Vec<u8>| v@) == stack_labels(self.model(), i as int),
            decreases count - i,
        {
            match self.lookup_instance(i) {
                Err(e) => {
                    proof {
                        assert(self.model().slots[(i + 1) as u128].len() != 32);
                        assert(!stack_wf(self.model(), count as int));
                    }
                    return Err(e);
                },
                Ok(id) => {
                    let lab = id_label(&id);
                    labels.push(lab);
                    proof {
                        assert(labels@.map_values(|v: Vec<u8>| v@) =~= stack_labels(
                            self.model(),
                            i + 1,
                        ));
                    }
                },
            }
            i += 1;
        }
        let mut r = CallResponse::forward(&ctx.incoming);
        r.data = json_string_array(&labels);
        proof {
            assert(r.model() =~= CallResponse::reply(
                ctx.incoming@,
                json_of(stack_labels(self.model(), count as int)),
            ));
        }
        Ok(r)
    }
}

/// Folding one more token into a batch of pushes comes to one more push.
proof fn lemma_push_all_snoc(m: StoreModel, s: Seq<Transfer>, t: Transfer)
    ensures
        push_all_model(m, s.push(t)) == push_model(push_all_model(m, s), t.id),
    decreases s.len(),
{
    if s.len() == 0 {
        assert(s.push(t)[0] == t);
        assert(s.push(t).drop_first() =~= Seq::<Transfer>::empty());
        assert(push_all_model(m, s.push(t)) == push_all_model(
            push_model(m, t.id),
            Seq::<Transfer>::empty(),
        ));
        assert(push_all_model(push_model(m, t.id), Seq::<Transfer>::empty()) == push_model(
            m,
            t.id,
        ));
        assert(push_all_model(m, s) == m);
    } else {
        assert(s.push(t)[0] == s[0]);
        assert(s.push(t).drop_first() =~= s.drop_first().push(t));
        assert(push_all_model(m, s.push(t)) == push_all_model(
            push_model(m, s[0].id),
            s.drop_first().push(t),
        ));
        lemma_push_all_snoc(push_model(m, s[0].id), s.drop_first(), t);
        assert(push_all_model(m, s) == push_all_model(push_model(m, s[0].id), s.drop_first()));
    }
}

} // verus!
