use vstd::prelude::*;
use crate::engine::all_valid;
use crate::engine::deposit_model;
use crate::engine::push_all_model;
use crate::engine::roll_model;
use crate::engine::spec_multiplier;
use crate::errors::RollError;
use crate::ids::InstanceId;
use crate::ids::id_record;
use crate::ids::record_id;
use crate::ids::valid_panda;
use crate::ids::lemma_record_of_id;
use crate::state::StoreModel;
use crate::state::push_model;
use crate::state::pop_model;
use crate::state::top_record;
use crate::types::ReplyModel;
use crate::types::Transfer;

verus! {

/// A batch of pushes adds exactly its length to the count, writes the records
/// in order above the old count, and touches neither the slots at or below the
/// old count nor the replay set.
pub proof fn lemma_push_all_props(m: StoreModel, s: Seq<Transfer>)
    requires
        m.count + s.len() <= u128::MAX,
    ensures
        push_all_model(m, s).count == m.count + s.len(),
        push_all_model(m, s).initialized == m.initialized,
        push_all_model(m, s).seen == m.seen,
        forall|k: int|
            0 <= k < s.len() ==> push_all_model(m, s).slots[(m.count + k + 1) as u128]
                == id_record(s[k].id),
        forall|j: u128|
            (j <= m.count || j > m.count + s.len()) ==> push_all_model(m, s).slots[j]
                == m.slots[j],
    decreases s.len(),
{
    if s.len() > 0 {
        let m1 = push_model(m, s[0].id);
        lemma_push_all_props(m1, s.drop_first());
        assert forall|k: int|
            0 <= k < s.len() implies push_all_model(m, s).slots[(m.count + k + 1) as u128]
            == id_record(s[k].id) by {
            if k == 0 {
                assert(m1.slots[(m.count + 1) as u128] == id_record(s[0].id));
            } else {
                assert(s.drop_first()[k - 1] == s[k]);
                assert((m1.count + (k - 1) + 1) as u128 == (m.count + k + 1) as u128);
            }
        }
        assert forall|j: u128|
            (j <= m.count || j > m.count + s.len()) implies push_all_model(m, s).slots[j]
            == m.slots[j] by {
            assert(push_all_model(m1, s.drop_first()).slots[j] == m1.slots[j]);
            assert(m1.slots[j] == m.slots[j]);
        }
    }
}

/// Law: a sequence of successful deposits grows the count by exactly the
/// number of deposited tokens and lays their records down in deposit order,
/// leaving everything below the old count and the replay set untouched.
pub proof fn lemma_deposit_order(m: StoreModel, incoming: Seq<Transfer>)
    requires
        all_valid(incoming),
        m.count + incoming.len() <= u128::MAX,
    ensures
        deposit_model(m, incoming).reply is Ok,
        deposit_model(m, incoming).store.count == m.count + incoming.len(),
        forall|k: int|
            0 <= k < incoming.len() ==> deposit_model(m, incoming).store.slots[(m.count + k
                + 1) as u128] == id_record(incoming[k].id),
        forall|j: u128| j <= m.count ==> deposit_model(m, incoming).store.slots[j] == m.slots[j],
        deposit_model(m, incoming).store.seen == m.seen,
{
    lemma_push_all_props(m, incoming);
}

/// Law: popping right after a push returns exactly the pushed id and restores
/// the prior count, leaving every slot at or below that count, and the replay
/// set, unchanged.
pub proof fn lemma_pop_after_push(m: StoreModel, id: InstanceId)
    requires
        m.count < u128::MAX,
    ensures
        top_record(push_model(m, id)).len() == 32,
        record_id(top_record(push_model(m, id))) == id,
        pop_model(push_model(m, id)).count == m.count,
        pop_model(push_model(m, id)).seen == m.seen,
        forall|j: u128| j <= m.count ==> pop_model(push_model(m, id)).slots[j] == m.slots[j],
{
    lemma_record_of_id(id);
}

/// Law: a push writes only above the current count, so every logical position
/// below it reads back unchanged.
pub proof fn lemma_push_preserves_lookup(m: StoreModel, id: InstanceId, i: u128)
    requires
        m.count < u128::MAX,
        i < m.count,
    ensures
        push_model(m, id).slots[(i + 1) as u128] == m.slots[(i + 1) as u128],
{
}

/// Law: a pop blanks only the top slot, so every logical position below the
/// new count reads back unchanged.
pub proof fn lemma_pop_preserves_lookup(m: StoreModel, i: u128)
    requires
        m.count > 0,
        i + 1 < m.count,
    ensures
        pop_model(m).slots[(i + 1) as u128] == m.slots[(i + 1) as u128],
{
}

/// Law: the id pushed at logical position `count` reads back from exactly that
/// position.
pub proof fn lemma_lookup_after_push(m: StoreModel, id: InstanceId)
    requires
        m.count < u128::MAX,
    ensures
        push_model(m, id).slots[(m.count + 1) as u128] == id_record(id),
        record_id(push_model(m, id).slots[(m.count + 1) as u128]) == id,
{
    lemma_record_of_id(id);
}

/// Law: one successful roll permanently consumes its transaction id — any
/// later roll with the same id fails with `DuplicateTransaction` and changes
/// nothing, whatever tokens come with it and whatever block it lands in.
pub proof fn lemma_roll_replay_protected(
    m: StoreModel,
    incoming1: Seq<Transfer>,
    incoming2: Seq<Transfer>,
    txid: Seq<u8>,
    bh1: Seq<u8>,
    bh2: Seq<u8>,
)
    requires
        roll_model(m, incoming1, txid, bh1).reply is Ok,
    ensures
        roll_model(m, incoming1, txid, bh1).store.seen.contains(txid),
        roll_model(roll_model(m, incoming1, txid, bh1).store, incoming2, txid, bh2).reply
            == Err::<ReplyModel, RollError>(RollError::DuplicateTransaction),
        roll_model(roll_model(m, incoming1, txid, bh1).store, incoming2, txid, bh2).store
            == roll_model(m, incoming1, txid, bh1).store,
{
}

/// Law: a roll with a token count other than one mutates nothing; on a
/// transaction not yet consumed it fails with `WrongAssetCount` (on one
/// already consumed the replay check fires first).
pub proof fn lemma_roll_wrong_count(
    m: StoreModel,
    incoming: Seq<Transfer>,
    txid: Seq<u8>,
    bh: Seq<u8>,
)
    requires
        incoming.len() != 1,
    ensures
        roll_model(m, incoming, txid, bh).store == m,
        !m.seen.contains(txid) ==> roll_model(m, incoming, txid, bh).reply == Err::<
            ReplyModel,
            RollError,
        >(RollError::WrongAssetCount),
        m.seen.contains(txid) ==> roll_model(m, incoming, txid, bh).reply == Err::<
            ReplyModel,
            RollError,
        >(RollError::DuplicateTransaction),
{
}

/// Law: a roll on an empty pool mutates nothing and, past the earlier checks,
/// fails with `PoolEmpty`.
pub proof fn lemma_roll_empty_pool(
    m: StoreModel,
    incoming: Seq<Transfer>,
    txid: Seq<u8>,
    bh: Seq<u8>,
)
    requires
        m.count == 0,
        !m.seen.contains(txid),
        incoming.len() == 1,
        valid_panda(incoming[0].id),
    ensures
        roll_model(m, incoming, txid, bh).reply == Err::<ReplyModel, RollError>(
            RollError::PoolEmpty,
        ),
        roll_model(m, incoming, txid, bh).store == m,
{
}

/// Law: where the four checks pass, the counter is below its maximum and the
/// top record is well-formed, a roll always succeeds and marks its
/// transaction id — on a win and on a loss alike — so any later roll with the
/// same id is rejected.
pub proof fn lemma_roll_marks_transaction(
    m: StoreModel,
    incoming: Seq<Transfer>,
    txid: Seq<u8>,
    bh: Seq<u8>,
)
    requires
        !m.seen.contains(txid),
        incoming.len() == 1,
        valid_panda(incoming[0].id),
        m.count > 0,
        m.count < u128::MAX,
        top_record(m).len() == 32,
    ensures
        roll_model(m, incoming, txid, bh).reply is Ok,
        roll_model(m, incoming, txid, bh).store.seen.contains(txid),
{
}

/// Law: the outcome is a win exactly where the mod-256 sum of the block hash's
/// last byte and the transaction id's last byte reaches 141.
pub proof fn lemma_win_boundary(b1: u8, b2: u8)
    ensures
        (spec_multiplier(b1, b2) == 2) <==> ((b1 + b2) % 256 >= 141),
        (spec_multiplier(b1, b2) == 0) <==> ((b1 + b2) % 256 < 141),
{
}

} // verus!
