use vstd::prelude::*;
use crate::errors::RollError;
use crate::ids::InstanceId;
use crate::ids::id_record;
use crate::ids::record_id;
use crate::ids::encode_id;
use crate::ids::decode_record;
use crate::store::SlotTable;
use crate::store::TxSet;

verus! {

/// Abstract value of the whole persistent state: the one-time initialization
/// flag, the stack counter, the record each physical slot holds (1-based; a
/// slot never written holds the empty byte string), and the set of consumed
/// transaction ids.
#[verifier::ext_equal]
pub ghost struct StoreModel {
    pub initialized: bool,
    pub count: u128,
    pub slots: Map<u128, Seq<u8>>,
    pub seen: Set<Seq<u8>>,
}

/// The state a fresh contract starts from.
pub open spec fn fresh_model() -> StoreModel {
    StoreModel {
        initialized: false,
        count: 0,
        slots: Map::new(|k: u128| true, |k: u128| Seq::empty()),
        seen: Set::empty(),
    }
}

/// Effect of a push: the record of `id` is written to slot `count + 1` and the
/// counter moves up.
pub open spec fn push_model(m: StoreModel, id: InstanceId) -> StoreModel
    recommends
        m.count < u128::MAX,
{
    StoreModel {
        count: (m.count + 1) as u128,
        slots: m.slots.insert((m.count + 1) as u128, id_record(id)),
        ..m
    }
}

/// The record held by the top slot.
pub open spec fn top_record(m: StoreModel) -> Seq<u8> {
    m.slots[m.count]
}

/// Effect of a pop: the top slot is blanked (the key stays) and the counter
/// moves down.
pub open spec fn pop_model(m: StoreModel) -> StoreModel
    recommends
        m.count > 0,
{
    StoreModel { count: (m.count - 1) as u128, slots: m.slots.insert(m.count, Seq::empty()), ..m }
}

/// Effect of marking a transaction id as consumed.
pub open spec fn mark_model(m: StoreModel, t: Seq<u8>) -> StoreModel {
    StoreModel { seen: m.seen.insert(t), ..m }
}

/// Effect of overwriting the stack counter.
pub open spec fn set_count_model(m: StoreModel, c: u128) -> StoreModel {
    StoreModel { count: c, ..m }
}

/// Effect of the one-time initialization.
pub open spec fn init_model(m: StoreModel) -> StoreModel {
    StoreModel { initialized: true, ..m }
}

/// The persistent contract state. All mutation goes through the operations
/// below; the `model` spec function is the authoritative abstraction.
pub struct PandaRoll {
    initialized: bool,
    count: u128,
    slots: SlotTable,
    seen: TxSet,
}

impl PandaRoll {
    /// Abstraction of this state.
    pub closed spec fn model(self) -> StoreModel {
        StoreModel {
            initialized: self.initialized,
            count: self.count,
            slots: Map::new(|k: u128| true, |k: u128| self.slots.at(k)),
            seen: Set::new(|t: Seq<u8>| self.seen.has(t)),
        }
    }

    /// A fresh, uninitialized contract state with an empty pool.
    pub fn new() -> (r: Self)
        ensures
            r.model() == fresh_model(),
    {
        let r = PandaRoll {
            initialized: false,
            count: 0,
            slots: SlotTable::new(),
            seen: TxSet::new(),
        };
        proof {
            assert(r.model().slots =~= fresh_model().slots);
            assert(r.model().seen =~= fresh_model().seen);
            assert(r.model() =~= fresh_model());
        }
        r
    }

    /// The current size of the pool; 0 where the counter was never written.
    pub fn instances_count(&self) -> (r: u128)
        ensures
            r == self.model().count,
    {
        self.count
    }

    /// Overwrites the stack counter scalar, and nothing else.
    pub fn set_instances_count(&mut self, count: u128)
        ensures
            final(self).model() == set_count_model(old(self).model(), count),
    {
        self.count = count;
        proof {
            assert(self.model().slots =~= old(self).model().slots);
            assert(self.model().seen =~= old(self).model().seen);
            assert(self.model() =~= set_count_model(old(self).model(), count));
        }
    }

    /// Pushes one id: writes its 32-byte record to slot `count + 1`, then moves
    /// the counter up and returns it. Fails only when the counter is at its
    /// maximum, and then changes nothing.
    pub fn add_instance(&mut self, instance_id: &InstanceId) -> (r: Result<u128, RollError>)
        ensures
            old(self).model().count == u128::MAX ==> r == Err::<u128, RollError>(
                RollError::Overflow,
            ) && final(self).model() == old(self).model(),
            old(self).model().count < u128::MAX ==> r == Ok::<u128, RollError>(
                (old(self).model().count + 1) as u128,
            ) && final(self).model() == push_model(old(self).model(), *instance_id),
    {
        if self.count == u128::MAX {
            return Err(RollError::Overflow);
        }
        let new_count = self.count + 1;
        let bytes = encode_id(instance_id);
        self.slots.put(new_count, bytes);
        self.count = new_count;
        proof {
            let target = push_model(old(self).model(), *instance_id);
            assert forall|j: u128| #[trigger] self.model().slots[j] == target.slots[j] by {
                if j != new_count {
                    assert(self.slots.at(j) == old(self).slots.at(j));
                }
            }
            assert(self.model().slots =~= target.slots);
            assert(self.model().seen =~= target.seen);
            assert(self.model() =~= target);
        }
        Ok(new_count)
    }

    /// Reads the id at 0-based logical position `index` (physical slot
    /// `index + 1`). Fails with `CorruptEntry` exactly where that slot does not
    /// hold a 32-byte record.
    pub fn lookup_instance(&self, index: u128) -> (r: Result<InstanceId, RollError>)
        requires
            index < u128::MAX,
        ensures
            self.model().slots[(index + 1) as u128].len() == 32 ==> r == Ok::<
                InstanceId,
                RollError,
            >(record_id(self.model().slots[(index + 1) as u128])),
            self.model().slots[(index + 1) as u128].len() != 32 ==> r == Err::<
                InstanceId,
                RollError,
            >(RollError::CorruptEntry),
    {
        let bytes = self.slots.get(index + 1);
        proof {
            assert(self.model().slots[(index + 1) as u128] == self.slots.at((index + 1) as u128));
        }
        decode_record(&bytes)
    }

    /// Pops the top id: reads slot `count`, blanks it (the key remains, holding
    /// the empty byte string), and moves the counter down. Fails with
    /// `Underflow` on an empty stack and `CorruptEntry` on a bad record, and
    /// then changes nothing.
    pub fn pop_instance(&mut self) -> (r: Result<InstanceId, RollError>)
        ensures
            old(self).model().count == 0 ==> r == Err::<InstanceId, RollError>(
                RollError::Underflow,
            ) && final(self).model() == old(self).model(),
            old(self).model().count > 0 && top_record(old(self).model()).len() != 32 ==> r
                == Err::<InstanceId, RollError>(RollError::CorruptEntry) && final(self).model()
                == old(self).model(),
            old(self).model().count > 0 && top_record(old(self).model()).len() == 32 ==> r
                == Ok::<InstanceId, RollError>(record_id(top_record(old(self).model())))
                && final(self).model() == pop_model(old(self).model()),
    {
        let count = self.count;
        if count == 0 {
            return Err(RollError::Underflow);
        }
        proof {
            assert(((count - 1) + 1) as u128 == count);
        }
        match self.lookup_instance(count - 1) {
            Err(e) => Err(e),
            Ok(id) => {
                self.slots.put(count, Vec::new());
                self.count = count - 1;
                proof {
                    let target = pop_model(old(self).model());
                    assert forall|j: u128| #[trigger] self.model().slots[j] == target.slots[j] by {
                        if j != count {
                            assert(self.slots.at(j) == old(self).slots.at(j));
                        }
                    }
                    assert(self.model().slots =~= target.slots);
                    assert(self.model().seen =~= target.seen);
                    assert(self.model() =~= target);
                }
                Ok(id)
            },
        }
    }

    /// Whether the one-time initialization already ran.
    pub fn is_initialized(&self) -> (r: bool)
        ensures
            r == self.model().initialized,
    {
        self.initialized
    }

    /// Flips the initialization flag; fails, changing nothing, where it was
    /// already set.
    pub fn observe_initialization(&mut self) -> (r: Result<(), RollError>)
        ensures
            old(self).model().initialized ==> r == Err::<(), RollError>(
                RollError::AlreadyInitialized,
            ) && final(self).model() == old(self).model(),
            !old(self).model().initialized ==> r == Ok::<(), RollError>(()) && final(self).model()
                == init_model(old(self).model()),
    {
        if self.initialized {
            return Err(RollError::AlreadyInitialized);
        }
        self.initialized = true;
        proof {
            assert(self.model().slots =~= old(self).model().slots);
            assert(self.model().seen =~= old(self).model().seen);
            assert(self.model() =~= init_model(old(self).model()));
        }
        Ok(())
    }

    /// Whether this transaction id was already consumed by a roll.
    pub fn has_tx_hash(&self, txid: &Vec<u8>) -> (r: bool)
        ensures
            r == self.model().seen.contains(txid@),
    {
        self.seen.contains(txid)
    }

    /// Marks this transaction id as consumed.
    pub fn add_tx_hash(&mut self, txid: &Vec<u8>)
        ensures
            final(self).model() == mark_model(old(self).model(), txid@),
    {
        self.seen.insert(txid);
        proof {
            let target = mark_model(old(self).model(), txid@);
            assert(self.model().slots =~= target.slots);
            assert(self.model().seen =~= target.seen);
            assert(self.model() =~= target);
        }
    }
}

impl Default for PandaRoll {
    /// Same as `new`: a fresh, uninitialized state with an empty pool.
    fn default() -> (r: Self)
        ensures
            r.model() == fresh_model(),
    {
        PandaRoll::new()
    }
}

} // verus!
