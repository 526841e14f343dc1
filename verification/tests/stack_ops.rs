use panda_roll::InstanceId;
use panda_roll::PandaRoll;
use panda_roll::RollError;

fn id(group: u128, item: u128) -> InstanceId {
    InstanceId { group, item }
}

#[test]
fn fresh_pool_is_empty() {
    let p = PandaRoll::new();
    assert_eq!(p.instances_count(), 0);
    assert!(!p.is_initialized());
}

#[test]
fn push_pop_identity() {
    let mut p = PandaRoll::new();
    assert_eq!(p.add_instance(&id(2, 100)), Ok(1));
    assert_eq!(p.instances_count(), 1);
    let popped = p.pop_instance().unwrap();
    assert_eq!(popped, id(2, 100));
    assert_eq!(p.instances_count(), 0);
}

#[test]
fn lookup_returns_ids_in_push_order() {
    let mut p = PandaRoll::new();
    assert_eq!(p.add_instance(&id(2, 100)), Ok(1));
    assert_eq!(p.add_instance(&id(2, 101)), Ok(2));
    assert_eq!(p.add_instance(&id(2, 102)), Ok(3));
    assert_eq!(p.lookup_instance(0), Ok(id(2, 100)));
    assert_eq!(p.lookup_instance(1), Ok(id(2, 101)));
    assert_eq!(p.lookup_instance(2), Ok(id(2, 102)));
}

#[test]
fn lookup_survives_pops_and_pushes_above() {
    let mut p = PandaRoll::new();
    assert_eq!(p.add_instance(&id(2, 100)), Ok(1));
    assert_eq!(p.add_instance(&id(2, 101)), Ok(2));
    assert_eq!(p.pop_instance(), Ok(id(2, 101)));
    assert_eq!(p.add_instance(&id(2, 105)), Ok(2));
    assert_eq!(p.lookup_instance(0), Ok(id(2, 100)));
    assert_eq!(p.lookup_instance(1), Ok(id(2, 105)));
}

#[test]
fn pop_on_empty_underflows() {
    let mut p = PandaRoll::new();
    assert_eq!(p.pop_instance(), Err(RollError::Underflow));
    assert_eq!(p.instances_count(), 0);
}

#[test]
fn push_at_max_count_overflows() {
    let mut p = PandaRoll::new();
    p.set_instances_count(u128::MAX);
    assert_eq!(p.add_instance(&id(2, 100)), Err(RollError::Overflow));
    assert_eq!(p.instances_count(), u128::MAX);
}

#[test]
fn count_scalar_is_the_source_of_truth() {
    let mut p = PandaRoll::new();
    p.set_instances_count(3);
    assert_eq!(p.instances_count(), 3);
    // The slots were never written: reads within the count see corrupt entries.
    assert_eq!(p.lookup_instance(0), Err(RollError::CorruptEntry));
    assert_eq!(p.pop_instance(), Err(RollError::CorruptEntry));
    assert_eq!(p.instances_count(), 3);
}

#[test]
fn pop_blanks_the_slot_instead_of_removing_it() {
    let mut p = PandaRoll::new();
    assert_eq!(p.add_instance(&id(2, 100)), Ok(1));
    assert_eq!(p.add_instance(&id(2, 101)), Ok(2));
    assert_eq!(p.pop_instance(), Ok(id(2, 101)));
    // Resurrect the old count: the popped slot now holds an empty byte string.
    p.set_instances_count(2);
    assert_eq!(p.lookup_instance(0), Ok(id(2, 100)));
    assert_eq!(p.lookup_instance(1), Err(RollError::CorruptEntry));
}

#[test]
fn replay_guard_grows_monotonically() {
    let mut p = PandaRoll::new();
    let t1: Vec<u8> = vec![7u8; 32];
    let t2: Vec<u8> = vec![9u8; 32];
    assert!(!p.has_tx_hash(&t1));
    p.add_tx_hash(&t1);
    assert!(p.has_tx_hash(&t1));
    assert!(!p.has_tx_hash(&t2));
    p.add_tx_hash(&t1);
    assert!(p.has_tx_hash(&t1));
}

#[test]
fn default_is_a_fresh_pool() {
    let p = PandaRoll::default();
    assert_eq!(p.instances_count(), 0);
    assert!(!p.is_initialized());
}
