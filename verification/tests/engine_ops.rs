use panda_roll::CallContext;
use panda_roll::InstanceId;
use panda_roll::PandaRoll;
use panda_roll::RollError;
use panda_roll::Transfer;
use panda_roll::multiplier_from_bytes;

fn transfer(group: u128, item: u128) -> Transfer {
    Transfer { id: InstanceId { group, item }, value: 1 }
}

fn ctx_with(incoming: Vec<Transfer>) -> CallContext {
    CallContext { incoming, block_bytes: Vec::new(), tx_bytes: Vec::new() }
}

fn txid_with_last(b: u8) -> Vec<u8> {
    let mut t = vec![0u8; 31];
    t.push(b);
    t
}

#[test]
fn initialize_runs_once_and_forwards() {
    let mut p = PandaRoll::new();
    let ctx = ctx_with(vec![transfer(9, 9)]);
    let resp = p.initialize(&ctx).unwrap();
    assert_eq!(resp.transfers, vec![transfer(9, 9)]);
    assert!(resp.data.is_empty());
    assert!(p.is_initialized());
    assert_eq!(p.initialize(&ctx).unwrap_err(), RollError::AlreadyInitialized);
}

#[test]
fn name_and_symbol() {
    let p = PandaRoll::new();
    assert_eq!(p.name(), "Alkane Panda Roll");
    assert_eq!(p.symbol(), "alkane-panda-roll");
    let ctx = ctx_with(vec![transfer(9, 9)]);
    let resp = p.get_name(&ctx);
    assert_eq!(resp.data, b"Alkane Panda Roll".to_vec());
    assert_eq!(resp.transfers, vec![transfer(9, 9)]);
    let resp = p.get_symbol(&ctx);
    assert_eq!(resp.data, b"alkane-panda-roll".to_vec());
    assert_eq!(resp.transfers, vec![transfer(9, 9)]);
}

#[test]
fn deposit_counts_valid_tokens_in_order() {
    let mut p = PandaRoll::new();
    let ctx = ctx_with(vec![transfer(2, 100), transfer(2, 101)]);
    let resp = p.deposit(&ctx).unwrap();
    assert!(resp.transfers.is_empty());
    assert!(resp.data.is_empty());
    assert_eq!(p.instances_count(), 2);
    assert_eq!(p.lookup_instance(0), Ok(InstanceId { group: 2, item: 100 }));
    assert_eq!(p.lookup_instance(1), Ok(InstanceId { group: 2, item: 101 }));
}

#[test]
fn deposit_rejects_wrong_group() {
    let mut p = PandaRoll::new();
    let ctx = ctx_with(vec![transfer(3, 100)]);
    assert_eq!(p.deposit(&ctx).unwrap_err(), RollError::InvalidAsset);
    assert_eq!(p.instances_count(), 0);
}

#[test]
fn deposit_is_atomic_on_a_late_invalid_token() {
    let mut p = PandaRoll::new();
    let ctx = ctx_with(vec![transfer(2, 100), transfer(2, 999)]);
    assert_eq!(p.deposit(&ctx).unwrap_err(), RollError::InvalidAsset);
    assert_eq!(p.instances_count(), 0);
}

#[test]
fn deposit_of_nothing_is_a_no_op() {
    let mut p = PandaRoll::new();
    let ctx = ctx_with(Vec::new());
    assert!(p.deposit(&ctx).is_ok());
    assert_eq!(p.instances_count(), 0);
}

#[test]
fn stack_count_response_is_little_endian() {
    let mut p = PandaRoll::new();
    p.deposit(&ctx_with(vec![transfer(2, 100), transfer(2, 101)])).unwrap();
    let resp = p.get_panda_stack_count(&ctx_with(Vec::new()));
    assert_eq!(resp.data, 2u128.to_le_bytes().to_vec());
}

#[test]
fn stack_listing_concatenates_records_in_order() {
    let mut p = PandaRoll::new();
    p.deposit(&ctx_with(vec![transfer(2, 100), transfer(2, 101)])).unwrap();
    let resp = p.get_panda_stack(&ctx_with(Vec::new())).unwrap();
    let mut expected: Vec<u8> = Vec::new();
    expected.extend_from_slice(&2u128.to_le_bytes());
    expected.extend_from_slice(&100u128.to_le_bytes());
    expected.extend_from_slice(&2u128.to_le_bytes());
    expected.extend_from_slice(&101u128.to_le_bytes());
    assert_eq!(resp.data, expected);
}

#[test]
fn stack_listing_reports_corruption() {
    let mut p = PandaRoll::new();
    p.set_instances_count(1);
    assert_eq!(
        p.get_panda_stack(&ctx_with(Vec::new())).unwrap_err(),
        RollError::CorruptEntry
    );
}

#[test]
fn stack_json_lists_labels_in_order() {
    let mut p = PandaRoll::new();
    p.deposit(&ctx_with(vec![transfer(2, 100), transfer(2, 101)])).unwrap();
    let resp = p.get_panda_stack_json(&ctx_with(Vec::new())).unwrap();
    assert_eq!(resp.data, b"[\"2:100\",\"2:101\"]".to_vec());
}

#[test]
fn stack_json_of_empty_pool() {
    let p = PandaRoll::new();
    let resp = p.get_panda_stack_json(&ctx_with(Vec::new())).unwrap();
    assert_eq!(resp.data, b"[]".to_vec());
}

#[test]
fn multiplier_boundary_is_exact_over_all_pairs() {
    for b1 in 0..=255u16 {
        for b2 in 0..=255u16 {
            let expected = if (b1 + b2) % 256 < 141 { 0 } else { 2 };
            assert_eq!(multiplier_from_bytes(b1 as u8, b2 as u8), expected);
        }
    }
}

#[test]
fn roll_requires_exactly_one_token() {
    let mut p = PandaRoll::new();
    p.deposit(&ctx_with(vec![transfer(2, 100)])).unwrap();
    let txid = txid_with_last(0);
    let bh = vec![0u8; 32];
    let none: Vec<Transfer> = Vec::new();
    assert_eq!(
        p.roll_decoded(&none, &txid, &bh).unwrap_err(),
        RollError::WrongAssetCount
    );
    let two = vec![transfer(2, 101), transfer(2, 102)];
    assert_eq!(
        p.roll_decoded(&two, &txid, &bh).unwrap_err(),
        RollError::WrongAssetCount
    );
    // Nothing was mutated: the pool still holds one token and the
    // transaction id is still fresh.
    assert_eq!(p.instances_count(), 1);
    assert!(!p.has_tx_hash(&txid));
}

#[test]
fn roll_rejects_an_invalid_token() {
    let mut p = PandaRoll::new();
    p.deposit(&ctx_with(vec![transfer(2, 100)])).unwrap();
    let txid = txid_with_last(0);
    let bh = vec![0u8; 32];
    let one = vec![transfer(2, 999)];
    assert_eq!(p.roll_decoded(&one, &txid, &bh).unwrap_err(), RollError::InvalidAsset);
    assert_eq!(p.instances_count(), 1);
    assert!(!p.has_tx_hash(&txid));
}

#[test]
fn roll_on_empty_pool_fails_without_mutation() {
    let mut p = PandaRoll::new();
    let txid = txid_with_last(0);
    let bh = vec![0u8; 32];
    let one = vec![transfer(2, 102)];
    assert_eq!(p.roll_decoded(&one, &txid, &bh).unwrap_err(), RollError::PoolEmpty);
    assert_eq!(p.instances_count(), 0);
    assert!(!p.has_tx_hash(&txid));
}

#[test]
fn losing_roll_keeps_the_token_in_the_pool() {
    let mut p = PandaRoll::new();
    p.deposit(&ctx_with(vec![transfer(2, 100), transfer(2, 101)])).unwrap();
    // Last bytes 0 and 140 combine to 140, strictly below the 141 boundary.
    let txid = txid_with_last(140);
    let bh = vec![0u8; 32];
    let one = vec![transfer(2, 102)];
    let resp = p.roll_decoded(&one, &txid, &bh).unwrap();
    assert!(resp.transfers.is_empty());
    assert!(resp.data.is_empty());
    assert_eq!(p.instances_count(), 3);
    assert_eq!(p.lookup_instance(2), Ok(InstanceId { group: 2, item: 102 }));
    assert!(p.has_tx_hash(&txid));
}

#[test]
fn winning_roll_releases_the_last_pushed_token() {
    let mut p = PandaRoll::new();
    p.deposit(&ctx_with(vec![transfer(2, 100), transfer(2, 101)])).unwrap();
    // Last bytes 0 and 141 combine to exactly the 141 boundary: a win.
    let txid = txid_with_last(141);
    let bh = vec![0u8; 32];
    let one = vec![transfer(2, 102)];
    let resp = p.roll_decoded(&one, &txid, &bh).unwrap();
    assert_eq!(resp.transfers, vec![transfer(2, 101)]);
    assert!(resp.data.is_empty());
    assert_eq!(p.instances_count(), 1);
    assert_eq!(p.lookup_instance(0), Ok(InstanceId { group: 2, item: 100 }));
    assert!(p.has_tx_hash(&txid));
}

#[test]
fn second_roll_with_the_same_transaction_is_rejected() {
    let mut p = PandaRoll::new();
    p.deposit(&ctx_with(vec![transfer(2, 100), transfer(2, 101)])).unwrap();
    let txid = txid_with_last(141);
    let bh = vec![0u8; 32];
    let one = vec![transfer(2, 102)];
    p.roll_decoded(&one, &txid, &bh).unwrap();
    let count_after_first = p.instances_count();
    assert_eq!(
        p.roll_decoded(&one, &txid, &bh).unwrap_err(),
        RollError::DuplicateTransaction
    );
    assert_eq!(p.instances_count(), count_after_first);
}

#[test]
fn wrapping_byte_sum_wraps_mod_256() {
    // 200 + 100 wraps to 44, below the boundary: a loss.
    assert_eq!(multiplier_from_bytes(200, 100), 0);
    // 200 + 210 wraps to 154, at or above the boundary: a win.
    assert_eq!(multiplier_from_bytes(200, 210), 2);
}

#[test]
fn allow_list_boundaries() {
    let p = PandaRoll::new();
    assert!(!p.is_valid_panda(&InstanceId { group: 2, item: 99 }));
    assert!(p.is_valid_panda(&InstanceId { group: 2, item: 100 }));
    assert!(p.is_valid_panda(&InstanceId { group: 2, item: 111 }));
    assert!(!p.is_valid_panda(&InstanceId { group: 2, item: 112 }));
    assert!(!p.is_valid_panda(&InstanceId { group: 1, item: 100 }));
    assert!(!p.is_valid_panda(&InstanceId { group: 0, item: 0 }));
}

#[test]
fn stack_json_renders_decimal_digits() {
    let mut p = PandaRoll::new();
    // The storage layer itself takes any id; the allow-list guards only the
    // public deposit and roll paths.
    p.add_instance(&InstanceId { group: 0, item: 0 }).unwrap();
    p.add_instance(&InstanceId { group: 340282366920938463463374607431768211455, item: 10 })
        .unwrap();
    let resp = p.get_panda_stack_json(&ctx_with(Vec::new())).unwrap();
    assert_eq!(
        resp.data,
        b"[\"0:0\",\"340282366920938463463374607431768211455:10\"]".to_vec()
    );
}
