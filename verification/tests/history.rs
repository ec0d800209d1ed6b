use rgb_iface::change::AmountChange;
use rgb_iface::history::operations;
use rgb_iface::history::try_operations;
use rgb_iface::operation::IfaceOp;
use rgb_iface::operation::InconsistencyKind;
use rgb_iface::operation::Role;
use rgb_iface::opset::OpIdSet;
use rgb_iface::opset::SealSet;
use rgb_iface::state::CloseMethod;
use rgb_iface::state::FungibleAllocation;
use rgb_iface::state::Layer1;
use rgb_iface::state::Opout;
use rgb_iface::state::OutputAssignment;
use rgb_iface::state::OutputSeal;
use rgb_iface::state::WitnessId;

fn id(n: u32) -> [u8; 32] {
    let mut bytes = [0u8; 32];
    bytes[0] = (n >> 24) as u8;
    bytes[1] = (n >> 16) as u8;
    bytes[2] = (n >> 8) as u8;
    bytes[3] = n as u8;
    bytes
}

fn witness(n: u32) -> WitnessId {
    WitnessId { layer1: Layer1::Bitcoin, txid: id(n) }
}

fn amount(op: u32, witness_no: Option<u32>, value: u64) -> FungibleAllocation {
    OutputAssignment {
        opout: Opout { op: id(op), ty: 4000, no: 0 },
        seal: OutputSeal {
            layer1: Layer1::Bitcoin,
            method: CloseMethod::TapretFirst,
            txid: id(op + 1000),
            vout: 0,
        },
        witness: witness_no.map(witness),
        state: value,
    }
}

#[test]
fn scenario_spend_100_receive_40() {
    let ops = operations::<AmountChange>(vec![amount(1, Some(9), 100)], vec![amount(2, Some(9), 40)]);
    assert_eq!(ops.len(), 1);
    let op = ops.get(&witness(9)).unwrap();
    assert_eq!(op.state_change, AmountChange::Dec(60));
    assert_eq!(op.inputs.to_vec(), vec![id(1)]);
    assert_eq!(op.opids.to_vec(), vec![id(2)]);
    assert!(op.payers.is_empty());
    assert!(op.beneficiaries.is_empty());
}

#[test]
fn scenario_spend_50_receive_50() {
    let ops = operations::<AmountChange>(vec![amount(1, Some(9), 50)], vec![amount(2, Some(9), 50)]);
    assert_eq!(ops.len(), 1);
    assert_eq!(ops.get(&witness(9)).unwrap().state_change, AmountChange::Zero);
}

#[test]
fn scenario_two_receipts_of_10() {
    let ops = operations::<AmountChange>(
        Vec::new(),
        vec![amount(1, Some(9), 10), amount(2, Some(9), 10)],
    );
    assert_eq!(ops.len(), 1);
    let op = ops.get(&witness(9)).unwrap();
    assert_eq!(op.state_change, AmountChange::Inc(20));
    assert!(op.inputs.is_empty());
    assert_eq!(op.opids.to_vec(), vec![id(1), id(2)]);
}

#[test]
fn scenario_two_transactions_two_entries() {
    let ops = operations::<AmountChange>(
        Vec::new(),
        vec![amount(1, Some(8), 10), amount(2, Some(9), 10)],
    );
    assert_eq!(ops.len(), 2);
    assert_eq!(ops.witness_ids(), vec![witness(8), witness(9)]);
    assert_eq!(ops.get(&witness(8)).unwrap().state_change, AmountChange::Inc(10));
    assert_eq!(ops.get(&witness(9)).unwrap().state_change, AmountChange::Inc(10));
    assert_eq!(ops.get(&witness(8)).unwrap().opids.to_vec(), vec![id(1)]);
    assert_eq!(ops.get(&witness(9)).unwrap().opids.to_vec(), vec![id(2)]);
}

#[test]
fn same_txid_on_another_chain_is_another_transaction() {
    let mut other = amount(2, Some(9), 10);
    other.witness = Some(WitnessId { layer1: Layer1::Liquid, txid: id(9) });
    let ops = operations::<AmountChange>(Vec::new(), vec![amount(1, Some(9), 10), other]);
    assert_eq!(ops.len(), 2);
}

#[test]
fn unsettled_allocations_are_invisible() {
    let ops = operations::<AmountChange>(
        vec![amount(1, None, 100), amount(2, Some(9), 5)],
        vec![amount(3, None, 40)],
    );
    assert_eq!(ops.len(), 1);
    assert!(ops.contains_key(&witness(9)));
    assert!(!ops.contains_key(&witness(1)));
    assert!(ops.get(&witness(3)).is_none());
    assert_eq!(ops.get(&witness(9)).unwrap().state_change, AmountChange::Dec(5));
}

#[test]
fn nothing_in_nothing_out() {
    let ops = operations::<AmountChange>(Vec::new(), Vec::new());
    assert_eq!(ops.len(), 0);
    assert!(ops.witness_ids().is_empty());
}

#[test]
fn every_entry_names_an_operation() {
    let ops = operations::<AmountChange>(
        vec![amount(1, Some(7), 1), amount(2, Some(8), 2)],
        vec![amount(3, Some(8), 3), amount(4, Some(9), 4)],
    );
    assert_eq!(ops.len(), 3);
    for w in ops.witness_ids() {
        let op = ops.get(&w).unwrap();
        assert!(op.inputs.len() + op.opids.len() > 0);
    }
    assert_eq!(ops.get(&witness(8)).unwrap().state_change, AmountChange::Inc(1));
}

#[test]
fn an_operation_may_be_spent_and_received_at_once() {
    let ops = operations::<AmountChange>(vec![amount(1, Some(9), 10)], vec![amount(1, Some(9), 10)]);
    let op = ops.get(&witness(9)).unwrap();
    assert_eq!(op.state_change, AmountChange::Zero);
    assert_eq!(op.inputs.to_vec(), vec![id(1)]);
    assert_eq!(op.opids.to_vec(), vec![id(1)]);
}

#[test]
fn try_operations_agrees_with_operations() {
    let ops = try_operations::<AmountChange>(
        vec![amount(1, Some(9), 100)],
        vec![amount(2, Some(9), 40)],
    )
    .unwrap();
    assert_eq!(ops.get(&witness(9)).unwrap().state_change, AmountChange::Dec(60));
}

#[test]
fn duplicate_operation_is_an_inconsistency() {
    let fault = try_operations::<AmountChange>(
        vec![amount(1, Some(9), 100), amount(2, Some(9), 1), amount(1, Some(9), 3)],
        Vec::new(),
    );
    match fault {
        Err(e) => {
            assert_eq!(e.kind, InconsistencyKind::DuplicateOperation);
            assert_eq!(e.witness, witness(9));
            assert_eq!(e.op, id(1));
            assert_eq!(e.role, Role::Spent);
        }
        Ok(_) => panic!("a duplicate operation was accepted"),
    }
}

#[test]
fn duplicate_received_operation_is_an_inconsistency() {
    let fault = try_operations::<AmountChange>(
        vec![amount(1, Some(9), 100)],
        vec![amount(2, Some(9), 100), amount(2, Some(9), 100)],
    );
    match fault {
        Err(e) => {
            assert_eq!(e.kind, InconsistencyKind::DuplicateOperation);
            assert_eq!(e.op, id(2));
            assert_eq!(e.role, Role::Received);
        }
        Ok(_) => panic!("a duplicate operation was accepted"),
    }
}

#[test]
fn change_out_of_bounds_is_an_inconsistency() {
    let fault = try_operations::<AmountChange>(
        vec![amount(1, Some(9), u64::MAX), amount(2, Some(9), 1)],
        Vec::new(),
    );
    match fault {
        Err(e) => {
            assert_eq!(e.kind, InconsistencyKind::ChangeOutOfBounds);
            assert_eq!(e.op, id(2));
            assert_eq!(e.witness, witness(9));
        }
        Ok(_) => panic!("an overflow was accepted"),
    }
}

#[test]
fn too_many_operations_is_an_inconsistency() {
    let mut spent = Vec::new();
    for n in 0..65536u32 {
        spent.push(amount(n, Some(9), 1));
    }
    match try_operations::<AmountChange>(spent, Vec::new()) {
        Err(e) => {
            assert_eq!(e.kind, InconsistencyKind::TooManyOperations);
            assert_eq!(e.op, id(65535));
        }
        Ok(_) => panic!("too many operations were accepted"),
    }
}

#[test]
fn as_many_operations_as_a_set_holds() {
    let mut spent = Vec::new();
    for n in 0..65535u32 {
        spent.push(amount(n, Some(9), 1));
    }
    let ops = operations::<AmountChange>(spent, Vec::new());
    let op = ops.get(&witness(9)).unwrap();
    assert_eq!(op.inputs.len(), 65535);
    assert_eq!(op.state_change, AmountChange::Dec(65535));
}

#[test]
fn iface_op_from_spent_and_merge() {
    let mut op = IfaceOp::<AmountChange>::from_spent(amount(1, Some(9), 10));
    assert_eq!(op.state_change, AmountChange::Dec(10));
    assert!(op.opids.is_empty());
    assert!(op.fault(Role::Spent, witness(9), &amount(2, Some(9), 5)).is_none());
    op.merge_spent(amount(2, Some(9), 5));
    assert_eq!(op.state_change, AmountChange::Dec(15));
    assert_eq!(op.inputs.to_vec(), vec![id(1), id(2)]);
    op.merge_received(amount(3, Some(9), 20));
    assert_eq!(op.state_change, AmountChange::Inc(5));
    assert_eq!(op.opids.to_vec(), vec![id(3)]);
}

#[test]
fn iface_op_from_received() {
    let op = IfaceOp::<AmountChange>::from_received(amount(1, Some(9), 10));
    assert_eq!(op.state_change, AmountChange::Inc(10));
    assert!(op.inputs.is_empty());
    assert_eq!(op.opids.to_vec(), vec![id(1)]);
    assert!(op.payers.is_empty());
}

#[test]
fn op_id_set_keeps_order_and_drops_duplicates() {
    let mut set = OpIdSet::new();
    assert!(set.is_empty());
    assert!(set.push(id(5)));
    assert!(set.push(id(3)));
    assert!(set.push(id(5)));
    assert_eq!(set.len(), 2);
    assert!(set.contains(&id(3)));
    assert!(!set.contains(&id(4)));
    assert_eq!(set.to_vec(), vec![id(3), id(5)]);
    let mut copy = OpIdSet::with(id(5));
    assert_ne!(copy, set);
    assert!(copy.push(id(3)));
    assert_eq!(copy, set);
    assert_eq!(OpIdSet::with(id(7)).to_vec(), vec![id(7)]);
}

#[test]
fn op_id_set_refuses_what_is_over_its_bound() {
    let mut set = OpIdSet::new();
    for n in 0..65535u32 {
        assert!(set.push(id(n)));
    }
    assert_eq!(set.len(), 65535);
    assert!(!set.push(id(70000)));
    assert!(!set.push(id(1)));
    assert_eq!(set.len(), 65535);
    assert!(!set.contains(&id(70000)));
}

#[test]
fn seal_set_starts_empty() {
    assert!(SealSet::new().is_empty());
    assert!(SealSet::new().clone().is_empty());
    assert_eq!(SealSet::new().clone(), SealSet::new());
}

#[test]
fn clones_hold_the_same_items() {
    let mut set = OpIdSet::with(id(5));
    let copy = set.clone();
    assert_eq!(copy.to_vec(), vec![id(5)]);
    assert!(set.push(id(6)));
    assert_eq!(copy.len(), 1);
    assert_ne!(copy, set);
    let mut op = IfaceOp::<AmountChange>::from_spent(amount(1, Some(9), 10));
    let kept = op.clone();
    op.merge_received(amount(2, Some(9), 4));
    assert_eq!(kept.state_change, AmountChange::Dec(10));
    assert_eq!(kept.inputs.to_vec(), vec![id(1)]);
    assert!(kept.opids.is_empty());
    assert_eq!(op.clone(), op);
    assert_ne!(kept, op);
}
