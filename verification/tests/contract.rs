use rgb_iface::binding::ContractError;
use rgb_iface::binding::GlobalStateSchema;
use rgb_iface::binding::IfaceImpl;
use rgb_iface::binding::NamedField;
use rgb_iface::binding::Schema;
use rgb_iface::change::AmountChange;
use rgb_iface::contract::ContractIface;
use rgb_iface::contract::ContractState;
use rgb_iface::contract::GlobalRecord;
use rgb_iface::filter::FilterIncludeAll;
use rgb_iface::filter::OutpointFilter;
use rgb_iface::state::AllocatedState;
use rgb_iface::state::AttachState;
use rgb_iface::state::CloseMethod;
use rgb_iface::state::DataState;
use rgb_iface::state::KnownState;
use rgb_iface::state::Layer1;
use rgb_iface::state::MediaType;
use rgb_iface::state::Opout;
use rgb_iface::state::Outpoint;
use rgb_iface::state::OutputAssignment;
use rgb_iface::state::OutputSeal;
use rgb_iface::state::VoidState;
use rgb_iface::state::WitnessId;
use rgb_iface::stream::Allocations;

fn bytes(n: u8) -> [u8; 32] {
    [n; 32]
}

fn seal(n: u8) -> OutputSeal {
    OutputSeal { layer1: Layer1::Bitcoin, method: CloseMethod::OpretFirst, txid: bytes(n), vout: 1 }
}

fn outpoint(n: u8) -> Outpoint {
    Outpoint { layer1: Layer1::Bitcoin, txid: bytes(n), vout: 1 }
}

fn record<S>(op: u8, ty: u16, on: u8, witness: Option<u8>, state: S) -> OutputAssignment<S> {
    OutputAssignment {
        opout: Opout { op: bytes(op), ty, no: 0 },
        seal: seal(on),
        witness: witness.map(|w| WitnessId { layer1: Layer1::Bitcoin, txid: bytes(w) }),
        state,
    }
}

fn field(name: &str, id: u16) -> NamedField {
    NamedField { name: name.to_string(), id }
}

fn sample() -> ContractIface {
    ContractIface {
        state: ContractState {
            contract_id: bytes(0xC0),
            global: vec![
                GlobalRecord { ty: 2000, data: vec![1, 2] },
                GlobalRecord { ty: 2010, data: vec![9] },
                GlobalRecord { ty: 2000, data: vec![3] },
            ],
            rights: vec![
                record(1, 4100, 10, Some(50), VoidState),
                record(2, 4101, 11, None, VoidState),
            ],
            fungible: vec![
                record(3, 4000, 10, Some(50), 30),
                record(4, 4001, 10, Some(51), 5),
                record(5, 4000, 11, Some(51), 70),
                record(6, 4000, 12, None, 1),
            ],
            data: vec![record(7, 4200, 10, Some(52), DataState(vec![0xAA, 0xBB]))],
            attach: vec![record(
                8,
                4300,
                11,
                Some(52),
                AttachState { id: bytes(0xF1), media_type: MediaType::Any },
            )],
        },
        schema: Schema {
            global_types: vec![
                GlobalStateSchema { ty: 2000, sem_id: bytes(0x51) },
                GlobalStateSchema { ty: 2010, sem_id: bytes(0x52) },
            ],
        },
        iface: IfaceImpl {
            iface_id: bytes(0x1F),
            global_state: vec![field("spec", 2000), field("terms", 2010), field("ghost", 2999)],
            assignments: vec![
                field("assetOwner", 4000),
                field("inflationAllowance", 4001),
                field("updateRight", 4100),
                field("burnRight", 4101),
                field("notes", 4200),
                field("files", 4300),
                field("assetOwner", 4999),
            ],
        },
    }
}

fn unknown(e: ContractError) -> String {
    match e {
        ContractError::FieldNameUnknown(name) => name,
    }
}

#[test]
fn contract_id_is_the_stores() {
    assert_eq!(sample().contract_id(), bytes(0xC0));
}

#[test]
fn global_of_bound_name_in_store_order() {
    let found = sample().global("spec").unwrap();
    assert_eq!(found.sem_id, bytes(0x51));
    assert_eq!(found.values, vec![vec![1u8, 2], vec![3u8]]);
    let terms = sample().global("terms").unwrap();
    assert_eq!(terms.sem_id, bytes(0x52));
    assert_eq!(terms.values, vec![vec![9u8]]);
}

#[test]
fn global_of_unbound_name_is_unknown_field() {
    match sample().global("nope") {
        Err(e) => {
            assert_eq!(e.name(), "nope");
            assert_eq!(e, ContractError::FieldNameUnknown("nope".to_string()));
        }
        Ok(_) => panic!("an unbound name was resolved"),
    }
}

#[test]
fn first_binding_of_a_name_wins() {
    let contract = sample();
    assert_eq!(contract.iface.assignments_type(&"assetOwner".to_string()), Some(4000));
    assert_eq!(contract.iface.global_type(&"terms".to_string()), Some(2010));
    assert_eq!(contract.iface.global_type(&"assetOwner".to_string()), None);
    assert_eq!(contract.schema.sem_id(2010), Some(bytes(0x52)));
    assert_eq!(contract.schema.sem_id(2999), None);
}

#[test]
fn fungible_with_every_output_is_the_slot_in_store_order() {
    let contract = sample();
    let found = contract.fungible_all("assetOwner", FilterIncludeAll).unwrap();
    assert_eq!(
        found,
        vec![
            record(3, 4000, 10, Some(50), 30u64),
            record(5, 4000, 11, Some(51), 70),
            record(6, 4000, 12, None, 1),
        ]
    );
}

#[test]
fn fungible_of_one_output() {
    let contract = sample();
    let found = contract.fungible_all("assetOwner", outpoint(11)).unwrap();
    assert_eq!(found, vec![record(5, 4000, 11, Some(51), 70u64)]);
    let none = contract.fungible_all("assetOwner", outpoint(99)).unwrap();
    assert!(none.is_empty());
}

#[test]
fn fungible_of_listed_outputs() {
    let contract = sample();
    let found = contract.fungible_all("assetOwner", vec![outpoint(12), outpoint(10)]).unwrap();
    assert_eq!(
        found,
        vec![record(3, 4000, 10, Some(50), 30u64), record(6, 4000, 12, None, 1)]
    );
}

#[test]
fn outpoint_differs_by_chain_and_index() {
    let mut liquid = outpoint(10);
    liquid.layer1 = Layer1::Liquid;
    assert!(!liquid.include_outpoint(outpoint(10)));
    let mut other = outpoint(10);
    other.vout = 2;
    assert!(!other.include_outpoint(outpoint(10)));
    assert!(outpoint(10).include_outpoint(outpoint(10)));
    assert_eq!(seal(10).to_outpoint(), outpoint(10));
}

#[test]
fn a_pass_hands_each_record_out_once() {
    let contract = sample();
    let mut pass = contract.fungible("assetOwner", FilterIncludeAll).unwrap();
    assert_eq!(pass.next(), Some(record(3, 4000, 10, Some(50), 30u64)));
    assert_eq!(pass.next(), Some(record(5, 4000, 11, Some(51), 70u64)));
    assert_eq!(pass.next(), Some(record(6, 4000, 12, None, 1u64)));
    assert_eq!(pass.next(), None);
    assert_eq!(pass.next(), None);
}

#[test]
fn a_pass_over_any_slot() {
    let contract = sample();
    let pass = Allocations::new(&contract.state.fungible, None, outpoint(10));
    assert_eq!(
        pass.collect(),
        vec![record(3, 4000, 10, Some(50), 30u64), record(4, 4001, 10, Some(51), 5)]
    );
}

#[test]
fn rights_data_and_attachments_by_name() {
    let contract = sample();
    assert_eq!(
        contract.rights_all("updateRight", FilterIncludeAll).unwrap(),
        vec![record(1, 4100, 10, Some(50), VoidState)]
    );
    assert_eq!(
        contract.rights("burnRight", FilterIncludeAll).unwrap().collect(),
        vec![record(2, 4101, 11, None, VoidState)]
    );
    assert_eq!(
        contract.data_all("notes", FilterIncludeAll).unwrap(),
        vec![record(7, 4200, 10, Some(52), DataState(vec![0xAA, 0xBB]))]
    );
    assert_eq!(contract.data("notes", outpoint(11)).unwrap().collect(), Vec::new());
    assert_eq!(
        contract.attachments_all("files", FilterIncludeAll).unwrap(),
        vec![record(
            8,
            4300,
            11,
            Some(52),
            AttachState { id: bytes(0xF1), media_type: MediaType::Any }
        )]
    );
    assert_eq!(contract.attachments("files", outpoint(10)).unwrap().collect(), Vec::new());
}

#[test]
fn every_typed_query_knows_an_unbound_name() {
    let contract = sample();
    assert_eq!(unknown(contract.rights_all("x", FilterIncludeAll).unwrap_err()), "x");
    assert_eq!(unknown(contract.fungible_all("x", FilterIncludeAll).unwrap_err()), "x");
    assert_eq!(unknown(contract.data_all("x", FilterIncludeAll).unwrap_err()), "x");
    assert_eq!(unknown(contract.attachments_all("x", FilterIncludeAll).unwrap_err()), "x");
    assert!(contract.rights("x", FilterIncludeAll).is_err());
    assert!(contract.fungible("spec", FilterIncludeAll).is_err());
    assert!(contract.data("", FilterIncludeAll).is_err());
    assert!(contract.attachments("x", FilterIncludeAll).is_err());
    assert!(contract.fungible_ops::<AmountChange, _>("x", FilterIncludeAll).is_err());
    assert_eq!(
        unknown(
            contract
                .extract_state(&contract.state.fungible, "AssetOwner", FilterIncludeAll)
                .err()
                .unwrap()
        ),
        "AssetOwner"
    );
}

#[test]
fn allocations_are_grouped_by_kind_in_fixed_order() {
    let contract = sample();
    let found = contract.allocations(&FilterIncludeAll);
    assert_eq!(
        found,
        vec![
            record(1, 4100, 10, Some(50), AllocatedState::Void),
            record(2, 4101, 11, None, AllocatedState::Void),
            record(3, 4000, 10, Some(50), AllocatedState::Amount(30)),
            record(4, 4001, 10, Some(51), AllocatedState::Amount(5)),
            record(5, 4000, 11, Some(51), AllocatedState::Amount(70)),
            record(6, 4000, 12, None, AllocatedState::Amount(1)),
            record(7, 4200, 10, Some(52), AllocatedState::Data(DataState(vec![0xAA, 0xBB]))),
            record(
                8,
                4300,
                11,
                Some(52),
                AllocatedState::Attachment(AttachState {
                    id: bytes(0xF1),
                    media_type: MediaType::Any
                })
            ),
        ]
    );
}

#[test]
fn allocations_admit_nothing_that_the_filter_rejects() {
    let contract = sample();
    let found = contract.outpoint_allocations(outpoint(10));
    assert_eq!(
        found,
        vec![
            record(1, 4100, 10, Some(50), AllocatedState::Void),
            record(3, 4000, 10, Some(50), AllocatedState::Amount(30)),
            record(4, 4001, 10, Some(51), AllocatedState::Amount(5)),
            record(7, 4200, 10, Some(52), AllocatedState::Data(DataState(vec![0xAA, 0xBB]))),
        ]
    );
    for a in &found {
        assert_eq!(a.seal.to_outpoint(), outpoint(10));
    }
    assert!(contract.outpoint_allocations(outpoint(77)).is_empty());
}

#[test]
fn fungible_ops_of_a_field() {
    let contract = sample();
    let w = |n: u8| WitnessId { layer1: Layer1::Bitcoin, txid: bytes(n) };
    let ops = contract.fungible_ops::<AmountChange, _>("assetOwner", outpoint(11)).unwrap();
    assert_eq!(ops.len(), 2);
    assert_eq!(ops.get(&w(50)).unwrap().state_change, AmountChange::Dec(30));
    assert_eq!(ops.get(&w(51)).unwrap().state_change, AmountChange::Dec(5));
    assert_eq!(ops.get(&w(51)).unwrap().inputs.to_vec(), vec![bytes(4), bytes(5)]);
    assert_eq!(ops.get(&w(51)).unwrap().opids.to_vec(), vec![bytes(5)]);
    let all = contract.fungible_ops::<AmountChange, _>("assetOwner", FilterIncludeAll).unwrap();
    assert_eq!(all.get(&w(50)).unwrap().state_change, AmountChange::Zero);
}

#[test]
fn try_field_ops_reports_what_the_store_must_not_hold() {
    let mut contract = sample();
    let records = contract.state.fungible.clone();
    let found = contract
        .try_field_ops::<AmountChange, _>(&records, "assetOwner", outpoint(11))
        .unwrap()
        .unwrap();
    assert_eq!(found.len(), 2);
    contract.state.fungible.push(record(3, 4000, 19, Some(50), 2));
    let records = contract.state.fungible.clone();
    let fault = contract
        .try_field_ops::<AmountChange, _>(&records, "assetOwner", outpoint(11))
        .unwrap()
        .err()
        .unwrap();
    assert_eq!(fault.kind, rgb_iface::operation::InconsistencyKind::DuplicateOperation);
    assert_eq!(fault.op, bytes(3));
    assert!(contract.try_field_ops::<AmountChange, _>(&records, "x", outpoint(11)).is_err());
    let ok = sample();
    let same = ok.field_ops::<AmountChange, _>(&ok.state.fungible, "assetOwner", outpoint(11)).unwrap();
    assert_eq!(same.len(), 2);
}

#[test]
fn allocated_state_conversions_keep_the_state() {
    assert_eq!(AllocatedState::from(()), AllocatedState::Void);
    assert_eq!(AllocatedState::from(VoidState), AllocatedState::Void);
    assert_eq!(AllocatedState::from(12u64), AllocatedState::Amount(12));
    assert_eq!(
        AllocatedState::from(DataState(vec![1, 2, 3])),
        AllocatedState::Data(DataState(vec![1, 2, 3]))
    );
    let file = AttachState { id: bytes(3), media_type: MediaType::Any };
    assert_eq!(AllocatedState::from(file), AllocatedState::Attachment(file));
    assert_eq!(AllocatedState::from(12u64).as_amount(), Some(12));
    assert_eq!(AllocatedState::Void.as_amount(), None);
    assert!(AllocatedState::Void.is_void());
    assert!(!AllocatedState::Amount(0).is_void());
    assert_eq!(AllocatedState::from(file).as_attachment(), Some(file));
    assert_eq!(AllocatedState::Amount(1).as_attachment(), None);
    let data = AllocatedState::Data(DataState(vec![7]));
    assert_eq!(data.as_data(), Some(&DataState(vec![7])));
    assert_eq!(AllocatedState::Void.as_data(), None);
    assert_eq!(data.duplicate(), data);
    assert_eq!(DataState(vec![4, 5]).duplicate(), DataState(vec![4, 5]));
    assert_eq!(DataState(vec![4, 5]).into_allocated(), AllocatedState::Data(DataState(vec![4, 5])));
    assert_eq!(record(1, 2, 3, None, 9u64).into_owned(), record(1, 2, 3, None, AllocatedState::Amount(9)));
}
