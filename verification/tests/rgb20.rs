use rgb_iface::binding::GlobalStateSchema;
use rgb_iface::binding::IfaceImpl;
use rgb_iface::binding::NamedField;
use rgb_iface::binding::Schema;
use rgb_iface::change::AmountChange;
use rgb_iface::contract::ContractIface;
use rgb_iface::contract::ContractState;
use rgb_iface::contract::GlobalRecord;
use rgb_iface::filter::FilterIncludeAll;
use rgb_iface::rgb20::sum_amounts;
use rgb_iface::rgb20::AllocationError;
use rgb_iface::rgb20::Features;
use rgb_iface::rgb20::Inflation;
use rgb_iface::rgb20::Rgb20;
use rgb_iface::rgb20::IFACE_ID;
use rgb_iface::state::CloseMethod;
use rgb_iface::state::FungibleAllocation;
use rgb_iface::state::Layer1;
use rgb_iface::state::Opout;
use rgb_iface::state::Outpoint;
use rgb_iface::state::OutputAssignment;
use rgb_iface::state::OutputSeal;
use rgb_iface::state::VoidState;
use rgb_iface::state::WitnessId;

fn owned(op: u8, ty: u16, on: u8, witness: Option<u8>, value: u64) -> FungibleAllocation {
    OutputAssignment {
        opout: Opout { op: [op; 32], ty, no: 0 },
        seal: OutputSeal {
            layer1: Layer1::Bitcoin,
            method: CloseMethod::TapretFirst,
            txid: [on; 32],
            vout: 0,
        },
        witness: witness.map(|w| WitnessId { layer1: Layer1::Bitcoin, txid: [w; 32] }),
        state: value,
    }
}

fn asset(fungible: Vec<FungibleAllocation>) -> Rgb20 {
    let field = |name: &str, id: u16| NamedField { name: name.to_string(), id };
    Rgb20::new(ContractIface {
        state: ContractState {
            contract_id: [1; 32],
            global: vec![
                GlobalRecord { ty: 2000, data: vec![0x10] },
                GlobalRecord { ty: 2002, data: vec![0x40, 0x42] },
                GlobalRecord { ty: 2001, data: vec![0x20] },
                GlobalRecord { ty: 2002, data: vec![0x41] },
            ],
            rights: vec![
                OutputAssignment {
                    opout: Opout { op: [9; 32], ty: 4100, no: 0 },
                    seal: OutputSeal {
                        layer1: Layer1::Bitcoin,
                        method: CloseMethod::TapretFirst,
                        txid: [7; 32],
                        vout: 0,
                    },
                    witness: None,
                    state: VoidState,
                },
            ],
            fungible,
            data: Vec::new(),
            attach: Vec::new(),
        },
        schema: Schema {
            global_types: vec![
                GlobalStateSchema { ty: 2000, sem_id: [0xA0; 32] },
                GlobalStateSchema { ty: 2001, sem_id: [0xA1; 32] },
                GlobalStateSchema { ty: 2002, sem_id: [0xA2; 32] },
            ],
        },
        iface: IfaceImpl {
            iface_id: IFACE_ID,
            global_state: vec![field("spec", 2000), field("terms", 2001), field("issuedSupply", 2002)],
            assignments: vec![
                field("assetOwner", 4000),
                field("inflationAllowance", 4001),
                field("updateRight", 4100),
                field("burnEpoch", 4101),
                field("burnRight", 4102),
            ],
        },
    })
}

#[test]
fn inflation_predicates() {
    assert!(Inflation::Fixed.is_fixed());
    assert!(!Inflation::Burnable.is_fixed());
    assert!(!Inflation::Fixed.is_inflatible());
    assert!(!Inflation::Burnable.is_inflatible());
    assert!(Inflation::Inflatible.is_inflatible());
    assert!(Inflation::InflatibleBurnable.is_inflatible());
    assert!(Inflation::Replaceable.is_inflatible());
    assert!(Inflation::Replaceable.is_replacable());
    assert!(!Inflation::InflatibleBurnable.is_replacable());
    assert!(Inflation::Burnable.is_burnable());
    assert!(Inflation::Replaceable.is_burnable());
    assert!(!Inflation::InflatibleBurnable.is_burnable());
    assert!(!Inflation::Fixed.is_burnable());
    assert_eq!(Inflation::default(), Inflation::Fixed);
}

#[test]
fn features_none_and_all() {
    assert_eq!(
        Features::none(),
        Features { renaming: false, reserves: false, inflation: Inflation::Fixed }
    );
    assert_eq!(
        Features::all(),
        Features { renaming: true, reserves: true, inflation: Inflation::Replaceable }
    );
    assert_eq!(Features::default(), Features::none());
}

#[test]
fn allocation_errors_differ() {
    assert_ne!(AllocationError::NoLiquidSupport, AllocationError::AmountOverflow);
}

#[test]
fn scenario_balance_of_30_and_70() {
    let contract = asset(vec![owned(1, 4000, 5, Some(8), 30), owned(2, 4000, 6, None, 70)]);
    assert_eq!(contract.balance(FilterIncludeAll), 100);
}

#[test]
fn balance_counts_only_the_field_and_the_chosen_outputs() {
    let contract = asset(vec![
        owned(1, 4000, 5, Some(8), 30),
        owned(2, 4001, 5, Some(8), 1000),
        owned(3, 4000, 6, None, 70),
    ]);
    assert_eq!(contract.balance(FilterIncludeAll), 100);
    assert_eq!(contract.balance(Outpoint { layer1: Layer1::Bitcoin, txid: [6; 32], vout: 0 }), 70);
    assert_eq!(contract.balance(Outpoint { layer1: Layer1::Bitcoin, txid: [6; 32], vout: 1 }), 0);
    assert_eq!(contract.allocations(FilterIncludeAll).collect().len(), 2);
    assert_eq!(
        contract.inflation_allowance_allocations(FilterIncludeAll).collect(),
        vec![owned(2, 4001, 5, Some(8), 1000)]
    );
}

#[test]
fn balance_saturates() {
    let contract = asset(vec![
        owned(1, 4000, 5, None, u64::MAX - 1),
        owned(2, 4000, 6, None, 1),
        owned(3, 4000, 7, None, 5),
    ]);
    assert_eq!(contract.balance(FilterIncludeAll), u64::MAX);
}

#[test]
fn sums_of_amounts() {
    assert_eq!(sum_amounts(&Vec::new()), 0);
    assert_eq!(sum_amounts(&vec![1, 2, 3]), 6);
    assert_eq!(sum_amounts(&vec![u64::MAX, 1]), u64::MAX);
    assert_eq!(Rgb20::total_issued_supply(&vec![1000, 500]), 1500);
    assert_eq!(Rgb20::total_burned_supply(&vec![200]), 200);
    assert_eq!(Rgb20::total_burned_supply(&Vec::new()), 0);
    assert_eq!(Rgb20::total_replaced_supply(&vec![7, 8]), 15);
    assert_eq!(Rgb20::total_supply(&vec![1000, 500], &vec![200]), 1300);
    assert_eq!(Rgb20::total_supply(&vec![5], &vec![5]), 0);
}

#[test]
fn global_fields_of_the_asset() {
    let contract = asset(Vec::new());
    assert_eq!(contract.asset_spec(), ([0xA0; 32], vec![0x10]));
    assert_eq!(contract.contract_terms(), ([0xA1; 32], vec![0x20]));
    assert_eq!(contract.issued_supply(), vec![vec![0x40, 0x42], vec![0x41]]);
    assert!(contract.burned_supply().is_empty());
    assert!(contract.replaced_supply().is_empty());
}

#[test]
fn rights_of_the_asset() {
    let contract = asset(Vec::new());
    assert_eq!(contract.update_right(FilterIncludeAll).collect().len(), 1);
    assert_eq!(contract.burn_epoch(FilterIncludeAll).collect().len(), 0);
    assert_eq!(contract.burn_right(FilterIncludeAll).collect().len(), 0);
}

#[test]
fn implements_checks_the_interface_id() {
    let contract = asset(Vec::new());
    assert!(Rgb20::implements(&contract.0));
    let mut other = contract.0.clone();
    other.iface.iface_id[31] ^= 1;
    assert!(!Rgb20::implements(&other));
}

#[test]
fn transfer_history_of_owned_outputs() {
    let contract = asset(vec![
        owned(1, 4000, 5, Some(8), 100),
        owned(2, 4000, 6, Some(9), 40),
        owned(3, 4000, 7, Some(9), 60),
    ]);
    let mine = Outpoint { layer1: Layer1::Bitcoin, txid: [6; 32], vout: 0 };
    let history = contract.transfer_history(mine);
    assert_eq!(history.len(), 2);
    let w = |n: u8| WitnessId { layer1: Layer1::Bitcoin, txid: [n; 32] };
    assert_eq!(history.get(&w(8)).unwrap().state_change, AmountChange::Dec(100));
    assert_eq!(history.get(&w(9)).unwrap().state_change, AmountChange::Dec(60));
}
