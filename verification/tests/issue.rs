use rgb_iface::issue::Blinding;
use rgb_iface::issue::IfacePart;
use rgb_iface::issue::IssueAllocation;
use rgb_iface::issue::PrimaryIssue;
use rgb_iface::rgb20::AllocationError;
use rgb_iface::rgb20::Features;
use rgb_iface::rgb20::Inflation;
use rgb_iface::rgb20::Rgb20;
use rgb_iface::specs::InvalidIdent;
use rgb_iface::specs::Precision;
use rgb_iface::state::AttachState;
use rgb_iface::state::CloseMethod;
use rgb_iface::state::Layer1;
use rgb_iface::state::MediaType;
use rgb_iface::state::Outpoint;

fn on(layer1: Layer1, n: u8) -> Outpoint {
    Outpoint { layer1, txid: [n; 32], vout: 0 }
}

fn fresh() -> PrimaryIssue {
    PrimaryIssue::testnet("TEST", "Test asset", None, Precision::CentiMicro, Features::none())
        .unwrap()
}

#[test]
fn iface_parts_of_no_features() {
    assert_eq!(
        Rgb20::iface_parts(Features::none()),
        vec![IfacePart::NamedAsset, IfacePart::Fungible, IfacePart::Fixed]
    );
}

#[test]
fn iface_parts_of_all_features() {
    assert_eq!(
        Rgb20::iface_parts(Features::all()),
        vec![
            IfacePart::NamedAsset,
            IfacePart::Fungible,
            IfacePart::Renameable,
            IfacePart::Inflatable,
            IfacePart::Replaceable,
            IfacePart::Reservable,
        ]
    );
}

#[test]
fn iface_parts_by_inflation() {
    let with = |inflation| Rgb20::iface_parts(Features { renaming: false, reserves: false, inflation });
    assert_eq!(
        with(Inflation::Burnable),
        vec![IfacePart::NamedAsset, IfacePart::Fungible, IfacePart::Burnable]
    );
    assert_eq!(
        with(Inflation::Inflatible),
        vec![IfacePart::NamedAsset, IfacePart::Fungible, IfacePart::Inflatable]
    );
    assert_eq!(
        with(Inflation::InflatibleBurnable),
        vec![IfacePart::NamedAsset, IfacePart::Fungible, IfacePart::Inflatable]
    );
    assert_eq!(
        with(Inflation::Replaceable),
        vec![
            IfacePart::NamedAsset,
            IfacePart::Fungible,
            IfacePart::Inflatable,
            IfacePart::Replaceable
        ]
    );
}

#[test]
fn issue_starts_with_nothing_issued() {
    let issue = fresh();
    assert_eq!(issue.issued, 0);
    assert!(!issue.deterministic);
    assert!(!issue.liquid);
    assert!(issue.allocations.is_empty());
    assert_eq!(issue.asset_tag, None);
    assert_eq!(issue.spec.naming.ticker.as_str(), "TEST");
    assert_eq!(issue.spec.precision, Precision::CentiMicro);
    assert_eq!(issue.terms.text.as_str(), "");
    assert_eq!(issue.terms.media, None);
}

#[test]
fn issue_refuses_a_bad_ticker() {
    assert_eq!(
        PrimaryIssue::testnet("test", "Test asset", None, Precision::Centi, Features::none()),
        Err(InvalidIdent::InvalidChar("test".to_string(), b't'))
    );
    assert_eq!(
        PrimaryIssue::testnet_det("", "Test", None, Precision::Centi, Features::none(), [1; 32]),
        Err(InvalidIdent::Empty)
    );
}

#[test]
fn allocate_adds_up() {
    let issue = fresh()
        .allocate(CloseMethod::TapretFirst, on(Layer1::Bitcoin, 1), 1000)
        .unwrap()
        .allocate(CloseMethod::OpretFirst, on(Layer1::Bitcoin, 2), 500)
        .unwrap();
    assert_eq!(issue.issued, 1500);
    assert_eq!(
        issue.allocations,
        vec![
            IssueAllocation {
                method: CloseMethod::TapretFirst,
                beneficiary: on(Layer1::Bitcoin, 1),
                amount: 1000,
                blinding: None
            },
            IssueAllocation {
                method: CloseMethod::OpretFirst,
                beneficiary: on(Layer1::Bitcoin, 2),
                amount: 500,
                blinding: None
            },
        ]
    );
}

#[test]
fn allocate_past_the_bound_overflows() {
    let issue =
        fresh().allocate(CloseMethod::TapretFirst, on(Layer1::Bitcoin, 1), u64::MAX).unwrap();
    assert_eq!(issue.issued, u64::MAX);
    assert_eq!(
        issue.clone().allocate(CloseMethod::TapretFirst, on(Layer1::Bitcoin, 2), 1),
        Err(AllocationError::AmountOverflow)
    );
    assert_eq!(
        issue.clone().allocate(CloseMethod::TapretFirst, on(Layer1::Liquid, 2), 1),
        Err(AllocationError::AmountOverflow)
    );
    assert_eq!(
        issue.allocate(CloseMethod::TapretFirst, on(Layer1::Bitcoin, 2), 0).unwrap().issued,
        u64::MAX
    );
}

#[test]
fn allocate_to_liquid_needs_support() {
    assert_eq!(
        fresh().allocate(CloseMethod::TapretFirst, on(Layer1::Liquid, 1), 5),
        Err(AllocationError::NoLiquidSupport)
    );
    let issue = fresh()
        .support_liquid()
        .allocate(CloseMethod::TapretFirst, on(Layer1::Liquid, 1), 5)
        .unwrap();
    assert!(issue.liquid);
    assert_eq!(issue.issued, 5);
}

#[test]
fn allocate_all_stops_at_the_first_fault() {
    let all = fresh()
        .allocate_all(
            CloseMethod::TapretFirst,
            &vec![(on(Layer1::Bitcoin, 1), 10), (on(Layer1::Bitcoin, 2), 20)],
        )
        .unwrap();
    assert_eq!(all.issued, 30);
    assert_eq!(all.allocations.len(), 2);
    assert_eq!(all.allocations[1].amount, 20);
    assert_eq!(
        fresh().allocate_all(
            CloseMethod::TapretFirst,
            &vec![
                (on(Layer1::Bitcoin, 1), 10),
                (on(Layer1::Liquid, 2), 20),
                (on(Layer1::Bitcoin, 3), u64::MAX)
            ],
        ),
        Err(AllocationError::NoLiquidSupport)
    );
    assert_eq!(
        fresh().allocate_all(
            CloseMethod::TapretFirst,
            &vec![(on(Layer1::Bitcoin, 1), u64::MAX), (on(Layer1::Liquid, 2), 1)],
        ),
        Err(AllocationError::AmountOverflow)
    );
    assert_eq!(fresh().allocate_all(CloseMethod::TapretFirst, &Vec::new()).unwrap(), fresh());
}

#[test]
fn deterministic_issue_fixes_the_blinding() {
    let issue = PrimaryIssue::testnet_det(
        "TEST",
        "Test asset",
        Some("details"),
        Precision::Indivisible,
        Features::all(),
        [7; 32],
    )
    .unwrap();
    assert!(issue.deterministic);
    assert_eq!(issue.asset_tag, Some([7; 32]));
    let issue = issue
        .allocate_det(CloseMethod::OpretFirst, on(Layer1::Bitcoin, 1), 42, 100, [9; 32])
        .unwrap();
    assert_eq!(issue.issued, 100);
    assert_eq!(issue.allocations[0].blinding, Some(Blinding { seal: 42, amount: [9; 32] }));
    let closed = issue.clone().issue_contract_det(1711405444);
    assert_eq!(closed.timestamp, 1711405444);
    assert_eq!(closed.issue, issue);
    assert_eq!(
        issue.allocate_det(CloseMethod::OpretFirst, on(Layer1::Liquid, 1), 42, 1, [9; 32]),
        Err(AllocationError::NoLiquidSupport)
    );
}

#[test]
fn terms_and_closing_of_an_issue() {
    let media = AttachState { id: [3; 32], media_type: MediaType::Any };
    let issue = fresh().add_terms("All rights reserved", Some(media)).unwrap();
    assert_eq!(issue.terms.text.as_str(), "All rights reserved");
    assert_eq!(issue.terms.media, Some(media));
    let issue = issue.allocate(CloseMethod::TapretFirst, on(Layer1::Bitcoin, 1), 8).unwrap();
    let closed = issue.clone().issue_contract(1_711_405_444);
    assert_eq!(closed.issue, issue);
    assert_eq!(closed.timestamp, 1_711_405_444);
}

#[test]
fn terms_over_the_bound_are_refused() {
    let longest = "t".repeat(65535);
    assert_eq!(fresh().add_terms(&longest, None).unwrap().terms.text.as_str(), longest);
    assert_eq!(fresh().add_terms("", None).unwrap().terms.text.as_str(), "");
    assert_eq!(
        fresh().add_terms(&"t".repeat(65536), None),
        Err(InvalidIdent::Confinement(rgb_iface::specs::ConfinementError::Oversize {
            len: 65536,
            max_len: 65535
        }))
    );
    assert_eq!(
        fresh().add_terms(&"ü".repeat(32768), None),
        Err(InvalidIdent::Confinement(rgb_iface::specs::ConfinementError::Oversize {
            len: 65536,
            max_len: 65535
        }))
    );
}

#[test]
fn rgb20_starts_the_same_issue() {
    assert_eq!(
        Rgb20::testnet("TEST", "Test asset", None, Precision::CentiMicro, Features::none()),
        Ok(fresh())
    );
    let det =
        Rgb20::testnet_det("TEST", "Test asset", None, Precision::Centi, Features::all(), [5; 32])
            .unwrap();
    assert!(det.deterministic);
    assert_eq!(det.asset_tag, Some([5; 32]));
    assert_eq!(
        Rgb20::testnet("TEST", "", None, Precision::Centi, Features::none()).unwrap_err(),
        InvalidIdent::Confinement(rgb_iface::specs::ConfinementError::Undersize {
            len: 0,
            min_len: 1
        })
    );
}
