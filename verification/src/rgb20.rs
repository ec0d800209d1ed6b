use vstd::prelude::*;
use crate::binding::ContractError;
use crate::change::Amount;
use crate::change::AmountChange;
use crate::contract::byte_views;
use crate::contract::ContractIface;
use crate::contract::global_values;
use crate::contract::GlobalValues;
use crate::filter::OutpointFilter;
use crate::history::WitnessOps;
use crate::issue::IssueAllocation;
use crate::issue::PrimaryIssue;
use crate::ops::field_history;
use crate::ops::field_history_fault;
use crate::specs::InvalidIdent;
use crate::specs::naming_fault;
use crate::specs::optional_details;
use crate::specs::optional_text;
use crate::specs::Precision;
use crate::state::Assignment;
use crate::state::assignment_views;
use crate::state::FungibleAllocation;
use crate::state::VoidState;
use crate::stream::Allocations;
use crate::stream::select;

verus! {

/// Policy governing how the supply of a fungible asset may change after issue.
#[derive(Copy, Clone, PartialEq, Eq, Structural, PartialOrd, Ord, Hash, Debug)]
pub enum Inflation {
    Fixed,
    Burnable,
    Inflatible,
    InflatibleBurnable,
    Replaceable,
}

impl Inflation {
    /// Whether the supply can never change.
    pub open spec fn fixed(self) -> bool {
        self == Inflation::Fixed
    }

    /// Whether more of the asset can be issued later.
    pub open spec fn inflatible(self) -> bool {
        self == Inflation::Inflatible || self == Inflation::InflatibleBurnable || self
            == Inflation::Replaceable
    }

    /// Whether the asset can be replaced.
    pub open spec fn replacable(self) -> bool {
        self == Inflation::Replaceable
    }

    /// Whether the asset can be burned, which is so of `Burnable` and of
    /// `Replaceable`.
    pub open spec fn burnable(self) -> bool {
        self == Inflation::Burnable || self == Inflation::Replaceable
    }

    #[verifier::when_used_as_spec(fixed)]
    pub fn is_fixed(self) -> (r: bool)
        ensures
            r == self.fixed(),
    {
        self == Inflation::Fixed
    }

    #[verifier::when_used_as_spec(inflatible)]
    pub fn is_inflatible(self) -> (r: bool)
        ensures
            r == self.inflatible(),
    {
        self == Inflation::Inflatible || self == Inflation::InflatibleBurnable || self
            == Inflation::Replaceable
    }

    #[verifier::when_used_as_spec(replacable)]
    pub fn is_replacable(self) -> (r: bool)
        ensures
            r == self.replacable(),
    {
        self == Inflation::Replaceable
    }

    #[verifier::when_used_as_spec(burnable)]
    pub fn is_burnable(self) -> (r: bool)
        ensures
            r == self.burnable(),
    {
        self == Inflation::Burnable || self == Inflation::Replaceable
    }
}

impl Default for Inflation {
    fn default() -> (r: Self)
        ensures
            r == Inflation::Fixed,
    {
        Inflation::Fixed
    }
}

/// Optional capabilities of a fungible asset interface.
#[derive(Copy, Clone, PartialEq, Eq, Structural, PartialOrd, Ord, Hash, Debug)]
pub struct Features {
    pub renaming: bool,
    pub reserves: bool,
    pub inflation: Inflation,
}

impl Features {
    pub fn none() -> (r: Self)
        ensures
            r == (Features { renaming: false, reserves: false, inflation: Inflation::Fixed }),
    {
        Features { renaming: false, reserves: false, inflation: Inflation::Fixed }
    }

    pub fn all() -> (r: Self)
        ensures
            r == (Features { renaming: true, reserves: true, inflation: Inflation::Replaceable }),
    {
        Features { renaming: true, reserves: true, inflation: Inflation::Replaceable }
    }
}

impl Default for Features {
    fn default() -> (r: Self)
        ensures
            r == (Features { renaming: false, reserves: false, inflation: Inflation::Fixed }),
    {
        Features { renaming: false, reserves: false, inflation: Inflation::Fixed }
    }
}

/// Reasons for which an allocation of newly issued assets is refused.
#[derive(Copy, Clone, PartialEq, Eq, Structural, Hash, Debug)]
pub enum AllocationError {
    /// The contract genesis does not support allocating to liquid seals.
    NoLiquidSupport,
    /// The total amount of issued assets would exceed the amount domain.
    AmountOverflow,
}

/// The identifier of the interface of fungible assets.
pub const IFACE_ID: [u8; 32] = [
    0xd3, 0xa5, 0x1e, 0x8c, 0x19, 0xad, 0x05, 0x4f, 0xc8, 0x95, 0x0d, 0x13, 0x0f, 0xc9, 0x54, 0xbd,
    0xba, 0x2b, 0x27, 0xe9, 0x08, 0x6d, 0xf3, 0xcd, 0x7e, 0x34, 0x18, 0x60, 0xf9, 0x4f, 0x73, 0x8e,
];

/// The name of the interface of fungible assets.
pub const IFACE_NAME: &'static str = "RGB20";

/// The amounts of the allocations, summed as mathematical integers.
pub open spec fn total_amount(allocs: Seq<Assignment<Amount>>) -> int
    decreases allocs.len(),
{
    if allocs.len() == 0 {
        0
    } else {
        total_amount(allocs.drop_last()) + allocs.last().state
    }
}

/// The amounts, summed as mathematical integers.
pub open spec fn total_of(amounts: Seq<Amount>) -> int
    decreases amounts.len(),
{
    if amounts.len() == 0 {
        0
    } else {
        total_of(amounts.drop_last()) + amounts.last()
    }
}

/// A sum as an amount: the sum itself where an amount can hold it, and the
/// largest amount where it cannot.
pub open spec fn saturated(sum: int) -> Amount {
    if sum <= u64::MAX {
        sum as u64
    } else {
        u64::MAX
    }
}

/// A sum of amounts is never less than nothing.
pub proof fn lemma_total_of_nonnegative(amounts: Seq<Amount>)
    ensures
        total_of(amounts) >= 0,
    decreases amounts.len(),
{
    if amounts.len() > 0 {
        lemma_total_of_nonnegative(amounts.drop_last());
    }
}

/// A sum of the amounts of allocations is never less than nothing.
pub proof fn lemma_total_amount_nonnegative(allocs: Seq<Assignment<Amount>>)
    ensures
        total_amount(allocs) >= 0,
    decreases allocs.len(),
{
    if allocs.len() > 0 {
        lemma_total_amount_nonnegative(allocs.drop_last());
    }
}

/// Adds up amounts; a sum that no amount can hold is given as the largest
/// amount.
pub fn sum_amounts(amounts: &Vec<Amount>) -> (r: Amount)
    ensures
        r == saturated(total_of(amounts@)),
{
    let mut sum: Amount = 0;
    let mut i: usize = 0;
    while i < amounts.len()
        invariant
            i <= amounts.len(),
            sum == saturated(total_of(amounts@.take(i as int))),
        decreases amounts.len() - i,
    {
        proof {
            assert(amounts@.take(i as int + 1).drop_last() =~= amounts@.take(i as int));
            lemma_total_of_nonnegative(amounts@.take(i as int));
        }
        sum = match sum.checked_add(amounts[i]) {
            Some(more) => more,
            None => u64::MAX,
        };
        i += 1;
    }
    proof {
        assert(amounts@.take(amounts.len() as int) =~= amounts@);
    }
    sum
}

/// Adds up the amounts of allocations; a sum that no amount can hold is
/// given as the largest amount.
pub fn sum_allocations(allocs: &Vec<FungibleAllocation>) -> (r: Amount)
    ensures
        r == saturated(total_amount(assignment_views(allocs@))),
{
    let ghost views = assignment_views(allocs@);
    let mut sum: Amount = 0;
    let mut i: usize = 0;
    while i < allocs.len()
        invariant
            i <= allocs.len(),
            views == assignment_views(allocs@),
            sum == saturated(total_amount(views.take(i as int))),
        decreases allocs.len() - i,
    {
        proof {
            assert(views.take(i as int + 1).drop_last() =~= views.take(i as int));
            lemma_total_amount_nonnegative(views.take(i as int));
        }
        sum = match sum.checked_add(allocs[i].state) {
            Some(more) => more,
            None => u64::MAX,
        };
        i += 1;
    }
    proof {
        assert(views.take(allocs.len() as int) =~= views);
    }
    sum
}

/// A contract of a fungible asset, seen through the interface of fungible
/// assets.
#[derive(Clone, PartialEq, Eq, Debug)]
pub struct Rgb20(pub ContractIface);

impl Rgb20 {
    /// Whether the contract is bound to the interface of fungible assets.
    pub fn implements(iface: &ContractIface) -> (r: bool)
        ensures
            r == (iface.iface.iface_id == IFACE_ID),
    {
        crate::state::same_bytes32(&iface.iface.iface_id, &IFACE_ID)
    }

    /// Takes a contract as one of a fungible asset. The contract must be
    /// bound to the interface of fungible assets.
    pub fn new(iface: ContractIface) -> (r: Rgb20)
        requires
            iface.iface.iface_id == IFACE_ID,
        ensures
            r.0 == iface,
    {
        Rgb20(iface)
    }

    /// Starts the issue of an asset on a test network, or tells why the
    /// texts are refused.
    pub fn testnet(
        ticker: &str,
        name: &str,
        details: Option<&str>,
        precision: Precision,
        features: Features,
    ) -> (r: Result<PrimaryIssue, InvalidIdent>)
        ensures
            match r {
                Ok(issue) => naming_fault(ticker@, name@, optional_text(details)) is None
                    && issue.wf() && issue.features == features && issue.spec.naming.ticker@
                    == ticker@ && issue.spec.naming.name@ == name@ && optional_details(
                    issue.spec.naming.details,
                ) == optional_text(details) && issue.spec.precision == precision
                    && issue.terms.text@ == Seq::<char>::empty() && issue.terms.media is None
                    && issue.asset_tag is None && !issue.liquid && issue.issued == 0
                    && !issue.deterministic && issue.allocations@ == Seq::<
                    IssueAllocation,
                >::empty(),
                Err(e) => naming_fault(ticker@, name@, optional_text(details)) == Some(e@),
            },
    {
        PrimaryIssue::testnet(ticker, name, details, precision, features)
    }

    /// Starts the issue of an asset on a test network that is to be
    /// reproducible, under the given tag, or tells why the texts are
    /// refused.
    pub fn testnet_det(
        ticker: &str,
        name: &str,
        details: Option<&str>,
        precision: Precision,
        features: Features,
        asset_tag: [u8; 32],
    ) -> (r: Result<PrimaryIssue, InvalidIdent>)
        ensures
            match r {
                Ok(issue) => naming_fault(ticker@, name@, optional_text(details)) is None
                    && issue.wf() && issue.features == features && issue.spec.naming.ticker@
                    == ticker@ && issue.spec.naming.name@ == name@ && optional_details(
                    issue.spec.naming.details,
                ) == optional_text(details) && issue.spec.precision == precision
                    && issue.terms.text@ == Seq::<char>::empty() && issue.terms.media is None
                    && issue.asset_tag == Some(asset_tag) && !issue.liquid && issue.issued == 0
                    && issue.deterministic && issue.allocations@ == Seq::<
                    IssueAllocation,
                >::empty(),
                Err(e) => naming_fault(ticker@, name@, optional_text(details)) == Some(e@),
            },
    {
        PrimaryIssue::testnet_det(ticker, name, details, precision, features, asset_tag)
    }

    /// The encoded specification of the asset: what the store holds first
    /// for the field `spec`, with the type that decodes it.
    pub fn asset_spec(&self) -> (r: (crate::state::SemId, Vec<u8>))
        requires
            self.0.iface.global_binding("spec"@) matches Some(ty) && self.0.schema.global_sem_id(ty)
                is Some && global_values(self.0.state.global@, ty).len() > 0,
        ensures
            self.0.iface.global_binding("spec"@) matches Some(ty) && Some(r.0)
                == self.0.schema.global_sem_id(ty) && r.1@ == global_values(
                self.0.state.global@,
                ty,
            )[0],
    {
        Self::first_value(self.0.global("spec"))
    }

    /// The encoded terms of the contract: what the store holds first for the
    /// field `terms`, with the type that decodes it.
    pub fn contract_terms(&self) -> (r: (crate::state::SemId, Vec<u8>))
        requires
            self.0.iface.global_binding("terms"@) matches Some(ty) && self.0.schema.global_sem_id(
                ty,
            ) is Some && global_values(self.0.state.global@, ty).len() > 0,
        ensures
            self.0.iface.global_binding("terms"@) matches Some(ty) && Some(r.0)
                == self.0.schema.global_sem_id(ty) && r.1@ == global_values(
                self.0.state.global@,
                ty,
            )[0],
    {
        Self::first_value(self.0.global("terms"))
    }

    fn first_value(found: Result<GlobalValues, ContractError>) -> (r: (crate::state::SemId, Vec<u8>))
        requires
            found matches Ok(values) && values.values@.len() > 0,
        ensures
            found matches Ok(values) && r.0 == values.sem_id && r.1@ == values.values@[0]@,
    {
        match found {
            Ok(values) => {
                let mut all = values.values;
                let first = all.swap_remove(0);
                (values.sem_id, first)
            },
            Err(_) => vstd::pervasive::unreached(),
        }
    }

    /// The amounts of the asset on the outputs that the filter holds, summed;
    /// a sum that no amount can hold is given as the largest amount.
    ///
    /// The interface of the contract must bind `assetOwner`.
    pub fn balance<F: OutpointFilter>(&self, filter: F) -> (r: Amount)
        requires
            self.0.iface.assignment_binding("assetOwner"@) is Some,
        ensures
            r == saturated(
                total_amount(
                    select(
                        assignment_views(self.0.state.fungible@),
                        self.0.iface.assignment_binding("assetOwner"@),
                        filter,
                    ),
                ),
            ),
    {
        let found = self.allocations(filter).collect();
        sum_allocations(&found)
    }

    /// A pass over the amounts of the asset on the outputs that the filter
    /// holds.
    ///
    /// The interface of the contract must bind `assetOwner`.
    pub fn allocations<'c, F: OutpointFilter>(&'c self, filter: F) -> (r: Allocations<
        'c,
        Amount,
        F,
    >)
        requires
            self.0.iface.assignment_binding("assetOwner"@) is Some,
        ensures
            r.wf(),
            r.remaining() == select(
                assignment_views(self.0.state.fungible@),
                self.0.iface.assignment_binding("assetOwner"@),
                filter,
            ),
    {
        match self.0.fungible("assetOwner", filter) {
            Ok(pass) => pass,
            Err(_) => vstd::pervasive::unreached(),
        }
    }

    /// A pass over the allowances to inflate the asset, on the outputs that
    /// the filter holds.
    ///
    /// The interface of the contract must bind `inflationAllowance`.
    pub fn inflation_allowance_allocations<'c, F: OutpointFilter>(&'c self, filter: F) -> (r:
        Allocations<'c, Amount, F>)
        requires
            self.0.iface.assignment_binding("inflationAllowance"@) is Some,
        ensures
            r.wf(),
            r.remaining() == select(
                assignment_views(self.0.state.fungible@),
                self.0.iface.assignment_binding("inflationAllowance"@),
                filter,
            ),
    {
        match self.0.fungible("inflationAllowance", filter) {
            Ok(pass) => pass,
            Err(_) => vstd::pervasive::unreached(),
        }
    }

    fn rights_of<'c, F: OutpointFilter>(&'c self, name: &str, filter: F) -> (r: Allocations<
        'c,
        VoidState,
        F,
    >)
        requires
            self.0.iface.assignment_binding(name@) is Some,
        ensures
            r.wf(),
            r.remaining() == select(
                assignment_views(self.0.state.rights@),
                self.0.iface.assignment_binding(name@),
                filter,
            ),
    {
        match self.0.rights(name, filter) {
            Ok(pass) => pass,
            Err(_) => vstd::pervasive::unreached(),
        }
    }

    /// A pass over the rights to rename the asset, on the outputs that the
    /// filter holds.
    ///
    /// The interface of the contract must bind `updateRight`.
    pub fn update_right<'c, F: OutpointFilter>(&'c self, filter: F) -> (r: Allocations<
        'c,
        VoidState,
        F,
    >)
        requires
            self.0.iface.assignment_binding("updateRight"@) is Some,
        ensures
            r.wf(),
            r.remaining() == select(
                assignment_views(self.0.state.rights@),
                self.0.iface.assignment_binding("updateRight"@),
                filter,
            ),
    {
        self.rights_of("updateRight", filter)
    }

    /// A pass over the rights to open an epoch of burning, on the outputs
    /// that the filter holds.
    ///
    /// The interface of the contract must bind `burnEpoch`.
    pub fn burn_epoch<'c, F: OutpointFilter>(&'c self, filter: F) -> (r: Allocations<
        'c,
        VoidState,
        F,
    >)
        requires
            self.0.iface.assignment_binding("burnEpoch"@) is Some,
        ensures
            r.wf(),
            r.remaining() == select(
                assignment_views(self.0.state.rights@),
                self.0.iface.assignment_binding("burnEpoch"@),
                filter,
            ),
    {
        self.rights_of("burnEpoch", filter)
    }

    /// A pass over the rights to burn the asset, on the outputs that the
    /// filter holds.
    ///
    /// The interface of the contract must bind `burnRight`.
    pub fn burn_right<'c, F: OutpointFilter>(&'c self, filter: F) -> (r: Allocations<
        'c,
        VoidState,
        F,
    >)
        requires
            self.0.iface.assignment_binding("burnRight"@) is Some,
        ensures
            r.wf(),
            r.remaining() == select(
                assignment_views(self.0.state.rights@),
                self.0.iface.assignment_binding("burnRight"@),
                filter,
            ),
    {
        self.rights_of("burnRight", filter)
    }

    /// The encoded values of the field `name`, where the interface binds it,
    /// and none where it does not.
    fn optional_global(&self, name: &str) -> (r: Vec<Vec<u8>>)
        requires
            self.0.iface.global_binding(name@) matches Some(ty) ==> self.0.schema.global_sem_id(ty)
                is Some,
        ensures
            byte_views(r@) == match self.0.iface.global_binding(name@) {
                Some(ty) => global_values(self.0.state.global@, ty),
                None => Seq::empty(),
            },
    {
        match self.0.global(name) {
            Ok(found) => found.values,
            Err(_) => {
                let none: Vec<Vec<u8>> = Vec::new();
                proof {
                    assert(byte_views(none@) =~= Seq::empty());
                }
                none
            },
        }
    }

    /// The encoded amounts of every issue of the asset, in the order of the
    /// store.
    ///
    /// The interface of the contract must bind `issuedSupply`, and the
    /// schema must know the state that it is bound to.
    pub fn issued_supply(&self) -> (r: Vec<Vec<u8>>)
        requires
            self.0.iface.global_binding("issuedSupply"@) matches Some(ty)
                && self.0.schema.global_sem_id(ty) is Some,
        ensures
            self.0.iface.global_binding("issuedSupply"@) matches Some(ty) && byte_views(r@)
                == global_values(self.0.state.global@, ty),
    {
        self.optional_global("issuedSupply")
    }

    /// The encoded amounts of everything burned of the asset, in the order
    /// of the store; none where the asset cannot be burned.
    pub fn burned_supply(&self) -> (r: Vec<Vec<u8>>)
        requires
            self.0.iface.global_binding("burnedSupply"@) matches Some(ty)
                ==> self.0.schema.global_sem_id(ty) is Some,
        ensures
            byte_views(r@) == match self.0.iface.global_binding("burnedSupply"@) {
                Some(ty) => global_values(self.0.state.global@, ty),
                None => Seq::empty(),
            },
    {
        self.optional_global("burnedSupply")
    }

    /// The encoded amounts of everything replaced of the asset, in the order
    /// of the store; none where the asset cannot be replaced.
    pub fn replaced_supply(&self) -> (r: Vec<Vec<u8>>)
        requires
            self.0.iface.global_binding("replacedSupply"@) matches Some(ty)
                ==> self.0.schema.global_sem_id(ty) is Some,
        ensures
            byte_views(r@) == match self.0.iface.global_binding("replacedSupply"@) {
                Some(ty) => global_values(self.0.state.global@, ty),
                None => Seq::empty(),
            },
    {
        self.optional_global("replacedSupply")
    }

    /// What was issued of the asset in all: the decoded amounts of
    /// `issued_supply`, summed.
    pub fn total_issued_supply(issued: &Vec<Amount>) -> (r: Amount)
        ensures
            r == saturated(total_of(issued@)),
    {
        sum_amounts(issued)
    }

    /// What was burned of the asset in all: the decoded amounts of
    /// `burned_supply`, summed.
    pub fn total_burned_supply(burned: &Vec<Amount>) -> (r: Amount)
        ensures
            r == saturated(total_of(burned@)),
    {
        sum_amounts(burned)
    }

    /// What was replaced of the asset in all: the decoded amounts of
    /// `replaced_supply`, summed.
    pub fn total_replaced_supply(replaced: &Vec<Amount>) -> (r: Amount)
        ensures
            r == saturated(total_of(replaced@)),
    {
        sum_amounts(replaced)
    }

    /// What there is of the asset: what was issued less what was burned.
    /// No more can have been burned than was issued.
    pub fn total_supply(issued: &Vec<Amount>, burned: &Vec<Amount>) -> (r: Amount)
        requires
            saturated(total_of(burned@)) <= saturated(total_of(issued@)),
        ensures
            r == saturated(total_of(issued@)) - saturated(total_of(burned@)),
    {
        Self::total_issued_supply(issued) - Self::total_burned_supply(burned)
    }

    /// The history of the asset's amounts on the outputs that the filter
    /// holds, by settling transaction.
    ///
    /// The interface of the contract must bind `assetOwner`, and the amounts
    /// of the store must be fit for aggregation.
    pub fn transfer_history<F: OutpointFilter>(&self, filter: F) -> (r: WitnessOps<AmountChange>)
        requires
            self.0.iface.assignment_binding("assetOwner"@) matches Some(ty)
                && field_history_fault::<AmountChange, F>(
                assignment_views(self.0.state.fungible@),
                ty,
                filter,
            ) is None,
        ensures
            r.wf(),
            self.0.iface.assignment_binding("assetOwner"@) matches Some(ty) && r@
                == field_history::<AmountChange, F>(
                assignment_views(self.0.state.fungible@),
                ty,
                filter,
            ),
    {
        match self.0.fungible_ops::<AmountChange, F>("assetOwner", filter) {
            Ok(ops) => ops,
            Err(_) => vstd::pervasive::unreached(),
        }
    }
}

} // verus!
