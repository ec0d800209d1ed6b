use vstd::prelude::*;
use crate::change::Amount;
use crate::rgb20::AllocationError;
use crate::rgb20::Features;
use crate::rgb20::Rgb20;
use crate::specs::DivisibleAssetSpec;
use crate::specs::InvalidIdent;
use crate::specs::naming_fault;
use crate::specs::optional_details;
use crate::specs::optional_text;
use crate::specs::Precision;
use crate::specs::RicardianContract;
use crate::specs::contract_fault;
use crate::state::AttachState;
use crate::state::CloseMethod;
use crate::state::Layer1;
use crate::state::Outpoint;

verus! {

/// The parts that the interface of a fungible asset is put together from.
#[derive(Copy, Clone, PartialEq, Eq, Structural, Hash, Debug)]
pub enum IfacePart {
    NamedAsset,
    Fungible,
    Renameable,
    Fixed,
    Inflatable,
    Replaceable,
    Burnable,
    Reservable,
}

/// One or no part, by a condition.
pub open spec fn part_if(condition: bool, part: IfacePart) -> Seq<IfacePart> {
    if condition {
        seq![part]
    } else {
        Seq::empty()
    }
}

/// The parts of the interface of an asset with the given features, in the
/// order in which they extend one another: the named and the fungible asset
/// always; then what renaming, the policy of inflation and reserves ask for.
/// An asset that can be replaced takes that part in place of the one for
/// burning.
pub open spec fn iface_parts(features: Features) -> Seq<IfacePart> {
    seq![IfacePart::NamedAsset, IfacePart::Fungible] + part_if(
        features.renaming,
        IfacePart::Renameable,
    ) + part_if(features.inflation.is_fixed(), IfacePart::Fixed) + part_if(
        features.inflation.is_inflatible(),
        IfacePart::Inflatable,
    ) + part_if(features.inflation.is_replacable(), IfacePart::Replaceable) + part_if(
        !features.inflation.is_replacable() && features.inflation.is_burnable(),
        IfacePart::Burnable,
    ) + part_if(features.reserves, IfacePart::Reservable)
}

impl Rgb20 {
    /// The parts that the interface of an asset with the given features is
    /// put together from.
    pub fn iface_parts(features: Features) -> (r: Vec<IfacePart>)
        ensures
            r@ == iface_parts(features),
    {
        let mut parts: Vec<IfacePart> = Vec::new();
        parts.push(IfacePart::NamedAsset);
        parts.push(IfacePart::Fungible);
        if features.renaming {
            parts.push(IfacePart::Renameable);
        }
        if features.inflation.is_fixed() {
            parts.push(IfacePart::Fixed);
        }
        if features.inflation.is_inflatible() {
            parts.push(IfacePart::Inflatable);
        }
        if features.inflation.is_replacable() {
            parts.push(IfacePart::Replaceable);
        } else if features.inflation.is_burnable() {
            parts.push(IfacePart::Burnable);
        }
        if features.reserves {
            parts.push(IfacePart::Reservable);
        }
        assert(parts@ =~= iface_parts(features));
        parts
    }
}

/// The terms under which an asset is issued: the text of the contract, and
/// a file that goes with it.
#[derive(Clone, PartialEq, Eq, Debug)]
pub struct AssetTerms {
    pub text: RicardianContract,
    pub media: Option<AttachState>,
}

/// How the seal of an allocation is blinded where the issue is to be
/// reproducible: the blinding of the seal and that of the amount.
#[derive(Copy, Clone, PartialEq, Eq, Debug)]
pub struct Blinding {
    pub seal: u64,
    pub amount: [u8; 32],
}

/// One allocation of newly issued assets: to which output, how the output
/// commits to it, how much, and the blinding where it is fixed beforehand.
#[derive(Copy, Clone, PartialEq, Eq, Debug)]
pub struct IssueAllocation {
    pub method: CloseMethod,
    pub beneficiary: Outpoint,
    pub amount: Amount,
    pub blinding: Option<Blinding>,
}

/// The amounts of the allocations, summed as mathematical integers.
pub open spec fn allocated_total(allocations: Seq<IssueAllocation>) -> int
    decreases allocations.len(),
{
    if allocations.len() == 0 {
        0
    } else {
        allocated_total(allocations.drop_last()) + allocations.last().amount
    }
}

/// The first issue of a fungible asset, as it is being put together.
#[derive(Clone, PartialEq, Eq, Debug)]
pub struct PrimaryIssue {
    pub features: Features,
    pub spec: DivisibleAssetSpec,
    pub terms: AssetTerms,
    pub asset_tag: Option<[u8; 32]>,
    pub liquid: bool,
    pub issued: Amount,
    pub deterministic: bool,
    pub allocations: Vec<IssueAllocation>,
}

/// Everything that makes up the first issue of an asset, at the moment at
/// which the contract is issued.
#[derive(Clone, PartialEq, Eq, Debug)]
pub struct ContractIssue {
    pub issue: PrimaryIssue,
    pub timestamp: i64,
}

impl PrimaryIssue {
    /// What is issued is what is allocated; an output on Liquid is allocated
    /// to only where the issue supports Liquid; and the blinding of every
    /// allocation is fixed beforehand exactly where the issue is to be
    /// reproducible.
    pub open spec fn wf(&self) -> bool {
        &&& self.issued == allocated_total(self.allocations@)
        &&& forall|i: int|
            0 <= i < self.allocations@.len() ==> {
                &&& (#[trigger] self.allocations@[i]).beneficiary.layer1 == Layer1::Liquid
                    ==> self.liquid
                &&& self.allocations@[i].blinding is Some == self.deterministic
            }
        &&& self.deterministic == self.asset_tag is Some
    }

    fn start(
        features: Features,
        ticker: &str,
        name: &str,
        details: Option<&str>,
        precision: Precision,
        asset_tag: Option<[u8; 32]>,
    ) -> (r: Result<PrimaryIssue, InvalidIdent>)
        ensures
            match r {
                Ok(issue) => naming_fault(ticker@, name@, optional_text(details)) is None
                    && issue.wf() && issue.features == features && issue.spec.naming.ticker@
                    == ticker@ && issue.spec.naming.name@ == name@ && optional_details(
                    issue.spec.naming.details,
                ) == optional_text(details) && issue.spec.precision == precision
                    && issue.terms.text@ == Seq::<char>::empty() && issue.terms.media is None
                    && issue.asset_tag == asset_tag && !issue.liquid && issue.issued == 0
                    && issue.deterministic == asset_tag is Some && issue.allocations@
                    == Seq::<IssueAllocation>::empty(),
                Err(e) => naming_fault(ticker@, name@, optional_text(details)) == Some(e@),
            },
    {
        let spec = match DivisibleAssetSpec::with(ticker, name, precision, details) {
            Ok(spec) => spec,
            Err(e) => {
                return Err(e);
            },
        };
        let terms = AssetTerms { text: RicardianContract::default(), media: None };
        Ok(
            PrimaryIssue {
                features,
                spec,
                terms,
                asset_tag,
                liquid: false,
                issued: 0,
                deterministic: asset_tag.is_some(),
                allocations: Vec::new(),
            },
        )
    }

    /// Starts the issue of an asset on a test network, or tells why the
    /// texts are refused.
    pub fn testnet(
        ticker: &str,
        name: &str,
        details: Option<&str>,
        precision: Precision,
        features: Features,
    ) -> (r: Result<PrimaryIssue, InvalidIdent>)
        ensures
            match r {
                Ok(issue) => naming_fault(ticker@, name@, optional_text(details)) is None
                    && issue.wf() && issue.features == features && issue.spec.naming.ticker@
                    == ticker@ && issue.spec.naming.name@ == name@ && optional_details(
                    issue.spec.naming.details,
                ) == optional_text(details) && issue.spec.precision == precision
                    && issue.terms.text@ == Seq::<char>::empty() && issue.terms.media is None
                    && issue.asset_tag is None && !issue.liquid && issue.issued == 0
                    && !issue.deterministic && issue.allocations@ == Seq::<
                    IssueAllocation,
                >::empty(),
                Err(e) => naming_fault(ticker@, name@, optional_text(details)) == Some(e@),
            },
    {
        Self::start(features, ticker, name, details, precision, None)
    }

    /// Starts the issue of an asset on a test network that is to be
    /// reproducible, under the given tag, or tells why the texts are
    /// refused.
    pub fn testnet_det(
        ticker: &str,
        name: &str,
        details: Option<&str>,
        precision: Precision,
        features: Features,
        asset_tag: [u8; 32],
    ) -> (r: Result<PrimaryIssue, InvalidIdent>)
        ensures
            match r {
                Ok(issue) => naming_fault(ticker@, name@, optional_text(details)) is None
                    && issue.wf() && issue.features == features && issue.spec.naming.ticker@
                    == ticker@ && issue.spec.naming.name@ == name@ && optional_details(
                    issue.spec.naming.details,
                ) == optional_text(details) && issue.spec.precision == precision
                    && issue.terms.text@ == Seq::<char>::empty() && issue.terms.media is None
                    && issue.asset_tag == Some(asset_tag) && !issue.liquid && issue.issued == 0
                    && issue.deterministic && issue.allocations@ == Seq::<
                    IssueAllocation,
                >::empty(),
                Err(e) => naming_fault(ticker@, name@, optional_text(details)) == Some(e@),
            },
    {
        Self::start(features, ticker, name, details, precision, Some(asset_tag))
    }

    /// Lets the issue allocate to outputs on Liquid. Support for it can be
    /// asked for once.
    pub fn support_liquid(self) -> (r: PrimaryIssue)
        requires
            self.wf(),
            !self.liquid,
        ensures
            r.wf(),
            r == (PrimaryIssue { liquid: true, ..self }),
    {
        let mut issue = self;
        issue.liquid = true;
        issue
    }

    /// Sets the terms of the issue, or tells why the text is refused as the
    /// text of a contract.
    pub fn add_terms(self, contract: &str, media: Option<AttachState>) -> (r: Result<
        PrimaryIssue,
        InvalidIdent,
    >)
        requires
            self.wf(),
        ensures
            match r {
                Ok(issue) => contract_fault(contract@) is None && issue.wf()
                    && issue.terms.text@ == contract@ && issue.terms.media == media
                    && issue.features == self.features && issue.spec == self.spec
                    && issue.asset_tag == self.asset_tag && issue.liquid == self.liquid
                    && issue.issued == self.issued && issue.deterministic == self.deterministic
                    && issue.allocations == self.allocations,
                Err(e) => contract_fault(contract@) == Some(e@),
            },
    {
        let text = match RicardianContract::from_str(contract) {
            Ok(text) => text,
            Err(e) => {
                return Err(e);
            },
        };
        let mut issue = self;
        issue.terms = AssetTerms { text, media };
        Ok(issue)
    }

    /// Why the amount cannot be allocated to the output, if it cannot: what
    /// is issued would no longer fit into an amount, or the output is on
    /// Liquid and the issue does not support it.
    pub open spec fn allocation_fault(&self, beneficiary: Outpoint, amount: Amount) -> Option<
        AllocationError,
    > {
        if self.issued + amount > u64::MAX {
            Some(AllocationError::AmountOverflow)
        } else if beneficiary.layer1 == Layer1::Liquid && !self.liquid {
            Some(AllocationError::NoLiquidSupport)
        } else {
            None
        }
    }

    fn place(self, allocation: IssueAllocation) -> (r: Result<PrimaryIssue, AllocationError>)
        requires
            self.wf(),
            allocation.blinding is Some == self.deterministic,
        ensures
            match r {
                Ok(issue) => self.allocation_fault(allocation.beneficiary, allocation.amount)
                    is None && issue.wf() && issue.issued == self.issued + allocation.amount
                    && issue.allocations@ == self.allocations@.push(allocation) && issue.features
                    == self.features && issue.spec == self.spec && issue.terms == self.terms
                    && issue.asset_tag == self.asset_tag && issue.liquid == self.liquid
                    && issue.deterministic == self.deterministic,
                Err(e) => self.allocation_fault(allocation.beneficiary, allocation.amount)
                    == Some(e),
            },
    {
        let issued = match self.issued.checked_add(allocation.amount) {
            Some(issued) => issued,
            None => {
                return Err(AllocationError::AmountOverflow);
            },
        };
        let on_liquid = match allocation.beneficiary.layer1 {
            Layer1::Liquid => true,
            Layer1::Bitcoin => false,
        };
        if on_liquid && !self.liquid {
            return Err(AllocationError::NoLiquidSupport);
        }
        let ghost before = self.allocations@;
        let mut issue = self;
        issue.issued = issued;
        issue.allocations.push(allocation);
        proof {
            assert(issue.allocations@.drop_last() =~= before);
        }
        Ok(issue)
    }

    /// Allocates an amount of the asset to an output.
    ///
    /// The issue must not be one that is to be reproducible.
    pub fn allocate(self, method: CloseMethod, beneficiary: Outpoint, amount: Amount) -> (r: Result<
        PrimaryIssue,
        AllocationError,
    >)
        requires
            self.wf(),
            !self.deterministic,
        ensures
            match r {
                Ok(issue) => self.allocation_fault(beneficiary, amount) is None && issue.wf()
                    && issue.issued == self.issued + amount && issue.allocations@
                    == self.allocations@.push(
                    IssueAllocation { method, beneficiary, amount, blinding: None },
                ) && issue.features == self.features && issue.spec == self.spec && issue.terms
                    == self.terms && issue.asset_tag == self.asset_tag && issue.liquid
                    == self.liquid && issue.deterministic == self.deterministic,
                Err(e) => self.allocation_fault(beneficiary, amount) == Some(e),
            },
    {
        self.place(IssueAllocation { method, beneficiary, amount, blinding: None })
    }

    /// Allocates amounts of the asset to outputs, one after the other, and
    /// stops at the first that cannot be allocated.
    ///
    /// The issue must not be one that is to be reproducible.
    pub fn allocate_all(self, method: CloseMethod, allocations: &Vec<(Outpoint, Amount)>) -> (r:
        Result<PrimaryIssue, AllocationError>)
        requires
            self.wf(),
            !self.deterministic,
        ensures
            match r {
                Ok(issue) => (forall|k: int|
                    0 <= k < allocations@.len() ==> #[trigger] first_allocation_fault(
                        self,
                        allocations@,
                        k,
                    ) is None) && issue.wf() && issue.issued == self.issued + pairs_total(
                    allocations@,
                ) && issue.allocations@ == self.allocations@ + plain_allocations(
                    method,
                    allocations@,
                ) && issue.features == self.features && issue.spec == self.spec && issue.terms
                    == self.terms && issue.asset_tag == self.asset_tag && issue.liquid
                    == self.liquid && issue.deterministic == self.deterministic,
                Err(e) => exists|n: int|
                    0 <= n < allocations@.len() && (forall|k: int|
                        0 <= k < n ==> #[trigger] first_allocation_fault(self, allocations@, k)
                            is None) && #[trigger] first_allocation_fault(
                        self,
                        allocations@,
                        n,
                    ) == Some(e),
            },
    {
        let ghost first = self;
        let mut issue = self;
        let mut i: usize = 0;
        proof {
            assert(plain_allocations(method, allocations@.take(0)) =~= Seq::empty());
            assert(first.allocations@ + Seq::<IssueAllocation>::empty() =~= first.allocations@);
        }
        while i < allocations.len()
            invariant
                i <= allocations.len(),
                first == self,
                first.wf(),
                !first.deterministic,
                forall|k: int|
                    0 <= k < i ==> #[trigger] first_allocation_fault(first, allocations@, k)
                        is None,
                issue.wf(),
                issue.issued == first.issued + pairs_total(allocations@.take(i as int)),
                issue.allocations@ == first.allocations@ + plain_allocations(
                    method,
                    allocations@.take(i as int),
                ),
                issue.features == first.features,
                issue.spec == first.spec,
                issue.terms == first.terms,
                issue.asset_tag == first.asset_tag,
                issue.liquid == first.liquid,
                issue.deterministic == first.deterministic,
            decreases allocations.len() - i,
        {
            let (beneficiary, amount) = allocations[i];
            let ghost done = allocations@.take(i as int);
            proof {
                assert(allocations@.take(i as int + 1).drop_last() =~= done);
                assert(plain_allocations(method, allocations@.take(i as int + 1))
                    =~= plain_allocations(method, done).push(
                    IssueAllocation { method, beneficiary, amount, blinding: None },
                ));
            }
            issue = match issue.allocate(method, beneficiary, amount) {
                Ok(next) => next,
                Err(e) => {
                    proof {
                        assert(first_allocation_fault(first, allocations@, i as int) == Some(e));
                    }
                    return Err(e);
                },
            };
            proof {
                assert((first.allocations@ + plain_allocations(method, done)).push(
                    IssueAllocation { method, beneficiary, amount, blinding: None },
                ) =~= first.allocations@ + plain_allocations(
                    method,
                    allocations@.take(i as int + 1),
                ));
            }
            i += 1;
        }
        proof {
            assert(allocations@.take(allocations.len() as int) =~= allocations@);
        }
        Ok(issue)
    }

    /// Allocates an amount of the asset to an output, with the blinding
    /// fixed beforehand.
    ///
    /// The issue must be one that is to be reproducible.
    pub fn allocate_det(
        self,
        method: CloseMethod,
        beneficiary: Outpoint,
        seal_blinding: u64,
        amount: Amount,
        amount_blinding: [u8; 32],
    ) -> (r: Result<PrimaryIssue, AllocationError>)
        requires
            self.wf(),
            self.deterministic,
        ensures
            match r {
                Ok(issue) => self.allocation_fault(beneficiary, amount) is None && issue.wf()
                    && issue.issued == self.issued + amount && issue.allocations@
                    == self.allocations@.push(
                    IssueAllocation {
                        method,
                        beneficiary,
                        amount,
                        blinding: Some(Blinding { seal: seal_blinding, amount: amount_blinding }),
                    },
                ) && issue.features == self.features && issue.spec == self.spec && issue.terms
                    == self.terms && issue.asset_tag == self.asset_tag && issue.liquid
                    == self.liquid && issue.deterministic == self.deterministic,
                Err(e) => self.allocation_fault(beneficiary, amount) == Some(e),
            },
    {
        self.place(
            IssueAllocation {
                method,
                beneficiary,
                amount,
                blinding: Some(Blinding { seal: seal_blinding, amount: amount_blinding }),
            },
        )
    }

    /// Closes the issue at the moment given, which the caller reads from the
    /// clock.
    ///
    /// The issue must not be one that is to be reproducible.
    pub fn issue_contract(self, timestamp: i64) -> (r: ContractIssue)
        requires
            !self.deterministic,
        ensures
            r.issue == self,
            r.timestamp == timestamp,
    {
        self.issue_contract_int(timestamp)
    }

    /// Closes the issue at the moment given.
    ///
    /// The issue must be one that is to be reproducible.
    pub fn issue_contract_det(self, timestamp: i64) -> (r: ContractIssue)
        requires
            self.deterministic,
        ensures
            r.issue == self,
            r.timestamp == timestamp,
    {
        self.issue_contract_int(timestamp)
    }

    fn issue_contract_int(self, timestamp: i64) -> (r: ContractIssue)
        ensures
            r.issue == self,
            r.timestamp == timestamp,
    {
        ContractIssue { issue: self, timestamp }
    }
}

/// The amounts of the pairs, summed as mathematical integers.
pub open spec fn pairs_total(pairs: Seq<(Outpoint, Amount)>) -> int
    decreases pairs.len(),
{
    if pairs.len() == 0 {
        0
    } else {
        pairs_total(pairs.drop_last()) + pairs.last().1
    }
}

/// The pairs as allocations whose blinding is not fixed beforehand.
pub open spec fn plain_allocations(method: CloseMethod, pairs: Seq<(Outpoint, Amount)>) -> Seq<
    IssueAllocation,
> {
    pairs.map_values(
        |pair: (Outpoint, Amount)|
            IssueAllocation { method, beneficiary: pair.0, amount: pair.1, blinding: None },
    )
}

/// Why the pair at `n` cannot be allocated after those before it, if it
/// cannot.
pub open spec fn first_allocation_fault(
    issue: PrimaryIssue,
    pairs: Seq<(Outpoint, Amount)>,
    n: int,
) -> Option<AllocationError> {
    if issue.issued + pairs_total(pairs.take(n)) + pairs[n].1 > u64::MAX {
        Some(AllocationError::AmountOverflow)
    } else if pairs[n].0.layer1 == Layer1::Liquid && !issue.liquid {
        Some(AllocationError::NoLiquidSupport)
    } else {
        None
    }
}

} // verus!
