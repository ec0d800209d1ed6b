use vstd::prelude::*;
use crate::change::Amount;

verus! {

/// Identifier of a contract operation.
pub type OpId = [u8; 32];

/// Identifier of a contract.
pub type ContractId = [u8; 32];

/// Identifier of a transaction.
pub type Txid = [u8; 32];

/// Identifier of an attached file.
pub type AttachId = [u8; 32];

/// Identifier of a type in the structural type system that decodes global
/// state.
pub type SemId = [u8; 32];

/// Schema-level identifier of an owned-state slot.
pub type AssignmentType = u16;

/// Schema-level identifier of a kind of global state.
pub type GlobalStateType = u16;

/// Compares two 32-byte identifiers.
pub fn same_bytes32(a: &[u8; 32], b: &[u8; 32]) -> (r: bool)
    ensures
        r == (*a == *b),
{
    let mut i: usize = 0;
    while i < 32
        invariant
            i <= 32,
            forall|k: int| 0 <= k < i ==> a[k] == b[k],
        decreases 32 - i,
    {
        if a[i] != b[i] {
            return false;
        }
        i += 1;
    }
    assert(*a =~= *b);
    true
}

/// The chain on which a transaction settles.
#[derive(Copy, Clone, PartialEq, Eq, Structural, PartialOrd, Ord, Hash, Debug)]
pub enum Layer1 {
    Bitcoin,
    Liquid,
}

/// The way in which a transaction output commits to the state assigned to it.
#[derive(Copy, Clone, PartialEq, Eq, Structural, PartialOrd, Ord, Hash, Debug)]
pub enum CloseMethod {
    OpretFirst,
    TapretFirst,
}

/// Identifier of the transaction that settles an operation, with its chain.
#[derive(Copy, Clone, PartialEq, Eq, Hash, Debug)]
pub struct WitnessId {
    pub layer1: Layer1,
    pub txid: Txid,
}

impl WitnessId {
    pub fn same(&self, other: &WitnessId) -> (r: bool)
        ensures
            r == (*self == *other),
    {
        self.layer1 == other.layer1 && same_bytes32(&self.txid, &other.txid)
    }
}

/// A transaction output, with its chain.
#[derive(Copy, Clone, PartialEq, Eq, Hash, Debug)]
pub struct Outpoint {
    pub layer1: Layer1,
    pub txid: Txid,
    pub vout: u32,
}

impl Outpoint {
    pub fn same(&self, other: &Outpoint) -> (r: bool)
        ensures
            r == (*self == *other),
    {
        self.layer1 == other.layer1 && self.vout == other.vout && same_bytes32(
            &self.txid,
            &other.txid,
        )
    }
}

/// The transaction output that state is bound to, with the way in which the
/// output commits to it.
#[derive(Copy, Clone, PartialEq, Eq, Hash, Debug)]
pub struct OutputSeal {
    pub layer1: Layer1,
    pub method: CloseMethod,
    pub txid: Txid,
    pub vout: u32,
}

impl OutputSeal {
    /// The output that the seal is bound to.
    pub open spec fn outpoint(self) -> Outpoint {
        Outpoint { layer1: self.layer1, txid: self.txid, vout: self.vout }
    }

    pub fn to_outpoint(&self) -> (r: Outpoint)
        ensures
            r == self.outpoint(),
    {
        Outpoint { layer1: self.layer1, txid: self.txid, vout: self.vout }
    }
}

/// Where an assignment comes from: the operation, the slot, and the index of
/// the assignment within the slot.
#[derive(Copy, Clone, PartialEq, Eq, Hash, Debug)]
pub struct Opout {
    pub op: OpId,
    pub ty: AssignmentType,
    pub no: u16,
}

/// State of one of the kinds that a contract knows: it has a mathematical
/// view, a copy of it has the same view, and it can be handed on as state of
/// any kind, tagged with its own.
pub trait KnownState: View + Sized {
    /// The state as state of any kind.
    spec fn allocated(state: Self::V) -> AllocatedStateView;

    fn duplicate(&self) -> (r: Self)
        ensures
            r@ == self@,
    ;

    fn into_allocated(self) -> (r: AllocatedState)
        ensures
            r@ == Self::allocated(self@),
    ;
}

/// The state of a right: present, and nothing else.
#[derive(Copy, Clone, PartialEq, Eq, Structural, PartialOrd, Ord, Hash, Debug)]
pub struct VoidState;

impl View for VoidState {
    type V = VoidState;

    open spec fn view(&self) -> VoidState {
        *self
    }
}

impl KnownState for VoidState {
    open spec fn allocated(state: VoidState) -> AllocatedStateView {
        AllocatedStateView::Void
    }

    fn duplicate(&self) -> (r: VoidState) {
        VoidState
    }

    fn into_allocated(self) -> (r: AllocatedState) {
        AllocatedState::Void
    }
}

impl KnownState for Amount {
    open spec fn allocated(state: Amount) -> AllocatedStateView {
        AllocatedStateView::Amount(state)
    }

    fn duplicate(&self) -> (r: Amount) {
        *self
    }

    fn into_allocated(self) -> (r: AllocatedState) {
        AllocatedState::Amount(self)
    }
}

/// Structured data, as the bytes that encode it.
#[derive(Clone, PartialEq, Eq, Hash, Debug)]
pub struct DataState(pub Vec<u8>);

impl View for DataState {
    type V = Seq<u8>;

    open spec fn view(&self) -> Seq<u8> {
        self.0@
    }
}

impl KnownState for DataState {
    open spec fn allocated(state: Seq<u8>) -> AllocatedStateView {
        AllocatedStateView::Data(state)
    }

    fn into_allocated(self) -> (r: AllocatedState) {
        AllocatedState::Data(self)
    }

    fn duplicate(&self) -> (r: DataState) {
        let mut bytes: Vec<u8> = Vec::new();
        let mut i: usize = 0;
        while i < self.0.len()
            invariant
                i <= self.0.len(),
                bytes@ == self.0@.take(i as int),
            decreases self.0.len() - i,
        {
            bytes.push(self.0[i]);
            assert(self.0@.take(i as int + 1) =~= self.0@.take(i as int).push(self.0@[i as int]));
            i += 1;
        }
        assert(self.0@.take(self.0.len() as int) =~= self.0@);
        DataState(bytes)
    }
}

/// Kind of content of an attached file.
#[derive(Copy, Clone, PartialEq, Eq, Structural, Hash, Debug)]
pub enum MediaType {
    Any,
}

/// Reference to an attached file.
#[derive(Copy, Clone, PartialEq, Eq, Hash, Debug)]
pub struct AttachState {
    pub id: AttachId,
    pub media_type: MediaType,
}

impl View for AttachState {
    type V = AttachState;

    open spec fn view(&self) -> AttachState {
        *self
    }
}

impl KnownState for AttachState {
    open spec fn allocated(state: AttachState) -> AllocatedStateView {
        AllocatedStateView::Attachment(state)
    }

    fn duplicate(&self) -> (r: AttachState) {
        *self
    }

    fn into_allocated(self) -> (r: AllocatedState) {
        AllocatedState::Attachment(self)
    }
}

/// State of any kind, tagged with its kind.
#[derive(Clone, PartialEq, Eq, Hash, Debug)]
pub enum AllocatedState {
    Void,
    Amount(Amount),
    Data(DataState),
    Attachment(AttachState),
}

/// The mathematical view of state of any kind.
pub enum AllocatedStateView {
    Void,
    Amount(Amount),
    Data(Seq<u8>),
    Attachment(AttachState),
}

impl View for AllocatedState {
    type V = AllocatedStateView;

    open spec fn view(&self) -> AllocatedStateView {
        match *self {
            AllocatedState::Void => AllocatedStateView::Void,
            AllocatedState::Amount(a) => AllocatedStateView::Amount(a),
            AllocatedState::Data(d) => AllocatedStateView::Data(d@),
            AllocatedState::Attachment(a) => AllocatedStateView::Attachment(a),
        }
    }
}

impl KnownState for AllocatedState {
    open spec fn allocated(state: AllocatedStateView) -> AllocatedStateView {
        state
    }

    fn into_allocated(self) -> (r: AllocatedState) {
        self
    }

    fn duplicate(&self) -> (r: AllocatedState) {
        match self {
            AllocatedState::Void => AllocatedState::Void,
            AllocatedState::Amount(a) => AllocatedState::Amount(*a),
            AllocatedState::Data(d) => AllocatedState::Data(d.duplicate()),
            AllocatedState::Attachment(a) => AllocatedState::Attachment(*a),
        }
    }
}

impl AllocatedState {
    /// The amount, where the state is fungible.
    pub fn as_amount(&self) -> (r: Option<Amount>)
        ensures
            r == match self@ {
                AllocatedStateView::Amount(a) => Some(a),
                _ => None,
            },
    {
        match self {
            AllocatedState::Amount(a) => Some(*a),
            _ => None,
        }
    }

    /// The data, where the state is structured data.
    pub fn as_data(&self) -> (r: Option<&DataState>)
        ensures
            match self@ {
                AllocatedStateView::Data(d) => r is Some && r->0@ == d,
                _ => r is None,
            },
    {
        match self {
            AllocatedState::Data(d) => Some(d),
            _ => None,
        }
    }

    /// The reference to the attached file, where the state is an attachment.
    pub fn as_attachment(&self) -> (r: Option<AttachState>)
        ensures
            r == match self@ {
                AllocatedStateView::Attachment(a) => Some(a),
                _ => None,
            },
    {
        match self {
            AllocatedState::Attachment(a) => Some(*a),
            _ => None,
        }
    }

    /// Whether the state is that of a right.
    pub fn is_void(&self) -> (r: bool)
        ensures
            r == (self@ is Void),
    {
        match self {
            AllocatedState::Void => true,
            _ => false,
        }
    }
}

impl From<()> for AllocatedState {
    fn from(v: ()) -> (r: AllocatedState) {
        AllocatedState::Void
    }
}

impl vstd::std_specs::convert::FromSpecImpl<()> for AllocatedState {
    open spec fn obeys_from_spec() -> bool {
        true
    }

    open spec fn from_spec(v: ()) -> AllocatedState {
        AllocatedState::Void
    }
}

impl From<VoidState> for AllocatedState {
    fn from(v: VoidState) -> (r: AllocatedState) {
        AllocatedState::Void
    }
}

impl vstd::std_specs::convert::FromSpecImpl<VoidState> for AllocatedState {
    open spec fn obeys_from_spec() -> bool {
        true
    }

    open spec fn from_spec(v: VoidState) -> AllocatedState {
        AllocatedState::Void
    }
}

impl From<Amount> for AllocatedState {
    fn from(v: Amount) -> (r: AllocatedState) {
        AllocatedState::Amount(v)
    }
}

impl vstd::std_specs::convert::FromSpecImpl<Amount> for AllocatedState {
    open spec fn obeys_from_spec() -> bool {
        true
    }

    open spec fn from_spec(v: Amount) -> AllocatedState {
        AllocatedState::Amount(v)
    }
}

impl From<DataState> for AllocatedState {
    fn from(v: DataState) -> (r: AllocatedState) {
        AllocatedState::Data(v)
    }
}

impl vstd::std_specs::convert::FromSpecImpl<DataState> for AllocatedState {
    open spec fn obeys_from_spec() -> bool {
        true
    }

    open spec fn from_spec(v: DataState) -> AllocatedState {
        AllocatedState::Data(v)
    }
}

impl From<AttachState> for AllocatedState {
    fn from(v: AttachState) -> (r: AllocatedState) {
        AllocatedState::Attachment(v)
    }
}

impl vstd::std_specs::convert::FromSpecImpl<AttachState> for AllocatedState {
    open spec fn obeys_from_spec() -> bool {
        true
    }

    open spec fn from_spec(v: AttachState) -> AllocatedState {
        AllocatedState::Attachment(v)
    }
}

/// One record of state: where it comes from, the output that it is bound to,
/// the transaction that settles it (none while the operation is not
/// confirmed), and the state itself.
#[derive(Clone, PartialEq, Eq, Hash, Debug)]
pub struct OutputAssignment<S> {
    pub opout: Opout,
    pub seal: OutputSeal,
    pub witness: Option<WitnessId>,
    pub state: S,
}

/// The mathematical view of a record of state.
pub struct Assignment<V> {
    pub opout: Opout,
    pub seal: OutputSeal,
    pub witness: Option<WitnessId>,
    pub state: V,
}

impl<S: View> View for OutputAssignment<S> {
    type V = Assignment<S::V>;

    open spec fn view(&self) -> Assignment<S::V> {
        Assignment {
            opout: self.opout,
            seal: self.seal,
            witness: self.witness,
            state: self.state@,
        }
    }
}

/// The views of a sequence of records, in the same order.
pub open spec fn assignment_views<S: View>(records: Seq<OutputAssignment<S>>) -> Seq<
    Assignment<S::V>,
> {
    records.map_values(|a: OutputAssignment<S>| a@)
}

/// A record with its state handed on as state of any kind.
pub open spec fn owned_view<S: KnownState>(a: Assignment<S::V>) -> Assignment<AllocatedStateView> {
    Assignment { opout: a.opout, seal: a.seal, witness: a.witness, state: S::allocated(a.state) }
}

/// The records with their state handed on as state of any kind, in the same
/// order.
pub open spec fn owned_views<S: KnownState>(records: Seq<Assignment<S::V>>) -> Seq<
    Assignment<AllocatedStateView>,
> {
    records.map_values(|a: Assignment<S::V>| owned_view::<S>(a))
}

impl<S: KnownState> OutputAssignment<S> {
    /// The record with its state handed on as state of any kind.
    pub fn into_owned(self) -> (r: OwnedAllocation)
        ensures
            r@ == owned_view::<S>(self@),
    {
        OutputAssignment {
            opout: self.opout,
            seal: self.seal,
            witness: self.witness,
            state: self.state.into_allocated(),
        }
    }

    /// A copy of the record.
    pub fn duplicate(&self) -> (r: OutputAssignment<S>)
        ensures
            r@ == self@,
    {
        OutputAssignment {
            opout: self.opout,
            seal: self.seal,
            witness: self.witness,
            state: self.state.duplicate(),
        }
    }
}

pub type OwnedAllocation = OutputAssignment<AllocatedState>;

pub type RightsAllocation = OutputAssignment<VoidState>;

pub type FungibleAllocation = OutputAssignment<Amount>;

pub type DataAllocation = OutputAssignment<DataState>;

pub type AttachAllocation = OutputAssignment<AttachState>;

} // verus!
