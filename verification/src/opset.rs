use vstd::prelude::*;
use amplify::confinement::SmallOrdSet;
use crate::state::OpId;
use crate::state::OutputSeal;

verus! {

/// The largest number of items that a bounded set holds.
pub const SMALL_SET_MAX: usize = 0xFFFF;

/// Ordered set of operation identifiers without duplicates, of no more than
/// `SMALL_SET_MAX` items. It is amplify's `SmallOrdSet` of 32-byte arrays,
/// which are ordered as std orders arrays of bytes.
#[verifier::external_body]
#[derive(PartialEq, Eq, Hash, Debug)]
pub struct OpIdSet {
    inner: SmallOrdSet<[u8; 32]>,
}

/// The identifiers that the set holds.
pub uninterp spec fn op_ids(set: OpIdSet) -> Set<OpId>;

impl View for OpIdSet {
    type V = Set<OpId>;

    open spec fn view(&self) -> Set<OpId> {
        op_ids(*self)
    }
}

/// Whether `a` comes before `b` in the order of std on arrays of bytes: at the
/// first place at which they differ, `a` holds the lesser byte.
pub open spec fn comes_before(a: OpId, b: OpId) -> bool {
    exists|k: int|
        0 <= k < 32 && a@.take(k) == b@.take(k) && #[trigger] a@[k] < b@[k]
}

/// `SmallOrdSet::new` of amplify: the set without items.
#[verifier::external_body]
fn op_id_set_new() -> (r: OpIdSet)
    ensures
        op_ids(r) == Set::<OpId>::empty(),
{
    OpIdSet { inner: SmallOrdSet::new() }
}

/// `Confined::push` of amplify on a set: where the set already holds
/// `SMALL_SET_MAX` items the item is refused and the set stays as it was;
/// otherwise the item is in the set afterwards, together with what was in it
/// before.
#[verifier::external_body]
fn op_id_set_push(set: &mut OpIdSet, id: OpId) -> (accepted: bool)
    ensures
        accepted == (op_ids(*old(set)).len() < SMALL_SET_MAX),
        accepted ==> op_ids(*final(set)) == op_ids(*old(set)).insert(id),
        !accepted ==> op_ids(*final(set)) == op_ids(*old(set)),
{
    set.inner.push(id).is_ok()
}

/// `BTreeSet::contains` of std, reached through the confinement: whether the
/// item is in the set.
#[verifier::external_body]
fn op_id_set_contains(set: &OpIdSet, id: &OpId) -> (r: bool)
    ensures
        r == op_ids(*set).contains(*id),
{
    set.inner.contains(id)
}

/// `BTreeSet::len` of std, reached through the confinement: the number of
/// items, which the confinement keeps at `SMALL_SET_MAX` or below.
#[verifier::external_body]
fn op_id_set_len(set: &OpIdSet) -> (r: usize)
    ensures
        r == op_ids(*set).len(),
        r <= SMALL_SET_MAX,
{
    set.inner.len()
}

/// `BTreeSet::is_empty` of std, reached through the confinement: whether the
/// set holds no item.
#[verifier::external_body]
fn op_id_set_is_empty(set: &OpIdSet) -> (r: bool)
    ensures
        r == (op_ids(*set) == Set::<OpId>::empty()),
{
    set.inner.is_empty()
}

/// `BTreeSet::iter` of std, reached through the confinement: every item of
/// the set, each once, in ascending order.
#[verifier::external_body]
fn op_id_set_items(set: &OpIdSet) -> (r: Vec<OpId>)
    ensures
        r@.to_set() == op_ids(*set),
        forall|i: int, j: int| 0 <= i < j < r@.len() ==> comes_before(r@[i], r@[j]),
{
    set.inner.iter().copied().collect()
}

/// `Clone::clone` of amplify's confined set, which clones the `BTreeSet` of
/// std: a set of the same items.
#[verifier::external_body]
fn op_id_set_clone(set: &OpIdSet) -> (r: OpIdSet)
    ensures
        op_ids(r) == op_ids(*set),
{
    OpIdSet { inner: set.inner.clone() }
}

impl Clone for OpIdSet {
    fn clone(&self) -> (r: OpIdSet)
        ensures
            r@ == self@,
    {
        op_id_set_clone(self)
    }
}

impl OpIdSet {
    /// The set without items.
    pub fn new() -> (r: OpIdSet)
        ensures
            r@ == Set::<OpId>::empty(),
    {
        op_id_set_new()
    }

    /// The set that holds `id` and nothing else.
    pub fn with(id: OpId) -> (r: OpIdSet)
        ensures
            r@ == Set::<OpId>::empty().insert(id),
    {
        let mut set = op_id_set_new();
        let accepted = op_id_set_push(&mut set, id);
        assert(accepted);
        set
    }

    /// Puts `id` into the set, unless the set is full: then it is refused,
    /// and the set stays as it was.
    pub fn push(&mut self, id: OpId) -> (accepted: bool)
        ensures
            accepted == (old(self)@.len() < SMALL_SET_MAX),
            final(self)@ == if accepted {
                old(self)@.insert(id)
            } else {
                old(self)@
            },
    {
        op_id_set_push(self, id)
    }

    pub fn contains(&self, id: &OpId) -> (r: bool)
        ensures
            r == self@.contains(*id),
    {
        op_id_set_contains(self, id)
    }

    pub fn len(&self) -> (r: usize)
        ensures
            r == self@.len(),
            r <= SMALL_SET_MAX,
    {
        op_id_set_len(self)
    }

    pub fn is_empty(&self) -> (r: bool)
        ensures
            r == (self@ == Set::<OpId>::empty()),
    {
        op_id_set_is_empty(self)
    }

    /// The items of the set, each once, in ascending order.
    pub fn to_vec(&self) -> (r: Vec<OpId>)
        ensures
            r@.to_set() == self@,
            r@.no_duplicates(),
            forall|i: int, j: int| 0 <= i < j < r@.len() ==> comes_before(r@[i], r@[j]),
    {
        let items = op_id_set_items(self);
        proof {
            assert forall|i: int, j: int|
                0 <= i < items@.len() && 0 <= j < items@.len() && i != j implies items@[i]
                != items@[j] by {
                if i < j {
                    assert(comes_before(items@[i], items@[j]));
                } else {
                    assert(comes_before(items@[j], items@[i]));
                }
            }
        }
        items
    }
}

/// Ordered set of output seals without duplicates, of no more than
/// `SMALL_SET_MAX` items. It is amplify's `SmallOrdSet` of tuples of the
/// chain, the closing method, the transaction and the output.
#[verifier::external_body]
#[derive(PartialEq, Eq, Hash, Debug)]
pub struct SealSet {
    inner: SmallOrdSet<(u8, u8, [u8; 32], u32)>,
}

/// The seals that the set holds.
pub uninterp spec fn seals(set: SealSet) -> Set<OutputSeal>;

impl View for SealSet {
    type V = Set<OutputSeal>;

    open spec fn view(&self) -> Set<OutputSeal> {
        seals(*self)
    }
}

/// `SmallOrdSet::new` of amplify: the set without items.
#[verifier::external_body]
fn seal_set_new() -> (r: SealSet)
    ensures
        seals(r) == Set::<OutputSeal>::empty(),
{
    SealSet { inner: SmallOrdSet::new() }
}

/// `BTreeSet::is_empty` of std, reached through the confinement: whether the
/// set holds no item.
#[verifier::external_body]
fn seal_set_is_empty(set: &SealSet) -> (r: bool)
    ensures
        r == (seals(*set) == Set::<OutputSeal>::empty()),
{
    set.inner.is_empty()
}

/// `Clone::clone` of amplify's confined set, which clones the `BTreeSet` of
/// std: a set of the same items.
#[verifier::external_body]
fn seal_set_clone(set: &SealSet) -> (r: SealSet)
    ensures
        seals(r) == seals(*set),
{
    SealSet { inner: set.inner.clone() }
}

impl Clone for SealSet {
    fn clone(&self) -> (r: SealSet)
        ensures
            r@ == self@,
    {
        seal_set_clone(self)
    }
}

impl SealSet {
    /// The set without items.
    pub fn new() -> (r: SealSet)
        ensures
            r@ == Set::<OutputSeal>::empty(),
    {
        seal_set_new()
    }

    pub fn is_empty(&self) -> (r: bool)
        ensures
            r == (self@ == Set::<OutputSeal>::empty()),
    {
        seal_set_is_empty(self)
    }
}

} // verus!
