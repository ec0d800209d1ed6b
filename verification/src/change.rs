use vstd::prelude::*;
use crate::state::KnownState;

verus! {

/// Quantity of a fungible asset, in its smallest units.
pub type Amount = u64;

/// Net change of one kind of state, built up from the state that a settling
/// transaction spends and the state that it assigns anew.
///
/// The spec functions are the model of the executable ones: what a change is
/// after each step, and whether a step stays within the bounds of the state's
/// domain. A merge outside of those bounds is not defined. They speak of the
/// views of the change and of the state.
pub trait StateChange: View + Sized {
    type State: KnownState;

    /// The change that consists of `state` being spent.
    spec fn spent(state: <Self::State as View>::V) -> Self::V;

    /// The change that consists of `state` being received.
    spec fn received(state: <Self::State as View>::V) -> Self::V;

    /// Whether one more spent `state` can be folded into `change`.
    spec fn fits_spent(change: Self::V, state: <Self::State as View>::V) -> bool;

    /// Whether one more received `state` can be folded into `change`.
    spec fn fits_received(change: Self::V, state: <Self::State as View>::V) -> bool;

    /// `change` with one more spent `state` folded in.
    spec fn with_spent(change: Self::V, state: <Self::State as View>::V) -> Self::V;

    /// `change` with one more received `state` folded in.
    spec fn with_received(change: Self::V, state: <Self::State as View>::V) -> Self::V;

    fn from_spent(state: Self::State) -> (r: Self)
        ensures
            r@ == Self::spent(state@),
    ;

    fn from_received(state: Self::State) -> (r: Self)
        ensures
            r@ == Self::received(state@),
    ;

    fn can_merge_spent(&self, state: &Self::State) -> (r: bool)
        ensures
            r == Self::fits_spent(self@, state@),
    ;

    fn can_merge_received(&self, state: &Self::State) -> (r: bool)
        ensures
            r == Self::fits_received(self@, state@),
    ;

    fn merge_spent(&mut self, state: Self::State)
        requires
            Self::fits_spent(old(self)@, state@),
        ensures
            final(self)@ == Self::with_spent(old(self)@, state@),
    ;

    fn merge_received(&mut self, state: Self::State)
        requires
            Self::fits_received(old(self)@, state@),
        ensures
            final(self)@ == Self::with_received(old(self)@, state@),
    ;
}

/// Net change of a fungible amount: a signed quantity kept as a direction and
/// an unsigned magnitude.
#[derive(Copy, Clone, PartialEq, Eq, Structural, PartialOrd, Ord, Hash, Debug)]
pub enum AmountChange {
    /// More was spent than received; the magnitude is the difference.
    Dec(Amount),
    /// What was spent and what was received cancel exactly.
    Zero,
    /// More was received than spent; the magnitude is the difference.
    Inc(Amount),
}

impl View for AmountChange {
    type V = AmountChange;

    open spec fn view(&self) -> AmountChange {
        *self
    }
}

impl AmountChange {
    /// The signed quantity that this change stands for.
    pub open spec fn net(self) -> int {
        match self {
            AmountChange::Dec(n) => -(n as int),
            AmountChange::Zero => 0,
            AmountChange::Inc(n) => n as int,
        }
    }

    /// A change is canonical when a net of nothing is written as `Zero`,
    /// never as a decrease or an increase by 0.
    pub open spec fn is_canonical(self) -> bool {
        match self {
            AmountChange::Dec(n) => n > 0,
            AmountChange::Zero => true,
            AmountChange::Inc(n) => n > 0,
        }
    }

    /// The change that stands for the signed quantity `net`, in canonical
    /// form.
    pub open spec fn of_net(net: int) -> AmountChange
        recommends
            -(u64::MAX as int) <= net <= u64::MAX as int,
    {
        if net < 0 {
            AmountChange::Dec((-net) as u64)
        } else if net == 0 {
            AmountChange::Zero
        } else {
            AmountChange::Inc(net as u64)
        }
    }

    /// The magnitude of the change, whatever its direction.
    pub fn magnitude(self) -> (r: Amount)
        ensures
            r as int == if self.net() < 0 {
                -self.net()
            } else {
                self.net()
            },
    {
        match self {
            AmountChange::Dec(n) => n,
            AmountChange::Zero => 0,
            AmountChange::Inc(n) => n,
        }
    }
}

impl StateChange for AmountChange {
    type State = Amount;

    open spec fn spent(state: Amount) -> AmountChange {
        AmountChange::Dec(state)
    }

    open spec fn received(state: Amount) -> AmountChange {
        AmountChange::Inc(state)
    }

    open spec fn fits_spent(change: AmountChange, state: Amount) -> bool {
        match change {
            AmountChange::Dec(neg) => neg + state <= u64::MAX,
            _ => true,
        }
    }

    open spec fn fits_received(change: AmountChange, state: Amount) -> bool {
        match change {
            AmountChange::Inc(pos) => pos + state <= u64::MAX,
            _ => true,
        }
    }

    open spec fn with_spent(change: AmountChange, state: Amount) -> AmountChange {
        match change {
            AmountChange::Dec(neg) => AmountChange::Dec((neg + state) as u64),
            AmountChange::Zero => AmountChange::Dec(state),
            AmountChange::Inc(pos) => if state < pos {
                AmountChange::Inc((pos - state) as u64)
            } else if state == pos {
                AmountChange::Zero
            } else {
                AmountChange::Dec((state - pos) as u64)
            },
        }
    }

    open spec fn with_received(change: AmountChange, state: Amount) -> AmountChange {
        match change {
            AmountChange::Inc(pos) => AmountChange::Inc((pos + state) as u64),
            AmountChange::Zero => AmountChange::Inc(state),
            AmountChange::Dec(neg) => if state < neg {
                AmountChange::Dec((neg - state) as u64)
            } else if state == neg {
                AmountChange::Zero
            } else {
                AmountChange::Inc((state - neg) as u64)
            },
        }
    }

    fn from_spent(state: Amount) -> (r: AmountChange) {
        AmountChange::Dec(state)
    }

    fn from_received(state: Amount) -> (r: AmountChange) {
        AmountChange::Inc(state)
    }

    fn can_merge_spent(&self, state: &Amount) -> (r: bool) {
        match *self {
            AmountChange::Dec(neg) => neg.checked_add(*state).is_some(),
            _ => true,
        }
    }

    fn can_merge_received(&self, state: &Amount) -> (r: bool) {
        match *self {
            AmountChange::Inc(pos) => pos.checked_add(*state).is_some(),
            _ => true,
        }
    }

    fn merge_spent(&mut self, sub: Amount) {
        *self = match *self {
            AmountChange::Dec(neg) => AmountChange::Dec(neg + sub),
            AmountChange::Zero => AmountChange::Dec(sub),
            AmountChange::Inc(pos) => if sub < pos {
                AmountChange::Inc(pos - sub)
            } else if sub == pos {
                AmountChange::Zero
            } else {
                AmountChange::Dec(sub - pos)
            },
        };
    }

    fn merge_received(&mut self, add: Amount) {
        *self = match *self {
            AmountChange::Inc(pos) => AmountChange::Inc(pos + add),
            AmountChange::Zero => AmountChange::Inc(add),
            AmountChange::Dec(neg) => if add < neg {
                AmountChange::Dec(neg - add)
            } else if add == neg {
                AmountChange::Zero
            } else {
                AmountChange::Inc(add - neg)
            },
        };
    }
}

/// One step of a history of amounts: an amount that is spent, or one that is
/// received.
#[derive(Copy, Clone, PartialEq, Eq, Structural, Debug)]
pub enum AmountEvent {
    Spent(Amount),
    Received(Amount),
}

impl AmountEvent {
    /// The amount that the event moves.
    pub open spec fn amount(self) -> Amount {
        match self {
            AmountEvent::Spent(a) => a,
            AmountEvent::Received(a) => a,
        }
    }

    /// What the event adds to the net: the amount if it is received, its
    /// negative if it is spent.
    pub open spec fn signed(self) -> int {
        match self {
            AmountEvent::Spent(a) => -(a as int),
            AmountEvent::Received(a) => a as int,
        }
    }
}

/// Whether `event` can be folded into `change` without leaving the bounds of
/// an amount.
pub open spec fn event_fits(change: AmountChange, event: AmountEvent) -> bool {
    match event {
        AmountEvent::Spent(a) => AmountChange::fits_spent(change, a),
        AmountEvent::Received(a) => AmountChange::fits_received(change, a),
    }
}

/// `change` with `event` folded in.
pub open spec fn with_event(change: AmountChange, event: AmountEvent) -> AmountChange {
    match event {
        AmountEvent::Spent(a) => AmountChange::with_spent(change, a),
        AmountEvent::Received(a) => AmountChange::with_received(change, a),
    }
}

/// The change that results from folding `events`, first to last, into a
/// change that starts as `Zero`.
pub open spec fn fold_events(events: Seq<AmountEvent>) -> AmountChange
    decreases events.len(),
{
    if events.len() == 0 {
        AmountChange::Zero
    } else {
        with_event(fold_events(events.drop_last()), events.last())
    }
}

/// Whether every step of folding `events` stays within the bounds of an
/// amount.
pub open spec fn fold_in_bounds(events: Seq<AmountEvent>) -> bool
    decreases events.len(),
{
    events.len() > 0 ==> fold_in_bounds(events.drop_last()) && event_fits(
        fold_events(events.drop_last()),
        events.last(),
    )
}

/// Total received minus total spent over `events`, as a mathematical
/// integer.
pub open spec fn arithmetic_net(events: Seq<AmountEvent>) -> int
    decreases events.len(),
{
    if events.len() == 0 {
        0
    } else {
        arithmetic_net(events.drop_last()) + events.last().signed()
    }
}

/// The sum of the amounts of `events`, whatever their direction.
pub open spec fn total_moved(events: Seq<AmountEvent>) -> int
    decreases events.len(),
{
    if events.len() == 0 {
        0
    } else {
        total_moved(events.drop_last()) + events.last().amount()
    }
}

/// Folds `events` into a running change, starting from `Zero`.
pub fn fold_amount_events(events: &Vec<AmountEvent>) -> (r: AmountChange)
    requires
        fold_in_bounds(events@),
    ensures
        r == fold_events(events@),
{
    let mut change = AmountChange::Zero;
    let mut i: usize = 0;
    while i < events.len()
        invariant
            i <= events.len(),
            fold_in_bounds(events@),
            change == fold_events(events@.take(i as int)),
        decreases events.len() - i,
    {
        proof {
            lemma_fold_prefix_in_bounds(events@, i as int + 1);
            assert(events@.take(i as int + 1).drop_last() =~= events@.take(i as int));
        }
        match events[i] {
            AmountEvent::Spent(a) => change.merge_spent(a),
            AmountEvent::Received(a) => change.merge_received(a),
        }
        i += 1;
    }
    proof {
        assert(events@.take(events.len() as int) =~= events@);
    }
    change
}

/// Every prefix of a history that folds within bounds folds within bounds.
pub proof fn lemma_fold_prefix_in_bounds(events: Seq<AmountEvent>, n: int)
    requires
        fold_in_bounds(events),
        0 <= n <= events.len(),
    ensures
        fold_in_bounds(events.take(n)),
    decreases events.len(),
{
    if n == events.len() {
        assert(events.take(n) =~= events);
    } else {
        lemma_fold_prefix_in_bounds(events.drop_last(), n);
        assert(events.drop_last().take(n) =~= events.take(n));
    }
}

/// A spent amount lowers the net by exactly that amount.
pub proof fn lemma_with_spent_net(change: AmountChange, amount: Amount)
    requires
        AmountChange::fits_spent(change, amount),
    ensures
        AmountChange::with_spent(change, amount).net() == change.net() - amount,
{
}

/// A received amount raises the net by exactly that amount.
pub proof fn lemma_with_received_net(change: AmountChange, amount: Amount)
    requires
        AmountChange::fits_received(change, amount),
    ensures
        AmountChange::with_received(change, amount).net() == change.net() + amount,
{
}

/// Starting a change with an event is the same as folding that event into
/// `Zero`.
pub proof fn lemma_first_event(amount: Amount)
    ensures
        AmountChange::spent(amount) == AmountChange::with_spent(AmountChange::Zero, amount),
        AmountChange::received(amount) == AmountChange::with_received(AmountChange::Zero, amount),
        AmountChange::fits_spent(AmountChange::Zero, amount),
        AmountChange::fits_received(AmountChange::Zero, amount),
{
}

/// Folding a history of amounts gives the arithmetic net of the history:
/// what was received in total minus what was spent in total.
pub proof fn lemma_fold_is_arithmetic_net(events: Seq<AmountEvent>)
    requires
        fold_in_bounds(events),
    ensures
        fold_events(events).net() == arithmetic_net(events),
    decreases events.len(),
{
    if events.len() > 0 {
        lemma_fold_is_arithmetic_net(events.drop_last());
        match events.last() {
            AmountEvent::Spent(a) => lemma_with_spent_net(fold_events(events.drop_last()), a),
            AmountEvent::Received(a) => lemma_with_received_net(
                fold_events(events.drop_last()),
                a,
            ),
        }
    }
}

/// A history in which every amount is more than nothing folds to a canonical
/// change.
pub proof fn lemma_fold_is_canonical(events: Seq<AmountEvent>)
    requires
        fold_in_bounds(events),
        forall|i: int| 0 <= i < events.len() ==> (#[trigger] events[i]).amount() > 0,
    ensures
        fold_events(events).is_canonical(),
    decreases events.len(),
{
    if events.len() > 0 {
        lemma_fold_is_canonical(events.drop_last());
    }
}

/// A canonical result of a fold is the one change that stands for the
/// arithmetic net; in particular it is `Zero` exactly when what was received
/// equals what was spent.
pub proof fn lemma_fold_zero_iff_net_zero(events: Seq<AmountEvent>)
    requires
        fold_in_bounds(events),
        fold_events(events).is_canonical(),
    ensures
        fold_events(events) == AmountChange::of_net(arithmetic_net(events)),
        fold_events(events) == AmountChange::Zero <==> arithmetic_net(events) == 0,
{
    lemma_fold_is_arithmetic_net(events);
}

/// Where all the amounts of a history together fit into an amount, no step
/// of folding it leaves the bounds.
pub proof fn lemma_bounded_total_folds(events: Seq<AmountEvent>)
    requires
        total_moved(events) <= u64::MAX,
    ensures
        fold_in_bounds(events),
        -total_moved(events) <= fold_events(events).net() <= total_moved(events),
    decreases events.len(),
{
    if events.len() > 0 {
        lemma_total_moved_nonnegative(events.drop_last());
        lemma_bounded_total_folds(events.drop_last());
        match events.last() {
            AmountEvent::Spent(a) => lemma_with_spent_net(fold_events(events.drop_last()), a),
            AmountEvent::Received(a) => lemma_with_received_net(
                fold_events(events.drop_last()),
                a,
            ),
        }
    }
}

/// The amounts of a history never sum to less than nothing.
pub proof fn lemma_total_moved_nonnegative(events: Seq<AmountEvent>)
    ensures
        total_moved(events) >= 0,
    decreases events.len(),
{
    if events.len() > 0 {
        lemma_total_moved_nonnegative(events.drop_last());
    }
}

/// Taking one event out of a history changes the arithmetic net by what that
/// event added.
pub proof fn lemma_arithmetic_net_remove(events: Seq<AmountEvent>, i: int)
    requires
        0 <= i < events.len(),
    ensures
        arithmetic_net(events) == arithmetic_net(events.remove(i)) + events[i].signed(),
    decreases events.len(),
{
    if i == events.len() - 1 {
        assert(events.remove(i) =~= events.drop_last());
    } else {
        lemma_arithmetic_net_remove(events.drop_last(), i);
        assert(events.remove(i).drop_last() =~= events.drop_last().remove(i));
        assert(events.remove(i).last() == events.last());
    }
}

/// Two histories of the same events, in whatever order, have the same
/// arithmetic net.
pub proof fn lemma_arithmetic_net_any_order(a: Seq<AmountEvent>, b: Seq<AmountEvent>)
    requires
        a.to_multiset() == b.to_multiset(),
    ensures
        arithmetic_net(a) == arithmetic_net(b),
    decreases a.len(),
{
    a.to_multiset_ensures();
    b.to_multiset_ensures();
    if a.len() == 0 {
        assert(b.len() == 0);
    } else {
        let x = a.last();
        let n = a.len() - 1;
        assert(a[n] == x);
        assert(a.contains(x));
        assert(a.to_multiset().count(x) > 0);
        assert(b.to_multiset().count(x) > 0);
        assert(b.contains(x));
        let j = choose|j: int| 0 <= j < b.len() && b[j] == x;
        assert(a.remove(n) =~= a.drop_last());
        assert(a.remove(n).to_multiset() =~= a.to_multiset().remove(a[n]));
        assert(b.remove(j).to_multiset() =~= b.to_multiset().remove(b[j]));
        lemma_arithmetic_net_any_order(a.drop_last(), b.remove(j));
        lemma_arithmetic_net_remove(b, j);
    }
}

/// Two histories of the same events, folded in whatever order, give the same
/// net; where both results are canonical, they are the same change.
pub proof fn lemma_fold_any_order(a: Seq<AmountEvent>, b: Seq<AmountEvent>)
    requires
        a.to_multiset() == b.to_multiset(),
        fold_in_bounds(a),
        fold_in_bounds(b),
    ensures
        fold_events(a).net() == fold_events(b).net(),
        fold_events(a).is_canonical() && fold_events(b).is_canonical() ==> fold_events(a)
            == fold_events(b),
{
    lemma_arithmetic_net_any_order(a, b);
    lemma_fold_is_arithmetic_net(a);
    lemma_fold_is_arithmetic_net(b);
}

/// Spending an amount and then receiving the same amount, on a change that
/// starts as `Zero`, gives `Zero` again; so does receiving and then spending.
pub proof fn lemma_spend_then_receive_cancels(amount: Amount)
    ensures
        AmountChange::fits_spent(AmountChange::Zero, amount),
        AmountChange::fits_received(AmountChange::with_spent(AmountChange::Zero, amount), amount),
        AmountChange::with_received(
            AmountChange::with_spent(AmountChange::Zero, amount),
            amount,
        ) == AmountChange::Zero,
        AmountChange::fits_received(AmountChange::Zero, amount),
        AmountChange::fits_spent(AmountChange::with_received(AmountChange::Zero, amount), amount),
        AmountChange::with_spent(
            AmountChange::with_received(AmountChange::Zero, amount),
            amount,
        ) == AmountChange::Zero,
{
}

} // verus!
