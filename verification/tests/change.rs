use rgb_iface::change::fold_amount_events;
use rgb_iface::change::AmountChange;
use rgb_iface::change::AmountEvent;
use rgb_iface::change::StateChange;

#[test]
fn from_spent_is_decrease() {
    assert_eq!(AmountChange::from_spent(7), AmountChange::Dec(7));
}

#[test]
fn from_received_is_increase() {
    assert_eq!(AmountChange::from_received(7), AmountChange::Inc(7));
}

#[test]
fn merge_spent_on_decrease_adds() {
    let mut c = AmountChange::Dec(5);
    c.merge_spent(3);
    assert_eq!(c, AmountChange::Dec(8));
}

#[test]
fn merge_spent_on_zero_decreases() {
    let mut c = AmountChange::Zero;
    c.merge_spent(3);
    assert_eq!(c, AmountChange::Dec(3));
}

#[test]
fn merge_spent_on_increase_less() {
    let mut c = AmountChange::Inc(10);
    c.merge_spent(3);
    assert_eq!(c, AmountChange::Inc(7));
}

#[test]
fn merge_spent_on_increase_equal() {
    let mut c = AmountChange::Inc(10);
    c.merge_spent(10);
    assert_eq!(c, AmountChange::Zero);
}

#[test]
fn merge_spent_on_increase_more() {
    let mut c = AmountChange::Inc(10);
    c.merge_spent(14);
    assert_eq!(c, AmountChange::Dec(4));
}

#[test]
fn merge_received_on_increase_adds() {
    let mut c = AmountChange::Inc(5);
    c.merge_received(3);
    assert_eq!(c, AmountChange::Inc(8));
}

#[test]
fn merge_received_on_zero_increases() {
    let mut c = AmountChange::Zero;
    c.merge_received(3);
    assert_eq!(c, AmountChange::Inc(3));
}

#[test]
fn merge_received_on_decrease_less() {
    let mut c = AmountChange::Dec(10);
    c.merge_received(3);
    assert_eq!(c, AmountChange::Dec(7));
}

#[test]
fn merge_received_on_decrease_equal() {
    let mut c = AmountChange::Dec(10);
    c.merge_received(10);
    assert_eq!(c, AmountChange::Zero);
}

#[test]
fn merge_received_on_decrease_more() {
    let mut c = AmountChange::Dec(10);
    c.merge_received(14);
    assert_eq!(c, AmountChange::Inc(4));
}

#[test]
fn spend_then_receive_same_amount_cancels() {
    let mut c = AmountChange::Zero;
    c.merge_spent(50);
    c.merge_received(50);
    assert_eq!(c, AmountChange::Zero);
}

#[test]
fn merge_at_the_upper_bound() {
    let mut c = AmountChange::Dec(u64::MAX - 1);
    assert!(c.can_merge_spent(&1));
    assert!(!c.can_merge_spent(&2));
    c.merge_spent(1);
    assert_eq!(c, AmountChange::Dec(u64::MAX));
    assert!(c.can_merge_received(&u64::MAX));
    c.merge_received(u64::MAX);
    assert_eq!(c, AmountChange::Zero);
    let d = AmountChange::Inc(u64::MAX);
    assert!(!d.can_merge_received(&1));
    assert!(d.can_merge_received(&0));
    assert!(d.can_merge_spent(&u64::MAX));
}

#[test]
fn magnitude_of_each_direction() {
    assert_eq!(AmountChange::Dec(9).magnitude(), 9);
    assert_eq!(AmountChange::Zero.magnitude(), 0);
    assert_eq!(AmountChange::Inc(4).magnitude(), 4);
}

#[test]
fn fold_gives_the_arithmetic_net() {
    let events = vec![
        AmountEvent::Received(30),
        AmountEvent::Spent(100),
        AmountEvent::Received(10),
        AmountEvent::Spent(5),
    ];
    assert_eq!(fold_amount_events(&events), AmountChange::Dec(65));
}

#[test]
fn fold_in_another_order_gives_the_same() {
    let events = vec![
        AmountEvent::Spent(5),
        AmountEvent::Received(10),
        AmountEvent::Spent(100),
        AmountEvent::Received(30),
    ];
    assert_eq!(fold_amount_events(&events), AmountChange::Dec(65));
}

#[test]
fn fold_of_balanced_events_is_zero() {
    let events = vec![
        AmountEvent::Spent(20),
        AmountEvent::Received(15),
        AmountEvent::Received(5),
    ];
    assert_eq!(fold_amount_events(&events), AmountChange::Zero);
}

#[test]
fn fold_of_nothing_is_zero() {
    assert_eq!(fold_amount_events(&Vec::new()), AmountChange::Zero);
}

#[test]
fn spent_nothing_is_a_decrease_by_nothing() {
    assert_eq!(AmountChange::from_spent(0), AmountChange::Dec(0));
    assert_eq!(fold_amount_events(&vec![AmountEvent::Spent(0)]), AmountChange::Dec(0));
}
