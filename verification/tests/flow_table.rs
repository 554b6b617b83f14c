use penguin::flow::{FlowSlot, FlowTable};

#[test]
fn slot_is_established_once() {
    let mut slot = FlowSlot::Requested(4);
    assert_eq!(slot.establish(7), Some(4));
    assert_eq!(slot, FlowSlot::Established(7));
    assert_eq!(slot.establish(8), None);
    assert_eq!(slot, FlowSlot::Established(7));
    let mut bind = FlowSlot::BindRequested(1);
    assert_eq!(bind.establish(2), None);
    assert_eq!(bind, FlowSlot::BindRequested(1));
}

#[test]
fn table_operations() {
    let mut table = FlowTable::new();
    assert_eq!(table.len(), 0);
    assert!(table.insert_requested(5, 1));
    assert!(!table.insert_requested(5, 2));
    assert_eq!(table.get(5), Some(FlowSlot::Requested(1)));
    assert!(table.contains(5));
    assert!(!table.contains(6));
    assert_eq!(table.allocate_requested(&[0, 5, 6, 7], 3), Some(6));
    assert_eq!(table.get(6), Some(FlowSlot::Requested(3)));
    assert_eq!(table.allocate_requested(&[0, 5, 6], 3), None);
    assert_eq!(table.allocate(&[9], FlowSlot::BindRequested(8)), Some(9));
    assert_eq!(table.len(), 3);
    assert_eq!(table.establish(5, 0), Some(1));
    assert_eq!(table.get(5), Some(FlowSlot::Established(0)));
    assert_eq!(table.establish(5, 1), None);
    assert_eq!(table.establish(9, 1), None);
    assert_eq!(table.establish(100, 1), None);
    assert_eq!(table.get(9), Some(FlowSlot::BindRequested(8)));
    assert_eq!(table.remove(5), Some(FlowSlot::Established(0)));
    assert_eq!(table.remove(5), None);
    table.insert_established(1, 3);
    assert_eq!(table.get(1), Some(FlowSlot::Established(3)));
    table.clear();
    assert_eq!(table.len(), 0);
}
