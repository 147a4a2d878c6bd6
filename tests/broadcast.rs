use mcwrap::broadcast::ClientSet;

#[test]
fn fan_out_drops_only_failed_clients() {
    let mut set: ClientSet<u32> = ClientSet::new();
    assert_eq!(set.len(), 0);
    set.join(10);
    set.join(20);
    set.join(30);
    set.deliver(b"hello", &vec![true, false, true]);
    assert_eq!(set.len(), 2);
    assert_eq!(*set.connection(0), 10);
    assert_eq!(*set.connection(1), 30);
}

#[test]
fn fan_out_with_no_clients() {
    let mut set: ClientSet<u32> = ClientSet::new();
    set.deliver(b"x", &vec![]);
    assert_eq!(set.len(), 0);
}

#[test]
fn closed_clients_removed() {
    let mut set: ClientSet<u32> = ClientSet::new();
    set.join(1);
    set.join(2);
    set.drop_closed(&vec![false, true]);
    assert_eq!(set.len(), 1);
    *set.connection(0) += 5;
    assert_eq!(*set.connection(0), 7);
}
