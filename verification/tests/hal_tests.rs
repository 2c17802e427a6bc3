use pi_hal::hal::LoadWaiters;

#[test]
fn first_waiter_asks_the_host() {
    let mut w: LoadWaiters<u32> = LoadWaiters::new();
    assert!(w.add_waiter(7, 1));
    assert!(!w.add_waiter(7, 2));
    assert!(w.add_waiter(8, 3));
    assert_eq!(w.take_waiters(7), Some(vec![1, 2]));
    assert_eq!(w.take_waiters(7), None);
    assert!(w.add_waiter(7, 4));
    assert_eq!(w.take_waiters(8), Some(vec![3]));
    assert_eq!(w.take_waiters(7), Some(vec![4]));
}

#[test]
fn answer_without_request() {
    let mut w: LoadWaiters<&str> = LoadWaiters::new();
    assert_eq!(w.take_waiters(1), None);
}
