use capnp_rpc::error::Error;
use capnp_rpc::queued::{Delivery, QueuedClient};
use capnp_rpc::system::new_promise_client;
use capnp_rpc::table::IdTable;

#[test]
fn ids_take_the_smallest_free_value() {
    let mut t: IdTable<&str> = IdTable::new();
    assert_eq!(t.insert("a"), Some(0));
    assert_eq!(t.insert("b"), Some(1));
    assert_eq!(t.insert("c"), Some(2));
    assert_eq!(t.remove(1), Some("b"));
    assert_eq!(t.insert("d"), Some(1));
    assert_eq!(t.ids(), vec![0, 1, 2]);
    assert_eq!(t.get(1), Some(&"d"));
    assert_eq!(t.remove(7), None);
    t.clear();
    assert!(t.ids().is_empty());
}

#[test]
fn queued_calls_replay_in_order() {
    let mut q: QueuedClient<u32, &str> = QueuedClient::new();
    assert!(matches!(q.call(1), Delivery::Queued));
    assert!(matches!(q.call(2), Delivery::Queued));
    assert!(matches!(q.call(3), Delivery::Queued));
    assert_eq!(q.resolve("backing"), vec![1, 2, 3]);
    assert!(matches!(q.call(4), Delivery::Forward(4)));
    assert!(q.resolve("other").is_empty());
}

#[test]
fn broken_queue_fails_its_calls() {
    let (mut q, _hook) = new_promise_client::<u32>(5);
    q.call(1);
    q.call(2);
    assert_eq!(q.fail(Error::failed("lost".to_string())), vec![1, 2]);
    assert!(matches!(q.call(3), Delivery::Fail(3)));
}
