//! The seed directory: binds, replacement and resolution, with real
//! tokio channels behind the punch sinks.

use chappy::addr::SocketAddrV4Repr;
use chappy::awaitable_map::SlotState;
use chappy::endpoints::{RegisteredEndpoints, ReplaceOutcome, ServerPunchRequest};
use chappy::seed_service::{client_binding_response, push_punch_request};
use tokio::sync::mpsc;

fn ep(ip: u32, port: u16) -> SocketAddrV4Repr {
    SocketAddrV4Repr { ip, port }
}

#[test]
fn fresh_bind_then_resolution() {
    let mut dir = RegisteredEndpoints::new();
    // nobody bound yet: the reader is told to wait
    match dir.get_step(&String::from("10.0.0.2"), &String::from("c1")) {
        SlotState::Waiting => {}
        SlotState::Ready(_) => panic!("nothing was bound"),
    }
    let (tx, _rx) = mpsc::unbounded_channel();
    let outcome = dir.insert(
        ep(0x01020304, 40000),
        tx,
        vec![1, 2, 3],
        String::from("10.0.0.2"),
        String::from("c1"),
    );
    assert_eq!(outcome, ReplaceOutcome::Fresh);
    // the woken reader now sees exactly the bound server
    match dir.get_step(&String::from("10.0.0.2"), &String::from("c1")) {
        SlotState::Ready(target) => {
            assert_eq!(target.natted_address, ep(0x01020304, 40000));
            assert_eq!(target.server_certificate, vec![1, 2, 3]);
        }
        SlotState::Waiting => panic!("the server is bound"),
    }
}

#[test]
fn live_replacement_serves_new_callers() {
    let mut dir = RegisteredEndpoints::new();
    let (tx1, rx1) = mpsc::unbounded_channel();
    dir.insert(
        ep(0x01010101, 1111),
        tx1,
        vec![1],
        String::from("10.0.0.2"),
        String::from("c1"),
    );
    // the prior sink is still open: the replacement is an error-log case,
    // but it is applied all the same
    let (tx2, _rx2) = mpsc::unbounded_channel();
    let outcome = dir.insert(
        ep(0x02020202, 2222),
        tx2,
        vec![2],
        String::from("10.0.0.2"),
        String::from("c1"),
    );
    assert_eq!(outcome, ReplaceOutcome::ReplacedOpen);
    drop(rx1);
    match dir.get_step(&String::from("10.0.0.2"), &String::from("c1")) {
        SlotState::Ready(target) => {
            assert_eq!(target.natted_address, ep(0x02020202, 2222));
            assert_eq!(target.server_certificate, vec![2]);
        }
        SlotState::Waiting => panic!("the replacement must be resolvable"),
    }
}

#[test]
fn closed_replacement_is_quiet() {
    let mut dir = RegisteredEndpoints::new();
    let (tx1, rx1) = mpsc::unbounded_channel();
    dir.insert(
        ep(0x01010101, 1111),
        tx1,
        vec![1],
        String::from("10.0.0.2"),
        String::from("c1"),
    );
    drop(rx1);
    let (tx2, _rx2) = mpsc::unbounded_channel();
    let outcome = dir.insert(
        ep(0x02020202, 2222),
        tx2,
        vec![2],
        String::from("10.0.0.2"),
        String::from("c1"),
    );
    assert_eq!(outcome, ReplaceOutcome::ReplacedClosed);
}

#[test]
fn dead_entry_is_reset_and_awaited() {
    let mut dir = RegisteredEndpoints::new();
    let (tx1, rx1) = mpsc::unbounded_channel();
    dir.insert(
        ep(0x01010101, 1111),
        tx1,
        vec![1],
        String::from("10.0.0.2"),
        String::from("c1"),
    );
    // the server goes away: its sink closes
    drop(rx1);
    // a reader finds the dead entry, clears it, and waits
    match dir.get_step(&String::from("10.0.0.2"), &String::from("c1")) {
        SlotState::Waiting => {}
        SlotState::Ready(_) => panic!("a dead entry must be reset"),
    }
    // still waiting: the slot was cleared, not refilled
    match dir.get_step(&String::from("10.0.0.2"), &String::from("c1")) {
        SlotState::Waiting => {}
        SlotState::Ready(_) => panic!("the slot was cleared"),
    }
    // the server binds again: the next insert wakes the waiter
    let (tx2, _rx2) = mpsc::unbounded_channel();
    dir.insert(
        ep(0x03030303, 3333),
        tx2,
        vec![3],
        String::from("10.0.0.2"),
        String::from("c1"),
    );
    match dir.get_step(&String::from("10.0.0.2"), &String::from("c1")) {
        SlotState::Ready(target) => assert_eq!(target.natted_address, ep(0x03030303, 3333)),
        SlotState::Waiting => panic!("the rebind must be seen"),
    }
}

#[test]
fn clusters_are_isolated() {
    let mut dir = RegisteredEndpoints::new();
    let (tx, _rx) = mpsc::unbounded_channel();
    dir.insert(
        ep(0x01010101, 1111),
        tx,
        vec![1],
        String::from("10.0.0.2"),
        String::from("c1"),
    );
    // the same ip in another cluster resolves to nothing
    match dir.get_step(&String::from("10.0.0.2"), &String::from("c2")) {
        SlotState::Waiting => {}
        SlotState::Ready(_) => panic!("clusters are separate directories"),
    }
}

#[test]
fn punch_request_reaches_open_sink() {
    let mut dir = RegisteredEndpoints::new();
    let (tx, mut rx) = mpsc::unbounded_channel();
    dir.insert(
        ep(0x01020304, 40000),
        tx,
        vec![9],
        String::from("10.0.0.2"),
        String::from("c1"),
    );
    let target = match dir.get_step(&String::from("10.0.0.2"), &String::from("c1")) {
        SlotState::Ready(t) => t,
        SlotState::Waiting => panic!("bound above"),
    };
    let failed = push_punch_request(&target, ep(0x05060708, 50000), String::from("10.0.0.1"));
    assert!(!failed);
    let req: ServerPunchRequest = rx.try_recv().unwrap();
    assert_eq!(req.client_nated_addr, ep(0x05060708, 50000));
    assert_eq!(req.client_virtual_ip, "10.0.0.1");
}

#[test]
fn punch_request_to_closed_sink_sets_flag() {
    let mut dir = RegisteredEndpoints::new();
    let (tx, rx) = mpsc::unbounded_channel();
    dir.insert(
        ep(0x01020304, 40000),
        tx,
        vec![9],
        String::from("10.0.0.2"),
        String::from("c1"),
    );
    let target = match dir.get_step(&String::from("10.0.0.2"), &String::from("c1")) {
        SlotState::Ready(t) => t,
        SlotState::Waiting => panic!("bound above"),
    };
    // the server disconnects between lookup and send
    drop(rx);
    let failed = push_punch_request(&target, ep(0x05060708, 50000), String::from("10.0.0.1"));
    assert!(failed);
    let resp = client_binding_response(&target, failed);
    assert_eq!(resp.target_nated_addr, ep(0x01020304, 40000));
    assert_eq!(resp.server_certificate, vec![9]);
    assert!(resp.failed_punch_request);
}
