//! The perforator's maps, the interceptor's decisions, shutdown, and
//! the poll accounting.

use chappy::addr::SocketAddrV4Repr;
use chappy::awaitable_map::SlotState;
use chappy::conf::{ChappyConf, DEFAULT_CONNECTION_TIMEOUT_MS};
use chappy::interceptor::{
    bind_plan, connect_plan, parse_virtual, punch_verdict, subnet_contains, BindPlan, ConnectPlan,
    Ipv4Subnet, ParsedAddress, PunchVerdict, VirtualConf, LOOPBACK_IP, PERFORATOR_PORT,
};
use chappy::metrics::{meter, metrics, print_metrics, TaskMonitor};
use chappy::perforator::{Perforator, TargetVirtualAddress};
use chappy::shutdown::{run_cancellable_outcome, Cancelled, Shutdown};
use chappy::timed_poll::{timed_poll, SLOW_POLL_MS};

fn sa(ip: u32, port: u16) -> SocketAddrV4Repr {
    SocketAddrV4Repr { ip, port }
}

#[test]
fn registration_then_lookup() {
    let mut perforator = Perforator::new(5000);
    // a stream from an unregistered port has nothing to find
    assert!(matches!(perforator.lookup_port(44000), SlotState::Waiting));

    // the interceptor registers, the seed answers, both maps fill
    perforator.record_port_mapping(44000, 0x0A000002, 8080);
    perforator.record_resolved_address(0x0A000002, 8080, sa(0x01020304, 40000), vec![7, 7]);

    let virt = match perforator.lookup_port(44000) {
        SlotState::Ready(v) => v,
        SlotState::Waiting => panic!("the port was registered"),
    };
    assert_eq!(virt, TargetVirtualAddress { ip: 0x0A000002, port: 8080 });
    let resolved = match perforator.lookup_address(&virt) {
        SlotState::Ready(r) => r,
        SlotState::Waiting => panic!("the target was resolved"),
    };
    assert_eq!(resolved.natted_address, sa(0x01020304, 40000));
    assert_eq!(resolved.tgt_port, 8080);
    assert_eq!(resolved.certificate_der, vec![7, 7]);
}

#[test]
fn repeat_registration_is_idempotent() {
    let mut perforator = Perforator::new(5000);
    perforator.record_resolved_address(0x0A000002, 8080, sa(1, 1), vec![1]);
    perforator.record_resolved_address(0x0A000002, 8080, sa(1, 1), vec![1]);
    let virt = TargetVirtualAddress { ip: 0x0A000002, port: 8080 };
    match perforator.lookup_address(&virt) {
        SlotState::Ready(r) => assert_eq!(r.natted_address, sa(1, 1)),
        SlotState::Waiting => panic!("registered twice, still resolvable"),
    }
}

#[test]
fn subnet_membership() {
    let subnet = Ipv4Subnet { network: 0x0A000000, prefix_len: 24 };
    assert!(subnet_contains(&subnet, 0x0A000002));
    assert!(subnet_contains(&subnet, 0x0A0000FF));
    assert!(!subnet_contains(&subnet, 0x0A000102));
    let all = Ipv4Subnet { network: 0, prefix_len: 0 };
    assert!(subnet_contains(&all, 0xFFFFFFFF));
    let host = Ipv4Subnet { network: 0x0A000002, prefix_len: 32 };
    assert!(subnet_contains(&host, 0x0A000002));
    assert!(!subnet_contains(&host, 0x0A000003));
}

#[test]
fn address_classification() {
    let conf = Some(VirtualConf {
        virtual_ip: 0x0A000001,
        subnet: Ipv4Subnet { network: 0x0A000000, prefix_len: 24 },
    });
    assert_eq!(
        parse_virtual(Some(sa(0x0A000001, 80)), &conf),
        ParsedAddress::LocalVirtual(sa(0x0A000001, 80))
    );
    assert_eq!(
        parse_virtual(Some(sa(0x0A000002, 8080)), &conf),
        ParsedAddress::RemoteVirtual(sa(0x0A000002, 8080))
    );
    assert_eq!(
        parse_virtual(Some(sa(0x08080808, 53)), &conf),
        ParsedAddress::NotVirtual
    );
    // not IPv4
    assert_eq!(parse_virtual(None, &conf), ParsedAddress::NotVirtual);
    // unconfigured shim decides nothing
    assert_eq!(parse_virtual(Some(sa(0x0A000002, 80)), &None), ParsedAddress::Unknown);
}

#[test]
fn connect_decisions() {
    assert_eq!(
        connect_plan(&ParsedAddress::RemoteVirtual(sa(0x0A000002, 8080))),
        ConnectPlan::PunchThenConnect { target: sa(0x0A000002, 8080) }
    );
    assert_eq!(
        connect_plan(&ParsedAddress::LocalVirtual(sa(0x0A000001, 80))),
        ConnectPlan::LoopbackRewrite { port: 80 }
    );
    assert_eq!(connect_plan(&ParsedAddress::NotVirtual), ConnectPlan::Delegate);
    assert_eq!(connect_plan(&ParsedAddress::Unknown), ConnectPlan::Delegate);
}

#[test]
fn bind_decisions() {
    assert_eq!(
        bind_plan(&ParsedAddress::LocalVirtual(sa(0x0A000001, 8080))),
        BindPlan::RegisterServer { port: 8080 }
    );
    assert_eq!(
        bind_plan(&ParsedAddress::RemoteVirtual(sa(0x0A000002, 8080))),
        BindPlan::RejectAddrNotAvail
    );
    assert_eq!(bind_plan(&ParsedAddress::NotVirtual), BindPlan::Delegate);
    assert_eq!(bind_plan(&ParsedAddress::Unknown), BindPlan::Delegate);
}

#[test]
fn punch_verdict_surfaces_refusal() {
    // success: the connect is forwarded to the perforator's ingress
    assert_eq!(
        punch_verdict(0),
        PunchVerdict::ConnectTo(SocketAddrV4Repr { ip: LOOPBACK_IP, port: PERFORATOR_PORT })
    );
    // a failed registration surfaces as ECONNREFUSED at the application
    assert_eq!(punch_verdict(1), PunchVerdict::FailConnRefused);
    assert_eq!(punch_verdict(255), PunchVerdict::FailConnRefused);
}

#[test]
fn shutdown_gates_new_work() {
    let mut shutdown = Shutdown::new();
    assert!(shutdown.accepting_new_work());
    assert!(shutdown.all_guards_released());
    shutdown.create_guard();
    shutdown.create_guard();
    assert!(!shutdown.all_guards_released());
    shutdown.signal();
    // no new punch requests are accepted after the signal
    assert!(!shutdown.accepting_new_work());
    shutdown.release_guard();
    assert!(!shutdown.all_guards_released());
    shutdown.release_guard();
    // the last guard released: the wait may complete
    assert!(shutdown.all_guards_released());
}

#[test]
fn cancellable_tasks() {
    // finished within the grace period: its own result comes through
    assert_eq!(run_cancellable_outcome(Some(42u32)), Ok(42));
    // cut short by shutdown
    assert_eq!(run_cancellable_outcome::<u32>(None), Err(Cancelled));
}

#[test]
fn poll_accounting() {
    assert!(!timed_poll(SLOW_POLL_MS).slow);
    assert!(timed_poll(SLOW_POLL_MS + 1).slow);

    let mut monitor = TaskMonitor::new();
    meter(&mut monitor, timed_poll(5));
    meter(&mut monitor, timed_poll(1200));
    meter(&mut monitor, timed_poll(0));
    assert_eq!(metrics(&monitor), (3, 1, 1205));
    let line = print_metrics(&monitor);
    assert_eq!(line, b"polls: 3, slow: 1, busy ms: 1205".to_vec());
}

#[test]
fn metering_saturates() {
    let mut monitor = TaskMonitor::new();
    monitor.total_poll_ms = u64::MAX - 1;
    meter(&mut monitor, timed_poll(100));
    assert_eq!(monitor.total_poll_ms, u64::MAX);
    assert_eq!(monitor.polls, 1);
}

#[test]
fn conf_defaults() {
    let conf = ChappyConf::assemble(
        None,
        3,
        String::from("seed.example"),
        String::from("8000"),
        String::from("10.0.0.1"),
    );
    assert_eq!(conf.cluster_id, "default");
    assert_eq!(conf.cluster_size, 3);
    assert_eq!(conf.connection_timeout_ms, DEFAULT_CONNECTION_TIMEOUT_MS);
    let named = ChappyConf::assemble(
        Some(String::from("prod")),
        3,
        String::from("seed.example"),
        String::from("8000"),
        String::from("10.0.0.1"),
    );
    assert_eq!(named.cluster_id, "prod");
}
