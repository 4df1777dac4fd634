use dsh_desktop::platform::Platform;
use dsh_desktop::port::{
    kill_port_occupant, listening_pids, PortCleanup, PortWait, PortWaitStep, PORT_FREE_TRIES,
};

const LIST: &str = "\r\nActive Connections\r\n\r\n  Proto  Local Address  Foreign Address  State  PID\r\n  TCP    127.0.0.1:3080    0.0.0.0:0    LISTENING    37316\r\n  TCP    [::1]:3080    [::]:0    LISTENING    37316\r\n  TCP    0.0.0.0:13080    0.0.0.0:0    LISTENING    11\r\n  TCP    127.0.0.1:3080    127.0.0.1:5000    ESTABLISHED    12\r\n  TCP    0.0.0.0:3080    0.0.0.0:0    LISTENING    4\r\n  TCP    0.0.0.0:3080    0.0.0.0:0    LISTENING    0\r\n  TCP    10.0.0.1:3080    0.0.0.0:0    LISTENING    +77";

#[test]
fn listeners_are_found_once_and_in_order() {
    assert_eq!(listening_pids(LIST), vec![37316, 77]);
}

#[test]
fn rows_that_are_no_listeners_are_skipped() {
    assert!(listening_pids("").is_empty());
    assert!(listening_pids("TCP 127.0.0.1:3080 0.0.0.0:0 LISTENING").is_empty());
    assert!(listening_pids("TCP 127.0.0.1:3080 0.0.0.0:0 LISTENING x9").is_empty());
    assert!(listening_pids("TCP 127.0.0.1:3080 0.0.0.0:0 LISTENING 4294967296").is_empty());
    assert!(listening_pids("TCP 127.0.0.1:3080 0.0.0.0:0 LISTENING +").is_empty());
    assert!(listening_pids("TCP 127.0.0.1:3080 0.0.0.0:0 listening 99").is_empty());
    assert_eq!(
        listening_pids("TCP\u{3000}127.0.0.1:3080 0.0.0.0:0 LISTENING 4294967295 more"),
        vec![u32::MAX]
    );
}

#[test]
fn occupants_get_orders_on_windows() {
    match kill_port_occupant(Platform::Windows, LIST.as_bytes()) {
        PortCleanup::Kill(orders) => {
            assert_eq!(orders.len(), 2);
            assert_eq!(orders[0].pid, 37316);
            assert_eq!(orders[0].command.program, "taskkill");
            assert_eq!(orders[0].command.args, ["/T", "/F", "/PID", "37316"]);
            assert_eq!(orders[1].command.args, ["/T", "/F", "/PID", "77"]);
        }
        other => panic!("{other:?}"),
    }
}

#[test]
fn bytes_that_are_not_utf8_do_not_hide_a_listener() {
    let mut list = vec![0xd0, 0xc5, 0xff, b' ', b'x', b'\n'];
    list.extend_from_slice(b"TCP 127.0.0.1:3080 0.0.0.0:0 LISTENING 9 \xce\xd2");
    match kill_port_occupant(Platform::Windows, &list) {
        PortCleanup::Kill(orders) => {
            assert_eq!(orders.len(), 1);
            assert_eq!(orders[0].pid, 9);
        }
        other => panic!("{other:?}"),
    }
}

#[test]
fn occupants_are_not_looked_up_elsewhere() {
    assert!(matches!(
        kill_port_occupant(Platform::Other, LIST.as_bytes()),
        PortCleanup::Unsupported
    ));
}

fn run(limit: u64, taken: &[bool]) -> (bool, usize) {
    let (mut wait, mut step) = PortWait::new(limit);
    let mut looks = 0;
    loop {
        step = match step {
            PortWaitStep::Look => {
                looks += 1;
                wait.looked(taken.get(looks - 1).copied().unwrap_or(true))
            }
            PortWaitStep::Sleep { millis } => {
                assert_eq!(millis, 1000);
                wait.slept()
            }
            PortWaitStep::Done { free } => return (free, looks),
        };
    }
}

#[test]
fn a_wait_ends_with_the_first_free_look_or_at_the_limit() {
    assert_eq!(run(3, &[false]), (true, 1));
    assert_eq!(run(3, &[true, true, false]), (true, 3));
    assert_eq!(run(3, &[true, true, true, false]), (false, 3));
    assert_eq!(run(0, &[false]), (false, 0));
    assert_eq!(run(PORT_FREE_TRIES, &[]), (false, 30));
}
