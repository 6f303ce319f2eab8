use serial_bridge::config::Config;
use serial_bridge::pipeline::{Action, Event, Outcome, Pipeline};
use serial_bridge::registry::{
    on_connect_attempt, ConnectDecision, ConnectionManager, SlotId, RETRY_DELAY_SECONDS,
};

fn config(blender: bool, visualizer: bool) -> Config {
    Config {
        port: String::from("/dev/ttyACM0"),
        baud: 115200,
        host: String::from("127.0.0.1"),
        blender,
        visualizer,
        blender_port: 65432,
        viz_port: 65433,
    }
}

const JSON_LINE: &[u8] = b"{\"x\":1.0,\"y\":-2.0,\"z\":0.0}\n";

fn expect_write(a: Action) -> (SlotId, Vec<u8>) {
    match a {
        Action::Write { slot, payload } => (slot, payload),
        Action::Read => panic!("expected a write, machine asked to read"),
        Action::Finish { .. } => panic!("expected a write, machine finished"),
    }
}

#[test]
fn supervisor_retries_forever_with_fixed_delay() {
    assert_eq!(on_connect_attempt(true), ConnectDecision::Established);
    assert_eq!(
        on_connect_attempt(false),
        ConnectDecision::RetryAfterDelay { seconds: RETRY_DELAY_SECONDS }
    );
    assert_eq!(RETRY_DELAY_SECONDS, 3);
}

#[test]
fn disabled_consumer_gets_no_connection_attempt() {
    let mut reg = ConnectionManager::new(&config(true, false));
    assert_eq!(reg.next_to_connect(), Some(SlotId::Blender));
    reg.mark_connected(SlotId::Blender);
    // Visualizer is disabled: the supervisor has nothing left to connect.
    assert_eq!(reg.next_to_connect(), None);
}

#[test]
fn single_enabled_consumer_gets_exactly_one_write() {
    let mut reg = ConnectionManager::new(&config(true, false));
    reg.mark_connected(SlotId::Blender);
    let mut pipe = Pipeline::new(reg);
    let (slot, payload) = expect_write(pipe.step(Event::Bytes(JSON_LINE.to_vec())));
    assert_eq!(slot, SlotId::Blender);
    assert_eq!(payload, JSON_LINE.to_vec());
    // After the one successful write the machine goes back to reading:
    // no second socket is written.
    assert!(matches!(pipe.step(Event::WriteOk), Action::Read));
}

#[test]
fn valid_line_is_forwarded_byte_identical_to_every_consumer() {
    let mut reg = ConnectionManager::new(&config(true, true));
    reg.mark_connected(SlotId::Blender);
    reg.mark_connected(SlotId::Visualizer);
    let mut pipe = Pipeline::new(reg);
    let (slot1, payload1) = expect_write(pipe.step(Event::Bytes(JSON_LINE.to_vec())));
    assert_eq!(slot1, SlotId::Blender);
    assert_eq!(payload1, JSON_LINE.to_vec());
    let (slot2, payload2) = expect_write(pipe.step(Event::WriteOk));
    assert_eq!(slot2, SlotId::Visualizer);
    assert_eq!(payload2, JSON_LINE.to_vec());
    assert!(matches!(pipe.step(Event::WriteOk), Action::Read));
}

#[test]
fn invalid_line_is_dropped_without_forwarding() {
    let mut reg = ConnectionManager::new(&config(true, true));
    reg.mark_connected(SlotId::Blender);
    reg.mark_connected(SlotId::Visualizer);
    let mut pipe = Pipeline::new(reg);
    assert!(matches!(pipe.step(Event::Bytes(b"not json\n".to_vec())), Action::Read));
}

#[test]
fn incomplete_line_waits_for_more_bytes() {
    let mut reg = ConnectionManager::new(&config(true, false));
    reg.mark_connected(SlotId::Blender);
    let mut pipe = Pipeline::new(reg);
    assert!(matches!(pipe.step(Event::Bytes(b"{\"x\":1.0".to_vec())), Action::Read));
    let (_, payload) = expect_write(pipe.step(Event::Bytes(b",\"y\":-2.0,\"z\":0.0}\n".to_vec())));
    assert_eq!(payload, JSON_LINE.to_vec());
}

#[test]
fn write_failure_stops_forwarding_before_later_slots() {
    let mut reg = ConnectionManager::new(&config(true, true));
    reg.mark_connected(SlotId::Blender);
    reg.mark_connected(SlotId::Visualizer);
    let mut pipe = Pipeline::new(reg);
    let (slot1, _) = expect_write(pipe.step(Event::Bytes(JSON_LINE.to_vec())));
    assert_eq!(slot1, SlotId::Blender);
    // The write to the first consumer fails: the message is not delivered
    // to the visualizer and the loop terminates with an error outcome.
    match pipe.step(Event::WriteFailed) {
        Action::Finish { outcome } => assert_eq!(outcome, Outcome::WriteError),
        Action::Read => panic!("machine kept going after a write failure"),
        Action::Write { .. } => panic!("machine wrote to a later slot after a write failure"),
    }
}

#[test]
fn read_timeout_is_not_an_error() {
    let mut reg = ConnectionManager::new(&config(true, false));
    reg.mark_connected(SlotId::Blender);
    let mut pipe = Pipeline::new(reg);
    assert!(matches!(pipe.step(Event::Timeout), Action::Read));
    assert!(matches!(pipe.step(Event::Timeout), Action::Read));
}

#[test]
fn read_error_terminates_without_error_outcome() {
    let mut reg = ConnectionManager::new(&config(true, false));
    reg.mark_connected(SlotId::Blender);
    let mut pipe = Pipeline::new(reg);
    match pipe.step(Event::ReadFailed) {
        Action::Finish { outcome } => assert_eq!(outcome, Outcome::ReadError),
        _ => panic!("a fatal read error must terminate the loop"),
    }
}

#[test]
fn no_connected_consumer_means_no_delivery() {
    let reg = ConnectionManager::new(&config(true, false));
    // Enabled but never connected: forwarding is not attempted.
    let mut pipe = Pipeline::new(reg);
    assert!(matches!(pipe.step(Event::Bytes(JSON_LINE.to_vec())), Action::Read));
}

#[test]
fn surrounding_whitespace_is_stripped_before_forwarding() {
    let mut reg = ConnectionManager::new(&config(true, false));
    reg.mark_connected(SlotId::Blender);
    let mut pipe = Pipeline::new(reg);
    let mut chunk = b"  ".to_vec();
    chunk.extend_from_slice(b"{\"x\":1.0,\"y\":-2.0,\"z\":0.0}\r\n");
    let (_, payload) = expect_write(pipe.step(Event::Bytes(chunk)));
    assert_eq!(payload, JSON_LINE.to_vec());
}
