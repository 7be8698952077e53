use scope_waveform::error::ErrorKind;
use scope_waveform::locator::{
    resource_for_host, Locator, LocatorEvent, LocatorRequest, OPERATIONAL_TIMEOUT_SECS,
    PROBE_TIMEOUT_SECS,
};

fn resources(names: &[&str]) -> Vec<Vec<u8>> {
    names.iter().map(|n| n.as_bytes().to_vec()).collect()
}

fn open(name: &str, timeout: u64) -> LocatorRequest {
    LocatorRequest::Open(name.as_bytes().to_vec(), timeout)
}

fn list(pattern: &str) -> LocatorRequest {
    LocatorRequest::List(pattern.as_bytes().to_vec())
}

fn line(text: &str) -> LocatorEvent {
    LocatorEvent::Line(text.as_bytes().to_vec())
}

#[test]
fn timeouts_are_one_and_ten_seconds() {
    assert_eq!(PROBE_TIMEOUT_SECS, 1);
    assert_eq!(OPERATIONAL_TIMEOUT_SECS, 10);
}

#[test]
fn second_resource_matches_and_is_reopened() {
    let locator = Locator::discover();
    assert_eq!(locator.request(), list("?*::INSTR"));
    let locator = locator.advance(LocatorEvent::Listed(resources(&["R1", "R2"])));
    assert_eq!(locator.request(), open("R1", 1));
    let locator = locator.advance(LocatorEvent::Opened);
    assert_eq!(locator.request(), LocatorRequest::Write(b"*IDN?\n".to_vec()));
    let locator = locator.advance(LocatorEvent::Written);
    assert_eq!(locator.request(), LocatorRequest::ReadLine);
    let locator = locator.advance(line("FOO,Scope,1,2\n"));
    assert_eq!(locator.request(), open("R2", 1));
    let locator = locator.advance(LocatorEvent::Opened);
    assert_eq!(locator.request(), LocatorRequest::Write(b"*IDN?\n".to_vec()));
    let locator = locator.advance(LocatorEvent::Written);
    assert_eq!(locator.request(), LocatorRequest::ReadLine);
    let locator = locator.advance(line("Batronix,Merlin,123,1.0\n"));
    assert!(!locator.is_finished());
    assert_eq!(locator.request(), open("R2", 10));
    let locator = locator.advance(LocatorEvent::Opened);
    assert!(locator.is_finished());
    assert_eq!(locator.request(), LocatorRequest::Found(b"R2".to_vec()));
}

#[test]
fn patterns_are_tried_in_order_until_none_is_left() {
    let locator = Locator::discover();
    assert_eq!(locator.request(), list("?*::INSTR"));
    let locator = locator.advance(LocatorEvent::Failed);
    assert_eq!(locator.request(), list("USB?*INSTR"));
    let locator = locator.advance(LocatorEvent::Listed(Vec::new()));
    assert_eq!(locator.request(), list("TCPIP?*INSTR"));
    assert!(!locator.is_finished());
    let locator = locator.advance(LocatorEvent::Listed(Vec::new()));
    assert!(locator.is_finished());
    assert_eq!(locator.request(), LocatorRequest::Failed(ErrorKind::DeviceNotFound));
}

#[test]
fn failures_on_a_resource_lead_to_the_next() {
    let locator = Locator::discover().advance(LocatorEvent::Listed(resources(&[
        "A", "B", "C", "D", "E",
    ])));
    assert_eq!(locator.request(), open("A", 1));
    let locator = locator.advance(LocatorEvent::Failed);
    assert_eq!(locator.request(), open("B", 1));
    let locator = locator.advance(LocatorEvent::Opened).advance(LocatorEvent::Failed);
    assert_eq!(locator.request(), open("C", 1));
    let locator = locator
        .advance(LocatorEvent::Opened)
        .advance(LocatorEvent::Written)
        .advance(LocatorEvent::Failed);
    assert_eq!(locator.request(), open("D", 1));
    let locator = locator
        .advance(LocatorEvent::Opened)
        .advance(LocatorEvent::Written)
        .advance(line("xxBatronixxx"));
    assert_eq!(locator.request(), open("D", 10));
    let locator = locator.advance(LocatorEvent::Failed);
    assert_eq!(locator.request(), open("E", 1));
    let locator = locator
        .advance(LocatorEvent::Opened)
        .advance(LocatorEvent::Written)
        .advance(line("batronix\n"));
    assert_eq!(locator.request(), list("USB?*INSTR"));
}

#[test]
fn match_in_a_later_pattern_is_found() {
    let locator = Locator::discover()
        .advance(LocatorEvent::Listed(resources(&["X"])))
        .advance(LocatorEvent::Failed);
    assert_eq!(locator.request(), list("USB?*INSTR"));
    let locator = locator.advance(LocatorEvent::Failed);
    assert_eq!(locator.request(), list("TCPIP?*INSTR"));
    let locator = locator
        .advance(LocatorEvent::Listed(resources(&["TCPIP::1.2.3.4::INSTR"])))
        .advance(LocatorEvent::Opened)
        .advance(LocatorEvent::Written)
        .advance(line("Batronix"))
        .advance(LocatorEvent::Opened);
    assert_eq!(locator.request(), LocatorRequest::Found(b"TCPIP::1.2.3.4::INSTR".to_vec()));
}

#[test]
fn search_ends_without_device_when_nothing_matches() {
    let mut locator = Locator::discover();
    for _ in 0..3 {
        locator = locator
            .advance(LocatorEvent::Listed(resources(&["R1"])))
            .advance(LocatorEvent::Opened)
            .advance(LocatorEvent::Written)
            .advance(line("Other,Scope\n"));
    }
    assert!(locator.is_finished());
    assert_eq!(locator.request(), LocatorRequest::Failed(ErrorKind::DeviceNotFound));
    let locator = locator.advance(LocatorEvent::Opened);
    assert_eq!(locator.request(), LocatorRequest::Failed(ErrorKind::DeviceNotFound));
}

#[test]
fn event_that_does_not_answer_counts_as_failure() {
    let locator = Locator::discover()
        .advance(LocatorEvent::Listed(resources(&["R1", "R2"])))
        .advance(LocatorEvent::Written);
    assert_eq!(locator.request(), open("R2", 1));
    let locator = locator.advance(LocatorEvent::Opened).advance(line("Batronix"));
    assert_eq!(locator.request(), list("USB?*INSTR"));
}

#[test]
fn given_host_is_opened_with_the_operational_timeout() {
    assert_eq!(resource_for_host(b"192.168.1.7"), b"TCPIP::192.168.1.7::INSTR".to_vec());
    let locator = Locator::direct(b"scope.lab");
    assert_eq!(locator.request(), open("TCPIP::scope.lab::INSTR", 10));
    let locator = locator.advance(LocatorEvent::Opened);
    assert!(locator.is_finished());
    assert_eq!(locator.request(), LocatorRequest::Found(b"TCPIP::scope.lab::INSTR".to_vec()));
}

#[test]
fn given_host_that_does_not_open_is_a_transport_error() {
    let locator = Locator::direct(b"scope.lab").advance(LocatorEvent::Failed);
    assert!(locator.is_finished());
    assert_eq!(locator.request(), LocatorRequest::Failed(ErrorKind::Transport));
}
