use soundboard::server::{echo_after_read, echo_shutdown_after_write, port_probe_step, EchoAction, PortProbe, FIRST_PORT};

#[test]
fn free_port_is_taken_busy_port_moves_on() {
    assert!(matches!(port_probe_step(FIRST_PORT, true), PortProbe::Available(2224)));
    assert!(matches!(port_probe_step(FIRST_PORT, false), PortProbe::TryNext(2225)));
    assert!(matches!(port_probe_step(65534, false), PortProbe::TryNext(65535)));
    assert!(matches!(port_probe_step(65535, true), PortProbe::Available(65535)));
}

#[test]
fn search_ends_after_last_port() {
    assert!(matches!(port_probe_step(u16::MAX, false), PortProbe::Exhausted));
}

#[test]
fn echo_decisions() {
    assert!(matches!(echo_after_read(Some(17)), EchoAction::WriteBack(17)));
    assert!(matches!(echo_after_read(Some(480)), EchoAction::WriteBack(480)));
    assert!(matches!(echo_after_read(Some(0)), EchoAction::WriteBack(0)));
    assert!(matches!(echo_after_read(None), EchoAction::ShutdownAndStop));
    assert!(echo_shutdown_after_write(false));
    assert!(!echo_shutdown_after_write(true));
}
