use pvpn::vpn_man::{ConnStatus, ConnectAction, DisconnectAction, VPNMan};

fn man() -> VPNMan {
    VPNMan::new(
        "/etc/tunnel/*.ovpn".to_string(),
        "/etc/tunnel/login.conf".to_string(),
        "/tmp/tunnel_pid".to_string(),
    )
}

#[test]
fn new_keeps_configuration() {
    let m = man();
    assert_eq!(m.ovpn_dir, "/etc/tunnel/*.ovpn");
    assert_eq!(m.auth_file, "/etc/tunnel/login.conf");
    assert_eq!(m.pid_file, "/tmp/tunnel_pid");
}

#[test]
fn connect_spawns_only_from_disconnected() {
    let m = man();
    assert_eq!(m.connect_request(&None), ConnectAction::Spawn);
    let marker = m.marker_for_pid(4242);
    assert_eq!(m.connect_request(&Some(marker)), ConnectAction::AlreadyConnected);
}

#[test]
fn second_connect_is_a_noop() {
    let m = man();
    let marker = Some(m.marker_for_pid(777));
    assert_eq!(m.connect_request(&marker), ConnectAction::AlreadyConnected);
    assert_eq!(m.connect_request(&marker), ConnectAction::AlreadyConnected);
}

#[test]
fn disconnect_without_marker_is_a_noop() {
    let m = man();
    assert_eq!(m.disconnect_request(&None), DisconnectAction::NotConnected);
}

#[test]
fn disconnect_with_unparseable_marker_is_a_noop() {
    let m = man();
    assert_eq!(m.disconnect_request(&Some(b"garbage".to_vec())), DisconnectAction::NotConnected);
}

#[test]
fn disconnect_terminates_recorded_process() {
    let m = man();
    let marker = m.marker_for_pid(31337);
    assert_eq!(m.disconnect_request(&Some(marker)), DisconnectAction::Terminate(31337));
}

#[test]
fn connect_status_disconnect_round_trip() {
    let m = man();
    assert_eq!(m.check_status(&None), ConnStatus::Disconnected);
    assert_eq!(m.connect_request(&None), ConnectAction::Spawn);
    let marker = m.marker_for_pid(4242);
    assert_eq!(m.check_status(&Some(marker.clone())), ConnStatus::Connected);
    assert_eq!(m.disconnect_request(&Some(marker)), DisconnectAction::Terminate(4242));
    assert_eq!(m.check_status(&None), ConnStatus::Disconnected);
}

#[test]
fn status_ignores_unparseable_marker() {
    let m = man();
    assert_eq!(m.check_status(&Some(b"not a pid".to_vec())), ConnStatus::Disconnected);
    assert!(!m.is_connected(&Some(b"".to_vec())));
    assert!(m.is_connected(&Some(b" 99\n".to_vec())));
}
