use pvpn::feed::parse_load_reports;
use pvpn::selector::select_best_endpoint;
use pvpn::VpnError;

#[test]
fn malformed_body_is_parse_failed() {
    assert_eq!(parse_load_reports("not json at all"), Err(VpnError::ParseFailed));
    assert_eq!(parse_load_reports(""), Err(VpnError::ParseFailed));
}

#[test]
fn missing_logical_servers_is_parse_failed() {
    assert_eq!(parse_load_reports("{}"), Err(VpnError::ParseFailed));
    assert_eq!(parse_load_reports("{\"Servers\": []}"), Err(VpnError::ParseFailed));
}

#[test]
fn non_array_logical_servers_is_parse_failed() {
    assert_eq!(parse_load_reports("{\"LogicalServers\": 3}"), Err(VpnError::ParseFailed));
    assert_eq!(
        parse_load_reports("{\"LogicalServers\": {\"Domain\": \"a\"}}"),
        Err(VpnError::ParseFailed)
    );
}

#[test]
fn malformed_entry_is_parse_failed() {
    let missing_load = "{\"LogicalServers\": [{\"Domain\": \"a.example\", \"Status\": 1}]}";
    assert_eq!(parse_load_reports(missing_load), Err(VpnError::ParseFailed));
    let status_is_string =
        "{\"LogicalServers\": [{\"Domain\": \"a.example\", \"Status\": \"1\", \"Load\": 5}]}";
    assert_eq!(parse_load_reports(status_is_string), Err(VpnError::ParseFailed));
    let domain_is_number =
        "{\"LogicalServers\": [{\"Domain\": 7, \"Status\": 1, \"Load\": 5}]}";
    assert_eq!(parse_load_reports(domain_is_number), Err(VpnError::ParseFailed));
    let fractional_load =
        "{\"LogicalServers\": [{\"Domain\": \"a.example\", \"Status\": 1, \"Load\": 5.5}]}";
    assert_eq!(parse_load_reports(fractional_load), Err(VpnError::ParseFailed));
}

#[test]
fn well_formed_body_yields_reports() {
    let body = "{\"LogicalServers\": [\
        {\"Domain\": \"alpha.example\", \"Status\": 1, \"Load\": 10},\
        {\"Domain\": \"beta.example\", \"Status\": 0, \"Load\": 5}\
    ]}";
    let reports = parse_load_reports(body).unwrap();
    assert_eq!(reports.len(), 2);
    assert_eq!(reports[0].domain, b"alpha.example".to_vec());
    assert_eq!(reports[0].status, 1);
    assert_eq!(reports[0].load, 10);
    assert_eq!(reports[1].domain, b"beta.example".to_vec());
    assert_eq!(reports[1].status, 0);
    assert_eq!(reports[1].load, 5);
}

#[test]
fn empty_server_list_yields_no_reports() {
    let reports = parse_load_reports("{\"LogicalServers\": []}").unwrap();
    assert!(reports.is_empty());
}

#[test]
fn feed_to_selection_end_to_end() {
    let body = "{\"LogicalServers\": [\
        {\"Domain\": \"alpha.example\", \"Status\": 1, \"Load\": 10},\
        {\"Domain\": \"beta.example\", \"Status\": 1, \"Load\": 5},\
        {\"Domain\": \"gamma.example\", \"Status\": 0, \"Load\": 1}\
    ]}";
    let reports = parse_load_reports(body).unwrap();
    let catalog = vec![
        b"/cfg/alpha.example.ovpn".to_vec(),
        b"/cfg/beta.example.ovpn".to_vec(),
        b"/cfg/gamma.example.ovpn".to_vec(),
    ];
    assert_eq!(select_best_endpoint(&catalog, &reports), Some(b"/cfg/beta.example.ovpn".to_vec()));
}

#[test]
fn error_messages_name_the_stage() {
    assert_eq!(VpnError::ParseFailed.message(), "load feed body was malformed");
    assert_eq!(VpnError::NetworkFailed.message(), "load feed fetch failed");
    assert_eq!(VpnError::DiscoveryFailed.message(), "endpoint discovery failed");
    assert_eq!(VpnError::SpawnFailed.message(), "tunnel process launch failed");
    assert_eq!(VpnError::MarkerIoFailed.message(), "process marker access failed");
    assert_eq!(VpnError::TerminationFailed.message(), "termination request failed");
}
