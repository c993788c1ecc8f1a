use pvpn::selector::{select_best_endpoint, LoadReport};
use pvpn::VPNMan;

fn report(domain: &str, status: i64, load: i64) -> LoadReport {
    LoadReport { domain: domain.as_bytes().to_vec(), status, load }
}

fn catalog(paths: &[&str]) -> Vec<Vec<u8>> {
    paths.iter().map(|p| p.as_bytes().to_vec()).collect()
}

fn man() -> VPNMan {
    VPNMan::new(
        "/etc/tunnel/*.ovpn".to_string(),
        "/etc/tunnel/login.conf".to_string(),
        "/tmp/tunnel_pid".to_string(),
    )
}

#[test]
fn lower_load_wins() {
    let c = catalog(&["/cfg/alpha.example.ovpn", "/cfg/beta.example.ovpn"]);
    let r = vec![report("alpha.example", 1, 10), report("beta.example", 1, 5)];
    let picked = select_best_endpoint(&c, &r);
    assert_eq!(picked, Some(b"/cfg/beta.example.ovpn".to_vec()));
}

#[test]
fn all_inactive_selects_none() {
    let c = catalog(&["/cfg/alpha.example.ovpn", "/cfg/beta.example.ovpn"]);
    let r = vec![report("alpha.example", 0, 10), report("beta.example", 2, 5)];
    assert_eq!(select_best_endpoint(&c, &r), None);
}

#[test]
fn unmatched_active_report_contributes_nothing() {
    let c = catalog(&["/cfg/alpha.example.ovpn"]);
    let r = vec![report("gamma.example", 1, 1), report("alpha.example", 1, 50)];
    assert_eq!(select_best_endpoint(&c, &r), Some(b"/cfg/alpha.example.ovpn".to_vec()));
    let only_unmatched = vec![report("gamma.example", 1, 1)];
    assert_eq!(select_best_endpoint(&c, &only_unmatched), None);
}

#[test]
fn tie_goes_to_first_report() {
    let c = catalog(&["/cfg/alpha.example.ovpn", "/cfg/beta.example.ovpn"]);
    let r = vec![report("beta.example", 1, 7), report("alpha.example", 1, 7)];
    assert_eq!(select_best_endpoint(&c, &r), Some(b"/cfg/beta.example.ovpn".to_vec()));
}

#[test]
fn first_matching_catalog_entry_wins() {
    let c = catalog(&["/a/node.example.ovpn", "/b/node.example.ovpn"]);
    let r = vec![report("node.example", 1, 3)];
    assert_eq!(select_best_endpoint(&c, &r), Some(b"/a/node.example.ovpn".to_vec()));
}

#[test]
fn inactive_lower_load_is_ignored() {
    let c = catalog(&["/cfg/alpha.example.ovpn", "/cfg/beta.example.ovpn"]);
    let r = vec![report("alpha.example", 0, 1), report("beta.example", 1, 90)];
    assert_eq!(select_best_endpoint(&c, &r), Some(b"/cfg/beta.example.ovpn".to_vec()));
}

#[test]
fn empty_inputs_select_none() {
    let c = catalog(&["/cfg/alpha.example.ovpn"]);
    assert_eq!(select_best_endpoint(&c, &Vec::new()), None);
    let r = vec![report("alpha.example", 1, 5)];
    assert_eq!(select_best_endpoint(&Vec::new(), &r), None);
}

#[test]
fn manager_delegates_selection() {
    let c = catalog(&["/cfg/alpha.example.ovpn", "/cfg/beta.example.ovpn"]);
    let r = vec![report("alpha.example", 1, 10), report("beta.example", 1, 5)];
    assert_eq!(man().get_lowest_load_server(&c, &r), Some(b"/cfg/beta.example.ovpn".to_vec()));
}
