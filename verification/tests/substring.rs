use pvpn::text::contains_substring;

#[test]
fn finds_needle_anywhere() {
    let h = b"/cfg/alpha.example.ovpn".to_vec();
    assert!(contains_substring(&h, &b"alpha.example".to_vec()));
    assert!(contains_substring(&h, &b"/cfg/".to_vec()));
    assert!(contains_substring(&h, &b".ovpn".to_vec()));
    assert!(contains_substring(&h, &h.clone()));
}

#[test]
fn rejects_absent_needle() {
    let h = b"/cfg/alpha.example.ovpn".to_vec();
    assert!(!contains_substring(&h, &b"beta.example".to_vec()));
    assert!(!contains_substring(&h, &b"alpha.example.ovpnx".to_vec()));
    assert!(!contains_substring(&b"ab".to_vec(), &b"abc".to_vec()));
}

#[test]
fn empty_needle_always_matches() {
    assert!(contains_substring(&b"".to_vec(), &b"".to_vec()));
    assert!(contains_substring(&b"abc".to_vec(), &b"".to_vec()));
}
