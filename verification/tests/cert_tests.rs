use sshcore::cert::contains_cert_marker;

const MARKER: &str = "-cert-v01@openssh.com";

#[test]
fn detects_exact_marker() {
    let content: Vec<u8> = MARKER.as_bytes().to_vec();
    assert!(contains_cert_marker(&content));
}

#[test]
fn detects_marker_inside_typical_certificate_line() {
    let line = format!("ssh-ed25519{} AAAAB3Nza... user@host", MARKER);
    assert!(contains_cert_marker(&line.as_bytes().to_vec()));
}

#[test]
fn detects_marker_at_end() {
    let content = format!("prefix {}", MARKER);
    assert!(contains_cert_marker(&content.as_bytes().to_vec()));
}

#[test]
fn rejects_empty_content() {
    let content: Vec<u8> = Vec::new();
    assert!(!contains_cert_marker(&content));
}

#[test]
fn rejects_unrelated_content() {
    let content = b"ssh-ed25519 AAAAC3NzaC1lZDI1NTE5 user@host".to_vec();
    assert!(!contains_cert_marker(&content));
}

#[test]
fn rejects_partial_marker() {
    let content = b"-cert-v01@openssh.co".to_vec();
    assert!(!contains_cert_marker(&content));
}

#[test]
fn rejects_content_shorter_than_marker() {
    let content = b"-cert-".to_vec();
    assert!(!contains_cert_marker(&content));
}

#[test]
fn detects_marker_among_binary_bytes() {
    let mut content = vec![0u8, 255, 7];
    content.extend_from_slice(MARKER.as_bytes());
    content.extend_from_slice(&[1, 2, 3]);
    assert!(contains_cert_marker(&content));
}
