use mboitata::{create_ca_certificate, CertificateManager};

#[test]
fn ca_round_trip_reloads_and_mints() {
    // Creating a CA, reloading it from its PEMs, and minting a leaf for a
    // hostname all succeed: the reloaded issuer is functioning.
    let (cert_pem, key_pem) = create_ca_certificate().expect("CA created");
    assert!(cert_pem.contains("BEGIN CERTIFICATE"));
    assert!(key_pem.contains("PRIVATE KEY"));
    let mut manager =
        CertificateManager::new(cert_pem.as_str(), key_pem.as_str()).ok().expect("CA reloads");
    let leaf = manager.get_server_config("example.com").ok().expect("leaf minted");
    assert_eq!(leaf.hostname, "example.com");
}

#[test]
fn hostnames_are_normalized_before_minting() {
    let (cert_pem, key_pem) = create_ca_certificate().expect("CA created");
    let mut manager = CertificateManager::new(cert_pem.as_str(), key_pem.as_str()).ok().unwrap();
    let leaf = manager.get_server_config("Example.COM:443").ok().expect("leaf minted");
    assert_eq!(leaf.hostname, "example.com");
}

#[test]
fn cache_returns_the_same_hostname_again() {
    let (cert_pem, key_pem) = create_ca_certificate().expect("CA created");
    let mut manager = CertificateManager::new(cert_pem.as_str(), key_pem.as_str()).ok().unwrap();
    let a = manager.get_server_config("example.com").ok().unwrap();
    let b = manager.get_server_config("example.com:8443").ok().unwrap();
    assert_eq!(a.hostname, b.hostname);
}

#[test]
fn garbage_pems_are_rejected() {
    assert!(CertificateManager::new("not a pem", "not a key").is_err());
}

#[test]
fn non_ascii_hostnames_are_rejected() {
    // A hostname the IA5 check refuses cannot be minted; the manager is
    // left untouched and a later valid hostname still succeeds.
    let (cert_pem, key_pem) = create_ca_certificate().expect("CA created");
    let mut manager = CertificateManager::new(cert_pem.as_str(), key_pem.as_str()).ok().unwrap();
    assert!(manager.get_server_config("h\u{e9}llo.example").is_err());
    assert!(manager.get_server_config("example.com").is_ok());
}
