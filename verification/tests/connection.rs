use podman_lens::{
    ConnectionKind, ConnectionSpec, DiagnosticCode, MutualTlsPolicy, OpaqueReference, SshConnection,
    TcpMutualTlsConnection, UnixConnection,
};

fn reference(text: &str) -> OpaqueReference {
    OpaqueReference::new(text).unwrap()
}

fn policy() -> MutualTlsPolicy {
    MutualTlsPolicy::new("podman.example", reference("ca"), reference("cert"), reference("key")).unwrap()
}

#[test]
fn opaque_references_must_be_non_blank_and_free_of_controls() {
    assert_eq!(OpaqueReference::new("   ").err().unwrap().code(), DiagnosticCode::InvalidConnection);
    assert_eq!(OpaqueReference::new("key\n").err().unwrap().code(), DiagnosticCode::InvalidConnection);
    assert_eq!(OpaqueReference::new("host-key").unwrap().as_str(), "host-key");
    assert_eq!(OpaqueReference::new("host-key").unwrap().to_display_string(), "[redacted]");
}

#[test]
fn unix_socket_paths_are_absolute_named_and_short() {
    let c = UnixConnection::new("/run/user/1000/podman/podman.sock").unwrap();
    assert_eq!(c.socket_path(), "/run/user/1000/podman/podman.sock");
    for bad in ["relative.sock", "/", "//", "/run/../podman.sock", "/run/./podman.sock", "/run/a\0b"] {
        assert_eq!(UnixConnection::new(bad).err().unwrap().code(), DiagnosticCode::InvalidConnection, "{bad:?}");
    }
    let longest = format!("/{}", "a".repeat(106));
    assert!(UnixConnection::new(&longest).is_ok());
    let too_long = format!("/{}", "a".repeat(107));
    assert!(UnixConnection::new(&too_long).is_err());
}

#[test]
fn unix_endpoint_spelling_is_parsed() {
    let c = UnixConnection::parse("unix:///run/podman/podman.sock").unwrap();
    assert_eq!(c.socket_path(), "/run/podman/podman.sock");
    assert!(UnixConnection::parse("unix:///run/%2e%2e/podman.sock").is_err());
    assert!(UnixConnection::parse("unix:///run/podman/podman.sock?x=1").is_err());
    assert!(UnixConnection::parse("unix://host/run/podman.sock").is_err());
    assert!(UnixConnection::parse("tcp:///run/podman.sock").is_err());
}

#[test]
fn ssh_endpoint_needs_user_host_port_and_socket() {
    let c = SshConnection::parse("ssh://core@host.example:22/run/podman/podman.sock", reference("hk"), reference("auth"))
        .unwrap();
    assert_eq!(c.host(), "host.example");
    assert_eq!(c.port(), 22);
    assert_eq!(c.user(), "core");
    assert_eq!(c.remote_socket_path(), "/run/podman/podman.sock");
    assert_eq!(c.host_key_reference().as_str(), "hk");
    assert_eq!(c.authentication_reference().as_str(), "auth");
    assert!(SshConnection::parse("ssh://host.example:22/run/podman.sock", reference("hk"), reference("auth")).is_err());
    assert!(SshConnection::parse("ssh://core@host.example/run/podman.sock", reference("hk"), reference("auth")).is_err());
    assert!(SshConnection::parse("ssh://core:pw@host.example:22/run/podman.sock", reference("hk"), reference("auth")).is_err());
}

#[test]
fn ssh_connection_rejects_zero_port_and_bad_names() {
    assert!(SshConnection::new("host", 0, "core", "/run/podman.sock", reference("a"), reference("b")).is_err());
    assert!(SshConnection::new(" host", 22, "core", "/run/podman.sock", reference("a"), reference("b")).is_err());
    assert!(SshConnection::new("host", 22, "co@re", "/run/podman.sock", reference("a"), reference("b")).is_err());
    assert!(SshConnection::new("host", 22, "core", "/run/podman.sock", reference("a"), reference("b")).is_ok());
}

#[test]
fn tcp_endpoint_is_host_and_port_only() {
    let c = TcpMutualTlsConnection::parse("tcp://podman.example:8443", policy()).unwrap();
    assert_eq!(c.host(), "podman.example");
    assert_eq!(c.port(), 8443);
    assert_eq!(c.policy().server_name(), "podman.example");
    assert!(TcpMutualTlsConnection::parse("tcp://podman.example:8443/path", policy()).is_err());
    assert!(TcpMutualTlsConnection::parse("tcp://podman.example", policy()).is_err());
    assert!(TcpMutualTlsConnection::parse("tcp://user@podman.example:8443", policy()).is_err());
    assert!(TcpMutualTlsConnection::parse("http://podman.example:8443", policy()).is_err());
}

#[test]
fn tls_server_name_must_be_an_endpoint_name() {
    assert!(MutualTlsPolicy::new("bad name", reference("a"), reference("b"), reference("c")).is_err());
    assert!(MutualTlsPolicy::new("host/x", reference("a"), reference("b"), reference("c")).is_err());
}

#[test]
fn connection_kind_follows_the_variant() {
    let spec = ConnectionSpec::Unix(UnixConnection::new("/run/podman.sock").unwrap());
    assert_eq!(spec.kind(), ConnectionKind::Unix);
    assert_eq!(spec.to_display_string(), "unix socket [redacted]");
    let tcp = ConnectionSpec::TcpMutualTls(TcpMutualTlsConnection::parse("tcp://h.example:1", policy()).unwrap());
    assert_eq!(tcp.kind(), ConnectionKind::TcpMutualTls);
}

#[test]
fn opaque_reference_debug_text_is_redacted() {
    let reference = podman_lens::OpaqueReference::new("vault://podman/key").unwrap();
    assert_eq!(reference.debug_text(), "OpaqueReference([redacted])");
    assert!(!reference.debug_text().contains("vault"));
}

#[test]
fn diagnostic_rule_codes_are_distinct_pln_numbers() {
    assert_eq!(podman_lens::DiagnosticCode::InvalidConnection.as_str(), "PLN0001");
    assert_eq!(podman_lens::DiagnosticCode::ProbeHeader.as_str(), "PLN0008");
    assert_eq!(podman_lens::DiagnosticCode::InventoryEvidenceUnavailable.as_str(), "PLN0026");
    assert_ne!(podman_lens::DiagnosticCode::ProbeHeader.as_str(), podman_lens::DiagnosticCode::ProbeJson.as_str());
}

#[test]
fn an_ssh_connection_keeps_every_nonzero_port_and_refuses_zero() {
    for port in [1u16, 22, 2222, u16::MAX] {
        let connection =
            SshConnection::new("host.example", port, "core", "/run/podman/podman.sock", reference("k"), reference("a")).unwrap();
        assert_eq!(connection.port(), port);
        assert_ne!(connection.port(), 0);
    }
    let zero = SshConnection::new("host.example", 0, "core", "/run/podman/podman.sock", reference("k"), reference("a"));
    assert_eq!(zero.err().unwrap().code(), DiagnosticCode::InvalidConnection);
}
