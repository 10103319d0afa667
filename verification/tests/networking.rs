use podman_lens::{DiagnosticCode, StaticMacAddress};

#[test]
fn a_static_mac_address_is_normalized_to_lower_case() {
    assert_eq!(StaticMacAddress::new("02:42:AC:11:00:02").unwrap().as_str(), "02:42:ac:11:00:02");
    assert_eq!(StaticMacAddress::new("+2:42:ac:11:00:0f").unwrap().as_str(), "+2:42:ac:11:00:0f");
}

#[test]
fn malformed_mac_addresses_are_rejected() {
    for value in ["02:42:ac:11:00", "02-42-ac-11-00-02", "02:42:ac:11:00:0g", "002:42:ac:11:00:2", "02:42:ac:11:00:02:", ""] {
        assert_eq!(StaticMacAddress::new(value).err().unwrap().code(), DiagnosticCode::InvalidDeploymentIntent);
    }
}
