use squabble::port::{checked_port, port_from_env, DEFAULT_PORT};

#[test]
fn the_default_port_is_used_without_a_setting() {
    assert_eq!(port_from_env(None), Ok(DEFAULT_PORT));
    assert_eq!(DEFAULT_PORT, 7741);
}

#[test]
fn a_setting_is_read_as_a_number() {
    assert_eq!(port_from_env(Some("8080")), Ok(8080));
    assert_eq!(port_from_env(Some("+80")), Ok(80));
    assert_eq!(port_from_env(Some("65535")), Ok(65535));
}

#[test]
fn a_setting_that_is_no_port_is_refused() {
    for text in ["", "abc", "65536", "-1", " 80", "+"] {
        let e = port_from_env(Some(text)).expect_err("no port");
        assert!(e.starts_with(&format!("SQUABBLE_PORT=`{text}` is not a port: ")), "{e}");
        assert!(e.len() > format!("SQUABBLE_PORT=`{text}` is not a port: ").len());
    }
}

#[test]
fn zero_is_refused() {
    assert_eq!(
        port_from_env(Some("0")),
        Err("SQUABBLE_PORT=0 would bind an ephemeral port the cartridge cannot target".to_string())
    );
    assert_eq!(checked_port("9", Ok(9)), Ok(9));
    assert_eq!(
        checked_port("x", Err("why".into())),
        Err("SQUABBLE_PORT=`x` is not a port: why".to_string())
    );
}
