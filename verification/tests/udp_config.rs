use qsonaut::config::{Config, ConfigError};
use qsonaut::udp::{broadcast_payload, destination_host, validate_settings, Format, Qso, UdpError};

fn qso() -> Qso {
    Qso {
        call: "W1AW".into(),
        my_call: "K7TEST".into(),
        band: "20".into(),
        mode: "CW".into(),
        timestamp: "2026-09-09 12:34:56".into(),
        qso_date: "20260909".into(),
        time_on: "123456".into(),
        rst_sent: "599".into(),
        rst_received: "579".into(),
        grid: "FN31".into(),
        exchange: "1A WMA".into(),
        comment: "A & B".into(),
        station_name: "TEST-PC".into(),
        id: "id-1".into(),
    }
}

#[test]
fn packets_escape_and_preserve_qso_fields() {
    let q = qso();
    assert!(q.n1mm_contactinfo().contains("<call>W1AW</call>"));
    assert!(q.n1mm_contactinfo().contains("A &amp; B"));
    assert!(q.adif().contains("<CALL:4>W1AW"));
}

#[test]
fn adif_record_skips_empty_values_and_counts_utf8_bytes() {
    let mut q = qso();
    q.comment = "café".into();
    q.grid = String::new();
    let adif = q.adif();
    assert!(adif.contains("<COMMENT:5>café"));
    assert!(!adif.contains("GRIDSQUARE"));
    assert!(adif.ends_with("<EOR>"));
    assert!(adif.starts_with("<CALL:4>W1AW<MY_CALLSIGN:6>K7TEST"));
    let xml = qso().n1mm_contactinfo();
    assert!(xml.starts_with("<?xml version=\"1.0\" encoding=\"utf-8\"?><contactinfo><app>QSONaut</app>"));
    assert!(xml.ends_with("<ID>id-1</ID></contactinfo>"));
}

#[test]
fn udp_settings_and_payload_limits_are_checked() {
    assert_eq!(validate_settings(true, 0, 65_507), Err(UdpError::NoDestination));
    assert_eq!(validate_settings(false, 0, 1), Err(UdpError::PayloadLimit));
    assert_eq!(validate_settings(false, 0, 65_508), Err(UdpError::PayloadLimit));
    assert_eq!(validate_settings(true, 1, 256), Ok(()));
    assert_eq!(destination_host("", 1000), Err(UdpError::DestinationRequired));
    assert_eq!(destination_host("host", 0), Err(UdpError::DestinationRequired));
    assert_eq!(destination_host("  host ", 1000).unwrap(), "host");
    let q = qso();
    assert_eq!(broadcast_payload(&q, Format::Adif, false, 256), Ok(None));
    assert_eq!(
        broadcast_payload(&q, Format::Adif, true, 65_507).unwrap().unwrap(),
        q.adif()
    );
    assert_eq!(
        broadcast_payload(&q, Format::N1mmContactInfo, true, 256),
        Err(UdpError::PayloadTooLarge)
    );
}

#[test]
fn connection_settings_default_and_validate() {
    let d = Config::default();
    assert!(!d.enabled);
    assert_eq!(d.host, "127.0.0.1");
    assert_eq!(d.port, 1100);
    assert_eq!(d.connect_timeout_ms, 3000);
    assert_eq!(d.io_timeout_ms, 1000);
    assert_eq!(d.max_frame_bytes, 1024 * 1024);
    assert_eq!(d.validate(), Ok(()));
    let s = Config::station_network();
    assert_eq!(s.port, 1000);
    assert_eq!(Config { host: "  ".into(), ..d.clone() }.validate(), Err(ConfigError::HostAndPort));
    assert_eq!(
        Config { host: "not a host\0".into(), ..d.clone() }.validate(),
        Err(ConfigError::HostAndPort)
    );
    assert_eq!(Config { port: 0, ..d.clone() }.validate(), Err(ConfigError::HostAndPort));
    assert_eq!(Config { io_timeout_ms: 0, ..d.clone() }.validate(), Err(ConfigError::Timeouts));
    assert_eq!(Config { max_frame_bytes: 63, ..d.clone() }.validate(), Err(ConfigError::FrameLimit));
    assert_eq!(
        Config { max_frame_bytes: 16 * 1024 * 1024 + 1, ..d.clone() }.validate(),
        Err(ConfigError::FrameLimit)
    );
    assert_eq!(Config { max_frame_bytes: 64, ..d }.validate(), Ok(()));
}

#[test]
fn invalid_config_rejected() {
    // The settings of an enabled broadcaster with the default (empty)
    // destinations and the default payload limit, then a disabled one with a
    // one-byte limit.
    assert!(validate_settings(true, 0, 65_507).is_err());
    assert!(validate_settings(false, 0, 1).is_err());
    assert!(destination_host("", 1000).is_err());
}
