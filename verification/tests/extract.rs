use kernellog::iptables::IptablesLineError;
use kernellog::iptables::IptablesLogLine;
use kernellog::iptables::Ipv4Address;
use kernellog::kernel::Timestamp;
use kernellog::utils::parse_dmesg_iso_timestamp;

fn some_timestamp() -> Timestamp {
    Timestamp::Calendar(parse_dmesg_iso_timestamp("2020-07-30T14:02:51,000000+0000").unwrap())
}

#[test]
fn firewall_body_extracts_the_network_record() {
    let ts = some_timestamp();
    let rec = IptablesLogLine::new(
        "naisdevice-fwd: IN=eth0 SRC=10.0.0.5 DST=10.0.0.1 PROTO=TCP",
        &ts,
    )
    .unwrap();
    assert_eq!(rec.source_ip, Ipv4Address(10, 0, 0, 5));
    assert_eq!(rec.destination_ip, Ipv4Address(10, 0, 0, 1));
    assert_eq!(rec.log_type, "naisdevice-fwd");
    assert_eq!(rec.timestamp, ts);
}

#[test]
fn missing_src_is_a_missing_key_failure() {
    let ts = some_timestamp();
    let r = IptablesLogLine::new("fwd: IN=eth0 DST=10.0.0.1 PROTO=TCP", &ts);
    match r {
        Err(IptablesLineError::MissingKey { key }) => assert_eq!(key, "SRC"),
        _ => panic!("expected the missing-key failure for SRC"),
    }
}

#[test]
fn missing_dst_is_a_missing_key_failure() {
    let ts = some_timestamp();
    let r = IptablesLogLine::new("fwd: IN=eth0 SRC=10.0.0.5 PROTO=TCP", &ts);
    match r {
        Err(IptablesLineError::MissingKey { key }) => assert_eq!(key, "DST"),
        _ => panic!("expected the missing-key failure for DST"),
    }
}

#[test]
fn missing_separator_is_reported() {
    let ts = some_timestamp();
    let r = IptablesLogLine::new("no separator here", &ts);
    match r {
        Err(IptablesLineError::MissingSeparator { input }) => {
            assert_eq!(input, "no separator here")
        },
        _ => panic!("expected the missing-separator failure"),
    }
}

#[test]
fn token_without_equals_is_fatal() {
    let ts = some_timestamp();
    let r = IptablesLogLine::new("fwd: SRC=10.0.0.5 garbage DST=10.0.0.1", &ts);
    match r {
        Err(IptablesLineError::MalformedToken { token }) => assert_eq!(token, "garbage"),
        _ => panic!("expected the malformed-token failure"),
    }
}

#[test]
fn token_with_two_equals_is_fatal() {
    let ts = some_timestamp();
    let r = IptablesLogLine::new("fwd: SRC=10.0.0.5 a=b=c DST=10.0.0.1", &ts);
    match r {
        Err(IptablesLineError::MalformedToken { token }) => assert_eq!(token, "a=b=c"),
        _ => panic!("expected the malformed-token failure"),
    }
}

#[test]
fn malformed_address_is_reported_with_key_and_value() {
    let ts = some_timestamp();
    let r = IptablesLogLine::new("fwd: SRC=999.0.0.1 DST=10.0.0.1", &ts);
    match r {
        Err(IptablesLineError::InvalidAddress { key, value }) => {
            assert_eq!(key, "SRC");
            assert_eq!(value, "999.0.0.1");
        },
        _ => panic!("expected the invalid-address failure"),
    }
    let r = IptablesLogLine::new("fwd: SRC=10.0.0.5 DST=10.0.0", &ts);
    match r {
        Err(IptablesLineError::InvalidAddress { key, value }) => {
            assert_eq!(key, "DST");
            assert_eq!(value, "10.0.0");
        },
        _ => panic!("expected the invalid-address failure"),
    }
}

#[test]
fn repeated_keys_resolve_to_the_last_occurrence() {
    let ts = some_timestamp();
    let rec = IptablesLogLine::new("fwd: SRC=1.1.1.1 DST=9.9.9.9 SRC=2.2.2.2", &ts).unwrap();
    assert_eq!(rec.source_ip, Ipv4Address(2, 2, 2, 2));
    assert_eq!(rec.destination_ip, Ipv4Address(9, 9, 9, 9));
}

#[test]
fn label_splits_at_the_first_separator() {
    let ts = some_timestamp();
    let rec = IptablesLogLine::new("outer: K=v: SRC=1.2.3.4 DST=5.6.7.8", &ts).unwrap();
    assert_eq!(rec.log_type, "outer");
}

#[test]
fn extraction_twice_yields_value_equal_records() {
    let ts = some_timestamp();
    let msg = "naisdevice-fwd: IN=eth0 SRC=10.0.0.5 DST=10.0.0.1 PROTO=TCP";
    let a = IptablesLogLine::new(msg, &ts).unwrap();
    let b = IptablesLogLine::new(msg, &ts).unwrap();
    assert_eq!(a, b);
}

#[test]
fn ipv4_literals_parse_exactly() {
    assert_eq!(Ipv4Address::parse("0.0.0.0"), Some(Ipv4Address(0, 0, 0, 0)));
    assert_eq!(
        Ipv4Address::parse("255.255.255.255"),
        Some(Ipv4Address(255, 255, 255, 255))
    );
    assert_eq!(Ipv4Address::parse("10.0.0.5"), Some(Ipv4Address(10, 0, 0, 5)));
    assert_eq!(Ipv4Address::parse("256.1.1.1"), None);
    assert_eq!(Ipv4Address::parse("1.2.3"), None);
    assert_eq!(Ipv4Address::parse("1.2.3.4.5"), None);
    assert_eq!(Ipv4Address::parse("01.2.3.4"), None);
    assert_eq!(Ipv4Address::parse("1.2.3.4 "), None);
    assert_eq!(Ipv4Address::parse(""), None);
    assert_eq!(Ipv4Address::parse("1..2.3"), None);
}
