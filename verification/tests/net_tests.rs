use rsys::error::DecodeReason;
use rsys::error::ErrorKind;
use rsys::error::RsysError;
use rsys::listing::DirEntry;
use rsys::listing::DirListing;
use rsys::net::IfAddrEntry;
use rsys::net::InterfaceStat;
use rsys::net::decode_interface_stat;
use rsys::net::default_iface;
use rsys::net::encode_interface_stat;
use rsys::net::extract_v4_addr;
use rsys::net::extract_v6_addr;
use rsys::net::find_addr;
use rsys::net::iface;
use rsys::net::ifaces;
use rsys::net::interfaces;
use rsys::net::ipv4;
use rsys::net::mac;

const LO_LINE: &str =
    "    lo: 17776656  127989    0    0    0     0          0         0 17776656  127989    0    0    0     0       0          0";

const ENP_LINE: &str =
    "enp0s3: 482459368  346190    0    0    0     0          0      4785 27290111  198549    0    0    0     0       0          0";

#[test]
fn decode_lo_fixture_values() {
    let st = decode_interface_stat(LO_LINE).unwrap();
    assert_eq!(st.rx_bytes, 17776656);
    assert_eq!(st.rx_packets, 127989);
    assert_eq!(st.rx_errs, 0);
    assert_eq!(st.rx_drop, 0);
    assert_eq!(st.rx_fifo, 0);
    assert_eq!(st.rx_frame, 0);
    assert_eq!(st.rx_compressed, 0);
    assert_eq!(st.rx_multicast, 0);
    assert_eq!(st.tx_bytes, 17776656);
    assert_eq!(st.tx_packets, 127989);
    assert_eq!(st.tx_errs, 0);
    assert_eq!(st.tx_drop, 0);
    assert_eq!(st.tx_fifo, 0);
    assert_eq!(st.tx_frame, 0);
    assert_eq!(st.tx_compressed, 0);
    assert_eq!(st.tx_multicast, 0);
}

#[test]
fn decode_device_fixture_values() {
    let st = decode_interface_stat(ENP_LINE).unwrap();
    assert_eq!(st.rx_bytes, 482459368);
    assert_eq!(st.rx_packets, 346190);
    assert_eq!(st.rx_multicast, 4785);
    assert_eq!(st.tx_bytes, 27290111);
    assert_eq!(st.tx_packets, 198549);
    assert_eq!(st.tx_multicast, 0);
}

#[test]
fn round_trip_on_numeric_payload() {
    let st = decode_interface_stat(ENP_LINE).unwrap();
    let line = encode_interface_stat("enp0s3", &st);
    let again = decode_interface_stat(&line).unwrap();
    assert_eq!(again, st);
    assert_eq!(again.fields(), st.fields());
}

#[test]
fn round_trip_extreme_values() {
    let st = InterfaceStat {
        rx_bytes: u64::MAX,
        rx_packets: 0,
        rx_errs: 1,
        rx_drop: 10,
        rx_fifo: 100,
        rx_frame: 1000,
        rx_compressed: 7,
        rx_multicast: 9,
        tx_bytes: u64::MAX - 1,
        tx_packets: 42,
        tx_errs: 0,
        tx_drop: 0,
        tx_fifo: 3,
        tx_frame: 0,
        tx_compressed: 0,
        tx_multicast: 5,
    };
    let line = encode_interface_stat("wlan0", &st);
    assert_eq!(decode_interface_stat(&line).unwrap(), st);
}

#[test]
fn fewer_fields_is_field_count_error() {
    let line = "eth0: 1 2 3 4 5 6 7 8 9 10 11 12 13 14 15";
    match decode_interface_stat(line) {
        Err(RsysError::DecodeError {
            raw,
            reason: DecodeReason::FieldCount { expected, actual },
        }) => {
            assert_eq!(raw, line);
            assert_eq!(expected, 16);
            assert_eq!(actual, 15);
        },
        other => panic!("expected a field-count failure, got {:?}", other),
    }
}

#[test]
fn more_fields_is_field_count_error() {
    let line = "eth0: 1 2 3 4 5 6 7 8 9 10 11 12 13 14 15 16 17";
    match decode_interface_stat(line) {
        Err(RsysError::DecodeError { reason: DecodeReason::FieldCount { expected, actual }, .. }) => {
            assert_eq!(expected, 16);
            assert_eq!(actual, 17);
        },
        other => panic!("expected a field-count failure, got {:?}", other),
    }
}

#[test]
fn bad_numeral_is_decode_error() {
    let line = "eth0: 1 2 3 4 x 6 7 8 9 10 11 12 13 14 15 16";
    match decode_interface_stat(line) {
        Err(e @ RsysError::DecodeError { reason: DecodeReason::BadNumber { .. }, .. }) => {
            assert_eq!(e.kind(), ErrorKind::DecodeError);
        },
        other => panic!("expected a bad-number failure, got {:?}", other),
    }
}

#[test]
fn overflowing_numeral_is_decode_error() {
    let line = "eth0: 18446744073709551616 2 3 4 5 6 7 8 9 10 11 12 13 14 15 16";
    assert!(matches!(
        decode_interface_stat(line),
        Err(RsysError::DecodeError { reason: DecodeReason::BadNumber { .. }, .. })
    ));
}

#[test]
fn missing_colon_is_decode_error() {
    let line = "1 2 3 4 5 6 7 8 9 10 11 12 13 14 15 16";
    assert!(matches!(
        decode_interface_stat(line),
        Err(RsysError::DecodeError { reason: DecodeReason::MissingSeparator { separator: ':' }, .. })
    ));
}

#[test]
fn v4_address_extraction() {
    assert_eq!(extract_v4_addr("10.0.0.5:8080"), "10.0.0.5");
    assert_eq!(extract_v4_addr("127.0.0.1:0"), "127.0.0.1");
    assert_eq!(extract_v4_addr("nocolon"), "nocolon");
}

#[test]
fn v6_address_extraction() {
    assert_eq!(extract_v6_addr("[fe80::1]:443"), "fe80::1");
    assert_eq!(extract_v6_addr("[::1]:80"), "::1");
    assert_eq!(extract_v6_addr("nobracket"), "nobracket");
}

#[test]
fn absent_interface_yields_absent_address() {
    let entries = vec![
        IfAddrEntry {
            name: "eth0".to_string(),
            addr4: Some("10.0.0.5:8080".to_string()),
            addr6: None,
        },
    ];
    assert_eq!(find_addr(&entries, "eth1", false), None);
    assert_eq!(find_addr(&entries, "eth0", true), None);
    assert_eq!(find_addr(&entries, "eth0", false), Some("10.0.0.5".to_string()));
}

#[test]
fn find_addr_takes_first_matching_family() {
    let entries = vec![
        IfAddrEntry { name: "wlan0".to_string(), addr4: None, addr6: None },
        IfAddrEntry {
            name: "wlan0".to_string(),
            addr4: None,
            addr6: Some("[fe80::1]:443".to_string()),
        },
        IfAddrEntry {
            name: "wlan0".to_string(),
            addr4: None,
            addr6: Some("[fe80::2]:443".to_string()),
        },
    ];
    assert_eq!(find_addr(&entries, "wlan0", true), Some("fe80::1".to_string()));
}

#[test]
fn live_address_table_is_reachable() {
    // the live table depends on the machine; the query itself must succeed
    assert!(ipv4("lo").is_ok());
}

#[test]
fn default_iface_reads_second_line_last_column() {
    let arp = "IP address       HW type     Flags       HW address            Mask     Device\n\
               192.168.0.1      0x1         0x2         aa:bb:cc:dd:ee:ff     *        enp0s3\n";
    assert_eq!(default_iface(arp), Some("enp0s3".to_string()));
    assert_eq!(default_iface("header only\n"), None);
    assert_eq!(default_iface(""), None);
}

#[test]
fn mac_trims_raw_value() {
    assert_eq!(mac("aa:bb:cc:dd:ee:ff\n"), "aa:bb:cc:dd:ee:ff");
}

#[test]
fn interfaces_of_listed_namespace() {
    let listing = DirListing::Entries {
        entries: vec![
            DirEntry::Name("lo".to_string()),
            DirEntry::Unreadable,
            DirEntry::Name("enp0s3".to_string()),
        ],
    };
    assert_eq!(interfaces(&listing).unwrap(), vec!["lo".to_string(), "enp0s3".to_string()]);
}

#[test]
fn empty_namespace_yields_empty_collection() {
    let listing = DirListing::Entries { entries: vec![] };
    assert_eq!(interfaces(&listing).unwrap(), Vec::<String>::new());
}

#[test]
fn unlistable_namespace_is_source_unavailable() {
    let listing = DirListing::Unavailable { path: "/sys/class/net".to_string() };
    match interfaces(&listing) {
        Err(RsysError::SourceUnavailable { source, .. }) => {
            assert_eq!(source, "/sys/class/net");
        },
        other => panic!("expected a source failure, got {:?}", other),
    }
}

#[test]
fn ifaces_pairs_names_with_stats() {
    let net_dev = format!(
        "Inter-|   Receive                                                |  Transmit\n face |bytes    packets errs drop fifo frame compressed multicast|bytes    packets errs drop fifo colls carrier compressed\n{}\n{}\n",
        LO_LINE, ENP_LINE
    );
    let listing = DirListing::Entries {
        entries: vec![DirEntry::Name("enp0s3".to_string()), DirEntry::Name("lo".to_string())],
    };
    let result = ifaces(&listing, &net_dev).unwrap();
    assert_eq!(result.0.len(), 2);
    assert_eq!(result.0[0].name, "enp0s3");
    assert_eq!(result.0[0].stat.rx_bytes, 482459368);
    assert_eq!(result.0[1].name, "lo");
    assert_eq!(result.0[1].stat.rx_bytes, 17776656);
}

#[test]
fn ifaces_skips_entries_without_a_line() {
    let net_dev = format!("header\nheader\n{}\n", LO_LINE);
    let listing = DirListing::Entries {
        entries: vec![DirEntry::Name("lo".to_string()), DirEntry::Name("missing".to_string())],
    };
    let result = ifaces(&listing, &net_dev).unwrap();
    assert_eq!(result.0.len(), 1);
    assert_eq!(result.0[0].name, "lo");
}

#[test]
fn iface_lookup_absent_is_none() {
    let net_dev = format!("header\nheader\n{}\n", LO_LINE);
    let listing = DirListing::Entries { entries: vec![DirEntry::Name("lo".to_string())] };
    assert!(iface(&listing, &net_dev, "eth9").unwrap().is_none());
    let found = iface(&listing, &net_dev, "lo").unwrap().unwrap();
    assert_eq!(found.name, "lo");
    assert_eq!(found.stat.rx_packets, 127989);
}

#[test]
fn encode_produces_the_documented_shape() {
    let st = InterfaceStat {
        rx_bytes: 1,
        rx_packets: 2,
        rx_errs: 3,
        rx_drop: 4,
        rx_fifo: 5,
        rx_frame: 6,
        rx_compressed: 7,
        rx_multicast: 8,
        tx_bytes: 9,
        tx_packets: 10,
        tx_errs: 11,
        tx_drop: 12,
        tx_fifo: 13,
        tx_frame: 14,
        tx_compressed: 15,
        tx_multicast: 16,
    };
    assert_eq!(
        encode_interface_stat("lo", &st),
        "lo: 1 2 3 4 5 6 7 8 9 10 11 12 13 14 15 16"
    );
}

#[test]
fn leading_zeros_decode_by_value() {
    let line = "eth0: 007 0 0 0 0 0 0 0 0 0 0 0 0 0 0 18446744073709551615";
    let st = decode_interface_stat(line).unwrap();
    assert_eq!(st.rx_bytes, 7);
    assert_eq!(st.tx_multicast, u64::MAX);
}

#[test]
fn default_iface_ignores_later_lines() {
    let arp = "header\n1.1.1.1 x y z * eth0\n2.2.2.2 x y z * eth1\n";
    assert_eq!(default_iface(arp), Some("eth0".to_string()));
}
