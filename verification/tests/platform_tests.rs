use rsys::error::DecodeReason;
use rsys::error::ErrorKind;
use rsys::error::RsysError;
use rsys::macos;
use rsys::windows;

#[test]
fn uptime_from_boot_value() {
    // the numeral after the fixed prefix, as wide as the current time
    let boot = "{ sec = 1604466556, usec = 0 } Tue Nov  3 09:49:16 2020";
    assert_eq!(macos::uptime(boot, 1604466656).unwrap(), 100);
}

#[test]
fn uptime_malformed_boot_value_fails() {
    assert!(matches!(
        macos::uptime("short", 1604466656),
        Err(RsysError::DecodeError { .. })
    ));
    // a boot instant after the current time is malformed, not an underflow
    let boot = "{ sec = 1604466656, usec = 0 }";
    assert!(matches!(
        macos::uptime(boot, 1604466555),
        Err(RsysError::DecodeError { .. })
    ));
}

const VM_STAT: &str = "Mach Virtual Memory Statistics: (page size of 4096 bytes)\n\
Pages free:                               40740.\n\
Pages active:                            421275.\n\
Pages inactive:                          415271.\n\
Pages speculative:                        36182.\n";

#[test]
fn swap_total_adds_active_and_inactive_pages() {
    let total = macos::swap_total(VM_STAT, 4096).unwrap();
    assert_eq!(total, (421275 + 415271) * 4096);
}

#[test]
fn swap_total_missing_line_fails() {
    match macos::swap_total("Pages active: 5.\n", 4096) {
        Err(RsysError::DecodeError { reason: DecodeReason::MissingKey { key }, .. }) => {
            assert_eq!(key, "Pages inactive");
        },
        other => panic!("expected a missing-key failure, got {:?}", other),
    }
}

#[test]
fn default_iface_from_route_output() {
    let out = "   route to: default\n\
destination: default\n\
       mask: default\n\
    gateway: 192.168.0.1\n\
  interface: en0\n\
      flags: <UP,GATEWAY,DONE,STATIC,PRCLONING>\n";
    assert_eq!(macos::default_iface(out), Some("en0".to_string()));
    assert_eq!(macos::default_iface("no such line\n"), None);
}

#[test]
fn bare_numeric_values() {
    assert_eq!(macos::cpu_cores("4\n").unwrap(), 4);
    assert_eq!(macos::logical_cores("8").unwrap(), 8);
    assert_eq!(macos::memory_total("17179869184\n").unwrap(), 17179869184);
    assert!(matches!(macos::cpu_cores("70000"), Err(RsysError::DecodeError { .. })));
    assert!(matches!(macos::cpu_cores("abc"), Err(RsysError::DecodeError { .. })));
}

#[test]
fn absent_platform_facts_are_empty() {
    assert_eq!(macos::memory_free().unwrap(), 0);
    assert_eq!(macos::swap_free().unwrap(), 0);
    assert_eq!(macos::ipv6("en0").unwrap(), "");
    assert_eq!(macos::mac("en0").unwrap(), "");
    assert_eq!(macos::interfaces().unwrap(), Vec::<String>::new());
    assert_eq!(macos::domainname().unwrap(), "");
}

#[test]
fn architecture_discriminant_names() {
    assert_eq!(windows::arch(9), "x64");
    assert_eq!(windows::arch(5), "ARM");
    assert_eq!(windows::arch(12), "ARM64");
    assert_eq!(windows::arch(6), "Intel Itanium-based");
    assert_eq!(windows::arch(0), "x86");
    assert_eq!(windows::arch(7), "");
}

#[test]
fn hyperthreading_halves_core_count() {
    assert_eq!(windows::cpu_cores(8, true), 4);
    assert_eq!(windows::cpu_cores(8, false), 8);
}

#[test]
fn uptime_scales_ticks() {
    assert_eq!(windows::uptime_from_ticks(12345).unwrap(), 12345000);
    assert_eq!(windows::uptime_from_ticks(u64::MAX), None);
}

#[test]
fn absent_platform_facts_fail_as_unsupported() {
    for e in [
        windows::cpu().unwrap_err(),
        windows::default_iface().unwrap_err(),
        windows::ipv4("eth0").unwrap_err(),
        windows::ipv6("eth0").unwrap_err(),
        windows::mac("eth0").unwrap_err(),
        windows::interfaces().unwrap_err(),
        windows::domainname().unwrap_err(),
    ] {
        assert_eq!(e.kind(), ErrorKind::UnsupportedPlatform);
    }
}

#[test]
fn error_kinds_are_distinct() {
    let e = RsysError::UnsupportedPlatform { fact: "x".to_string() };
    assert_eq!(e.kind(), ErrorKind::UnsupportedPlatform);
    let e = RsysError::SourceUnavailable { source: "p".to_string(), reason: "r".to_string() };
    assert_eq!(e.kind(), ErrorKind::SourceUnavailable);
    assert_ne!(ErrorKind::DecodeError, ErrorKind::InvalidDeviceKind);
}
