use rsys::cpu::cores;
use rsys::cpu::processor;
use rsys::error::DecodeReason;
use rsys::error::RsysError;
use rsys::listing::DirEntry;
use rsys::listing::DirListing;
use rsys::mem::memory;
use rsys::mounts::mounts;
use rsys::os_ext::Linux;
use rsys::os_ext::OsImplExt;
use rsys::ps::ProcEntry;
use rsys::ps::pids;
use rsys::ps::processes;
use rsys::ps::stat_process;
use rsys::storage::block_size;
use rsys::storage::partition;
use rsys::storage::stat_block_device;
use rsys::storage::stat_device_mapper;
use rsys::storage::stat_multiple_device_storage;
use rsys::storage::stat_scsi_cdrom;

fn stat_line(pid: &str, name: &str) -> String {
    // state then 49 further positional fields, 50 in all after the name
    let mut tail = String::from("S 1 1234 1234 0 -1 4194304 100 0 0 0 10 20 0 0 20 0 1 0 12345 1048576 200");
    for _ in 0..28 {
        tail.push_str(" 0");
    }
    format!("{} ({}) {}", pid, name, tail)
}

#[test]
fn process_name_with_space_keeps_field_boundaries() {
    let line = stat_line("1234", "my proc");
    let p = stat_process(&line).unwrap();
    assert_eq!(p.pid, 1234);
    assert_eq!(p.name, "my proc");
    assert_eq!(p.state, 'S');
    assert_eq!(p.ppid, 1);
    assert_eq!(p.pgrp, 1234);
    assert_eq!(p.session, 1234);
    assert_eq!(p.tty_nr, 0);
    assert_eq!(p.tpgid, -1);
    assert_eq!(p.flags, 4194304);
    assert_eq!(p.minflt, 100);
    assert_eq!(p.utime, 10);
    assert_eq!(p.stime, 20);
    assert_eq!(p.nice, 0);
    assert_eq!(p.num_threads, 1);
    assert_eq!(p.starttime, 12345);
    assert_eq!(p.vsize, 1048576);
    assert_eq!(p.rss, 200);
}

#[test]
fn process_name_with_parenthesis_keeps_field_boundaries() {
    let line = stat_line("77", "(my proc)");
    let p = stat_process(&line).unwrap();
    assert_eq!(p.pid, 77);
    assert_eq!(p.name, "(my proc)");
    assert_eq!(p.state, 'S');
    assert_eq!(p.rss, 200);
}

#[test]
fn process_without_parens_is_decode_error() {
    assert!(matches!(
        stat_process("1234 noname S 1"),
        Err(RsysError::DecodeError { reason: DecodeReason::MissingSeparator { .. }, .. })
    ));
}

#[test]
fn process_short_tail_is_field_count_error() {
    match stat_process("1234 (x) S 1 2") {
        Err(RsysError::DecodeError { reason: DecodeReason::FieldCount { expected, actual }, .. }) => {
            assert_eq!(expected, 50);
            assert_eq!(actual, 3);
        },
        other => panic!("expected a field-count failure, got {:?}", other),
    }
}

#[test]
fn pids_filters_numeric_names() {
    let listing = DirListing::Entries {
        entries: vec![
            DirEntry::Name("1".to_string()),
            DirEntry::Name("self".to_string()),
            DirEntry::Name("42".to_string()),
            DirEntry::Unreadable,
        ],
    };
    assert_eq!(pids(&listing).unwrap(), vec![1, 42]);
}

#[test]
fn pids_of_unlistable_namespace_fails() {
    let listing = DirListing::Unavailable { path: "/proc".to_string() };
    assert!(matches!(pids(&listing), Err(RsysError::SourceUnavailable { .. })));
}

#[test]
fn processes_skips_unreadable_and_malformed() {
    let entries = vec![
        ProcEntry::Stat(stat_line("1", "init")),
        ProcEntry::Unreadable,
        ProcEntry::Stat("garbage".to_string()),
        ProcEntry::Stat(stat_line("42", "worker")),
    ];
    let ps = processes(&entries);
    assert_eq!(ps.0.len(), 2);
    assert_eq!(ps.0[0].pid, 1);
    assert_eq!(ps.0[0].name, "init");
    assert_eq!(ps.0[1].pid, 42);
}

#[test]
fn block_device_prefix_gate() {
    assert!(matches!(
        stat_block_device("dm-0", "1000", "512", vec![]),
        Err(RsysError::InvalidDeviceKind { .. })
    ));
    let d = stat_device_mapper("dm-0", "1000", "512").unwrap();
    assert_eq!(d.name, "dm-0");
    assert_eq!(d.size, 1000);
    assert_eq!(d.block_size, 512);
    let s = stat_block_device("sda", "7814037168", "512\n", vec![]).unwrap();
    assert_eq!(s.size, 7814037168);
    assert_eq!(s.block_size, 512);
}

#[test]
fn other_device_prefix_gates() {
    assert!(matches!(stat_scsi_cdrom("sda", "1", "2"), Err(RsysError::InvalidDeviceKind { .. })));
    assert_eq!(stat_scsi_cdrom("sr0", "1", "2").unwrap().size, 1);
    assert!(matches!(
        stat_multiple_device_storage("sr0", "1", "2"),
        Err(RsysError::InvalidDeviceKind { .. })
    ));
    assert_eq!(stat_multiple_device_storage("md0", "9", "4096").unwrap().block_size, 4096);
}

#[test]
fn invalid_device_kind_names_expected_prefix() {
    match stat_block_device("dm-0", "1", "2", vec![]) {
        Err(RsysError::InvalidDeviceKind { name, expected_prefix }) => {
            assert_eq!(name, "dm-0");
            assert_eq!(expected_prefix, "sd");
        },
        other => panic!("expected a device-kind failure, got {:?}", other),
    }
}

#[test]
fn partition_and_block_size_decode() {
    let p = partition("sda1", " 1024 \n").unwrap();
    assert_eq!(p.size, 1024);
    assert_eq!(block_size("4096\n").unwrap(), 4096);
    assert!(matches!(
        block_size("not a number"),
        Err(RsysError::DecodeError { reason: DecodeReason::BadNumber { .. }, .. })
    ));
}

const MEMINFO: &str = "MemTotal:       16384516 kB\n\
MemFree:         8388608 kB\n\
MemAvailable:   12582912 kB\n\
Buffers:          123456 kB\n\
SwapTotal:       2097152 kB\n\
SwapFree:        2097000 kB\n";

#[test]
fn memory_scales_kilobytes() {
    let m = memory(MEMINFO).unwrap();
    assert_eq!(m.total, 16384516 * 1024);
    assert_eq!(m.free, 8388608 * 1024);
    assert_eq!(m.available, 12582912 * 1024);
    assert_eq!(m.swap_total, 2097152 * 1024);
    assert_eq!(m.swap_free, 2097000 * 1024);
}

#[test]
fn memory_missing_key_is_named() {
    let partial = "MemTotal: 1 kB\nMemFree: 1 kB\nSwapTotal: 1 kB\nSwapFree: 1 kB\n";
    match memory(partial) {
        Err(RsysError::DecodeError { reason: DecodeReason::MissingKey { key }, .. }) => {
            assert_eq!(key, "MemAvailable");
        },
        other => panic!("expected a missing-key failure, got {:?}", other),
    }
}

const CPUINFO: &str = "processor\t: 0\n\
vendor_id\t: GenuineIntel\n\
model name\t: Intel(R) Core(TM) i7\n\
cpu MHz\t\t: 2904.000\n\
siblings\t: 8\n\
cpu cores\t: 4\n\
\n\
processor\t: 1\n\
vendor_id\t: GenuineIntel\n\
model name\t: Intel(R) Core(TM) i7\n\
cpu MHz\t\t: 3192.500\n\
siblings\t: 8\n\
cpu cores\t: 4\n";

#[test]
fn processor_takes_first_occurrence() {
    let p = processor(CPUINFO).unwrap();
    assert_eq!(p.vendor_id, "GenuineIntel");
    assert_eq!(p.model_name, "Intel(R) Core(TM) i7");
    assert_eq!(p.cpu_cores, 4);
    assert_eq!(p.siblings, 8);
}

#[test]
fn cores_collects_each_block() {
    let c = cores(CPUINFO).unwrap();
    assert_eq!(c.0.len(), 2);
    assert_eq!(c.0[0].id, 0);
    assert_eq!(c.0[0].mhz, 2904);
    assert_eq!(c.0[1].id, 1);
    assert_eq!(c.0[1].mhz, 3192);
}

const MOUNTS: &str = "sysfs /sys sysfs rw,nosuid,nodev,noexec,relatime 0 0\n\
proc /proc proc rw,nosuid,nodev,noexec,relatime 0 0\n\
/dev/sda1 / ext4 rw,relatime,errors=remount-ro 0 0\n";

#[test]
fn mounts_decodes_fixed_columns() {
    let m = mounts(MOUNTS).unwrap();
    assert_eq!(m.0.len(), 3);
    assert_eq!(m.0[2].source, "/dev/sda1");
    assert_eq!(m.0[2].target, "/");
    assert_eq!(m.0[2].fstype, "ext4");
    assert_eq!(m.0[2].options, "rw,relatime,errors=remount-ro");
}

#[test]
fn mounts_wrong_column_count_fails() {
    match mounts("too few columns\n") {
        Err(RsysError::DecodeError { reason: DecodeReason::FieldCount { expected, actual }, .. }) => {
            assert_eq!(expected, 6);
            assert_eq!(actual, 3);
        },
        other => panic!("expected a field-count failure, got {:?}", other),
    }
}

#[test]
fn dispatch_surface_forwards_to_decoders() {
    let linux = Linux {};
    assert_eq!(linux.kernel_version("5.15.0-89-generic\n"), "5.15.0-89-generic");
    assert_eq!(linux.memory(MEMINFO).unwrap().total, 16384516 * 1024);
    assert_eq!(linux.processor(CPUINFO).unwrap().cpu_cores, 4);
    assert_eq!(linux.cores(CPUINFO).unwrap().0.len(), 2);
    assert_eq!(linux.mounts(MOUNTS).unwrap().0.len(), 3);
    assert_eq!(linux.block_size("512").unwrap(), 512);
    assert!(linux.stat_process(&stat_line("9", "x")).is_ok());
    assert!(matches!(
        linux.stat_block_device("md0", "1", "2", vec![]),
        Err(RsysError::InvalidDeviceKind { .. })
    ));
    let listing = DirListing::Entries { entries: vec![DirEntry::Name("3".to_string())] };
    assert_eq!(linux.pids(&listing).unwrap(), vec![3]);
}

#[test]
fn signed_extremes_decode() {
    // rss is the last decoded field; give it the extreme negative value
    let mut tail = String::from("S 1 1 1 0 -1 0 0 0 0 0 0 0 0 0 20 -20 1 0 0 0 -9223372036854775808");
    for _ in 0..28 {
        tail.push_str(" 0");
    }
    let line = format!("5 (x) {}", tail);
    let p = stat_process(&line).unwrap();
    assert_eq!(p.rss, i64::MIN);
    assert_eq!(p.nice, -20);
}

#[test]
fn kernel_version_is_trimmed() {
    let linux = Linux {};
    assert_eq!(linux.kernel_version("  6.1.0 \t\n"), "6.1.0");
    assert_eq!(linux.kernel_version("\n"), "");
}

#[test]
fn empty_inputs_fail_cleanly() {
    assert!(stat_process("").is_err());
    assert!(memory("").is_err());
    assert!(processor("").is_err());
    assert_eq!(cores("").unwrap().0.len(), 0);
    assert_eq!(mounts("").unwrap().0.len(), 0);
}
