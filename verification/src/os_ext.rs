//! The per-platform dispatch surface: one capability set of host facts,
//! implemented here by the Linux-style backend. A caller holds the
//! trait and never the variant; every method is a pure decoder over the
//! raw source content the caller supplies.

use vstd::prelude::*;

use crate::cpu::Cores;
use crate::cpu::Processor;
use crate::cpu::core_of;
use crate::cpu::core_pair_ok;
use crate::cpu::core_pairs;
use crate::cpu::proc_num;
use crate::error::RsysError;
use crate::listing::DirListing;
use crate::listing::readable_names;
use crate::mem::Memory;
use crate::mem::lookup_spec;
use crate::mem::mem_field;
use crate::mounts::MountPoint;
use crate::mounts::MountPoints;
use crate::mounts::mount_ok;
use crate::mounts::mount_val;
use crate::net::Interface;
use crate::net::Interfaces;
use crate::net::ifaces_spec;
use crate::ps::ProcEntry;
use crate::ps::Processes;
use crate::ps::ProcessStat;
use crate::ps::processes_spec;
use crate::ps::pids_spec;
use crate::ps::ps_ok;
use crate::ps::ps_record;
use crate::storage::DeviceMapper;
use crate::storage::MultipleDeviceStorage;
use crate::storage::Partition;
use crate::storage::ScsiCdrom;
use crate::storage::StorageDevice;
use crate::storage::has_prefix;
use crate::storage::size_ok;
use crate::storage::size_val;
use crate::text::lines_spec;
use crate::text::trim_spec;

verus! {

/// The Linux-style backend of the host-facts capability set.
pub struct Linux {}

/// Extends the common host-facts surface with the facts this platform
/// family exposes. Each method decodes raw source content handed in by
/// the caller; nothing here reads the machine.
pub trait OsImplExt {
    /// Builds the `sd`-prefixed block-device record; a name without the
    /// prefix fails with `InvalidDeviceKind`.
    fn stat_block_device(
        &self,
        name: &str,
        size_raw: &str,
        block_size_raw: &str,
        partitions: Vec<Partition>,
    ) -> (r: Result<StorageDevice, RsysError>)
        ensures
            r is Ok <==> has_prefix(name@, "sd"@) && size_ok(size_raw@) && size_ok(
                block_size_raw@,
            ),
            r matches Ok(d) ==> d.name@ == name@ && d.size == size_val(size_raw@) && d.block_size
                == size_val(block_size_raw@),
            !has_prefix(name@, "sd"@) ==> (r matches Err(e)
                && e matches RsysError::InvalidDeviceKind { .. }),
    ;

    /// Builds the `dm`-prefixed device-mapper record; a name without
    /// the prefix fails with `InvalidDeviceKind`.
    fn stat_device_mapper(&self, name: &str, size_raw: &str, block_size_raw: &str) -> (r: Result<
        DeviceMapper,
        RsysError,
    >)
        ensures
            r is Ok <==> has_prefix(name@, "dm"@) && size_ok(size_raw@) && size_ok(
                block_size_raw@,
            ),
            r matches Ok(d) ==> d.name@ == name@ && d.size == size_val(size_raw@) && d.block_size
                == size_val(block_size_raw@),
            !has_prefix(name@, "dm"@) ==> (r matches Err(e)
                && e matches RsysError::InvalidDeviceKind { .. }),
    ;

    /// Builds the `sr`-prefixed optical-drive record; a name without
    /// the prefix fails with `InvalidDeviceKind`.
    fn stat_scsi_cdrom(&self, name: &str, size_raw: &str, block_size_raw: &str) -> (r: Result<
        ScsiCdrom,
        RsysError,
    >)
        ensures
            r is Ok <==> has_prefix(name@, "sr"@) && size_ok(size_raw@) && size_ok(
                block_size_raw@,
            ),
            r matches Ok(d) ==> d.name@ == name@ && d.size == size_val(size_raw@) && d.block_size
                == size_val(block_size_raw@),
            !has_prefix(name@, "sr"@) ==> (r matches Err(e)
                && e matches RsysError::InvalidDeviceKind { .. }),
    ;

    /// Builds the `md`-prefixed multiple-device storage record; a name
    /// without the prefix fails with `InvalidDeviceKind`.
    fn stat_multiple_device_storage(
        &self,
        name: &str,
        size_raw: &str,
        block_size_raw: &str,
    ) -> (r: Result<MultipleDeviceStorage, RsysError>)
        ensures
            r is Ok <==> has_prefix(name@, "md"@) && size_ok(size_raw@) && size_ok(
                block_size_raw@,
            ),
            r matches Ok(d) ==> d.name@ == name@ && d.size == size_val(size_raw@) && d.block_size
                == size_val(block_size_raw@),
            !has_prefix(name@, "md"@) ==> (r matches Err(e)
                && e matches RsysError::InvalidDeviceKind { .. }),
    ;

    /// The block size of a device from its raw one-line value, in bytes.
    fn block_size(&self, raw: &str) -> (r: Result<i64, RsysError>)
        ensures
            r is Ok <==> size_ok(raw@) && size_val(raw@) <= i64::MAX,
            r matches Ok(v) ==> v == size_val(raw@),
    ;

    /// Decodes the memory facts from the key:value memory listing.
    fn memory(&self, meminfo: &str) -> (r: Result<Memory, RsysError>)
        ensures
            r is Ok <==> (mem_field(meminfo@, "MemTotal"@) is Some && mem_field(
                meminfo@,
                "MemFree"@,
            ) is Some && mem_field(meminfo@, "MemAvailable"@) is Some && mem_field(
                meminfo@,
                "SwapTotal"@,
            ) is Some && mem_field(meminfo@, "SwapFree"@) is Some),
            r matches Ok(m) ==> (Some(m.total as nat) == mem_field(meminfo@, "MemTotal"@) && Some(
                m.free as nat,
            ) == mem_field(meminfo@, "MemFree"@) && Some(m.available as nat) == mem_field(
                meminfo@,
                "MemAvailable"@,
            ) && Some(m.swap_total as nat) == mem_field(meminfo@, "SwapTotal"@) && Some(
                m.swap_free as nat,
            ) == mem_field(meminfo@, "SwapFree"@)),
    ;

    /// Decodes one process status record.
    fn stat_process(&self, stat_raw: &str) -> (r: Result<ProcessStat, RsysError>)
        ensures
            r is Ok <==> ps_ok(stat_raw@),
            r matches Ok(p) ==> p@ == ps_record(stat_raw@),
    ;

    /// The process ids found in the process namespace, in listing order.
    fn pids(&self, listing: &DirListing) -> (r: Result<Vec<i32>, RsysError>)
        ensures
            r is Ok <==> listing matches DirListing::Entries { .. },
            listing matches DirListing::Entries { entries } ==> (r matches Ok(v) && v@.map_values(
                |p: i32| p as int,
            ) == pids_spec(readable_names(entries@))),
    ;

    /// Decodes every readable process status record, skipping
    /// unreadable and malformed entries.
    fn processes(&self, entries: &Vec<ProcEntry>) -> (r: Processes)
        ensures
            r.0@.map_values(|p: ProcessStat| p@) == processes_spec(entries@),
    ;

    /// The kernel version: the raw one-line value, trimmed.
    fn kernel_version(&self, raw: &str) -> (r: String)
        ensures
            r@ == trim_spec(raw@),
    ;

    /// Decodes the mount table into its ordered entries.
    fn mounts(&self, raw: &str) -> (r: Result<MountPoints, RsysError>)
        ensures
            r is Ok <==> (forall|i: int|
                0 <= i < lines_spec(raw@).len() ==> mount_ok(#[trigger] lines_spec(raw@)[i])),
            r matches Ok(v) ==> v.0@.map_values(|m: MountPoint| m@) == lines_spec(raw@).map_values(
                |l: Seq<char>| mount_val(l),
            ),
    ;

    /// Decodes the per-core facts from the processor listing.
    fn cores(&self, cpuinfo: &str) -> (r: Result<Cores, RsysError>)
        ensures
            r is Ok <==> (forall|i: int|
                0 <= i < core_pairs(cpuinfo@).len() ==> core_pair_ok(
                    #[trigger] core_pairs(cpuinfo@)[i],
                )),
            r matches Ok(v) ==> v.0@ == core_pairs(cpuinfo@).map_values(
                |p: (Seq<char>, Option<Seq<char>>)| core_of(p),
            ),
    ;

    /// Decodes the single-value processor facts.
    fn processor(&self, cpuinfo: &str) -> (r: Result<Processor, RsysError>)
        ensures
            r is Ok <==> (lookup_spec(cpuinfo@, "vendor_id"@) is Some && lookup_spec(
                cpuinfo@,
                "model name"@,
            ) is Some && proc_num(cpuinfo@, "cpu cores"@) is Some && proc_num(
                cpuinfo@,
                "siblings"@,
            ) is Some),
            r matches Ok(p) ==> (Some(p.vendor_id@) == lookup_spec(cpuinfo@, "vendor_id"@) && Some(
                p.model_name@,
            ) == lookup_spec(cpuinfo@, "model name"@) && Some(p.cpu_cores as nat) == proc_num(
                cpuinfo@,
                "cpu cores"@,
            ) && Some(p.siblings as nat) == proc_num(cpuinfo@, "siblings"@)),
    ;

    /// Enumerates the interfaces of the host from a namespace listing
    /// and the statistics table.
    fn ifaces(&self, listing: &DirListing, net_dev: &str) -> (r: Result<Interfaces, RsysError>)
        ensures
            r is Ok <==> listing matches DirListing::Entries { .. },
            listing matches DirListing::Entries { entries } ==> (r matches Ok(v)
                && v.0@.map_values(|ifc: Interface| (ifc.name@, ifc.stat)) == ifaces_spec(
                readable_names(entries@),
                net_dev@,
            )),
    ;
}

impl OsImplExt for Linux {
    fn stat_block_device(
        &self,
        name: &str,
        size_raw: &str,
        block_size_raw: &str,
        partitions: Vec<Partition>,
    ) -> (r: Result<StorageDevice, RsysError>) {
        crate::storage::stat_block_device(name, size_raw, block_size_raw, partitions)
    }

    fn stat_device_mapper(&self, name: &str, size_raw: &str, block_size_raw: &str) -> (r: Result<
        DeviceMapper,
        RsysError,
    >) {
        crate::storage::stat_device_mapper(name, size_raw, block_size_raw)
    }

    fn stat_scsi_cdrom(&self, name: &str, size_raw: &str, block_size_raw: &str) -> (r: Result<
        ScsiCdrom,
        RsysError,
    >) {
        crate::storage::stat_scsi_cdrom(name, size_raw, block_size_raw)
    }

    fn stat_multiple_device_storage(
        &self,
        name: &str,
        size_raw: &str,
        block_size_raw: &str,
    ) -> (r: Result<MultipleDeviceStorage, RsysError>) {
        crate::storage::stat_multiple_device_storage(name, size_raw, block_size_raw)
    }

    fn block_size(&self, raw: &str) -> (r: Result<i64, RsysError>) {
        crate::storage::block_size(raw)
    }

    fn memory(&self, meminfo: &str) -> (r: Result<Memory, RsysError>) {
        crate::mem::memory(meminfo)
    }

    fn stat_process(&self, stat_raw: &str) -> (r: Result<ProcessStat, RsysError>) {
        crate::ps::stat_process(stat_raw)
    }

    fn pids(&self, listing: &DirListing) -> (r: Result<Vec<i32>, RsysError>) {
        crate::ps::pids(listing)
    }

    fn processes(&self, entries: &Vec<ProcEntry>) -> (r: Processes) {
        crate::ps::processes(entries)
    }

    fn kernel_version(&self, raw: &str) -> (r: String) {
        crate::text::trim(raw)
    }

    fn mounts(&self, raw: &str) -> (r: Result<MountPoints, RsysError>) {
        crate::mounts::mounts(raw)
    }

    fn cores(&self, cpuinfo: &str) -> (r: Result<Cores, RsysError>) {
        crate::cpu::cores(cpuinfo)
    }

    fn processor(&self, cpuinfo: &str) -> (r: Result<Processor, RsysError>) {
        crate::cpu::processor(cpuinfo)
    }

    fn ifaces(&self, listing: &DirListing, net_dev: &str) -> (r: Result<Interfaces, RsysError>) {
        crate::net::ifaces(listing, net_dev)
    }
}

} // verus!
