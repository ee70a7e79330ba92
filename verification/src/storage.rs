//! Block-device facts: four device subtypes told apart purely by a
//! name-prefix convention, each carrying a size and a block size decoded
//! from raw one-line values. The prefix is enforced before any decode,
//! so a wrong device category is distinguishable from corrupt data.

use vstd::prelude::*;

use crate::error::DecodeReason;
use crate::error::RsysError;
use crate::text::dec_val;
use crate::text::parse_u64;
use crate::text::parses_to_u64;
use crate::text::starts_with;
use crate::text::trim;
use crate::text::trim_spec;

verus! {

/// Whether `name` carries the given category prefix.
pub open spec fn has_prefix(name: Seq<char>, prefix: Seq<char>) -> bool {
    name.len() >= prefix.len() && name.take(prefix.len() as int) == prefix
}

/// Whether a raw one-line value is a decimal numeral after trimming.
pub open spec fn size_ok(raw: Seq<char>) -> bool {
    parses_to_u64(trim_spec(raw))
}

/// The decoded value of a raw one-line numeral.
pub open spec fn size_val(raw: Seq<char>) -> u64 {
    dec_val(trim_spec(raw)) as u64
}

/// Parses a raw one-line value as an unsigned size, ignoring
/// surrounding whitespace.
fn parse_size(raw: &str) -> (r: Option<u64>)
    ensures
        r is Some <==> size_ok(raw@),
        r matches Some(v) ==> v == size_val(raw@),
{
    let t = trim(raw);
    parse_u64(t.as_str())
}

/// A partition of a block device.
#[derive(Clone, Debug)]
pub struct Partition {
    pub name: String,
    pub size: u64,
}

/// A `sd`-prefixed block storage device with its child partitions.
#[derive(Clone, Debug)]
pub struct StorageDevice {
    pub name: String,
    pub size: u64,
    pub block_size: u64,
    pub partitions: Vec<Partition>,
}

/// A `dm`-prefixed device-mapper device.
#[derive(Clone, Debug)]
pub struct DeviceMapper {
    pub name: String,
    pub size: u64,
    pub block_size: u64,
}

/// An `sr`-prefixed optical drive.
#[derive(Clone, Debug)]
pub struct ScsiCdrom {
    pub name: String,
    pub size: u64,
    pub block_size: u64,
}

/// An `md`-prefixed multiple-device (RAID) storage device.
#[derive(Clone, Debug)]
pub struct MultipleDeviceStorage {
    pub name: String,
    pub size: u64,
    pub block_size: u64,
}

/// Builds a partition record from its raw size value.
pub fn partition(name: &str, size_raw: &str) -> (r: Result<Partition, RsysError>)
    ensures
        r is Ok <==> size_ok(size_raw@),
        r matches Ok(p) ==> p.name@ == name@ && p.size == size_val(size_raw@),
        r matches Err(e) ==> e matches RsysError::DecodeError {
            raw,
            reason: DecodeReason::BadNumber { .. },
        } && raw@ == size_raw@,
{
    match parse_size(size_raw) {
        Some(size) => Ok(Partition { name: String::from_str(name), size }),
        None => Err(RsysError::DecodeError {
            raw: String::from_str(size_raw),
            reason: DecodeReason::BadNumber { field: String::from_str(size_raw) },
        }),
    }
}

/// Builds the `sd`-prefixed block-device record from its raw size and
/// block-size values and its decoded partitions. A name without the
/// `sd` prefix fails with `InvalidDeviceKind` before any decode; a bad
/// numeral fails with a `DecodeError`.
pub fn stat_block_device(
    name: &str,
    size_raw: &str,
    block_size_raw: &str,
    partitions: Vec<Partition>,
) -> (r: Result<StorageDevice, RsysError>)
    ensures
        r is Ok <==> has_prefix(name@, "sd"@) && size_ok(size_raw@) && size_ok(block_size_raw@),
        r matches Ok(d) ==> d.name@ == name@ && d.size == size_val(size_raw@) && d.block_size
            == size_val(block_size_raw@) && d.partitions == partitions,
        !has_prefix(name@, "sd"@) ==> (r matches Err(e) && e matches RsysError::InvalidDeviceKind {
            name: n,
            expected_prefix,
        } && n@ == name@ && expected_prefix@ == "sd"@),
        has_prefix(name@, "sd"@) && !(size_ok(size_raw@) && size_ok(block_size_raw@))
            ==> (r matches Err(e) && e matches RsysError::DecodeError {
            reason: DecodeReason::BadNumber { .. },
            ..
        }),
{
    if !starts_with(name, "sd") {
        return Err(RsysError::InvalidDeviceKind {
            name: String::from_str(name),
            expected_prefix: String::from_str("sd"),
        });
    }
    let size = match parse_size(size_raw) {
        Some(v) => v,
        None => {
            return Err(RsysError::DecodeError {
                raw: String::from_str(size_raw),
                reason: DecodeReason::BadNumber { field: String::from_str(size_raw) },
            });
        },
    };
    let block_size = match parse_size(block_size_raw) {
        Some(v) => v,
        None => {
            return Err(RsysError::DecodeError {
                raw: String::from_str(block_size_raw),
                reason: DecodeReason::BadNumber { field: String::from_str(block_size_raw) },
            });
        },
    };
    Ok(StorageDevice { name: String::from_str(name), size, block_size, partitions })
}

/// Builds the `dm`-prefixed device-mapper record; the prefix is checked
/// before any decode.
pub fn stat_device_mapper(name: &str, size_raw: &str, block_size_raw: &str) -> (r: Result<
    DeviceMapper,
    RsysError,
>)
    ensures
        r is Ok <==> has_prefix(name@, "dm"@) && size_ok(size_raw@) && size_ok(block_size_raw@),
        r matches Ok(d) ==> d.name@ == name@ && d.size == size_val(size_raw@) && d.block_size
            == size_val(block_size_raw@),
        !has_prefix(name@, "dm"@) ==> (r matches Err(e) && e matches RsysError::InvalidDeviceKind {
            name: n,
            expected_prefix,
        } && n@ == name@ && expected_prefix@ == "dm"@),
        has_prefix(name@, "dm"@) && !(size_ok(size_raw@) && size_ok(block_size_raw@))
            ==> (r matches Err(e) && e matches RsysError::DecodeError {
            reason: DecodeReason::BadNumber { .. },
            ..
        }),
{
    if !starts_with(name, "dm") {
        return Err(RsysError::InvalidDeviceKind {
            name: String::from_str(name),
            expected_prefix: String::from_str("dm"),
        });
    }
    match (parse_size(size_raw), parse_size(block_size_raw)) {
        (Some(size), Some(block_size)) => Ok(DeviceMapper {
            name: String::from_str(name),
            size,
            block_size,
        }),
        (None, _) => Err(RsysError::DecodeError {
            raw: String::from_str(size_raw),
            reason: DecodeReason::BadNumber { field: String::from_str(size_raw) },
        }),
        (_, None) => Err(RsysError::DecodeError {
            raw: String::from_str(block_size_raw),
            reason: DecodeReason::BadNumber { field: String::from_str(block_size_raw) },
        }),
    }
}

/// Builds the `sr`-prefixed optical-drive record; the prefix is checked
/// before any decode.
pub fn stat_scsi_cdrom(name: &str, size_raw: &str, block_size_raw: &str) -> (r: Result<
    ScsiCdrom,
    RsysError,
>)
    ensures
        r is Ok <==> has_prefix(name@, "sr"@) && size_ok(size_raw@) && size_ok(block_size_raw@),
        r matches Ok(d) ==> d.name@ == name@ && d.size == size_val(size_raw@) && d.block_size
            == size_val(block_size_raw@),
        !has_prefix(name@, "sr"@) ==> (r matches Err(e) && e matches RsysError::InvalidDeviceKind {
            name: n,
            expected_prefix,
        } && n@ == name@ && expected_prefix@ == "sr"@),
        has_prefix(name@, "sr"@) && !(size_ok(size_raw@) && size_ok(block_size_raw@))
            ==> (r matches Err(e) && e matches RsysError::DecodeError {
            reason: DecodeReason::BadNumber { .. },
            ..
        }),
{
    if !starts_with(name, "sr") {
        return Err(RsysError::InvalidDeviceKind {
            name: String::from_str(name),
            expected_prefix: String::from_str("sr"),
        });
    }
    match (parse_size(size_raw), parse_size(block_size_raw)) {
        (Some(size), Some(block_size)) => Ok(ScsiCdrom {
            name: String::from_str(name),
            size,
            block_size,
        }),
        (None, _) => Err(RsysError::DecodeError {
            raw: String::from_str(size_raw),
            reason: DecodeReason::BadNumber { field: String::from_str(size_raw) },
        }),
        (_, None) => Err(RsysError::DecodeError {
            raw: String::from_str(block_size_raw),
            reason: DecodeReason::BadNumber { field: String::from_str(block_size_raw) },
        }),
    }
}

/// Builds the `md`-prefixed multiple-device storage record; the prefix
/// is checked before any decode.
pub fn stat_multiple_device_storage(name: &str, size_raw: &str, block_size_raw: &str) -> (r: Result<
    MultipleDeviceStorage,
    RsysError,
>)
    ensures
        r is Ok <==> has_prefix(name@, "md"@) && size_ok(size_raw@) && size_ok(block_size_raw@),
        r matches Ok(d) ==> d.name@ == name@ && d.size == size_val(size_raw@) && d.block_size
            == size_val(block_size_raw@),
        !has_prefix(name@, "md"@) ==> (r matches Err(e) && e matches RsysError::InvalidDeviceKind {
            name: n,
            expected_prefix,
        } && n@ == name@ && expected_prefix@ == "md"@),
        has_prefix(name@, "md"@) && !(size_ok(size_raw@) && size_ok(block_size_raw@))
            ==> (r matches Err(e) && e matches RsysError::DecodeError {
            reason: DecodeReason::BadNumber { .. },
            ..
        }),
{
    if !starts_with(name, "md") {
        return Err(RsysError::InvalidDeviceKind {
            name: String::from_str(name),
            expected_prefix: String::from_str("md"),
        });
    }
    match (parse_size(size_raw), parse_size(block_size_raw)) {
        (Some(size), Some(block_size)) => Ok(MultipleDeviceStorage {
            name: String::from_str(name),
            size,
            block_size,
        }),
        (None, _) => Err(RsysError::DecodeError {
            raw: String::from_str(size_raw),
            reason: DecodeReason::BadNumber { field: String::from_str(size_raw) },
        }),
        (_, None) => Err(RsysError::DecodeError {
            raw: String::from_str(block_size_raw),
            reason: DecodeReason::BadNumber { field: String::from_str(block_size_raw) },
        }),
    }
}

/// The block size of a device, from its raw one-line value, in bytes.
pub fn block_size(raw: &str) -> (r: Result<i64, RsysError>)
    ensures
        r is Ok <==> size_ok(raw@) && size_val(raw@) <= i64::MAX,
        r matches Ok(v) ==> v == size_val(raw@),
        r matches Err(e) ==> e matches RsysError::DecodeError {
            reason: DecodeReason::BadNumber { .. },
            ..
        },
{
    match parse_size(raw) {
        Some(v) => {
            if v <= 0x7fffffffffffffff {
                Ok(v as i64)
            } else {
                Err(RsysError::DecodeError {
                    raw: String::from_str(raw),
                    reason: DecodeReason::BadNumber { field: String::from_str(raw) },
                })
            }
        },
        None => Err(RsysError::DecodeError {
            raw: String::from_str(raw),
            reason: DecodeReason::BadNumber { field: String::from_str(raw) },
        }),
    }
}

} // verus!
