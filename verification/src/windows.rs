//! Facts decoded from native-structure queries on the Windows-style
//! platform: the processor-architecture discriminant, core counts, and
//! tick-based uptime. Facts that platform gives no implementation for
//! report `UnsupportedPlatform`.

use vstd::prelude::*;

use crate::error::RsysError;

verus! {

/// The architecture name of a processor-architecture discriminant; the
/// empty string for an unknown discriminant.
pub open spec fn arch_name(code: u16) -> Seq<char> {
    if code == 9 {
        "x64"@
    } else if code == 5 {
        "ARM"@
    } else if code == 12 {
        "ARM64"@
    } else if code == 6 {
        "Intel Itanium-based"@
    } else if code == 0 {
        "x86"@
    } else {
        ""@
    }
}

/// Decodes the processor-architecture discriminant of the native
/// system-information record into its conventional name.
pub fn arch(code: u16) -> (r: String)
    ensures
        r@ == arch_name(code),
{
    if code == 9 {
        String::from_str("x64")
    } else if code == 5 {
        String::from_str("ARM")
    } else if code == 12 {
        String::from_str("ARM64")
    } else if code == 6 {
        String::from_str("Intel Itanium-based")
    } else if code == 0 {
        String::from_str("x86")
    } else {
        String::from_str("")
    }
}

/// Physical cores from the logical-core count: halved when the
/// processor is hyperthreaded.
pub fn cpu_cores(logical: u16, hyperthreaded: bool) -> (r: u16)
    ensures
        r as int == if hyperthreaded {
            logical as int / 2
        } else {
            logical as int
        },
{
    if hyperthreaded {
        logical / 2
    } else {
        logical
    }
}

/// Uptime in the scaled unit derived from the native tick count.
pub fn uptime_from_ticks(ticks: u64) -> (r: Option<u64>)
    ensures
        r is Some <==> ticks * 1000 <= u64::MAX,
        r matches Some(v) ==> v == ticks * 1000,
{
    ticks.checked_mul(1000)
}

fn unsupported(fact: &str) -> (e: RsysError)
    ensures
        e matches RsysError::UnsupportedPlatform { fact: f } && f@ == fact@,
{
    RsysError::UnsupportedPlatform { fact: String::from_str(fact) }
}

/// This platform implements no processor-identity query.
pub fn cpu() -> (r: Result<String, RsysError>)
    ensures
        r matches Err(e) && e matches RsysError::UnsupportedPlatform { fact } && fact@ == "cpu"@,
{
    Err(unsupported("cpu"))
}

/// This platform implements no default-interface query.
pub fn default_iface() -> (r: Result<String, RsysError>)
    ensures
        r matches Err(e) && e matches RsysError::UnsupportedPlatform { fact } && fact@
            == "default interface"@,
{
    Err(unsupported("default interface"))
}

/// This platform implements no IPv4 lookup.
pub fn ipv4(_iface: &str) -> (r: Result<String, RsysError>)
    ensures
        r matches Err(e) && e matches RsysError::UnsupportedPlatform { fact } && fact@ == "ipv4"@,
{
    Err(unsupported("ipv4"))
}

/// This platform implements no IPv6 lookup.
pub fn ipv6(_iface: &str) -> (r: Result<String, RsysError>)
    ensures
        r matches Err(e) && e matches RsysError::UnsupportedPlatform { fact } && fact@ == "ipv6"@,
{
    Err(unsupported("ipv6"))
}

/// This platform implements no hardware-address lookup.
pub fn mac(_iface: &str) -> (r: Result<String, RsysError>)
    ensures
        r matches Err(e) && e matches RsysError::UnsupportedPlatform { fact } && fact@ == "mac"@,
{
    Err(unsupported("mac"))
}

/// This platform implements no interface enumeration.
pub fn interfaces() -> (r: Result<Vec<String>, RsysError>)
    ensures
        r matches Err(e) && e matches RsysError::UnsupportedPlatform { fact } && fact@
            == "interfaces"@,
{
    Err(unsupported("interfaces"))
}

/// This platform implements no domain-name query.
pub fn domainname() -> (r: Result<String, RsysError>)
    ensures
        r matches Err(e) && e matches RsysError::UnsupportedPlatform { fact } && fact@
            == "domainname"@,
{
    Err(unsupported("domainname"))
}

} // verus!

