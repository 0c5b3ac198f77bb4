//! Snapshots of the host: identity, processor and memory usage, disks.

use crate::format::{byte_size_text, format_bytes};
use crate::host::{
    cpu_arch, cpu_sampling_interval_ms, disk_records, disks_with_storage, distribution_id,
    global_cpu_usage_bits, host_name, refresh_cpu_usage, refresh_ram, system_with_everything,
    total_memory, used_memory, DiskRecord,
};
use vstd::prelude::*;
use vstd::string::*;

verus! {

/// What one poll reports of the host.
///
/// The processor usage over all cores is carried as the bit pattern of the
/// IEEE 754 single that the host reported.
#[derive(Clone, Debug)]
pub struct SystemInfo {
    pub name: String,
    pub os: String,
    pub cpu_arch: String,
    pub cpu_usage_bits: u32,
    pub total_memory: String,
    pub used_memory: String,
}

/// What is reported of one disk.
#[derive(Clone, Debug)]
pub struct DiskInfo {
    pub name: String,
    pub total_space: String,
    pub used_space: String,
}

/// What the host reports of itself, before any formatting.
#[derive(Clone, Debug)]
pub struct SystemRecord {
    pub host_name: Option<String>,
    pub os: String,
    pub cpu_arch: String,
    pub cpu_usage_bits: u32,
    pub total_memory: u64,
    pub used_memory: u64,
}

/// The name shown for the host: its own, or a placeholder where it has none.
pub open spec fn host_name_text(name: Option<String>) -> Seq<char> {
    match name {
        Some(n) => n@,
        None => "<Unknown>"@,
    }
}

/// `info` is the snapshot of the host that reported `record`.
pub open spec fn describes_system(info: SystemInfo, record: SystemRecord) -> bool {
    &&& info.name@ == host_name_text(record.host_name)
    &&& info.os@ == record.os@
    &&& info.cpu_arch@ == record.cpu_arch@
    &&& info.cpu_usage_bits == record.cpu_usage_bits
    &&& info.total_memory@ == byte_size_text(record.total_memory as nat)
    &&& info.used_memory@ == byte_size_text(record.used_memory as nat)
}

/// The bytes in use on a disk: what is not available of the total, and
/// nothing where the host reports more available than there is.
pub open spec fn used_space(record: DiskRecord) -> nat {
    if record.available_space <= record.total_space {
        (record.total_space - record.available_space) as nat
    } else {
        0
    }
}

/// `info` is the entry of the disk of which the host reported `record`.
pub open spec fn describes_disk(info: DiskInfo, record: DiskRecord) -> bool {
    &&& info.name@ == record.name@
    &&& info.total_space@ == byte_size_text(record.total_space as nat)
    &&& info.used_space@ == byte_size_text(used_space(record))
}

/// Makes the snapshot of the host from what it reported.
pub fn describe_system(record: SystemRecord) -> (info: SystemInfo)
    ensures
        describes_system(info, record),
{
    let name = match record.host_name {
        Some(n) => n,
        None => String::from_str("<Unknown>"),
    };
    SystemInfo {
        name,
        os: record.os,
        cpu_arch: record.cpu_arch,
        cpu_usage_bits: record.cpu_usage_bits,
        total_memory: format_bytes(record.total_memory),
        used_memory: format_bytes(record.used_memory),
    }
}

/// Makes the entry of one disk from what the host reported of it.
pub fn describe_disk(record: DiskRecord) -> (info: DiskInfo)
    ensures
        describes_disk(info, record),
{
    let used: u64 = if record.available_space <= record.total_space {
        record.total_space - record.available_space
    } else {
        0
    };
    DiskInfo {
        name: record.name,
        total_space: format_bytes(record.total_space),
        used_space: format_bytes(used),
    }
}

/// Makes the entries of a list of disks, in the order of the list.
pub fn describe_disks(records: Vec<DiskRecord>) -> (disks: Vec<DiskInfo>)
    ensures
        disks.len() == records.len(),
        forall|i: int| 0 <= i < disks.len() ==> describes_disk(#[trigger] disks[i], records[i]),
{
    let ghost given = records@;
    let mut rest = records;
    let mut reversed: Vec<DiskInfo> = Vec::new();
    while rest.len() > 0
        invariant
            rest.len() <= given.len(),
            rest@ =~= given.subrange(0, rest.len() as int),
            reversed.len() + rest.len() == given.len(),
            forall|i: int|
                0 <= i < reversed.len() ==> describes_disk(
                    #[trigger] reversed[i],
                    given[given.len() - 1 - i],
                ),
        decreases rest.len(),
    {
        let record = rest.pop().unwrap();
        reversed.push(describe_disk(record));
    }
    let mut disks: Vec<DiskInfo> = Vec::new();
    while reversed.len() > 0
        invariant
            reversed.len() + disks.len() == given.len(),
            forall|i: int|
                0 <= i < reversed.len() ==> describes_disk(
                    #[trigger] reversed[i],
                    given[given.len() - 1 - i],
                ),
            forall|i: int| 0 <= i < disks.len() ==> describes_disk(#[trigger] disks[i], given[i]),
        decreases reversed.len(),
    {
        let info = reversed.pop().unwrap();
        disks.push(info);
    }
    disks
}

/// Reads the host and makes its snapshot. The memory is read afresh, then
/// `pause` is called with the milliseconds that have to pass before usage
/// can be told, then the usage is read. Whatever the host reports, the
/// result describes some record: a host without a name is shown under the
/// placeholder, and the memory figures are byte counts in their unit.
pub fn get_sys_info<F: Fn(u64)>(pause: F) -> (info: SystemInfo)
    requires
        forall|millis: u64| call_requires(pause, (millis,)),
    ensures
        exists|record: SystemRecord| describes_system(info, record),
{
    let mut sys = system_with_everything();
    refresh_ram(&mut sys);
    pause(cpu_sampling_interval_ms());
    refresh_cpu_usage(&mut sys);
    let record = SystemRecord {
        host_name: host_name(),
        os: distribution_id(),
        cpu_arch: cpu_arch(),
        cpu_usage_bits: global_cpu_usage_bits(&sys),
        total_memory: total_memory(&sys),
        used_memory: used_memory(&sys),
    };
    let info = describe_system(record);
    assert(describes_system(info, record));
    info
}

/// Lists the disks of the host with their total and used space. Whatever
/// the host reports, there is one entry for each disk, in the host's order.
pub fn get_all_disks() -> (disks: Vec<DiskInfo>)
    ensures
        exists|records: Seq<DiskRecord>|
            disks.len() == records.len() && forall|i: int|
                0 <= i < disks.len() ==> describes_disk(#[trigger] disks[i], records[i]),
{
    let source = disks_with_storage();
    let records = disk_records(&source);
    let ghost given = records@;
    let disks = describe_disks(records);
    assert(disks.len() == given.len() && forall|i: int|
        0 <= i < disks.len() ==> describes_disk(#[trigger] disks[i], given[i]));
    disks
}

} // verus!
