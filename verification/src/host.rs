//! The boundary to the host: every call into `sysinfo` is made here, each
//! behind a contract that Verus takes on trust.

use std::str::FromStr;
use sysinfo::{
    DiskRefreshKind, Disks, MemoryRefreshKind, Pid, Process, ProcessRefreshKind,
    ProcessesToUpdate, Signal, System, UpdateKind, Users,
};
use crate::format::decimal;
use vstd::prelude::*;

verus! {

/// `sysinfo::System`: a view of the host, of which nothing is seen here but
/// through the functions below.
#[verifier::external_type_specification]
#[verifier::external_body]
pub struct ExSystem(sysinfo::System);

/// `sysinfo::Users`: the accounts of the host.
#[verifier::external_type_specification]
#[verifier::external_body]
pub struct ExUsers(sysinfo::Users);

/// `sysinfo::Process`: one entry of the process table.
#[verifier::external_type_specification]
#[verifier::external_body]
pub struct ExProcess(sysinfo::Process);

/// `sysinfo::Disks`: the disks of the host.
#[verifier::external_type_specification]
#[verifier::external_body]
pub struct ExDisks(sysinfo::Disks);

/// `sysinfo::User`: one account, met only inside `Users`.
#[verifier::external_type_specification]
#[verifier::external_body]
pub struct ExUser(sysinfo::User);

/// `sysinfo::Disk`: one disk, met only inside `Disks`.
#[verifier::external_type_specification]
#[verifier::external_body]
pub struct ExDisk(sysinfo::Disk);

/// What the host reports of one process, before any formatting.
#[derive(Clone, Debug)]
pub struct ProcessRecord {
    pub pid: u32,
    pub name: String,
    /// The owner's account name, where the owner is known and listed.
    pub owner: Option<String>,
    pub run_time: u64,
    pub memory: u64,
    pub status: String,
    /// The bit pattern of the usage over all cores, an IEEE 754 single.
    pub cpu_usage_bits: u32,
}

/// What the host reports of one disk, in bytes.
#[derive(Clone, Debug)]
pub struct DiskRecord {
    pub name: String,
    pub total_space: u64,
    pub available_space: u64,
}

/// The process identifier that `sysinfo::Pid::from_str` reads from a text,
/// as `Pid::as_u32` gives it; `None` where it reads none.
pub uninterp spec fn pid_of_text(text: Seq<char>) -> Option<u32>;

/// `Pid::from_str`, with the identifier taken through `Pid::as_u32` and the
/// error through its `to_string`. The outcome depends on the text alone.
/// The decimal numeral of a number that a signed 32-bit integer holds is
/// read as that number; nothing is claimed of the error's wording.
#[verifier::external_body]
pub(crate) fn parse_pid(text: &str) -> (r: Result<u32, String>)
    ensures
        r is Ok <==> pid_of_text(text@) is Some,
        r is Ok ==> Some(r->Ok_0) == pid_of_text(text@),
        forall|n: u32|
            n <= 0x7fff_ffff && text@ == decimal(n as nat) ==> r is Ok && r->Ok_0 == n,
{
    match Pid::from_str(text) {
        Ok(pid) => Ok(pid.as_u32()),
        Err(e) => Err(e.to_string()),
    }
}

/// `sysinfo::MINIMUM_CPU_UPDATE_INTERVAL`, in milliseconds: the time that
/// has to pass between two readings of the usage for the second to be
/// worth something.
#[verifier::external_body]
pub(crate) fn cpu_sampling_interval_ms() -> u64 {
    sysinfo::MINIMUM_CPU_UPDATE_INTERVAL.as_millis() as u64
}

/// `System::new_all`: a view of the host with everything loaded.
#[verifier::external_body]
pub(crate) fn system_with_everything() -> System {
    System::new_all()
}

/// `System::new`: a view of the host with nothing loaded.
#[verifier::external_body]
pub(crate) fn system_with_nothing() -> System {
    System::new()
}

/// `System::refresh_all`.
#[verifier::external_body]
pub(crate) fn refresh_everything(sys: &mut System) {
    sys.refresh_all();
}

/// `System::refresh_processes_specifics` on all processes, for usage,
/// memory and owner; processes that have gone are dropped.
#[verifier::external_body]
pub(crate) fn refresh_process_table(sys: &mut System) {
    sys.refresh_processes_specifics(
        ProcessesToUpdate::All,
        true,
        ProcessRefreshKind::nothing().with_cpu().with_memory().with_user(UpdateKind::Always),
    );
}

/// `System::refresh_processes` on the one process `pid`; it is dropped if it
/// has gone.
#[verifier::external_body]
pub(crate) fn refresh_one_process(sys: &mut System, pid: u32) {
    sys.refresh_processes(ProcessesToUpdate::Some(&[Pid::from_u32(pid)]), true);
}

/// `System::refresh_memory_specifics`, for the main memory only.
#[verifier::external_body]
pub(crate) fn refresh_ram(sys: &mut System) {
    sys.refresh_memory_specifics(MemoryRefreshKind::nothing().with_ram());
}

/// `System::refresh_cpu_usage`.
#[verifier::external_body]
pub(crate) fn refresh_cpu_usage(sys: &mut System) {
    sys.refresh_cpu_usage();
}

/// `Users::new_with_refreshed_list`: the accounts of the host.
#[verifier::external_body]
pub(crate) fn users_with_list() -> Users {
    Users::new_with_refreshed_list()
}

/// `System::processes`, each entry read out field by field; the owner's
/// name through `Process::user_id` and `Users::get_user_by_id`. The entries
/// come in the order in which the table is walked.
#[verifier::external_body]
pub(crate) fn process_records(sys: &System, users: &Users) -> Vec<ProcessRecord> {
    sys.processes().iter().map(|(pid, p)| ProcessRecord {
        pid: pid.as_u32(),
        name: p.name().to_string_lossy().into_owned(),
        owner: p.user_id().and_then(|id| users.get_user_by_id(id)).map(|u| u.name().to_owned()),
        run_time: p.run_time(),
        memory: p.memory(),
        status: p.status().to_string(),
        cpu_usage_bits: p.cpu_usage().to_bits(),
    }).collect()
}

/// `System::cpus`, counted.
#[verifier::external_body]
pub(crate) fn cpu_count(sys: &System) -> usize {
    sys.cpus().len()
}

/// `System::global_cpu_usage`, as the bit pattern of the single.
#[verifier::external_body]
pub(crate) fn global_cpu_usage_bits(sys: &System) -> u32 {
    sys.global_cpu_usage().to_bits()
}

/// `System::total_memory`, in bytes.
#[verifier::external_body]
pub(crate) fn total_memory(sys: &System) -> u64 {
    sys.total_memory()
}

/// `System::used_memory`, in bytes.
#[verifier::external_body]
pub(crate) fn used_memory(sys: &System) -> u64 {
    sys.used_memory()
}

/// `System::host_name`.
#[verifier::external_body]
pub(crate) fn host_name() -> Option<String> {
    System::host_name()
}

/// `System::distribution_id`.
#[verifier::external_body]
pub(crate) fn distribution_id() -> String {
    System::distribution_id()
}

/// `System::cpu_arch`.
#[verifier::external_body]
pub(crate) fn cpu_arch() -> String {
    System::cpu_arch()
}

/// `System::process`: the entry of `pid`, if the view holds one.
#[verifier::external_body]
pub(crate) fn find_process(sys: &System, pid: u32) -> Option<&Process> {
    sys.process(Pid::from_u32(pid))
}

/// `Process::start_time`, in seconds since the epoch.
#[verifier::external_body]
pub(crate) fn start_time_of(process: &Process) -> u64 {
    process.start_time()
}

/// `Process::kill_with` with `Signal::Term`: `None` where the platform has
/// no such signal, else whether the signal was sent.
#[verifier::external_body]
pub(crate) fn send_terminate(process: &Process) -> Option<bool> {
    process.kill_with(Signal::Term)
}

/// `Process::kill`: whether the kill signal was sent.
#[verifier::external_body]
pub(crate) fn send_kill(process: &Process) -> bool {
    process.kill()
}

/// `Disks::new_with_refreshed_list_specifics`, for storage figures only.
#[verifier::external_body]
pub(crate) fn disks_with_storage() -> Disks {
    Disks::new_with_refreshed_list_specifics(DiskRefreshKind::nothing().with_storage())
}

/// `Disks::list`, each disk read out field by field.
#[verifier::external_body]
pub(crate) fn disk_records(disks: &Disks) -> Vec<DiskRecord> {
    disks.list().iter().map(|d| DiskRecord {
        name: d.name().to_string_lossy().into_owned(),
        total_space: d.total_space(),
        available_space: d.available_space(),
    }).collect()
}

} // verus!
