use process_manager::host::ProcessRecord;
use process_manager::process::{
    describe_process, get_current_processes, snapshot_processes, sort_by_cpu_usage, ProcessInfo,
};
use regex::Regex;
use sysinfo::ProcessStatus;

fn pause(millis: u64) {
    let rt = tokio::runtime::Builder::new_current_thread()
        .enable_time()
        .build()
        .unwrap();
    rt.block_on(async { tokio::time::sleep(std::time::Duration::from_millis(millis)).await });
}

fn record(pid: u32, usage: f32) -> ProcessRecord {
    ProcessRecord {
        pid,
        name: format!("proc{}", pid),
        owner: Some(String::from("root")),
        run_time: 3661,
        memory: 1234,
        status: String::from("Runnable"),
        cpu_usage_bits: usage.to_bits(),
    }
}

#[test]
fn test_list_processes() {
    let pattern = r"^\d{2} day\(s\) \d{2} hr\(s\) \d{2} min\(s\) \d{2} sec\(s\)$";
    let re = Regex::new(pattern).unwrap();

    let possible_status_list = vec![
        ProcessStatus::Dead.to_string(),
        ProcessStatus::Idle.to_string(),
        ProcessStatus::Run.to_string(),
        ProcessStatus::Parked.to_string(),
        ProcessStatus::LockBlocked.to_string(),
        ProcessStatus::Sleep.to_string(),
        ProcessStatus::Stop.to_string(),
        ProcessStatus::Tracing.to_string(),
        ProcessStatus::UninterruptibleDiskSleep.to_string(),
        ProcessStatus::Wakekill.to_string(),
        ProcessStatus::Waking.to_string(),
        ProcessStatus::Zombie.to_string(),
    ];

    let procs = get_current_processes(pause);

    for proc in procs {
        assert!(!proc.id.is_empty());
        assert!(proc.id.parse::<u32>().is_ok());

        assert!(!proc.name.is_empty());

        assert!(!proc.running_time_formatted.is_empty());
        assert!(re.is_match(&proc.running_time_formatted));

        assert!(!proc.memory_used.is_empty());
        assert!(proc.memory_used.contains("B"));

        assert!(!proc.status.is_empty());
        assert!(possible_status_list.contains(&proc.status));

        assert!(f32::from_bits(proc.cpu_usage_bits) >= 0.0);
    }
}

#[test]
fn the_process_table_comes_busiest_first() {
    let procs = get_current_processes(pause);
    assert!(!procs.is_empty());
    let me = sysinfo::get_current_pid().unwrap().as_u32().to_string();
    assert!(procs.iter().any(|p| p.id == me));
    for pair in procs.windows(2) {
        assert!(pair[0].cpu_usage_bits >= pair[1].cpu_usage_bits);
        assert!(f32::from_bits(pair[0].cpu_usage_bits) >= f32::from_bits(pair[1].cpu_usage_bits));
        assert_eq!(pair[0].cpu_count, pair[1].cpu_count);
    }
}

#[test]
fn an_entry_renders_what_was_reported() {
    let info = describe_process(record(4321, 12.5), 8);
    assert_eq!(info.id, "4321");
    assert_eq!(info.name, "proc4321");
    assert_eq!(info.owner, "root");
    assert_eq!(info.running_time_formatted, "00 day(s) 01 hr(s) 01 min(s) 01 sec(s)");
    assert_eq!(info.memory_used, "1.2 KB");
    assert_eq!(info.status, "Runnable");
    assert_eq!(f32::from_bits(info.cpu_usage_bits), 12.5);
    assert_eq!(info.cpu_count, 8);
}

#[test]
fn an_unknown_owner_is_shown_as_nothing() {
    let mut r = record(1, 0.0);
    r.owner = None;
    assert_eq!(describe_process(r, 1).owner, "");
}

#[test]
fn a_snapshot_is_ordered_by_falling_usage() {
    let records = vec![
        record(10, 1.0),
        record(11, 50.0),
        record(12, 0.0),
        record(13, 99.5),
        record(14, 0.25),
    ];
    let procs = snapshot_processes(records, 4);
    let ids: Vec<&str> = procs.iter().map(|p| p.id.as_str()).collect();
    assert_eq!(ids, vec!["13", "11", "10", "14", "12"]);
    assert!(procs.iter().all(|p| p.cpu_count == 4));
}

#[test]
fn equal_usage_keeps_the_order_of_the_table() {
    let records = vec![
        record(5, 2.0),
        record(3, 7.0),
        record(9, 2.0),
        record(1, 7.0),
        record(7, 2.0),
        record(2, 7.0),
    ];
    let procs = snapshot_processes(records, 1);
    let ids: Vec<&str> = procs.iter().map(|p| p.id.as_str()).collect();
    assert_eq!(ids, vec!["3", "1", "2", "5", "9", "7"]);
}

#[test]
fn an_empty_table_gives_an_empty_snapshot() {
    assert!(snapshot_processes(Vec::new(), 4).is_empty());
    assert!(sort_by_cpu_usage(Vec::new()).is_empty());
}

#[test]
fn sorting_loses_and_adds_nothing() {
    let items: Vec<ProcessInfo> = [3.0f32, 1.0, 4.0, 1.0, 5.0, 9.0, 2.0, 6.0]
        .iter()
        .enumerate()
        .map(|(i, u)| describe_process(record(i as u32, *u), 2))
        .collect();
    let sorted = sort_by_cpu_usage(items);
    let ids: Vec<&str> = sorted.iter().map(|p| p.id.as_str()).collect();
    assert_eq!(ids, vec!["5", "7", "4", "2", "0", "6", "1", "3"]);
}

#[test]
fn the_pause_before_usage_is_told_is_made_once() {
    let pauses = std::cell::RefCell::new(Vec::new());
    let procs = get_current_processes(|ms| pauses.borrow_mut().push(ms));
    assert!(!procs.is_empty());
    assert_eq!(
        *pauses.borrow(),
        vec![sysinfo::MINIMUM_CPU_UPDATE_INTERVAL.as_millis() as u64]
    );
}
