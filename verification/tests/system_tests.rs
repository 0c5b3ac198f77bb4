use process_manager::host::DiskRecord;
use process_manager::system::{
    describe_disk, describe_disks, describe_system, get_all_disks, get_sys_info, SystemRecord,
};

fn pause(millis: u64) {
    let rt = tokio::runtime::Builder::new_current_thread()
        .enable_time()
        .build()
        .unwrap();
    rt.block_on(async { tokio::time::sleep(std::time::Duration::from_millis(millis)).await });
}

#[test]
fn test_get_all_disks() {
    let disks = get_all_disks();

    for disk in disks {
        assert!(!disk.name.is_empty());

        assert!(!disk.total_space.is_empty());
        assert!(disk.total_space.contains("B"));

        assert!(!disk.used_space.is_empty());
        assert!(disk.used_space.contains("B"));
    }
}

#[test]
fn the_host_is_described() {
    let info = get_sys_info(pause);
    assert!(!info.name.is_empty());
    assert!(!info.cpu_arch.is_empty());
    assert!(f32::from_bits(info.cpu_usage_bits) >= 0.0);
    assert!(info.total_memory.contains("B"));
    assert!(info.used_memory.contains("B"));
    assert_ne!(info.total_memory, "0 B");
}

#[test]
fn a_host_without_a_name_gets_the_placeholder() {
    let record = SystemRecord {
        host_name: None,
        os: String::from("debian"),
        cpu_arch: String::from("x86_64"),
        cpu_usage_bits: 37.5f32.to_bits(),
        total_memory: 8 << 30,
        used_memory: (3 << 30) + (1 << 29),
    };
    let info = describe_system(record.clone());
    assert_eq!(info.name, "<Unknown>");
    assert_eq!(info.os, "debian");
    assert_eq!(info.cpu_arch, "x86_64");
    assert_eq!(f32::from_bits(info.cpu_usage_bits), 37.5);
    assert_eq!(info.total_memory, "8 GB");
    assert_eq!(info.used_memory, "3.5 GB");

    let named = describe_system(SystemRecord { host_name: Some(String::from("box")), ..record });
    assert_eq!(named.name, "box");
}

#[test]
fn used_space_is_what_is_not_available() {
    let info = describe_disk(DiskRecord {
        name: String::from("/dev/sda1"),
        total_space: 10 << 30,
        available_space: 4 << 30,
    });
    assert_eq!(info.name, "/dev/sda1");
    assert_eq!(info.total_space, "10 GB");
    assert_eq!(info.used_space, "6 GB");

    let odd = describe_disk(DiskRecord {
        name: String::from("tmp"),
        total_space: 1024,
        available_space: 4096,
    });
    assert_eq!(odd.total_space, "1 KB");
    assert_eq!(odd.used_space, "0 B");
}

#[test]
fn disks_keep_their_order() {
    let records = vec![
        DiskRecord { name: String::from("a"), total_space: 2048, available_space: 1024 },
        DiskRecord { name: String::from("b"), total_space: 0, available_space: 0 },
        DiskRecord { name: String::from("c"), total_space: 1 << 40, available_space: 0 },
    ];
    let disks = describe_disks(records);
    let names: Vec<&str> = disks.iter().map(|d| d.name.as_str()).collect();
    assert_eq!(names, vec!["a", "b", "c"]);
    assert_eq!(disks[0].used_space, "1 KB");
    assert_eq!(disks[1].used_space, "0 B");
    assert_eq!(disks[2].used_space, "1 TB");
    assert!(describe_disks(Vec::new()).is_empty());
}

#[test]
fn the_host_is_read_after_one_pause() {
    let pauses = std::cell::RefCell::new(Vec::new());
    let info = get_sys_info(|ms| pauses.borrow_mut().push(ms));
    assert!(info.total_memory.contains("B"));
    assert_eq!(
        *pauses.borrow(),
        vec![sysinfo::MINIMUM_CPU_UPDATE_INTERVAL.as_millis() as u64]
    );
}
