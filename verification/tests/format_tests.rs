use process_manager::format::{decimal_string, format_bytes, format_memory, format_run_time};

#[test]
fn test_format_run_time() {
    assert_eq!(
        format_run_time(0),
        String::from("00 day(s) 00 hr(s) 00 min(s) 00 sec(s)")
    );
    assert_eq!(
        format_run_time(3661),
        String::from("00 day(s) 01 hr(s) 01 min(s) 01 sec(s)")
    );
    assert_eq!(
        format_run_time(90061),
        String::from("01 day(s) 01 hr(s) 01 min(s) 01 sec(s)")
    );
}

#[test]
fn test_format_memory() {
    assert_eq!(format_memory(0), String::from("0 B"));
    assert_eq!(format_memory(1023), String::from("1023 B"));

    assert_eq!(format_memory(1024), String::from("1 KB"));
    assert_eq!(format_memory(1234), String::from("1.2 KB"));

    assert_eq!(format_memory(1048576), String::from("1 MB"));

    assert_eq!(format_memory(1073741824), String::from("1 GB"));
}

#[test]
fn test_format_bytes() {
    assert_eq!(format_bytes(123), "123 B");

    assert_eq!(format_bytes(1024), "1 KB");
    assert_eq!(format_bytes(1234), "1.2 KB");

    assert_eq!(format_bytes(1048576), "1 MB");
    assert_eq!(format_bytes(1234567), "1.2 MB");
}

#[test]
fn run_time_fields_are_padded_not_cut() {
    assert_eq!(format_run_time(59), "00 day(s) 00 hr(s) 00 min(s) 59 sec(s)");
    assert_eq!(format_run_time(60), "00 day(s) 00 hr(s) 01 min(s) 00 sec(s)");
    assert_eq!(format_run_time(86399), "00 day(s) 23 hr(s) 59 min(s) 59 sec(s)");
    assert_eq!(format_run_time(86400), "01 day(s) 00 hr(s) 00 min(s) 00 sec(s)");
    assert_eq!(
        format_run_time(100 * 86400 + 7 * 3600 + 8 * 60 + 9),
        "100 day(s) 07 hr(s) 08 min(s) 09 sec(s)"
    );
    assert_eq!(
        format_run_time(u64::MAX),
        "213503982334601 day(s) 07 hr(s) 00 min(s) 15 sec(s)"
    );
}

#[test]
fn minutes_are_those_left_of_the_hour() {
    // 2 h 3 min 4 s: the minutes field is 3, not the 123 minutes of the whole.
    assert_eq!(format_run_time(7384), "00 day(s) 02 hr(s) 03 min(s) 04 sec(s)");
}

#[test]
fn counts_below_1024_are_in_bytes() {
    for n in 0u64..1024 {
        assert_eq!(format_bytes(n), format!("{} B", n));
    }
}

#[test]
fn every_unit_is_reached() {
    assert_eq!(format_bytes(1), "1 B");
    assert_eq!(format_bytes(1 << 10), "1 KB");
    assert_eq!(format_bytes(1 << 20), "1 MB");
    assert_eq!(format_bytes(1 << 30), "1 GB");
    assert_eq!(format_bytes(1 << 40), "1 TB");
    assert_eq!(format_bytes(1 << 50), "1 PB");
    assert_eq!(format_bytes(1 << 60), "1 EB");
    assert_eq!(format_bytes(15 << 60), "15 EB");
    assert_eq!(format_bytes(2048 << 50), "2 EB");
}

#[test]
fn the_last_unit_holds_all_that_is_larger() {
    assert_eq!(format_bytes(u64::MAX), "16.0 EB");
    assert_eq!(format_bytes((1 << 60) + (1 << 59)), "1.5 EB");
}

#[test]
fn one_decimal_where_the_division_is_not_exact() {
    assert_eq!(format_bytes(1025), "1.0 KB");
    assert_eq!(format_bytes(1536), "1.5 KB");
    assert_eq!(format_bytes(1048575), "1024.0 KB");
    assert_eq!(format_bytes(5 * 1024 * 1024 + 512 * 1024), "5.5 MB");
}

#[test]
fn a_half_goes_to_the_even_tenth() {
    // 1280 / 1024 = 1.25 and 1792 / 1024 = 1.75, both exactly.
    assert_eq!(format_bytes(1280), "1.2 KB");
    assert_eq!(format_bytes(1792), "1.8 KB");
    // 1.15 is no binary fraction: 1178 / 1024 lies above it, 1177 / 1024 below.
    assert_eq!(format_bytes(1178), "1.2 KB");
    assert_eq!(format_bytes(1177), "1.1 KB");
}

#[test]
fn the_unit_never_goes_down() {
    let units = ["B", "KB", "MB", "GB", "TB", "PB", "EB"];
    let rank = |text: String| {
        let unit = text.split(' ').nth(1).unwrap().to_owned();
        units.iter().position(|u| *u == unit).unwrap()
    };
    let mut last = 0;
    let mut n: u64 = 1;
    for _ in 0..63 {
        for probe in [n - 1, n, n + 1] {
            let r = rank(format_bytes(probe));
            assert!(r >= last);
            last = r;
        }
        n *= 2;
    }
}

#[test]
fn memory_and_bytes_agree() {
    for n in [0u64, 1, 1023, 1024, 1234, 999_999, 1 << 33, u64::MAX] {
        assert_eq!(format_memory(n), format_bytes(n));
    }
}

#[test]
fn decimal_numerals_read_back() {
    for n in [0u64, 7, 10, 99, 100, 4194304, u64::MAX] {
        let text = decimal_string(n);
        assert_eq!(text, n.to_string());
        assert_eq!(text.parse::<u64>().unwrap(), n);
    }
}
