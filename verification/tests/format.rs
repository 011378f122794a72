use hostinfo::bytes_to_mib;
use hostinfo::decimal::dashes;
use hostinfo::decimal::format_centi;
use hostinfo::decimal::format_u64;
use hostinfo::decimal::spaces;
use hostinfo::uptime::format_uptime;

#[test]
fn uptime_zero() {
    assert_eq!(format_uptime(0), "0m");
}

#[test]
fn uptime_minutes_only() {
    assert_eq!(format_uptime(65), "1m");
    assert_eq!(format_uptime(90), "1m");
    assert_eq!(format_uptime(59), "0m");
    assert_eq!(format_uptime(3599), "59m");
}

#[test]
fn uptime_hours_and_minutes() {
    assert_eq!(format_uptime(3600), "1h 0m");
    assert_eq!(format_uptime(3661), "1h 1m");
    assert_eq!(format_uptime(3725), "1h 2m");
    assert_eq!(format_uptime(86399), "23h 59m");
}

#[test]
fn uptime_days_hours_minutes() {
    assert_eq!(format_uptime(86400), "1d 0h 0m");
    assert_eq!(format_uptime(90065), "1d 1h 1m");
    assert_eq!(format_uptime(10 * 86400 + 5 * 3600 + 42 * 60 + 7), "10d 5h 42m");
}

#[test]
fn uptime_markers() {
    let cases: [u64; 10] = [0, 59, 60, 3599, 3600, 7261, 86399, 86400, 90065, 172800];
    for s in cases {
        let t = format_uptime(s);
        assert_eq!(t.contains('d'), s >= 86400, "day marker for {}", s);
        assert_eq!(t.contains('h'), s % 86400 >= 3600 || s >= 86400, "hour marker for {}", s);
        assert!(t.ends_with('m'), "minute marker for {}", s);
    }
}

#[test]
fn numerals() {
    assert_eq!(format_u64(0), "0");
    assert_eq!(format_u64(7), "7");
    assert_eq!(format_u64(42), "42");
    assert_eq!(format_u64(1234567890), "1234567890");
    assert_eq!(format_u64(u64::MAX), "18446744073709551615");
}

#[test]
fn hundredths() {
    assert_eq!(format_centi(0), "0.00");
    assert_eq!(format_centi(7), "0.07");
    assert_eq!(format_centi(50), "0.50");
    assert_eq!(format_centi(5000), "50.00");
    assert_eq!(format_centi(12345), "123.45");
}

#[test]
fn repeated_fills() {
    assert_eq!(dashes(0), "");
    assert_eq!(dashes(7), "-------");
    assert_eq!(spaces(3), "   ");
}

#[test]
fn mebibytes() {
    assert_eq!(bytes_to_mib(0), 0);
    assert_eq!(bytes_to_mib(1048575), 0);
    assert_eq!(bytes_to_mib(1048576), 1);
    assert_eq!(bytes_to_mib(8192 * 1048576), 8192);
}
