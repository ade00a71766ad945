use mprober_lib::kernel::get_kernel_version;
use mprober_lib::load_average::get_load_average;
use mprober_lib::rtc_time::{days_in_month, get_rtc_date_time, is_leap_year, RtcDateTime};
use mprober_lib::uptime::get_uptime;
use mprober_lib::ProbeError;

#[test]
fn uptime_is_kept_to_the_millisecond() {
    let u = get_uptime(b"12345.67 23456.78\n".to_vec()).unwrap();
    assert_eq!(u.total_uptime, 12345670);
    assert_eq!(u.all_cpu_idle_time, 23456780);
}

#[test]
fn uptime_accepts_whole_and_long_fractions() {
    let u = get_uptime(b"12 34.5678\n".to_vec()).unwrap();
    assert_eq!(u.total_uptime, 12000);
    // extra fractional digits are cut off, not rounded
    assert_eq!(u.all_cpu_idle_time, 34567);
}

#[test]
fn uptime_needs_two_readings() {
    assert_eq!(
        get_uptime(b"12345.67\n".to_vec()),
        Err(ProbeError::UnexpectedEof)
    );
    assert_eq!(
        get_uptime(b"12x.67 1.0\n".to_vec()),
        Err(ProbeError::InvalidData)
    );
}

#[test]
fn boot_time_is_now_less_uptime() {
    let u = get_uptime(b"100.000 0.0\n".to_vec()).unwrap();
    assert_eq!(u.get_btime(1000000), 900000);
}

#[test]
fn load_average_is_kept_to_the_hundredth() {
    let l = get_load_average(b"0.52 1.00 2.5 2/1318 28209\n".to_vec()).unwrap();
    assert_eq!(l.one, 52);
    assert_eq!(l.five, 100);
    assert_eq!(l.fifteen, 250);
}

#[test]
fn kernel_version_follows_the_fixed_prefix() {
    let v = get_kernel_version(b"Linux version 5.15.0-about (builder@host) more text\n".to_vec())
        .unwrap();
    assert_eq!(v, "5.15.0-about");
    assert_eq!(
        get_kernel_version(b"Linux\n".to_vec()),
        Err(ProbeError::UnexpectedEof)
    );
}

#[test]
fn rtc_reading_is_decoded_whole() {
    let data = b"rtc_time\t: 10:36:15\nrtc_date\t: 2020-06-05\nalrm_time\t: 00:00:00\n".to_vec();
    let t = get_rtc_date_time(data).unwrap();
    assert_eq!(t.year, 2020);
    assert_eq!(t.month, 6);
    assert_eq!(t.day, 5);
    assert_eq!(t.hour, 10);
    assert_eq!(t.minute, 36);
    assert_eq!(t.second, 15);
}

#[test]
fn rtc_rejects_impossible_instants() {
    let data = b"rtc_time\t: 10:36:15\nrtc_date\t: 2021-02-29\n".to_vec();
    assert_eq!(get_rtc_date_time(data), Err(ProbeError::InvalidData));
    let data = b"rtc_time\t: 24:00:00\nrtc_date\t: 2020-06-05\n".to_vec();
    assert_eq!(get_rtc_date_time(data), Err(ProbeError::InvalidData));
    // a leap day of a leap year is a real instant
    let data = b"rtc_time\t: 00:00:00\nrtc_date\t: 2020-02-29\n".to_vec();
    assert!(get_rtc_date_time(data).is_ok());
}

#[test]
fn calendar_rules_are_the_usual_ones() {
    assert!(is_leap_year(2020));
    assert!(!is_leap_year(2021));
    assert!(!is_leap_year(1900));
    assert!(is_leap_year(2000));
    assert_eq!(days_in_month(2021, 2), 28);
    assert_eq!(days_in_month(2020, 2), 29);
    assert_eq!(days_in_month(2021, 1), 31);
    assert_eq!(days_in_month(2021, 4), 30);
    assert_eq!(days_in_month(2021, 13), 0);
    assert!(RtcDateTime::new(2021, 4, 31, 0, 0, 0).is_err());
    assert!(RtcDateTime::new(2021, 4, 30, 23, 59, 59).is_ok());
}

#[test]
fn text_outside_ascii_is_substituted() {
    // the kernel files are expected to be ASCII; anything else decodes
    // to a question mark instead of passing through unchecked
    let mut data = b"Linux version 5.15.0-".to_vec();
    data.push(0xFF);
    data.push(0xC3);
    let v = get_kernel_version(data).unwrap();
    assert_eq!(v, "5.15.0-??");
}

#[test]
fn errors_name_themselves() {
    assert_eq!(ProbeError::UnexpectedEof.describe(), "unexpected end of file");
    assert_eq!(ProbeError::InvalidData.describe(), "invalid data");
    assert_eq!(ProbeError::NotFound.describe(), "not found");
    assert_eq!(ProbeError::Io.describe(), "I/O error");
}
