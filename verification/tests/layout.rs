use breachx::address::Address;
use breachx::error::RegistryError;
use breachx::report::{format_tag_bytes, Limits, VulnerabilityReport, FIXED_LEN};
use breachx::store::space_for;

fn sample() -> VulnerabilityReport {
    VulnerabilityReport {
        repository_id: String::from("repo1"),
        report_url: String::from("u1"),
        reporter: Address::new([7u8; 32]),
        timestamp: 1_700_000_000,
        badge_reference: Address::sentinel(),
    }
}

fn sample_bytes() -> Vec<u8> {
    let mut bytes = vec![219, 119, 63, 125, 101, 147, 0, 122];
    bytes.extend_from_slice(&[5, 0, 0, 0]);
    bytes.extend_from_slice(b"repo1");
    bytes.extend_from_slice(&[2, 0, 0, 0]);
    bytes.extend_from_slice(b"u1");
    bytes.extend_from_slice(&[7u8; 32]);
    bytes.extend_from_slice(&[0, 241, 83, 101, 0, 0, 0, 0]);
    bytes.extend_from_slice(&[0u8; 32]);
    bytes
}

#[test]
fn format_tag_has_eight_bytes() {
    assert_eq!(format_tag_bytes(), [219, 119, 63, 125, 101, 147, 0, 122]);
}

#[test]
fn record_is_laid_out_field_by_field() {
    let bytes = sample().encode().unwrap();
    assert_eq!(bytes, sample_bytes());
    assert_eq!(bytes.len() as u64, FIXED_LEN + 5 + 2);
}

#[test]
fn record_of_empty_strings_has_the_fixed_length() {
    let report = VulnerabilityReport {
        repository_id: String::new(),
        report_url: String::new(),
        reporter: Address::new([1u8; 32]),
        timestamp: 0,
        badge_reference: Address::sentinel(),
    };
    let bytes = report.encode().unwrap();
    assert_eq!(bytes.len(), 88);
    assert_eq!(bytes[8..16], [0u8; 8]);
}

#[test]
fn negative_time_is_laid_out_in_twos_complement() {
    let mut report = sample();
    report.timestamp = -2;
    let bytes = report.encode().unwrap();
    let at = 8 + 4 + 5 + 4 + 2 + 32;
    assert_eq!(bytes[at..at + 8], [254, 255, 255, 255, 255, 255, 255, 255]);
    let back = VulnerabilityReport::decode(&bytes).unwrap();
    assert_eq!(back.timestamp, -2);
}

#[test]
fn extreme_times_survive() {
    for time in [i64::MIN, -1, 0, 1, i64::MAX] {
        let mut report = sample();
        report.timestamp = time;
        let back = VulnerabilityReport::decode(&report.encode().unwrap()).unwrap();
        assert_eq!(back.timestamp, time);
    }
}

#[test]
fn record_is_read_back_as_written() {
    let mut report = sample();
    report.repository_id = String::from("org/r\u{e9}po \u{1F512}");
    report.badge_reference = Address::new([9u8; 32]);
    let back = VulnerabilityReport::decode(&report.encode().unwrap()).unwrap();
    assert_eq!(back.repository_id, "org/r\u{e9}po \u{1F512}");
    assert_eq!(back.report_url, "u1");
    assert_eq!(back.reporter, Address::new([7u8; 32]));
    assert_eq!(back.timestamp, 1_700_000_000);
    assert_eq!(back.badge_reference, Address::new([9u8; 32]));
}

#[test]
fn length_prefix_counts_bytes_not_characters() {
    let mut report = sample();
    report.repository_id = String::from("\u{e9}\u{e9}");
    let bytes = report.encode().unwrap();
    assert_eq!(bytes[8..12], [4, 0, 0, 0]);
}

#[test]
fn known_bytes_are_read() {
    let report = VulnerabilityReport::decode(&sample_bytes()).unwrap();
    assert_eq!(report.repository_id, "repo1");
    assert_eq!(report.report_url, "u1");
    assert_eq!(report.reporter, Address::new([7u8; 32]));
    assert_eq!(report.timestamp, 1_700_000_000);
    assert!(report.badge_reference.is_sentinel());
}

#[test]
fn what_follows_a_record_is_not_looked_at() {
    let mut bytes = sample_bytes();
    bytes.extend_from_slice(&[0xff; 40]);
    let report = VulnerabilityReport::decode(&bytes).unwrap();
    assert_eq!(report.repository_id, "repo1");
    assert!(report.badge_reference.is_sentinel());
}

#[test]
fn another_format_tag_is_not_read() {
    let mut bytes = sample_bytes();
    bytes[7] ^= 1;
    assert!(VulnerabilityReport::decode(&bytes).is_none());
    let mut bytes = sample_bytes();
    bytes[0] = 0;
    assert!(VulnerabilityReport::decode(&bytes).is_none());
}

#[test]
fn a_record_cut_short_is_not_read() {
    let bytes = sample_bytes();
    for len in 0..bytes.len() {
        assert!(VulnerabilityReport::decode(&bytes[..len]).is_none(), "length {}", len);
    }
    assert!(VulnerabilityReport::decode(&bytes).is_some());
}

#[test]
fn a_length_beyond_the_data_is_not_read() {
    let mut bytes = sample_bytes();
    bytes[8..12].copy_from_slice(&[255, 255, 255, 255]);
    assert!(VulnerabilityReport::decode(&bytes).is_none());
}

#[test]
fn bytes_that_are_no_text_are_not_read() {
    let mut bytes = sample_bytes();
    bytes[12] = 0xff;
    assert!(VulnerabilityReport::decode(&bytes).is_none());
    let mut bytes = sample_bytes();
    bytes[12] = 0xc3;
    assert!(VulnerabilityReport::decode(&bytes).is_none());
}

#[test]
fn new_report_has_no_badge() {
    let limits = Limits { max_repository_id_len: 5, max_report_url_len: 2 };
    let report = VulnerabilityReport::new(
        &limits,
        Address::new([7u8; 32]),
        String::from("repo1"),
        String::from("u1"),
        1_700_000_000,
    )
    .unwrap();
    assert!(!report.has_badge());
    assert_eq!(report.encode().unwrap(), sample_bytes());
}

#[test]
fn new_report_keeps_within_the_limits() {
    let limits = Limits { max_repository_id_len: 5, max_report_url_len: 2 };
    let who = Address::new([7u8; 32]);
    let long_id = VulnerabilityReport::new(&limits, who, String::from("repo12"), String::new(), 1);
    assert_eq!(long_id.err(), Some(RegistryError::CapacityExceeded));
    let long_url = VulnerabilityReport::new(&limits, who, String::new(), String::from("u12"), 1);
    assert_eq!(long_url.err(), Some(RegistryError::CapacityExceeded));
}

#[test]
fn limits_allow_up_to_their_bytes() {
    let limits = Limits { max_repository_id_len: 4, max_report_url_len: 2 };
    assert!(limits.allow("abcd", "xy"));
    assert!(limits.allow("", ""));
    assert!(!limits.allow("abcde", "xy"));
    assert!(!limits.allow("abcd", "xyz"));
    assert!(limits.allow("\u{e9}\u{e9}", "\u{e9}"));
    assert!(!limits.allow("\u{e9}\u{e9}a", ""));
    assert!(!limits.allow("", "\u{e9}a"));
}

#[test]
fn a_report_has_a_badge_once_it_names_a_mint() {
    let mut report = sample();
    assert!(!report.has_badge());
    report.badge_reference = Address::new([9u8; 32]);
    assert!(report.has_badge());
}

#[test]
fn space_is_the_fixed_part_and_the_two_limits() {
    let limits = Limits { max_repository_id_len: 200, max_report_url_len: 1000 };
    assert_eq!(space_for(&limits), 1288);
    let limits = Limits { max_repository_id_len: 50, max_report_url_len: 200 };
    assert_eq!(space_for(&limits), 338);
    let limits = Limits { max_repository_id_len: 0, max_report_url_len: 0 };
    assert_eq!(space_for(&limits), 88);
    let limits = Limits { max_repository_id_len: u32::MAX, max_report_url_len: u32::MAX };
    assert_eq!(space_for(&limits), 88 + 2 * (u32::MAX as u64));
}
