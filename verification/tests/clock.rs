use std::time::{Duration, SystemTime, UNIX_EPOCH};

use webapp_init_data::clock::span_between;
use webapp_init_data::pairs::RawPairs;
use webapp_init_data::WebAppInitData;

fn now() -> u64 {
    SystemTime::now().duration_since(UNIX_EPOCH).unwrap().as_secs()
}

fn signed_at(seconds: u64) -> WebAppInitData {
    let date = seconds.to_string();
    let fields = RawPairs::from_pairs(vec![("auth_date".to_string(), date)]);
    WebAppInitData::decode(&fields).unwrap()
}

#[test]
fn fresh_payload_has_hardly_aged() {
    let elapsed = signed_at(now()).elapsed_since_auth().unwrap();
    assert!(elapsed <= Duration::from_secs(5), "{elapsed:?}");
    assert_eq!(elapsed.subsec_nanos(), 0);
}

#[test]
fn payload_of_an_hour_ago_is_an_hour_old() {
    let elapsed = signed_at(now() - 3600).elapsed_since_auth().unwrap();
    assert!(elapsed >= Duration::from_secs(3600), "{elapsed:?}");
    assert!(elapsed <= Duration::from_secs(3605), "{elapsed:?}");
}

#[test]
fn payload_from_the_future_has_no_age() {
    assert_eq!(signed_at(now() + 3600).elapsed_since_auth(), None);
    assert_eq!(signed_at(u64::MAX).elapsed_since_auth(), None);
}

#[test]
fn age_at_a_given_time() {
    let data = signed_at(1_700_000_000);
    assert_eq!(data.elapsed_at(1_700_000_000), Some(Duration::from_secs(0)));
    assert_eq!(data.elapsed_at(1_700_003_600), Some(Duration::from_secs(3600)));
    assert_eq!(data.elapsed_at(1_699_999_999), None);
    assert_eq!(data.elapsed_at(u64::MAX), Some(Duration::from_secs(u64::MAX - 1_700_000_000)));
}

#[test]
fn span_between_two_times() {
    assert_eq!(span_between(5, 12), Some(Duration::new(7, 0)));
    assert_eq!(span_between(12, 12), Some(Duration::new(0, 0)));
    assert_eq!(span_between(13, 12), None);
    assert_eq!(span_between(0, u64::MAX), Some(Duration::new(u64::MAX, 0)));
}
