use cchecker::fetch::{ActivityFetch, FetchStep};

fn requested_year(f: &ActivityFetch) -> Option<i32> {
    match f.step() {
        FetchStep::Request(q) => Some(q.year),
        _ => None,
    }
}

#[test]
fn first_request_is_current_year_until_now() {
    let f = ActivityFetch::new(2024, "2024-05-06T07:08:09Z".to_string());
    match f.step() {
        FetchStep::Request(q) => {
            assert_eq!(q.year, 2024);
            assert_eq!(q.since, "2024-01-01T00:00:00Z");
            assert_eq!(q.until, "2024-05-06T07:08:09Z");
        }
        _ => panic!("expected a request"),
    }
}

#[test]
fn past_year_bounds() {
    let mut f = ActivityFetch::new(2024, "2024-05-06T07:08:09Z".to_string());
    f.record(200, vec!["2024-01-01T00:00:00Z".to_string()]);
    match f.step() {
        FetchStep::Request(q) => {
            assert_eq!(q.year, 2023);
            assert_eq!(q.since, "2023-01-01T00:00:00Z");
            assert_eq!(q.until, "2023-12-31T23:59:59Z");
        }
        _ => panic!("expected a request"),
    }
    assert_eq!(f.timestamps.len(), 1);
}

#[test]
fn not_found_year_is_empty() {
    let mut f = ActivityFetch::new(2020, "now".to_string());
    f.record(200, vec!["a".to_string(), "b".to_string()]);
    assert_eq!(requested_year(&f), Some(2019));
    f.record(404, Vec::new());
    assert_eq!(requested_year(&f), Some(2018));
    assert_eq!(f.timestamps, vec!["a".to_string(), "b".to_string()]);
}

#[test]
fn server_error_fails_fetch() {
    let mut f = ActivityFetch::new(2022, "now".to_string());
    f.record(200, vec!["x".to_string()]);
    assert_eq!(requested_year(&f), Some(2021));
    f.record(500, Vec::new());
    assert!(matches!(f.step(), FetchStep::Failed(500)));
}

#[test]
fn runs_down_to_first_year() {
    let mut f = ActivityFetch::new(2002, "now".to_string());
    let mut asked = Vec::new();
    while let FetchStep::Request(q) = f.step() {
        asked.push(q.year);
        f.record(200, vec![q.since.clone()]);
    }
    assert_eq!(asked, vec![2002, 2001, 2000]);
    assert!(matches!(f.step(), FetchStep::Finished));
    assert_eq!(f.timestamps.len(), 3);
}
