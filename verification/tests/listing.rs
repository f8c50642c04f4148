use bucket_lister::S3ExampleError;
use bucket_lister::decimal::u64_to_string;
use bucket_lister::listing::{LookupResult, PageResult, RequestFailure, run_listing, show_buckets};
use bucket_lister::listing::BucketLister;
use bucket_lister::region::parse_region;

fn page(names: &[&str]) -> PageResult {
    PageResult::Buckets(names.iter().map(|n| n.to_string()).collect())
}

fn failure(code: Option<&str>, message: Option<&str>) -> RequestFailure {
    RequestFailure { code: code.map(|c| c.to_string()), message: message.map(|m| m.to_string()) }
}

fn located(region: Option<&str>) -> LookupResult {
    LookupResult::Location(region.map(|r| r.to_string()))
}

fn region() -> String {
    "us-west-2".to_string()
}

#[test]
fn non_strict_prints_every_bucket() {
    let pages = vec![page(&["alpha", "beta"]), page(&[]), page(&["gamma"])];
    let (lines, outcome) = show_buckets(false, &region(), &pages, &Vec::new());
    assert_eq!(lines, vec!["alpha", "beta", "gamma"]);
    assert_eq!(outcome.unwrap(), "Found 3 buckets in all regions.");
}

#[test]
fn non_strict_empty_store() {
    let pages = vec![page(&[])];
    let (lines, outcome) = show_buckets(false, &region(), &pages, &Vec::new());
    assert!(lines.is_empty());
    assert_eq!(outcome.unwrap(), "Found 0 buckets in all regions.");
}

#[test]
fn strict_prints_only_matching_buckets() {
    let pages = vec![page(&["alpha", "beta", "gamma", "delta"])];
    let lookups = vec![
        located(Some("us-west-2")),
        located(Some("eu-west-1")),
        located(Some("us-west-2")),
        located(None),
    ];
    let (lines, outcome) = show_buckets(true, &region(), &pages, &lookups);
    assert_eq!(lines, vec!["alpha", "gamma"]);
    assert_eq!(
        outcome.unwrap(),
        "Found 2 buckets in the us-west-2 region out of a total of 4 buckets."
    );
}

#[test]
fn strict_no_matches() {
    let pages = vec![page(&["alpha"])];
    let lookups = vec![located(Some("eu-west-1"))];
    let (lines, outcome) = show_buckets(true, &region(), &pages, &lookups);
    assert!(lines.is_empty());
    assert_eq!(
        outcome.unwrap(),
        "Found 0 buckets in the us-west-2 region out of a total of 1 buckets."
    );
}

#[test]
fn page_failure_keeps_earlier_lines_and_drops_summary() {
    let pages = vec![
        page(&["alpha", "beta"]),
        PageResult::Failure(failure(Some("AccessDenied"), Some("not allowed"))),
        page(&["gamma"]),
    ];
    let (lines, outcome) = show_buckets(false, &region(), &pages, &Vec::new());
    assert_eq!(lines, vec!["alpha", "beta"]);
    let err = outcome.unwrap_err();
    assert_eq!(err.message(), "AccessDenied: not allowed");
}

#[test]
fn page_failure_in_strict_mode_after_matching_prefix() {
    let pages = vec![
        page(&["alpha", "beta"]),
        PageResult::Failure(failure(Some("Throttled"), None)),
    ];
    let lookups = vec![located(Some("us-west-2")), located(Some("eu-west-1"))];
    let (lines, outcome) = show_buckets(true, &region(), &pages, &lookups);
    assert_eq!(lines, vec!["alpha"]);
    assert_eq!(outcome.unwrap_err().message(), "Throttled: missing reason");
}

#[test]
fn lookup_failure_stops_the_pass() {
    let pages = vec![page(&["alpha", "beta", "gamma"])];
    let lookups = vec![
        located(Some("us-west-2")),
        LookupResult::Failure(failure(Some("NoSuchBucket"), Some("gone"))),
        located(Some("us-west-2")),
    ];
    let (lines, outcome) = show_buckets(true, &region(), &pages, &lookups);
    assert_eq!(lines, vec!["alpha"]);
    assert_eq!(outcome.unwrap_err().message(), "NoSuchBucket: gone");
}

#[test]
fn lookup_failure_wins_over_later_page_failure() {
    let pages = vec![
        page(&["alpha"]),
        PageResult::Failure(failure(Some("PageBroke"), Some("later"))),
    ];
    let lookups = vec![LookupResult::Failure(failure(Some("LookupBroke"), Some("first")))];
    let (lines, outcome) = show_buckets(true, &region(), &pages, &lookups);
    assert!(lines.is_empty());
    assert_eq!(outcome.unwrap_err().message(), "LookupBroke: first");
}

#[test]
fn failure_with_no_metadata_gets_the_default_texts() {
    let err = S3ExampleError::from_metadata(None, None);
    assert_eq!(err.message(), "unknown code: missing reason");
    assert!(err.message().contains("unknown code"));
    assert!(err.message().contains("missing reason"));
}

#[test]
fn failure_with_partial_metadata() {
    let err = S3ExampleError::from_metadata(None, Some("the reason".to_string()));
    assert_eq!(err.message(), "unknown code: the reason");
    let err = S3ExampleError::from_metadata(Some("Code".to_string()), None);
    assert_eq!(err.message(), "Code: missing reason");
}

#[test]
fn add_message_prefixes_context() {
    let err = S3ExampleError::new("it broke".to_string());
    assert_eq!(err.message(), "it broke");
    let err = err.add_message("while listing".to_string());
    assert_eq!(err.message(), "while listing: it broke");
}

#[test]
fn known_region_parses_to_itself() {
    let parsed = parse_region(&"us-west-2".to_string()).unwrap();
    assert_eq!(parsed, "us-west-2");
    let parsed = parse_region(&"EU".to_string()).unwrap();
    assert_eq!(parsed, "EU");
}

#[test]
fn unknown_region_is_rejected() {
    assert!(parse_region(&"not-a-region".to_string()).is_err());
    assert!(parse_region(&"".to_string()).is_err());
}

#[test]
fn unknown_region_stops_the_listing_before_enumeration() {
    let pages = vec![page(&["alpha"])];
    let (lines, outcome) = run_listing(false, &"not-a-region".to_string(), &pages, &Vec::new());
    assert!(lines.is_empty());
    assert!(outcome.is_err());
}

#[test]
fn known_region_runs_the_listing() {
    let pages = vec![page(&["alpha", "beta"])];
    let lookups = vec![located(Some("us-west-2")), located(Some("us-west-2"))];
    let (lines, outcome) = run_listing(true, &region(), &pages, &lookups);
    assert_eq!(lines, vec!["alpha", "beta"]);
    assert_eq!(
        outcome.unwrap(),
        "Found 2 buckets in the us-west-2 region out of a total of 2 buckets."
    );
}

#[test]
fn listing_twice_gives_identical_output() {
    let pages = vec![page(&["alpha", "beta", "gamma"]), page(&["delta"])];
    let lookups = vec![
        located(Some("us-west-2")),
        located(None),
        located(Some("us-west-2")),
        located(Some("eu-north-1")),
    ];
    let (lines1, outcome1) = run_listing(true, &region(), &pages, &lookups);
    let (lines2, outcome2) = run_listing(true, &region(), &pages, &lookups);
    assert_eq!(lines1, lines2);
    assert_eq!(outcome1.unwrap(), outcome2.unwrap());
}

#[test]
fn lister_records_buckets_one_by_one() {
    let mut lister = BucketLister::new(true, region());
    assert!(lister.is_strict());
    let line = lister.record_bucket(&"alpha".to_string(), Some(&"us-west-2".to_string()));
    assert_eq!(line.unwrap(), "alpha");
    let line = lister.record_bucket(&"beta".to_string(), Some(&"eu-west-1".to_string()));
    assert!(line.is_none());
    let line = lister.record_bucket(&"gamma".to_string(), None);
    assert!(line.is_none());
    assert_eq!(
        lister.summary(),
        "Found 1 buckets in the us-west-2 region out of a total of 3 buckets."
    );
}

#[test]
fn non_strict_lister_prints_unconditionally() {
    let mut lister = BucketLister::new(false, region());
    assert!(!lister.is_strict());
    let line = lister.record_bucket(&"alpha".to_string(), None);
    assert_eq!(line.unwrap(), "alpha");
    assert_eq!(lister.summary(), "Found 1 buckets in all regions.");
}

#[test]
fn decimal_rendering() {
    assert_eq!(u64_to_string(0), "0");
    assert_eq!(u64_to_string(7), "7");
    assert_eq!(u64_to_string(10), "10");
    assert_eq!(u64_to_string(1234567890), "1234567890");
    assert_eq!(u64_to_string(u64::MAX), "18446744073709551615");
}
