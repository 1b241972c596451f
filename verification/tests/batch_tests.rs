use sigresolve::batch::verify_all;
use sigresolve::location::{MemoryLocation, Resolution};

const BASE: usize = 0x10000;

fn sample_region() -> Vec<u8> {
    let mut region = vec![0u8; 4];
    region.extend_from_slice(&[0xa1, 0xa2, 0xa3]); // first signature at 4
    region.extend_from_slice(&[0u8; 3]);
    region.extend_from_slice(&[0xb1, 0xb2]); // second signature at 10
    region.extend_from_slice(&[0u8; 5]);
    region
}

fn location(signature: &[u8], offset: isize, name: &str) -> MemoryLocation {
    MemoryLocation::new(signature.to_vec(), offset, String::from(name))
}

#[test]
fn verify_all_succeeds_when_every_location_resolves() {
    let region = sample_region();
    let mut table = vec![
        location(&[0xa1, 0xa2, 0xa3], 0, "alpha"),
        location(&[0xb1, 0xb2], 1, "beta"),
        location(&[0xa2, 0xa3], -1, "gamma"),
    ];
    let outcome = verify_all(&mut table, &region, BASE);
    assert!(outcome.ok);
    assert!(outcome.failures.is_empty());
    assert_eq!(table[0].resolution(), Resolution::Found(BASE + 4));
    assert_eq!(table[1].resolution(), Resolution::Found(BASE + 10 + 1));
    assert_eq!(table[2].resolution(), Resolution::Found(BASE + 5 - 1));
}

#[test]
fn verify_all_reports_the_single_failing_location() {
    let region = sample_region();
    let mut table = vec![
        location(&[0xa1, 0xa2, 0xa3], 0, "alpha"),
        location(&[0xee, 0xef], 0, "missing"),
        location(&[0xb1, 0xb2], 0, "beta"),
    ];
    let outcome = verify_all(&mut table, &region, BASE);
    assert!(!outcome.ok);
    assert_eq!(outcome.failures.len(), 1);
    assert_eq!(outcome.failures[0].name, "missing");
    assert!(outcome.failures[0].message.contains("missing"));
    assert_eq!(
        outcome.failures[0].message,
        "Failed to find missing in memory. This may be caused by an incompatible \
         co-installed modification, or by an update to the host application. \
         The dependent functionality stays disabled."
    );
    // The two locations that resolved are not reported and keep their value.
    assert_eq!(table[0].resolution(), Resolution::Found(BASE + 4));
    assert_eq!(table[1].resolution(), Resolution::NotFound);
    assert_eq!(table[2].resolution(), Resolution::Found(BASE + 10));
}

#[test]
fn verify_all_reports_every_failure_in_order() {
    let region = sample_region();
    let mut table = vec![
        location(&[0xd0, 0xd1], 0, "first_missing"),
        location(&[0xa1, 0xa2, 0xa3], 0, "alpha"),
        location(&[0xd2, 0xd3], 0, "second_missing"),
    ];
    let outcome = verify_all(&mut table, &region, BASE);
    assert!(!outcome.ok);
    assert_eq!(outcome.failures.len(), 2);
    assert_eq!(outcome.failures[0].name, "first_missing");
    assert_eq!(outcome.failures[1].name, "second_missing");
}

#[test]
fn verify_all_accepts_an_empty_table() {
    let region = sample_region();
    let mut table: Vec<MemoryLocation> = Vec::new();
    let outcome = verify_all(&mut table, &region, BASE);
    assert!(outcome.ok);
    assert!(outcome.failures.is_empty());
}

#[test]
fn verify_all_keeps_previously_memoized_results() {
    let region = sample_region();
    let mut table = vec![location(&[0xa1, 0xa2, 0xa3], 0, "alpha")];
    assert_eq!(table[0].resolve(&region, BASE), Some(BASE + 4));
    // Verifying against a region that lacks the signature still succeeds,
    // because the memoized value is terminal and no rescan happens.
    let empty = vec![0u8; 8];
    let outcome = verify_all(&mut table, &empty, BASE);
    assert!(outcome.ok);
    assert!(outcome.failures.is_empty());
    assert_eq!(table[0].resolution(), Resolution::Found(BASE + 4));
}
