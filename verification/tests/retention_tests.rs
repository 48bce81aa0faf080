use homework_backup::archive_name::{archive_file_name, is_zip_file_name, u64_to_decimal};
use homework_backup::retention::{backups_to_remove, current_backups};

fn names(entries: &[&str]) -> Vec<String> {
    entries.iter().map(|name| name.to_string()).collect()
}

#[test]
fn decimal_rendering_matches_expected_digits() {
    assert_eq!(u64_to_decimal(0), "0");
    assert_eq!(u64_to_decimal(7), "7");
    assert_eq!(u64_to_decimal(10), "10");
    assert_eq!(u64_to_decimal(10800), "10800");
    assert_eq!(u64_to_decimal(1_699_999_999), "1699999999");
    assert_eq!(u64_to_decimal(u64::MAX), "18446744073709551615");
}

#[test]
fn archive_file_names_are_timestamp_dot_zip() {
    assert_eq!(archive_file_name(0), "0.zip");
    assert_eq!(archive_file_name(1234), "1234.zip");
    assert_eq!(archive_file_name(1_699_999_999), "1699999999.zip");
}

#[test]
fn the_archive_extension_is_recognized() {
    assert!(is_zip_file_name("1234.zip"));
    assert!(is_zip_file_name("foo.zip"));
    assert!(is_zip_file_name("a.b.zip"));
    assert!(!is_zip_file_name(".zip"));
    assert!(!is_zip_file_name("zip"));
    assert!(!is_zip_file_name("1234.txt"));
    assert!(!is_zip_file_name("1234zip"));
    assert!(!is_zip_file_name("1234.ZIP"));
    assert!(!is_zip_file_name(""));
}

#[test]
fn within_budget_nothing_is_removed() {
    let listing = names(&["1.zip", "2.zip", "3.zip"]);
    assert!(backups_to_remove(&listing, 3).is_empty());
    assert!(backups_to_remove(&listing, 10).is_empty());
}

#[test]
fn an_empty_listing_yields_no_removals() {
    assert!(backups_to_remove(&Vec::new(), 3).is_empty());
    assert!(backups_to_remove(&Vec::new(), 0).is_empty());
}

#[test]
fn the_oldest_archives_beyond_the_budget_go_first() {
    let listing = names(&["5.zip", "1.zip", "3.zip", "2.zip", "4.zip"]);
    let removals = backups_to_remove(&listing, 2);
    assert_eq!(removals, names(&["1.zip", "2.zip", "3.zip"]));
}

#[test]
fn names_without_the_archive_extension_are_ignored() {
    let listing = names(&["notes.txt", "2.zip", "1.zip", "readme.md", "photo.jpg"]);
    let removals = backups_to_remove(&listing, 1);
    assert_eq!(removals, names(&["1.zip"]));
}

#[test]
fn every_zip_file_counts_toward_the_budget() {
    // Three archives against a budget of two: the smallest name goes, and a
    // stray stem still counts (digits sort before letters, so it is newest).
    let listing = names(&["foo.zip", "1.zip", "2.zip"]);
    assert_eq!(backups_to_remove(&listing, 2), names(&["1.zip"]));
    assert_eq!(
        backups_to_remove(&listing, 0),
        names(&["1.zip", "2.zip", "foo.zip"])
    );
}

#[test]
fn a_zero_budget_removes_every_archive() {
    let listing = names(&["2.zip", "1.zip"]);
    let removals = backups_to_remove(&listing, 0);
    assert_eq!(removals, names(&["1.zip", "2.zip"]));
}

#[test]
fn equal_names_cannot_hide_an_archive() {
    // A listing may repeat a name; both occurrences count and both go.
    let listing = names(&["7.zip", "7.zip", "9.zip"]);
    let removals = backups_to_remove(&listing, 1);
    assert_eq!(removals, names(&["7.zip", "7.zip"]));
}

#[test]
fn current_backups_keeps_zip_names_in_listing_order() {
    let listing = names(&["notes.txt", "2.zip", "foo.zip", "1.zip", "readme.md"]);
    assert_eq!(current_backups(&listing), names(&["2.zip", "foo.zip", "1.zip"]));
    assert!(current_backups(&names(&["a.txt"])).is_empty());
}

/// Replays archive creations and prune passes against an in-memory listing.
fn prune(listing: &mut Vec<String>, maximum_backups: usize) {
    let removals = backups_to_remove(listing, maximum_backups);
    listing.retain(|name| !removals.contains(name));
}

#[test]
fn interleaved_creation_and_pruning_keeps_the_newest_archives() {
    let mut listing: Vec<String> = Vec::new();
    for timestamp in 1..=2u64 {
        listing.push(archive_file_name(timestamp));
    }
    prune(&mut listing, 3);
    assert_eq!(listing, names(&["1.zip", "2.zip"]));
    for timestamp in 3..=5u64 {
        listing.push(archive_file_name(timestamp));
    }
    prune(&mut listing, 3);
    assert_eq!(listing, names(&["3.zip", "4.zip", "5.zip"]));
    listing.push(archive_file_name(6));
    prune(&mut listing, 3);
    assert_eq!(listing, names(&["4.zip", "5.zip", "6.zip"]));
}

#[test]
fn pruning_twice_changes_nothing_more() {
    let mut listing = names(&["9.zip", "7.zip", "8.zip", "6.zip"]);
    prune(&mut listing, 2);
    assert_eq!(listing, names(&["9.zip", "8.zip"]));
    let before = listing.clone();
    prune(&mut listing, 2);
    assert_eq!(listing, before);
}
