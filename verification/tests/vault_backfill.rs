use rainy_mate::vault::{backfill_batches, needs_reembed, next_backfill_offset};

#[test]
fn pages_are_collected_until_one_is_short() {
    assert_eq!(next_backfill_offset(500, 0), Some(500));
    assert_eq!(next_backfill_offset(500, 500), Some(1000));
    assert_eq!(next_backfill_offset(499, 1000), None);
    assert_eq!(next_backfill_offset(0, 0), None);
}

#[test]
fn only_entries_off_the_active_profile_are_reembedded() {
    assert!(!needs_reembed(Some(3072), Some("gemini-embedding-2-preview")));
    assert!(needs_reembed(Some(3072), Some("gemini-embedding-001")));
    assert!(needs_reembed(Some(768), Some("gemini-embedding-2-preview")));
    assert!(needs_reembed(None, None));
}

#[test]
fn ids_are_reembedded_in_batches_of_sixteen() {
    assert!(backfill_batches(0).is_empty());
    assert_eq!(backfill_batches(16), vec![(0, 16)]);
    assert_eq!(backfill_batches(35), vec![(0, 16), (16, 32), (32, 35)]);
}

use rainy_mate::vault::retention_cutoff;

#[test]
fn retention_of_zero_days_keeps_everything() {
    assert_eq!(retention_cutoff(1_700_000_000, 0), None);
    assert_eq!(retention_cutoff(1_700_000_000, 1), Some(1_700_000_000 - 86_400));
    assert_eq!(retention_cutoff(1_700_000_000, 30), Some(1_700_000_000 - 30 * 86_400));
}
