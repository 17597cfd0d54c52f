use cr_ui::pages::{merged_page_plan, PageSource};

#[test]
fn partial_stored_list_overlays_the_provider_count() {
    // One stored entry (the front cover, image 0) over a three-page archive.
    let merged = merged_page_plan(&[0], 3);
    assert_eq!(merged.len(), 3, "the display is the provider count");
    assert_eq!(merged[0], (PageSource::Stored(0), 0), "the stored overlay");
    assert_eq!(merged[1].1, 1);
    assert_eq!(merged[2].1, 2);
    assert_eq!(merged[1].0, PageSource::Provider(1), "the provider key fills");
}

#[test]
fn entries_without_a_usable_image_fall_back_to_their_position() {
    let merged = merged_page_plan(&[-1, -1], 2);
    assert_eq!(merged.len(), 2);
    assert_eq!(merged[0].1, 0);
    assert_eq!(merged[1].1, 1);
}

#[test]
fn stored_entries_beyond_the_archive_are_dropped() {
    let merged = merged_page_plan(&[4, 3, 2, 1], 2);
    assert_eq!(merged, vec![(PageSource::Stored(0), 4), (PageSource::Stored(1), 3)]);
    assert!(merged_page_plan(&[1, 2], 0).is_empty());
}
