use shazamio_core::SearchParams;

#[test]
fn default_segment_duration_is_10() {
    let params = SearchParams::new(None);
    assert_eq!(params.segment_duration_seconds, 10);
}

#[test]
fn custom_segment_duration_is_used() {
    let params = SearchParams::new(Some(15));
    assert_eq!(params.segment_duration_seconds, 15);
}

#[test]
fn zero_segment_duration_is_kept() {
    let params = SearchParams::new(Some(0));
    assert_eq!(params.segment_duration_seconds, 0);
}
