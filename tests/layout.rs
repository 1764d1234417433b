use rustv::Layout;

#[test]
fn test_layout_view_counts() {
    assert_eq!(Layout::Grid2x2.view_count(), 4);
    assert_eq!(Layout::Grid3x3.view_count(), 9);
    assert_eq!(Layout::Grid4x4.view_count(), 16);
    assert_eq!(Layout::PiP.view_count(), 2);
    assert_eq!(Layout::OneAndSeven.view_count(), 8);
    assert_eq!(Layout::OneAndNine.view_count(), 10);
}

#[test]
fn layout_names_and_order() {
    let all = Layout::all();
    assert_eq!(all.len(), 6);
    assert_eq!(all[0], Layout::Grid2x2);
    assert_eq!(all[5], Layout::OneAndNine);
    assert_eq!(Layout::OneAndSeven.name(), "1+7 Layout");
    assert_eq!(Layout::PiP.name(), "Picture in Picture");
    assert_eq!(Layout::default(), Layout::Grid2x2);
}
