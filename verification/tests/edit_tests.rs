use barber::edit::EditList;
use barber::region::{FadeCurve, FadePoint, Region, RegionKind, SourceSpan};

fn list(n: usize) -> EditList<f32> {
    EditList::from_length(n, 1.0, 0.0)
}

fn src(el: &EditList<f32>, i: usize) -> Option<(usize, f32)> {
    el.resolve(i).map(|r| (r.source_frame, r.gain))
}

fn frames(el: &EditList<f32>, start: usize, len: usize) -> Vec<Option<(usize, f32)>> {
    el.iter_source_frames(start, len).into_iter().map(|f| f.map(|r| (r.source_frame, r.gain))).collect()
}

#[test]
fn from_length_creates_single_region() {
    let el = list(100);
    assert_eq!(el.total_frames(), 100);
    assert_eq!(el.regions().len(), 1);
}

#[test]
fn ripple_delete_middle() {
    let mut el = list(100);
    el.ripple_delete(20, 30);
    assert_eq!(el.total_frames(), 90);
    assert_eq!(src(&el, 20), Some((30, 1.0)));
    assert_eq!(src(&el, 19), Some((19, 1.0)));
    assert_eq!(src(&el, 89), Some((99, 1.0)));
    assert_eq!(src(&el, 90), None);
}

#[test]
fn ripple_delete_at_boundaries() {
    let mut el = list(50);
    el.ripple_delete(0, 10);
    assert_eq!(el.total_frames(), 40);
    assert_eq!(src(&el, 0), Some((10, 1.0)));

    let mut el2 = list(50);
    el2.ripple_delete(40, 50);
    assert_eq!(el2.total_frames(), 40);
    assert_eq!(src(&el2, 39), Some((39, 1.0)));
    assert_eq!(src(&el2, 40), None);
}

#[test]
fn crop_keeps_range() {
    let mut el = list(100);
    el.crop(10, 40);
    assert_eq!(el.total_frames(), 30);
    assert_eq!(src(&el, 0), Some((10, 1.0)));
    assert_eq!(src(&el, 29), Some((39, 1.0)));
    assert_eq!(src(&el, 30), None);
}

#[test]
fn iter_source_frames_full() {
    let el = list(5);
    assert_eq!(frames(&el, 0, 5), vec![Some((0, 1.0)), Some((1, 1.0)), Some((2, 1.0)), Some((3, 1.0)), Some((4, 1.0))]);
}

#[test]
fn iter_source_frames_after_delete() {
    let mut el = list(100);
    el.ripple_delete(20, 30);
    assert_eq!(frames(&el, 18, 5), vec![Some((18, 1.0)), Some((19, 1.0)), Some((30, 1.0)), Some((31, 1.0)), Some((32, 1.0))]);
}

#[test]
fn iter_source_frames_partial() {
    let el = list(10);
    assert_eq!(frames(&el, 3, 4), vec![Some((3, 1.0)), Some((4, 1.0)), Some((5, 1.0)), Some((6, 1.0))]);
}

#[test]
fn gap_delete_replaces_with_silence() {
    let mut el = list(100);
    el.gap_delete(20, 30);
    assert_eq!(el.total_frames(), 100);
    assert_eq!(src(&el, 19), Some((19, 1.0)));
    assert_eq!(src(&el, 20), None);
    assert_eq!(src(&el, 29), None);
    assert_eq!(src(&el, 30), Some((30, 1.0)));
    assert_eq!(src(&el, 99), Some((99, 1.0)));
}

#[test]
fn gap_delete_preserves_total_length() {
    let mut el = list(50);
    el.gap_delete(10, 40);
    assert_eq!(el.total_frames(), 50);
}

#[test]
fn is_silence_range_source_returns_false() {
    let el = list(100);
    assert!(!el.is_silence_range(10, 20));
}

#[test]
fn is_silence_range_after_gap_delete() {
    let mut el = list(100);
    el.gap_delete(20, 40);
    assert!(el.is_silence_range(20, 40));
    assert!(!el.is_silence_range(19, 40));
    assert!(!el.is_silence_range(20, 41));
    assert!(el.is_silence_range(25, 35));
}

#[test]
fn iter_source_frames_with_silence() {
    let mut el = list(5);
    el.gap_delete(2, 4);
    assert_eq!(frames(&el, 0, 5), vec![Some((0, 1.0)), Some((1, 1.0)), None, None, Some((4, 1.0))]);
}

#[test]
fn extract_regions_empty_range() {
    let el = list(100);
    assert!(el.extract_regions(10, 10).is_empty());
    assert!(el.extract_regions(20, 10).is_empty());
}

#[test]
fn extract_regions_full() {
    let el = list(100);
    let regions = el.extract_regions(0, 100);
    assert_eq!(regions.len(), 1);
    assert_eq!(regions[0].len(), 100);
    if let RegionKind::Source { source_start, source_end } = regions[0].kind {
        assert_eq!(source_start, 0);
        assert_eq!(source_end, 100);
    } else {
        panic!("expected Source region");
    }
}

#[test]
fn extract_regions_subset() {
    let el = list(100);
    let regions = el.extract_regions(20, 50);
    assert_eq!(regions.len(), 1);
    assert_eq!(regions[0].len(), 30);
    if let RegionKind::Source { source_start, source_end } = regions[0].kind {
        assert_eq!(source_start, 20);
        assert_eq!(source_end, 50);
    } else {
        panic!("expected Source region");
    }
}

#[test]
fn extract_regions_across_boundary() {
    let mut el = list(100);
    el.ripple_delete(40, 60);
    let regions = el.extract_regions(30, 50);
    assert_eq!(regions.len(), 2);
    assert_eq!(regions[0].len(), 10);
    assert_eq!(regions[1].len(), 10);
    if let RegionKind::Source { source_start, source_end } = regions[0].kind {
        assert_eq!(source_start, 30);
        assert_eq!(source_end, 40);
    } else {
        panic!("expected Source region");
    }
    if let RegionKind::Source { source_start, source_end } = regions[1].kind {
        assert_eq!(source_start, 60);
        assert_eq!(source_end, 70);
    } else {
        panic!("expected Source region");
    }
}

#[test]
fn insert_at_start() {
    let mut el = list(100);
    let patch = vec![Region::source(50, 60, 1.0f32, 0.0)];
    el.insert(0, &patch);
    assert_eq!(el.total_frames(), 110);
    assert_eq!(src(&el, 0), Some((50, 1.0)));
    assert_eq!(src(&el, 9), Some((59, 1.0)));
    assert_eq!(src(&el, 10), Some((0, 1.0)));
}

#[test]
fn insert_at_end() {
    let mut el = list(100);
    let patch = vec![Region::source(0, 10, 1.0f32, 0.0)];
    el.insert(100, &patch);
    assert_eq!(el.total_frames(), 110);
    assert_eq!(src(&el, 99), Some((99, 1.0)));
    assert_eq!(src(&el, 100), Some((0, 1.0)));
    assert_eq!(src(&el, 109), Some((9, 1.0)));
}

#[test]
fn insert_in_middle() {
    let mut el = list(100);
    let patch = vec![Region::silence(5, 1.0f32, 0.0)];
    el.insert(50, &patch);
    assert_eq!(el.total_frames(), 105);
    assert_eq!(src(&el, 49), Some((49, 1.0)));
    assert_eq!(src(&el, 50), None);
    assert_eq!(src(&el, 54), None);
    assert_eq!(src(&el, 55), Some((50, 1.0)));
    assert_eq!(src(&el, 104), Some((99, 1.0)));
}

#[test]
fn insert_empty_is_noop() {
    let mut el = list(100);
    el.insert(50, &[]);
    assert_eq!(el.total_frames(), 100);
}

#[test]
fn reverse_simple() {
    let mut el = list(10);
    el.reverse_selection(0, 10);
    assert_eq!(el.total_frames(), 10);
    assert_eq!(src(&el, 0), Some((9, 1.0)));
    assert_eq!(src(&el, 9), Some((0, 1.0)));
    assert_eq!(src(&el, 5), Some((4, 1.0)));
}

#[test]
fn reverse_preserves_length() {
    let mut el = list(100);
    el.reverse_selection(20, 50);
    assert_eq!(el.total_frames(), 100);
}

#[test]
fn reverse_of_reverse_is_identity() {
    let el_original = list(50);
    let mut el = el_original.clone();
    el.reverse_selection(10, 30);
    el.reverse_selection(10, 30);
    for i in 0..50 {
        assert_eq!(src(&el, i), src(&el_original, i), "mismatch at frame {}", i);
    }
}

#[test]
fn split_reversed_region() {
    let mut el = list(20);
    el.reverse_selection(0, 20);
    el.crop(5, 15);
    assert_eq!(el.total_frames(), 10);
    assert_eq!(src(&el, 0), Some((14, 1.0)));
    assert_eq!(src(&el, 9), Some((5, 1.0)));
}

#[test]
fn set_gain_range_applies_gain() {
    let mut el = list(100);
    el.set_gain_range(20, 50, |g| g * 0.5);
    assert_eq!(el.total_frames(), 100);
    assert_eq!(src(&el, 10), Some((10, 1.0)));
    assert_eq!(src(&el, 30), Some((30, 0.5)));
    assert_eq!(src(&el, 60), Some((60, 1.0)));
}

// ---------------------------------------------------------------- further cases

#[test]
fn ripple_delete_puts_splice_fades() {
    let mut el = list(1000);
    el.ripple_delete(400, 500);
    let r = el.regions();
    assert_eq!(r.len(), 2);
    assert_eq!(r[0].fade_out, 128);
    assert_eq!(r[1].fade_in, 128);
    let at = el.resolve(400).unwrap();
    assert_eq!(at.source_frame, 500);
    assert_eq!(at.fade_in, Some(FadePoint { curve: FadeCurve::Linear, position: 0, length: 128 }));
    let before = el.resolve(399).unwrap();
    assert_eq!(before.fade_out, Some(FadePoint { curve: FadeCurve::Linear, position: 0, length: 128 }));
}

#[test]
fn splice_fade_is_half_of_a_short_region() {
    let mut el = list(100);
    el.ripple_delete(20, 30);
    let r = el.regions();
    assert_eq!(r[0].fade_out, 10);
    assert_eq!(r[1].fade_in, 35);
}

#[test]
fn fades_disabled_gives_no_envelope() {
    let mut el = list(1000);
    el.ripple_delete(400, 500);
    el.set_fades_enabled(false);
    assert!(!el.fades_are_enabled());
    assert_eq!(el.resolve(400).unwrap().fade_in, None);
}

#[test]
fn ripple_delete_empty_range_is_noop() {
    let mut el = list(100);
    el.ripple_delete(30, 30);
    el.ripple_delete(40, 20);
    assert_eq!(el.total_frames(), 100);
    assert_eq!(el.regions().len(), 1);
}

#[test]
fn ripple_delete_past_end_clamps() {
    let mut el = list(100);
    el.ripple_delete(90, 200);
    assert_eq!(el.total_frames(), 90);
    el.ripple_delete(150, 200);
    assert_eq!(el.total_frames(), 90);
}

#[test]
fn crop_empty_range_clears() {
    let mut el = list(100);
    el.crop(50, 50);
    assert_eq!(el.total_frames(), 0);
    assert!(el.regions().is_empty());
    assert_eq!(el.resolve(0), None);
}

#[test]
fn gap_delete_running_past_end_grows() {
    let mut el = list(50);
    el.gap_delete(40, 60);
    assert_eq!(el.total_frames(), 60);
    assert!(el.is_silence_range(40, 60));
    let mut el2 = list(50);
    el2.gap_delete(60, 70);
    assert_eq!(el2.total_frames(), 50);
}

#[test]
fn gap_delete_uses_list_levels() {
    let mut el: EditList<f32> = EditList::from_length(10, 2.0, 0.25);
    el.gap_delete(2, 4);
    let gap = el.regions()[1];
    assert_eq!(gap.kind, RegionKind::Silence { len: 2 });
    assert_eq!(gap.gain, 2.0);
    assert_eq!(gap.dc_offset, 0.25);
}

#[test]
fn cut_then_paste_restores() {
    let original = list(100);
    let mut el = original.clone();
    let clip = el.extract_regions(30, 60);
    el.ripple_delete(30, 60);
    el.insert(30, &clip);
    assert_eq!(el.total_frames(), 100);
    for i in 0..100 {
        assert_eq!(src(&el, i), src(&original, i));
    }
}

#[test]
fn duplicate_plays_range_twice() {
    let mut el = list(100);
    let regions = el.extract_regions(10, 20);
    el.insert(20, &regions);
    assert_eq!(el.total_frames(), 110);
    for i in 0..10 {
        assert_eq!(src(&el, 20 + i), Some((10 + i, 1.0)));
    }
    assert_eq!(src(&el, 30), Some((20, 1.0)));
}

#[test]
fn insert_past_end_appends() {
    let mut el = list(10);
    el.insert(50, &[Region::source(0, 3, 1.0f32, 0.0)]);
    assert_eq!(el.total_frames(), 13);
    assert_eq!(src(&el, 10), Some((0, 1.0)));
}

#[test]
fn reverse_mirrors_range() {
    let mut el = list(50);
    el.reverse_selection(10, 30);
    for i in 10..30 {
        assert_eq!(src(&el, i), Some((39 - i, 1.0)));
    }
    assert_eq!(src(&el, 9), Some((9, 1.0)));
    assert_eq!(src(&el, 30), Some((30, 1.0)));
}

#[test]
fn set_dc_offset_range_shifts_offset() {
    let mut el = list(100);
    el.set_dc_offset_range(0, 100, |d| d + 0.1);
    assert_eq!(el.resolve(50).unwrap().dc_offset, 0.1);
    assert_eq!(el.total_frames(), 100);
}

#[test]
fn fade_in_and_out_set_envelopes() {
    let mut el = list(100);
    el.apply_fade_in(0, 10, FadeCurve::Exponential);
    let f = el.resolve(4).unwrap();
    assert_eq!(f.fade_in, Some(FadePoint { curve: FadeCurve::Exponential, position: 4, length: 10 }));
    assert_eq!(el.resolve(10).unwrap().fade_in, None);
    el.apply_fade_out(90, 100, FadeCurve::SCurve);
    let g = el.resolve(95).unwrap();
    assert_eq!(g.fade_out, Some(FadePoint { curve: FadeCurve::SCurve, position: 4, length: 10 }));
    assert_eq!(el.total_frames(), 100);
    for i in 0..100 {
        assert_eq!(src(&el, i), Some((i, 1.0)));
    }
}

#[test]
fn boundary_fades_on_region_indices() {
    let mut el = list(100);
    el.gap_delete(40, 50);
    el.apply_boundary_fades(0, 3);
    let r = el.regions();
    assert_eq!(r[0].fade_in, 20);
    assert_eq!(r[2].fade_out, 25);
    el.apply_boundary_fades(5, 9);
    assert_eq!(el.regions().len(), 3);
}

#[test]
fn source_ranges_follow_regions() {
    let mut el = list(100);
    el.gap_delete(20, 30);
    el.reverse_selection(50, 60);
    el.set_fades_enabled(false);
    let spans = el.source_ranges(10, 70);
    let plain: Vec<(usize, usize)> = spans.iter().map(|s: &SourceSpan<f32>| (s.source_start, s.source_end)).collect();
    assert_eq!(plain, vec![(10, 20), (30, 50), (50, 60), (60, 70)]);
}

#[test]
fn region_index_at_boundaries() {
    let mut el = list(100);
    el.gap_delete(40, 50);
    assert_eq!(el.region_index_at(0), Some(0));
    assert_eq!(el.region_index_at(39), Some(0));
    assert_eq!(el.region_index_at(40), Some(1));
    assert_eq!(el.region_index_at(100), Some(2));
    assert_eq!(el.region_index_at(101), None);
}

#[test]
fn region_len_and_constructors() {
    let r = Region::reversed(10, 25, 1.0f32, 0.0);
    assert_eq!(r.len(), 15);
    assert_eq!(Region::silence(7, 1.0f32, 0.0).len(), 7);
}

#[test]
fn ripple_delete_fades_the_splice() {
    let mut el = list(1000);
    el.ripple_delete(300, 400);
    assert_eq!(el.regions()[0].fade_out, 128);
    assert_eq!(el.regions()[1].fade_in, 128);
    let after = el.resolve(300).unwrap();
    assert_eq!(after.source_frame, 400);
    assert_eq!(after.fade_in, Some(FadePoint { curve: FadeCurve::Linear, position: 0, length: 128 }));
    let before = el.resolve(299).unwrap();
    assert_eq!(before.source_frame, 299);
    assert_eq!(before.fade_out, Some(FadePoint { curve: FadeCurve::Linear, position: 0, length: 128 }));

    let mut short = list(30);
    short.ripple_delete(10, 20);
    assert_eq!(short.regions()[0].fade_out, 5);
    assert_eq!(short.regions()[1].fade_in, 5);
    assert_eq!(short.resolve(10).unwrap().fade_in, Some(FadePoint { curve: FadeCurve::Linear, position: 0, length: 5 }));
}
