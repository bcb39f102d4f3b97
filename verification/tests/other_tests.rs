use barber::color::{format_hex_color, parse_hex_color, HexColorError};
use barber::crossing::{crossing_probes, first_crossing, zero_crossing_candidates};
use barber::edit::EditList;
use barber::editor::{
    clamp_in_out, drag_anchor, duplicate_selection, has_in_out, loop_range, nudge_left, nudge_right,
    nudge_step, ordered_selection, play_start, select_all, shift_after_ripple, stop_boundary,
    stop_position, quit_response, QuitResponse,
};
use barber::history::EditHistory;
use barber::keybinds::{menu_action, parse_key, InputSnapshot, KeyCombo, KeyName, Keybinds};
use barber::levels::{AudioLevels, UNITY_BITS};
use barber::peaks::{pixel_block_ranges, select_level};
use barber::toolbar::{action_label, ToolbarAction};
use barber::transport::{FrameStep, Transport};

fn list(n: usize) -> EditList<f32> {
    EditList::from_length(n, 1.0, 0.0)
}

#[test]
fn history_undo_after_push_returns_snapshot() {
    let mut h: EditHistory<f32> = EditHistory::new();
    assert!(!h.can_undo());
    h.push("Cut".to_string(), list(10));
    assert!(h.can_undo());
    assert_eq!(h.undo_label(), Some("Cut"));
    assert_eq!(h.peek_undo().unwrap().total_frames(), 10);
    let back = h.undo(list(7)).unwrap();
    assert_eq!(back.total_frames(), 10);
    assert!(!h.can_undo());
    assert!(h.can_redo());
    assert_eq!(h.redo_label(), Some("Cut"));
}

#[test]
fn history_undo_then_redo_round_trip() {
    let mut h: EditHistory<f32> = EditHistory::new();
    h.push("Crop".to_string(), list(10));
    let prev = h.undo(list(5)).unwrap();
    let again = h.redo(prev).unwrap();
    assert_eq!(again.total_frames(), 5);
    assert!(h.can_undo());
    assert!(!h.can_redo());
    assert_eq!(h.peek_undo().unwrap().total_frames(), 10);
}

#[test]
fn history_push_clears_redo_and_empty_undo_is_none() {
    let mut h: EditHistory<f32> = EditHistory::new();
    assert!(h.undo(list(3)).is_none());
    assert!(h.redo(list(3)).is_none());
    h.push("A".to_string(), list(1));
    let _ = h.undo(list(2));
    assert!(h.can_redo());
    h.push("B".to_string(), list(4));
    assert!(!h.can_redo());
    h.clear();
    assert!(!h.can_undo());
    assert_eq!(h.undo_label(), None);
}

#[test]
fn keybinds_default_shortcuts() {
    let kb = Keybinds::default();
    assert_eq!(kb.bindings.len(), 39);
    assert_eq!(kb.format_shortcut("Redo"), "\u{2318}\u{21e7}Z");
    assert_eq!(kb.format_shortcut("Play"), "Space");
    assert_eq!(kb.format_shortcut("Nothing"), "");
}

#[test]
fn parse_key_names() {
    assert_eq!(parse_key("A"), Some(KeyName::A));
    assert_eq!(parse_key("Backspace"), Some(KeyName::Backspace));
    assert_eq!(parse_key("F13"), None);
    assert_eq!(parse_key("Return"), Some(KeyName::Enter));
    assert_eq!(parse_key("Up"), Some(KeyName::ArrowUp));
    assert_eq!(parse_key("="), Some(KeyName::Equals));
    assert_eq!(parse_key("-"), Some(KeyName::Minus));
    assert_eq!(parse_key("0"), Some(KeyName::Num0));
}

fn input(keys: Vec<KeyName>, command: bool, shift: bool) -> InputSnapshot {
    InputSnapshot { copy: false, cut: false, paste: false, pressed: keys, command, shift, alt: false }
}

#[test]
fn check_input_maps_bindings() {
    let kb = Keybinds::default();
    let space = input(vec![KeyName::Space], false, false);
    assert_eq!(kb.check_input(&space, false, false, true, false, false, false), Some(ToolbarAction::Play));
    assert_eq!(kb.check_input(&space, true, false, true, false, false, false), Some(ToolbarAction::Pause));
    let undo = input(vec![KeyName::Z], true, false);
    assert_eq!(kb.check_input(&undo, false, false, true, false, false, false), None);
    assert_eq!(kb.check_input(&undo, false, false, true, true, false, false), Some(ToolbarAction::Undo));
    let shift_back = input(vec![KeyName::Backspace], false, true);
    assert_eq!(kb.check_input(&shift_back, false, true, true, false, false, false), Some(ToolbarAction::RippleDelete));
    let mut cut = input(vec![], false, false);
    cut.cut = true;
    assert_eq!(kb.check_input(&cut, false, true, true, false, false, false), Some(ToolbarAction::Cut));
    assert_eq!(kb.check_input(&cut, false, false, true, false, false, false), None);
}

#[test]
fn menu_actions_and_labels() {
    assert_eq!(menu_action("ZoomToFit"), Some(ToolbarAction::ZoomToFit));
    assert_eq!(menu_action("Bogus"), None);
    assert_eq!(action_label(&ToolbarAction::RemoveDC), Some("Remove DC"));
    assert_eq!(action_label(&ToolbarAction::Export), Some("Exported"));
    assert_eq!(action_label(&ToolbarAction::Play), None);
    assert!(ToolbarAction::Reverse.falls_back_to_full_file());
    assert!(!ToolbarAction::Cut.falls_back_to_full_file());
}

#[test]
fn transport_plays_to_end_and_restarts() {
    let mut t = Transport::new();
    t.seek(8);
    t.play(10);
    assert!(t.playing);
    assert_eq!(t.step(10), FrameStep::Play(8));
    t.advance(2);
    assert_eq!(t.step(10), FrameStep::Ended);
    assert!(!t.playing);
    t.play(10);
    assert_eq!(t.position, 0);
}

#[test]
fn transport_loops_and_stops() {
    let mut t = Transport::new();
    t.set_loop(true, 2, Some(5));
    t.seek(5);
    assert_eq!(t.step(10), FrameStep::Looped);
    assert_eq!(t.position, 2);
    t.set_stop_at(Some(3));
    t.seek(3);
    assert_eq!(t.step(10), FrameStep::Ended);
    t.seek(9);
    t.set_total_frames(5);
    assert_eq!(t.position, 0);
    t.seek(4);
    t.stop();
    assert_eq!(t.position, 0);
    t.play(10);
    t.pause();
    assert!(!t.playing);
}

#[test]
fn play_selection_stops_at_selection_end() {
    let mut t = Transport::new();
    t.set_stop_at(Some(6));
    t.seek(4);
    t.play(10);
    assert_eq!(t.stop_at, Some(6));
    assert_eq!(t.step(10), FrameStep::Play(4));
    t.advance(2);
    assert_eq!(t.step(10), FrameStep::Ended);
    assert!(!t.playing);
    assert_eq!(t.position, 6);
}

#[test]
fn editor_positions() {
    assert!(has_in_out(0, 50, 100));
    assert!(!has_in_out(0, 100, 100));
    assert_eq!(play_start(Some((20, 30)), 5, 100), 20);
    assert_eq!(play_start(None, 100, 100), 0);
    assert_eq!(play_start(None, 0, 0), 0);
    assert_eq!(loop_range(None, 10, 90, 100), (10, Some(90)));
    assert_eq!(loop_range(None, 0, 100, 100), (0, None));
    assert_eq!(stop_boundary(Some((1, 9)), 0, 100, 100), Some(9));
    assert_eq!(stop_boundary(None, 0, 100, 100), None);
    assert_eq!(stop_position(10, 90, 100), 10);
    assert_eq!(shift_after_ripple(50, 20, 30), 40);
    assert_eq!(shift_after_ripple(25, 20, 30), 20);
    assert_eq!(shift_after_ripple(10, 20, 30), 10);
    assert_eq!(clamp_in_out(120, 50, 100), (100, 100));
    assert_eq!(nudge_step(44100), 441);
    assert_eq!(nudge_step(50), 1);
    assert_eq!(nudge_left(3, 5), 0);
    assert_eq!(nudge_right(98, 5, 100), 100);
    assert_eq!(duplicate_selection(10, 25), (25, 40));
    assert_eq!(drag_anchor(Some((10, 20)), 0, 12), 20);
    assert_eq!(drag_anchor(Some((10, 20)), 0, 18), 10);
    assert_eq!(drag_anchor(None, 7, 18), 7);
    assert_eq!(ordered_selection(30, 10), Some((10, 30)));
    assert_eq!(ordered_selection(5, 5), None);
    assert_eq!(select_all(0), None);
    assert_eq!(select_all(9), Some((0, 9)));
}

#[test]
fn peak_levels_and_blocks() {
    assert_eq!(select_level(14, 100), 0);
    assert_eq!(select_level(14, 257), 1);
    assert_eq!(select_level(14, 1024), 2);
    assert_eq!(select_level(3, 1_000_000), 2);
    let r = pixel_block_ranges(0, 1000, 4, 256, 3);
    assert_eq!(r, vec![(0, 1), (0, 2), (1, 3), (2, 3)]);
}

#[test]
fn zero_crossing_candidates_nearest_first() {
    assert_eq!(zero_crossing_candidates(5, 3, 7), vec![5, 5, 4, 6, 3, 6]);
    assert_eq!(zero_crossing_candidates(0, 2, 0), vec![0, 0, 0, 0]);
}

#[test]
fn levels_share_cells() {
    let a = AudioLevels::new();
    let b = a.clone();
    assert_eq!(a.interpolation(), 0);
    b.set_interpolation(2);
    assert_eq!(a.interpolation(), 2);
    assert_eq!(a.volume_bits(), UNITY_BITS);
    assert_eq!(f32::from_bits(a.speed_bits()), 1.0);
    a.set_peak_bits(1, 2);
    assert_eq!(b.peak_bits(), (1, 2));
}

#[test]
fn hex_colors_parse_and_format() {
    assert_eq!(parse_hex_color("#7FBBB3"), Ok((0x7F, 0xBB, 0xB3, 255)));
    assert_eq!(parse_hex_color("#7fbbb330"), Ok((0x7F, 0xBB, 0xB3, 0x30)));
    assert_eq!(parse_hex_color("##000000"), Ok((0, 0, 0, 255)));
    assert_eq!(parse_hex_color("#12345"), Err(HexColorError::Length));
    assert_eq!(parse_hex_color("#GG0000"), Err(HexColorError::Digit));
    assert_eq!(parse_hex_color("#+F0000"), Ok((15, 0, 0, 255)));
    assert_eq!(format_hex_color(0x27, 0x2E, 0x33, 255), "#272E33");
    assert_eq!(format_hex_color(0x7F, 0xBB, 0xB3, 0x30), "#7FBBB330");
    let (r, g, b, a) = parse_hex_color(&format_hex_color(1, 2, 250, 9)).unwrap();
    assert_eq!((r, g, b, a), (1, 2, 250, 9));
}

#[test]
fn crossing_probes_pair_source_frames() {
    let mut el = EditList::from_length(10, 1.0f32, 0.0f32);
    el.gap_delete(3, 5);
    let probes = crossing_probes(&el, 4, 2);
    assert_eq!(
        probes,
        vec![(4, None), (4, None), (3, None), (5, None)]
    );
    let probes = crossing_probes(&el, 7, 2);
    assert_eq!(
        probes,
        vec![(7, Some((6, 7))), (7, Some((6, 7))), (6, Some((5, 6))), (8, Some((7, 8)))]
    );
    let probes = crossing_probes(&el, 0, 1);
    assert_eq!(probes, vec![(0, Some((0, 0))), (0, Some((0, 0)))]);
}

#[test]
fn first_crossing_takes_first_marked_try() {
    let probes = vec![(7, None), (7, None), (6, Some((5, 6))), (8, Some((7, 8)))];
    assert_eq!(first_crossing(&probes, &vec![false, false, true, true], 7), 6);
    assert_eq!(first_crossing(&probes, &vec![false, false, false, true], 7), 8);
    assert_eq!(first_crossing(&probes, &vec![false, false, false, false], 42), 42);
}

#[test]
fn keybinds_documented_defaults() {
    let kb = Keybinds::default();
    let expected = [
        ("SelectAll", "\u{2318}A"),
        ("Crop", "\u{2318}K"),
        ("ZoomIn", "\u{2318}="),
        ("ZoomOut", "\u{2318}-"),
        ("ZoomToFit", "Return"),
        ("VerticalZoomIn", "\u{2318}\u{21e7}="),
        ("VerticalZoomOut", "\u{2318}\u{21e7}-"),
        ("VerticalZoomReset", "\u{2318}0"),
        ("VolumeUp", "\u{2318}Up"),
        ("VolumeDown", "\u{2318}Down"),
        ("SetInPoint", "\u{21e7}I"),
        ("SetOutPoint", "\u{21e7}O"),
        ("GoToInPoint", "I"),
        ("GoToOutPoint", "O"),
        ("GoToStart", "Up"),
        ("GoToEnd", "Down"),
        ("NudgeLeft", "Left"),
        ("NudgeRight", "Right"),
        ("FadeInLinear", "\u{2318}F"),
        ("FadeOutLinear", "\u{2318}\u{21e7}F"),
        ("RemoveDC", "\u{2318}\u{21e7}D"),
        ("ChangeSpeed", "\u{2318}\u{21e7}R"),
        ("Normalize", "\u{2318}\u{21e7}N"),
    ];
    for (name, text) in expected {
        assert_eq!(kb.format_shortcut(name), text, "shortcut of {}", name);
    }
    for i in 0..kb.bindings.len() {
        for j in (i + 1)..kb.bindings.len() {
            assert_ne!(kb.bindings[i].0, kb.bindings[j].0);
        }
    }
}

#[test]
fn reverse_key_works_without_selection() {
    let kb = Keybinds::default();
    let cmd_r = input(vec![KeyName::R], true, false);
    assert_eq!(kb.check_input(&cmd_r, false, false, true, false, false, false), Some(ToolbarAction::Reverse));
    assert_eq!(kb.check_input(&cmd_r, false, false, false, false, false, false), None);
    let up = input(vec![KeyName::ArrowUp], false, false);
    assert_eq!(kb.check_input(&up, false, false, true, false, false, false), Some(ToolbarAction::GoToStart));
    let cmd_up = input(vec![KeyName::ArrowUp], true, false);
    assert_eq!(kb.check_input(&cmd_up, false, false, false, false, false, false), Some(ToolbarAction::VolumeUp));
    let cmd_k = input(vec![KeyName::K], true, false);
    assert_eq!(kb.check_input(&cmd_k, false, false, true, false, false, false), None);
    assert_eq!(kb.check_input(&cmd_k, false, true, true, false, false, false), Some(ToolbarAction::Crop));
}

#[test]
fn missing_defaults_are_added_after_user_bindings() {
    let mut kb = Keybinds {
        bindings: vec![
            ("Play".to_string(), KeyCombo { command: false, shift: false, alt: false, key: "P".to_string() }),
            ("Custom".to_string(), KeyCombo { command: true, shift: false, alt: false, key: "J".to_string() }),
        ],
    };
    kb.add_missing_defaults();
    assert_eq!(kb.bindings.len(), 2 + 38);
    assert_eq!(kb.format_shortcut("Play"), "P");
    assert_eq!(kb.format_shortcut("Custom"), "\u{2318}J");
    assert_eq!(kb.bindings[2].0, "PlaySelection");
    assert_eq!(kb.format_shortcut("SelectAll"), "\u{2318}A");
    let before = kb.bindings.len();
    kb.add_missing_defaults();
    assert_eq!(kb.bindings.len(), before);
}

#[test]
fn quit_asks_only_when_unsaved() {
    assert_eq!(quit_response(true, false, true), QuitResponse::Confirm);
    assert_eq!(quit_response(true, false, false), QuitResponse::Close);
    assert_eq!(quit_response(true, true, true), QuitResponse::Ignore);
    assert_eq!(quit_response(false, false, true), QuitResponse::Ignore);
}
