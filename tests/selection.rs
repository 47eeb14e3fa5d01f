use screen_caster::capture::{find_title, primary_index, CaptureError};
use screen_caster::crop::CropRect;
use screen_caster::hotkeys::{HotkeyAction, Hotkeys};
use screen_caster::selection::{selection_to_crop, Letterbox};

fn full_hd_in_800x600() -> Letterbox {
    Letterbox { area_w: 800, area_h: 600, source_w: 1920, source_h: 1080 }
}

#[test]
fn letterbox_centres_frame() {
    let lb = full_hd_in_800x600();
    assert_eq!(lb.shown_size(), (800, 450));
    let tall = Letterbox { area_w: 800, area_h: 600, source_w: 1000, source_h: 2000 };
    assert_eq!(tall.shown_size(), (300, 600));
}

#[test]
fn display_points_map_back_to_source() {
    let lb = full_hd_in_800x600();
    assert_eq!(lb.to_source(400, 375), (960, 720));
    assert_eq!(lb.to_source(-5, 10), (0, 0));
    assert_eq!(lb.to_source(900, 700), (1920, 1080));
    let tall = Letterbox { area_w: 800, area_h: 600, source_w: 1000, source_h: 2000 };
    // frame drawn from x = 250 to x = 550
    assert_eq!(tall.to_source(250, 0), (0, 0));
    assert_eq!(tall.to_source(400, 300), (500, 1000));
}

#[test]
fn drag_gives_ordered_crop() {
    let lb = full_hd_in_800x600();
    assert_eq!(
        selection_to_crop(&lb, (100, 100), (50, 300)),
        Some(CropRect { x: 120, y: 60, width: 120, height: 480 })
    );
}

#[test]
fn drag_past_frame_is_clamped() {
    let lb = full_hd_in_800x600();
    assert_eq!(
        selection_to_crop(&lb, (-40, -40), (2000, 2000)),
        Some(CropRect { x: 0, y: 0, width: 1920, height: 1080 })
    );
}

#[test]
fn tiny_drag_gives_nothing() {
    let lb = full_hd_in_800x600();
    assert_eq!(selection_to_crop(&lb, (100, 100), (101, 101)), None);
    let empty = Letterbox { area_w: 0, area_h: 600, source_w: 1920, source_h: 1080 };
    assert_eq!(selection_to_crop(&empty, (0, 0), (500, 500)), None);
}

#[test]
fn primary_monitor_is_first_marked() {
    assert_eq!(primary_index(&vec![false, true, true]), Ok(1));
    assert_eq!(primary_index(&vec![false, false]), Err(CaptureError::CaptureUnavailable));
    assert_eq!(primary_index(&Vec::new()), Err(CaptureError::CaptureUnavailable));
}

#[test]
fn window_found_by_exact_title() {
    let titles = vec!["Editor".to_string(), "Terminal".to_string(), "Terminal".to_string()];
    assert_eq!(find_title(&titles, "Terminal"), Some(1));
    assert_eq!(find_title(&titles, "terminal"), None);
    assert_eq!(find_title(&Vec::new(), "Editor"), None);
}

#[test]
fn hotkeys_toggle_and_rebind() {
    let mut keys = Hotkeys::new(1, 2, 3);
    assert!(keys.capture_allowed());
    keys.key_pressed(1);
    assert!(keys.is_active(HotkeyAction::Pause));
    assert!(!keys.capture_allowed());
    keys.key_pressed(1);
    assert!(!keys.is_active(HotkeyAction::Pause));
    keys.rebind(HotkeyAction::Hide, 1);
    keys.key_pressed(1);
    assert!(keys.is_active(HotkeyAction::Pause));
    assert!(keys.is_active(HotkeyAction::Hide));
    assert!(!keys.is_active(HotkeyAction::Terminate));
    keys.key_pressed(3);
    assert!(keys.is_active(HotkeyAction::Terminate));
    keys.clear(HotkeyAction::Terminate);
    assert!(!keys.is_active(HotkeyAction::Terminate));
    assert_eq!(keys.terminate.key, 3);
}
