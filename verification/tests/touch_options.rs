use lbm_hook::policy::{DisplayBounds, Modifier, TouchLayout, TouchPolicy};

#[test]
fn selected_display_and_app_rules_reach_runtime_together() {
    let mut layout = TouchLayout::default();
    layout.focus_restore_delay = 320;
    layout.focus_restore_on_mouse_move = true;
    layout.touch_all_displays = false;
    // TouchDisplayBounds="-1920,0,1920,1080"
    layout.touch_display_bounds = vec![DisplayBounds { left: -1920, top: 0, right: 0, bottom: 1080 }];
    layout.touch_override_modifier = "Shift".into();
    layout.focus_keep_apps = "editor.exe".into();
    layout.focus_restore_apps = "control.exe;editor.exe".into();
    let p = TouchPolicy::from_layout(&layout);
    assert_eq!(p.delay_ms, 320);
    assert!(p.on_mouse_move);
    assert_eq!(p.modifier, Modifier::Shift);
    assert!(p.includes(-1, 100));
    assert!(!p.includes(1, 100));
    assert!(p.restores_app(Some(r"C:\Apps\CONTROL.EXE")));
    assert!(!p.restores_app(Some("editor.exe")));
}

#[test]
fn old_layout_defaults() {
    let old = TouchLayout::default();
    assert_eq!(old.focus_restore_delay, 120);
    assert!(!old.focus_restore_on_mouse_move);
    assert!(old.touch_all_displays);
    assert_eq!(old.touch_override_modifier, "None");
    assert!(!old.stylus_mouse_independent);
    for (value, expected) in [(-1, 0), (0, 0), (275, 275), (9000, 5000)] {
        let mut layout = TouchLayout::default();
        layout.focus_restore_delay = value;
        assert_eq!(TouchPolicy::from_layout(&layout).delay_ms, expected);
    }
}
