use lbm_hook::hook::{
    Effect, HookEnv, MouseEvent, Rect, SharedFlags, Verdict, ZoneLayout, LLMHF_INJECTED,
    WM_LBUTTONDOWN, WM_LBUTTONUP, WM_MOUSEMOVE,
};
use lbm_hook::policy::{HeldKeys, TouchLayout, TouchPolicy};
use lbm_hook::touch::{NativeTouchResume, TouchResume};
use lbm_hook::touch_input::{NativeContact, TouchInput};

fn no_keys() -> HeldKeys {
    HeldKeys { ctrl: false, alt: false, shift: false, left_win: false, right_win: false }
}

fn enabled() -> (TouchInput, HookEnv, TouchPolicy) {
    let mut input = TouchInput::new();
    input.reset(None);
    input.record_mouse_position((1600, 873), false, None);
    let shared = SharedFlags {
        touch_mouse_independent: true,
        want_hook: true,
        paused: false,
        suspended: false,
        hooked: true,
        restore_keyboard_focus: false,
        touch_generation: 0,
    };
    (input, HookEnv { shared, keys: no_keys(), cursor: None }, TouchPolicy::default())
}

fn event(message: u32, x: i32, y: i32, flags: u32, extra_info: usize) -> MouseEvent {
    MouseEvent { message, x, y, flags, extra_info, time: 0 }
}

/// Runs one event the way the hook does; `warp_to` is where a requested
/// return lands (`None`: the routing engine is busy).
fn run(
    input: &mut TouchInput,
    env: &HookEnv,
    policy: &TouchPolicy,
    ev: &MouseEvent,
    warp_to: Option<(i32, i32)>,
) -> Option<bool> {
    let step = input.process_with_shared(ev, env, Some(policy));
    if let Some(w) = step.warp {
        input.finish_warp(w, warp_to);
    }
    match step.verdict {
        Verdict::Route => None,
        Verdict::PassThrough => Some(false),
        Verdict::Consume => Some(true),
    }
}

#[test]
fn appbar_work_area_change_preserves_return_only_for_unchanged_monitors() {
    let (mut input, mut env, policy) = enabled();
    let mut monitors = Some(vec![Rect::new(0, 0, 1920, 1080)]);
    let mut layout = ZoneLayout { virtual_layout: false, main_zones: vec![Rect::new(0, 0, 1920, 1080)] };
    let check = |input: &mut TouchInput, env: &HookEnv, monitors: &Option<Vec<Rect>>, layout: Option<&ZoneLayout>| {
        input.preserve_work_area_return(env, monitors.as_ref(), layout).1
    };
    assert!(!check(&mut input, &env, &monitors, Some(&layout)));
    input.observe_native(&env, Some(&policy));
    assert!(check(&mut input, &env, &monitors, Some(&layout)));
    assert_eq!(input.native_state().target(true), Some((1600, 873)));

    // A promoted swipe is protected too, including a drag still in contact.
    input.set_native_state(NativeTouchResume::new());
    let mut touch = TouchResume::new();
    touch.touch(Some((1600, 873)), true, false);
    input.set_touch_state(touch);
    assert!(check(&mut input, &env, &monitors, Some(&layout)));
    monitors = Some(vec![Rect::new(1, 0, 1920, 1080)]);
    assert!(!check(&mut input, &env, &monitors, Some(&layout)));
    monitors = Some(vec![Rect::new(0, 0, 1920, 1200)]);
    assert!(!check(&mut input, &env, &monitors, Some(&layout)));
    monitors = Some(Vec::new());
    assert!(!check(&mut input, &env, &monitors, Some(&layout)));
    monitors = None;
    assert!(!check(&mut input, &env, &monitors, Some(&layout)));
    monitors = Some(vec![Rect::new(0, 0, 1920, 1080)]);
    env.shared.paused = true;
    assert!(!check(&mut input, &env, &monitors, Some(&layout)));
    env.shared.paused = false;
    env.shared.hooked = false;
    assert!(!check(&mut input, &env, &monitors, Some(&layout)));
    env.shared.hooked = true;
    layout.virtual_layout = true;
    assert!(!check(&mut input, &env, &monitors, Some(&layout)));
    layout.virtual_layout = false;
    // the engine is busy: its layout cannot be read
    assert!(!check(&mut input, &env, &monitors, None));
    assert!(check(&mut input, &env, &monitors, Some(&layout)));
    env.shared.touch_mouse_independent = false;
    assert!(!check(&mut input, &env, &monitors, Some(&layout)));
    env.shared.touch_mouse_independent = true;
    env.shared.touch_generation += 1;
    assert!(!check(&mut input, &env, &monitors, Some(&layout)));
}

#[test]
fn native_report_injection_and_physical_click_follow_distinct_paths() {
    let (mut input, env, policy) = enabled();
    input.observe_native(&env, Some(&policy));
    let injected = event(WM_MOUSEMOVE, 0, 0, LLMHF_INJECTED, 0);
    assert_eq!(run(&mut input, &env, &policy, &injected, None), Some(false));
    assert_eq!(input.native_state().target(true), Some((1600, 873)));
    assert_eq!(run(&mut input, &env, &policy, &event(WM_LBUTTONDOWN, 0, 0, 0, 0), None), None);
    assert!(!input.native_state().pending());
}

#[test]
fn native_return_retries_without_losing_anchor_when_engine_is_busy() {
    let (mut input, env, policy) = enabled();
    input.observe_native(&env, Some(&policy));
    let movement = event(WM_MOUSEMOVE, 2662, 2547, 0, 0);
    for _ in 0..3 {
        assert_eq!(run(&mut input, &env, &policy, &movement, None), Some(true));
        assert_eq!(input.native_state().target(true), Some((1600, 873)));
    }
}

#[test]
fn reload_pause_and_pen_discard_native_restoration() {
    for reason in 0..3 {
        let (mut input, mut env, policy) = enabled();
        input.observe_native(&env, Some(&policy));
        let mut message = event(WM_MOUSEMOVE, 0, 0, 0, 0);
        match reason {
            0 => {
                env.shared.touch_generation += 1;
            }
            1 => env.shared.paused = true,
            _ => message.extra_info = 0xff51_5700,
        }
        run(&mut input, &env, &policy, &message, None);
        assert!(!input.native_state().pending());
    }
}

#[test]
fn promoted_drag_owns_contact_tracking_when_raw_reports_also_arrive() {
    let (mut input, env, policy) = enabled();
    input.observe_native(&env, Some(&policy));
    let touch = event(WM_LBUTTONDOWN, 0, 0, 0, 0xff51_5780);
    assert_eq!(run(&mut input, &env, &policy, &touch, None), Some(false));
    input.observe_native(&env, Some(&policy));
    assert!(!input.native_state().pending());
    assert_eq!(
        run(&mut input, &env, &policy, &event(WM_MOUSEMOVE, 0, 0, 0, 0), None),
        Some(false)
    );
    assert!(input.touch_state().in_contact());
    let up = event(WM_LBUTTONUP, 0, 0, 0, 0xff51_5780);
    run(&mut input, &env, &policy, &up, None);
    assert_eq!(input.touch_state().resume(), Some((1600, 873)));
}

#[test]
fn stylus_is_opt_in_and_preserves_the_mouse_anchor_through_hover_and_contact() {
    for include_stylus in [false, true] {
        let (mut input, mut env, _) = enabled();
        let mut layout = TouchLayout::default();
        layout.stylus_mouse_independent = include_stylus;
        let policy = TouchPolicy::from_layout(&layout);
        for message in [WM_MOUSEMOVE, WM_LBUTTONDOWN, WM_LBUTTONUP, WM_MOUSEMOVE] {
            let pen = event(message, 2600, 2500, 0, 0xff51_5700);
            assert_eq!(run(&mut input, &env, &policy, &pen, None), Some(false));
        }
        assert_eq!(input.touch_state().resume(), include_stylus.then_some((1600, 873)));
        env.shared.touch_mouse_independent = false;
        let pen = event(WM_MOUSEMOVE, 2600, 2500, 0, 0xff51_5700);
        run(&mut input, &env, &policy, &pen, None);
        assert!(!input.touch_state().pending());
    }
}

#[test]
fn first_physical_move_returns_and_then_routes_normally() {
    let (mut input, env, policy) = enabled();
    let tap_down = event(WM_LBUTTONDOWN, 3000, 10, 0, 0xff51_5780);
    let tap_up = event(WM_LBUTTONUP, 3000, 10, 0, 0xff51_5780);
    run(&mut input, &env, &policy, &tap_down, None);
    run(&mut input, &env, &policy, &tap_up, None);
    let step = input.process_with_shared(&event(WM_MOUSEMOVE, 3005, 12, 0, 0), &env, Some(&policy));
    assert_eq!(step.verdict, Verdict::Consume);
    let warp = step.warp.expect("a return");
    assert_eq!(warp.target(), (1600, 873));
    assert!(input.touch_state().pending());
    let effects = input.finish_warp(warp, Some((1601, 873)));
    assert_eq!(effects, vec![Effect::ResetMovement, Effect::CountEvent]);
    assert!(!input.touch_state().pending());
    assert_eq!(input.mouse_position(), Some((1601, 873)));
    assert_eq!(run(&mut input, &env, &policy, &event(WM_MOUSEMOVE, 1602, 873, 0, 0), None), None);
}

#[test]
fn repeated_taps_keep_the_original_position() {
    let (mut input, env, policy) = enabled();
    for x in [3000, 3100, 3200] {
        run(&mut input, &env, &policy, &event(WM_LBUTTONDOWN, x, 10, 0, 0xff51_5780), None);
        run(&mut input, &env, &policy, &event(WM_LBUTTONUP, x, 10, 0, 0xff51_5780), None);
    }
    assert_eq!(input.touch_state().resume(), Some((1600, 873)));
}

#[test]
fn injected_move_keeps_pending_return() {
    let (mut input, env, policy) = enabled();
    run(&mut input, &env, &policy, &event(WM_LBUTTONDOWN, 3000, 10, 0, 0xff51_5780), None);
    run(&mut input, &env, &policy, &event(WM_LBUTTONUP, 3000, 10, 0, 0xff51_5780), None);
    let step = input.process_with_shared(&event(WM_MOUSEMOVE, 5, 5, LLMHF_INJECTED, 0), &env, Some(&policy));
    assert_eq!(step.verdict, Verdict::PassThrough);
    assert!(step.effects.is_empty());
    assert!(input.touch_state().pending());
}

#[test]
fn physical_click_cancels_return_and_takes_position() {
    let (mut input, env, policy) = enabled();
    run(&mut input, &env, &policy, &event(WM_LBUTTONDOWN, 3000, 10, 0, 0xff51_5780), None);
    run(&mut input, &env, &policy, &event(WM_LBUTTONUP, 3000, 10, 0, 0xff51_5780), None);
    let step = input.process_with_shared(&event(WM_LBUTTONDOWN, 40, 50, 0, 0), &env, Some(&policy));
    assert_eq!(step.verdict, Verdict::Route);
    assert_eq!(step.effects, vec![Effect::CancelNativeFocus]);
    assert!(!input.touch_state().pending());
    assert_eq!(input.mouse_position(), Some((40, 50)));
}

#[test]
fn override_key_bypasses_touch_and_records_its_position() {
    let (mut input, mut env, _) = enabled();
    let mut layout = TouchLayout::default();
    layout.touch_override_modifier = "ctrl".into();
    let policy = TouchPolicy::from_layout(&layout);
    env.keys.ctrl = true;
    let step = input.process_with_shared(&event(WM_LBUTTONDOWN, 3000, 10, 0, 0xff51_5780), &env, Some(&policy));
    assert_eq!(step.verdict, Verdict::PassThrough);
    assert_eq!(step.effects, vec![Effect::CancelNativeFocus, Effect::ResetFocus, Effect::CountEvent]);
    assert!(!input.touch_state().pending());
    assert_eq!(input.mouse_position(), Some((3000, 10)));
    // released mid-gesture: still bypassed
    env.keys.ctrl = false;
    run(&mut input, &env, &policy, &event(WM_LBUTTONUP, 3000, 10, 0, 0xff51_5780), None);
    assert!(!input.touch_state().pending());
}

#[test]
fn accepted_touch_informs_focus_restoration() {
    let (mut input, env, policy) = enabled();
    let ev = MouseEvent { message: WM_LBUTTONUP, x: 7, y: 8, flags: 0, extra_info: 0xff51_5780, time: 42 };
    let step = input.process_with_shared(&ev, &env, Some(&policy));
    assert_eq!(
        step.effects,
        vec![
            Effect::CancelNativeFocus,
            Effect::FocusOnTouch { message: WM_LBUTTONUP, x: 7, y: 8, time: 42 },
            Effect::CountEvent,
        ]
    );
}

#[test]
fn physical_input_reaches_focus_restoration_when_enabled() {
    let (mut input, mut env, policy) = enabled();
    env.shared.restore_keyboard_focus = true;
    let step = input.process_with_shared(&event(WM_MOUSEMOVE, 1, 1, 0, 0), &env, Some(&policy));
    assert_eq!(
        step.effects,
        vec![Effect::CancelNativeFocus, Effect::FocusOnPhysicalInput { is_move: true, contact: false }]
    );
    assert_eq!(step.verdict, Verdict::Route);
}

#[test]
fn reload_resets_state_and_reports_it() {
    let (mut input, mut env, policy) = enabled();
    input.observe_native(&env, Some(&policy));
    env.shared.touch_generation = 7;
    env.cursor = Some((11, 12));
    assert!(input.is_stale(7));
    let effects = input.sync_generation(7, env.cursor);
    assert_eq!(effects, vec![Effect::ResetMovement, Effect::ResetFocus]);
    assert!(!input.native_state().pending());
    assert_eq!(input.mouse_position(), Some((11, 12)));
    assert_eq!(input.generation(), 7);
    assert!(input.sync_generation(7, None).is_empty());
}

#[test]
fn override_key_cancels_native_burst() {
    let (mut input, mut env, _) = enabled();
    let mut layout = TouchLayout::default();
    layout.touch_override_modifier = "Alt".into();
    let policy = TouchPolicy::from_layout(&layout);
    env.keys.alt = true;
    input.observe_native(&env, Some(&policy));
    assert!(!input.native_state().pending());
    env.keys.alt = false;
    input.observe_native(&env, Some(&policy));
    assert!(!input.native_state().pending());
}

#[test]
fn native_contact_and_focus_finish() {
    let (mut input, mut env, policy) = enabled();
    assert_eq!(input.on_native_contact(false), NativeContact::Ignore);
    assert_eq!(input.on_native_contact(true), NativeContact::Cancel);
    input.on_native_touch(Some(&env), Some(&policy));
    assert_eq!(input.on_native_contact(true), NativeContact::Forward);
    env.cursor = Some((300, 400));
    assert_eq!(
        input.finish_native_focus(Some(&env), Some(&policy)),
        vec![Effect::FinishNativeFocus { x: 300, y: 400 }]
    );
    assert_eq!(input.finish_native_focus(Some(&env), None), vec![Effect::CancelNativeFocus]);
    env.cursor = None;
    assert_eq!(input.finish_native_focus(Some(&env), Some(&policy)), vec![Effect::CancelNativeFocus]);
    assert!(input.finish_native_focus(None, Some(&policy)).is_empty());
}

#[test]
fn no_shared_state_leaves_events_to_routing() {
    let (mut input, _, policy) = enabled();
    let step = input.process(&event(WM_MOUSEMOVE, 1, 1, 0, 0xff51_5780), None, Some(&policy));
    assert_eq!(step.verdict, Verdict::Route);
    assert!(step.effects.is_empty());
    assert!(!input.preserve_on_work_area_change(None, None, None).1);
}

#[test]
fn recorded_position_follows_warps() {
    let (mut input, _, _) = enabled();
    input.record_mouse_position((5, 6), true, Some((7, 8)));
    assert_eq!(input.mouse_position(), Some((7, 8)));
    input.record_mouse_position((5, 6), false, Some((7, 8)));
    assert_eq!(input.mouse_position(), Some((5, 6)));
    input.clear_pending();
    assert!(!input.touch_state().pending());
}

#[test]
fn pen_hover_does_not_touch_focus() {
    let (mut input, env, _) = enabled();
    let mut layout = TouchLayout::default();
    layout.stylus_mouse_independent = true;
    let policy = TouchPolicy::from_layout(&layout);
    let hover = event(WM_MOUSEMOVE, 2600, 2500, 0, 0xff51_5700);
    let step = input.process_with_shared(&hover, &env, Some(&policy));
    assert_eq!(step.effects, vec![Effect::CancelNativeFocus, Effect::CountEvent]);
    assert_eq!(input.touch_state().resume(), Some((1600, 873)));
}

#[test]
fn native_return_skips_unselected_display() {
    let (mut input, mut env, _) = enabled();
    let mut layout = TouchLayout::default();
    layout.touch_all_displays = false;
    layout.touch_display_bounds =
        vec![lbm_hook::policy::DisplayBounds { left: -1920, top: 0, right: 0, bottom: 1080 }];
    let policy = TouchPolicy::from_layout(&layout);
    input.observe_native(&env, Some(&policy));
    assert!(input.native_state().pending());
    env.cursor = Some((100, 100));
    let step = input.process_with_shared(&event(WM_MOUSEMOVE, 101, 100, 0, 0), &env, Some(&policy));
    assert_eq!(step.verdict, Verdict::Route);
    assert!(step.warp.is_none());
    assert!(!input.native_state().pending());
}

#[test]
fn work_area_check_compares_monitors_as_a_multiset() {
    let (mut input, env, policy) = enabled();
    input.observe_native(&env, Some(&policy));
    let a = Rect::new(0, 0, 1920, 1080);
    let b = Rect::new(1920, 0, 1280, 1024);
    let mirrored = ZoneLayout { virtual_layout: false, main_zones: vec![a, a] };
    let pair = vec![a, b];
    assert!(!input.preserve_work_area_return(&env, Some(&pair), Some(&mirrored)).1);
    let both = vec![a, a];
    assert!(input.preserve_work_area_return(&env, Some(&both), Some(&mirrored)).1);
    let two = ZoneLayout { virtual_layout: false, main_zones: vec![b, a] };
    assert!(input.preserve_work_area_return(&env, Some(&pair), Some(&two)).1);
    let three = vec![a, b, a];
    assert!(!input.preserve_work_area_return(&env, Some(&three), Some(&two)).1);
}

#[test]
fn native_records_are_well_formed() {
    let mut native = NativeTouchResume::new();
    native.observe(Some((1, 2)), true);
    native.promoted();
    native.well_formed();
    native.observe(Some((3, 4)), true);
    assert!(!native.pending());
    assert_eq!(native.target(true), None);
}

#[test]
fn drag_released_on_unselected_display_still_returns() {
    let (mut input, env, _) = enabled();
    let mut layout = TouchLayout::default();
    layout.touch_all_displays = false;
    layout.touch_display_bounds =
        vec![lbm_hook::policy::DisplayBounds { left: 3000, top: 0, right: 4000, bottom: 1000 }];
    let policy = TouchPolicy::from_layout(&layout);
    run(&mut input, &env, &policy, &event(WM_LBUTTONDOWN, 3500, 10, 0, 0xff51_5780), None);
    run(&mut input, &env, &policy, &event(WM_MOUSEMOVE, 100, 10, 0, 0xff51_5780), None);
    run(&mut input, &env, &policy, &event(WM_LBUTTONUP, 100, 10, 0, 0xff51_5780), None);
    let step = input.process_with_shared(&event(WM_MOUSEMOVE, 101, 10, 0, 0), &env, Some(&policy));
    assert_eq!(step.verdict, Verdict::Consume);
    let warp = step.warp.expect("a return");
    assert_eq!(warp.target(), (1600, 873));
    input.finish_warp(warp, Some((1600, 873)));
    assert_eq!(run(&mut input, &env, &policy, &event(WM_MOUSEMOVE, 1601, 873, 0, 0), None), None);
}
