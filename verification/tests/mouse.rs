use lbm_hook::hook::{
    Effect, HookEnv, MouseEvent, SharedFlags, LLMHF_INJECTED, WM_LBUTTONDOWN, WM_LBUTTONUP,
    WM_MOUSEMOVE,
};
use lbm_hook::mouse::{is_mouse_move_message, MouseHook, MouseNext};
use lbm_hook::policy::{HeldKeys, TouchLayout, TouchPolicy};
use lbm_hook::touch::{is_pen, is_touch};

// Win32 message numbers of the other mouse buttons and wheels.
const WM_RBUTTONDOWN: u32 = 0x0204;
const WM_RBUTTONUP: u32 = 0x0205;
const WM_MBUTTONDOWN: u32 = 0x0207;
const WM_MBUTTONUP: u32 = 0x0208;
const WM_MOUSEWHEEL: u32 = 0x020A;
const WM_XBUTTONDOWN: u32 = 0x020B;
const WM_XBUTTONUP: u32 = 0x020C;
const WM_MOUSEHWHEEL: u32 = 0x020E;

fn env() -> HookEnv {
    HookEnv {
        shared: SharedFlags {
            touch_mouse_independent: true,
            want_hook: true,
            paused: false,
            suspended: false,
            hooked: true,
            restore_keyboard_focus: false,
            touch_generation: 0,
        },
        keys: HeldKeys { ctrl: false, alt: false, shift: false, left_win: false, right_win: false },
        cursor: Some((1600, 873)),
    }
}

fn event(message: u32, x: i32, y: i32, flags: u32, extra_info: usize) -> MouseEvent {
    MouseEvent { message, x, y, flags, extra_info, time: 9 }
}

#[test]
fn only_mouse_move_can_enter_the_routing_engine() {
    let pointer = true;
    assert!(is_mouse_move_message(0, WM_MOUSEMOVE, pointer));

    for message in [
        WM_LBUTTONDOWN,
        WM_LBUTTONUP,
        WM_RBUTTONDOWN,
        WM_RBUTTONUP,
        WM_MBUTTONDOWN,
        WM_MBUTTONUP,
        WM_MOUSEWHEEL,
        WM_MOUSEHWHEEL,
        WM_XBUTTONDOWN,
        WM_XBUTTONUP,
    ] {
        assert!(!is_mouse_move_message(0, message, pointer));
    }
    assert!(!is_mouse_move_message(-1, WM_MOUSEMOVE, pointer));
    assert!(!is_mouse_move_message(0, WM_MOUSEMOVE, false));
}

#[test]
fn library_constants_are_the_win32_values() {
    assert_eq!(WM_MOUSEMOVE, 0x0200);
    assert_eq!(WM_LBUTTONDOWN, 0x0201);
    assert_eq!(WM_LBUTTONUP, 0x0202);
    assert_eq!(LLMHF_INJECTED, 1);
}

#[test]
fn touch_and_pen_signatures() {
    assert!(is_touch(0xff51_5780));
    assert!(is_pen(0xff51_5780));
    assert!(!is_touch(0xff51_5700));
    assert!(is_pen(0xff51_5700));
    assert!(is_pen(0xff51_57ff));
    assert!(!is_pen(0xff51_5600));
    assert!(!is_touch(0));
    assert!(!is_pen(0));
}

#[test]
fn moves_are_deduplicated_before_routing() {
    let mut hook = MouseHook::new();
    let policy = TouchPolicy::default();
    let mv = event(WM_MOUSEMOVE, 10, 20, 0, 0);
    let step = hook.process(0, &mv, true, Some(&env()), Some(&policy));
    assert_eq!(step.next, MouseNext::Route(10, 20));
    assert_eq!(step.effects, vec![Effect::CountEvent]);
    assert!(hook.after_route(true, (10, 20), Some((11, 21))));
    assert_eq!(hook.mouse_position(), Some((11, 21)));
    let again = hook.process(0, &mv, true, Some(&env()), Some(&policy));
    assert_eq!(again.next, MouseNext::Done(false));
    assert!(again.effects.is_empty());
    assert!(!hook.after_route(false, (10, 20), None));
    assert_eq!(hook.mouse_position(), Some((10, 20)));
}

#[test]
fn invalid_events_and_clicks_never_route() {
    let mut hook = MouseHook::new();
    let step = hook.process(-1, &event(WM_MOUSEMOVE, 1, 1, 0, 0), true, Some(&env()), None);
    assert_eq!(step.next, MouseNext::Done(false));
    let step = hook.process(0, &event(WM_LBUTTONDOWN, 1, 1, 0, 0), true, Some(&env()), None);
    assert_eq!(step.next, MouseNext::Done(false));
    assert_eq!(hook.mouse_position(), Some((1, 1)));
}

#[test]
fn touch_then_first_move_sets_cursor_back() {
    let mut hook = MouseHook::new();
    let policy = TouchPolicy::default();
    hook.process(0, &event(WM_MOUSEMOVE, 1600, 873, 0, 0), true, Some(&env()), Some(&policy));
    hook.after_route(false, (1600, 873), None);
    for message in [WM_LBUTTONDOWN, WM_LBUTTONUP] {
        let step = hook.process(0, &event(message, 3000, 10, 0, 0xff51_5780), true, Some(&env()), Some(&policy));
        assert_eq!(step.next, MouseNext::Done(false));
        assert_eq!(
            step.effects,
            vec![Effect::FocusOnTouch { message, x: 3000, y: 10, time: 9 }, Effect::CountEvent]
        );
    }
    let step = hook.process(0, &event(WM_MOUSEMOVE, 3001, 10, 0, 0), true, Some(&env()), Some(&policy));
    assert_eq!(step.next, MouseNext::SetCursor(1600, 873));
    // still pending while the cursor is placed: injected re-entry passes through
    assert!(hook.touch_state().pending());
    let reentry = hook.process(0, &event(WM_MOUSEMOVE, 1600, 873, LLMHF_INJECTED, 0), true, Some(&env()), Some(&policy));
    assert_eq!(reentry.next, MouseNext::Done(false));
    let done = hook.after_set_cursor(true, Some((1600, 873)), 0, &event(WM_MOUSEMOVE, 3001, 10, 0, 0), true);
    assert_eq!(done.next, MouseNext::Done(true));
    assert_eq!(done.effects, vec![Effect::CountEvent]);
    assert!(!hook.touch_state().pending());
    assert_eq!(hook.mouse_position(), Some((1600, 873)));
    let after = hook.process(0, &event(WM_MOUSEMOVE, 1601, 873, 0, 0), true, Some(&env()), Some(&policy));
    assert_eq!(after.next, MouseNext::Route(1601, 873));
}

#[test]
fn failed_cursor_placement_keeps_the_return_and_routes() {
    let mut hook = MouseHook::new();
    let policy = TouchPolicy::default();
    hook.process(0, &event(WM_MOUSEMOVE, 1600, 873, 0, 0), true, Some(&env()), Some(&policy));
    hook.after_route(false, (1600, 873), None);
    hook.process(0, &event(WM_LBUTTONUP, 3000, 10, 0, 0xff51_5780), true, Some(&env()), Some(&policy));
    let mv = event(WM_MOUSEMOVE, 3001, 10, 0, 0);
    let step = hook.process(0, &mv, true, Some(&env()), Some(&policy));
    assert_eq!(step.next, MouseNext::SetCursor(1600, 873));
    let step = hook.after_set_cursor(false, None, 0, &mv, true);
    assert_eq!(step.next, MouseNext::Route(3001, 10));
    assert!(hook.touch_state().pending());
    // the next move tries again
    let retry = hook.process(0, &event(WM_MOUSEMOVE, 3002, 10, 0, 0), true, Some(&env()), Some(&policy));
    assert_eq!(retry.next, MouseNext::SetCursor(1600, 873));
}

#[test]
fn included_stylus_is_handled_like_touch() {
    let mut layout = TouchLayout::default();
    layout.stylus_mouse_independent = true;
    let policy = TouchPolicy::from_layout(&layout);
    let mut hook = MouseHook::new();
    hook.process(0, &event(WM_MOUSEMOVE, 1600, 873, 0, 0), true, Some(&env()), Some(&policy));
    hook.after_route(false, (1600, 873), None);
    hook.process(0, &event(WM_LBUTTONUP, 3000, 10, 0, 0xff51_5780), true, Some(&env()), Some(&policy));
    // pen hover: passes through, keeps the return, leaves focus alone
    let hover = hook.process(0, &event(WM_MOUSEMOVE, 2600, 2500, 0, 0xff51_5700), true, Some(&env()), Some(&policy));
    assert_eq!(hover.next, MouseNext::Done(false));
    assert_eq!(hover.effects, vec![Effect::CountEvent]);
    let tap = hook.process(0, &event(WM_LBUTTONDOWN, 2600, 2500, 0, 0xff51_5700), true, Some(&env()), Some(&policy));
    assert_eq!(
        tap.effects,
        vec![Effect::FocusOnTouch { message: WM_LBUTTONDOWN, x: 2600, y: 2500, time: 9 }, Effect::CountEvent]
    );
    assert_eq!(hook.touch_state().anchor(), Some((1600, 873)));
}

#[test]
fn pen_and_inactive_hook_cancel_return() {
    let mut hook = MouseHook::new();
    let policy = TouchPolicy::default();
    hook.process(0, &event(WM_MOUSEMOVE, 1600, 873, 0, 0), true, Some(&env()), Some(&policy));
    hook.after_route(false, (1600, 873), None);
    hook.process(0, &event(WM_LBUTTONUP, 3000, 10, 0, 0xff51_5780), true, Some(&env()), Some(&policy));
    assert!(hook.touch_state().pending());
    let step = hook.process(0, &event(WM_MOUSEMOVE, 3000, 10, 0, 0xff51_5700), true, Some(&env()), Some(&policy));
    assert_eq!(step.effects, vec![Effect::ResetFocus]);
    assert!(!hook.touch_state().pending());
    hook.process(0, &event(WM_LBUTTONUP, 3000, 10, 0, 0xff51_5780), true, Some(&env()), Some(&policy));
    let mut off = env();
    off.shared.paused = true;
    hook.process(0, &event(WM_MOUSEMOVE, 5, 5, 0, 0), true, Some(&off), Some(&policy));
    assert!(!hook.touch_state().pending());
}

#[test]
fn drag_and_injected_moves_do_not_return() {
    let mut hook = MouseHook::new();
    let policy = TouchPolicy::default();
    hook.process(0, &event(WM_MOUSEMOVE, 1600, 873, 0, 0), true, Some(&env()), Some(&policy));
    hook.after_route(false, (1600, 873), None);
    hook.process(0, &event(WM_LBUTTONDOWN, 3000, 10, 0, 0xff51_5780), true, Some(&env()), Some(&policy));
    let step = hook.process(0, &event(WM_MOUSEMOVE, 5, 5, 0, 0), true, Some(&env()), Some(&policy));
    assert_eq!(step.next, MouseNext::Done(false));
    assert!(hook.touch_state().pending());
    hook.process(0, &event(WM_LBUTTONUP, 3000, 10, 0, 0xff51_5780), true, Some(&env()), Some(&policy));
    let step = hook.process(0, &event(WM_MOUSEMOVE, 5, 5, LLMHF_INJECTED, 0), true, Some(&env()), Some(&policy));
    assert_eq!(step.next, MouseNext::Done(false));
    assert!(hook.touch_state().pending());
}

#[test]
fn reload_resets_the_hook() {
    let mut hook = MouseHook::new();
    let policy = TouchPolicy::default();
    hook.process(0, &event(WM_LBUTTONUP, 3000, 10, 0, 0xff51_5780), true, Some(&env()), Some(&policy));
    let mut reloaded = env();
    reloaded.shared.touch_generation = 3;
    assert!(hook.is_stale(3));
    let step = hook.process(0, &event(WM_MOUSEMOVE, 5, 5, 0, 0), true, Some(&reloaded), Some(&policy));
    assert_eq!(step.effects, vec![Effect::ResetFocus, Effect::CountEvent]);
    assert_eq!(step.next, MouseNext::Route(5, 5));
    assert!(!hook.touch_state().pending());
    assert_eq!(hook.reset(None), vec![Effect::ResetFocus]);
    assert_eq!(hook.mouse_position(), None);
}

#[test]
fn without_shared_state_moves_are_counted_but_not_routed() {
    let mut hook = MouseHook::new();
    let step = hook.process(0, &event(WM_MOUSEMOVE, 5, 5, 0, 0), true, None, None);
    assert_eq!(step.next, MouseNext::Done(false));
    assert_eq!(step.effects, vec![Effect::CountEvent]);
}
