//! Decisions of the low-level mouse hook callback that handles touch itself:
//! touch-promoted messages pass through untouched, the first physical move
//! after a touch returns the pointer, and every other move is deduplicated by
//! position and handed to the routing engine.
//!
//! One callback runs in up to three steps. `process` decides what it can from
//! the event; when it asks to set the cursor, the host does so and calls
//! `after_set_cursor`; when it asks to route, the host runs the routing
//! engine and calls `after_route`.
use vstd::prelude::*;
use crate::hook::{Effect, HookEnv, MouseEvent, WM_LBUTTONDOWN, WM_LBUTTONUP, WM_MOUSEMOVE};
use crate::policy::{modifier_held, GestureView, PolicyView, TouchGesture, TouchPolicy};
use crate::touch::{has_pen_signature, has_touch_signature, is_pen, is_touch, ResumeView, TouchResume};
use crate::touch_input::{allowed_at, no_gesture, policy_view, tap_accepted};

verus! {

/// Only a mouse move can enter the routing engine: the event is valid
/// (`code >= 0`, with a message record) and its message is `WM_MOUSEMOVE`.
pub open spec fn is_routable(code: i32, message: u32, has_record: bool) -> bool {
    code >= 0 && has_record && message == WM_MOUSEMOVE
}

/// Whether an event may enter the routing engine (clicks and wheel events,
/// whose message numbers share the move bit, may not).
pub fn is_mouse_move_message(code: i32, message: u32, has_record: bool) -> (r: bool)
    ensures
        r == is_routable(code, message, has_record),
{
    code >= 0 && has_record && message == WM_MOUSEMOVE
}

/// The abstract per-thread state of the hook callback.
pub struct MouseView {
    /// The last position handed to routing (moves to the same place are dropped).
    pub previous: Option<(i32, i32)>,
    pub touch: ResumeView,
    pub generation: u32,
    pub mouse_position: Option<(i32, i32)>,
    pub gesture: GestureView,
}

/// What the callback needs next.
#[derive(Clone, Copy, Debug, PartialEq, Eq, Structural)]
pub enum MouseNext {
    /// The callback is over: `true` when it positioned the cursor itself.
    Done(bool),
    /// Set the cursor here, then call `after_set_cursor`.
    SetCursor(i32, i32),
    /// Run the routing engine for this position, then call `after_route`.
    Route(i32, i32),
}

/// One step of the callback: effects to carry out, in order, and what comes next.
pub struct MouseStep {
    pub effects: Vec<Effect>,
    pub next: MouseNext,
}

impl MouseView {
    /// Everything forgotten; the mouse position is the cursor's.
    pub open spec fn reset_to(self, cursor: Option<(i32, i32)>) -> MouseView {
        MouseView {
            previous: None,
            touch: ResumeView::empty(),
            generation: self.generation,
            mouse_position: cursor,
            gesture: no_gesture(),
        }
    }

    /// After catching up with the shared generation.
    pub open spec fn synced(self, generation: u32, cursor: Option<(i32, i32)>) -> (MouseView, Seq<Effect>) {
        if self.generation != generation {
            (MouseView { generation, ..self }.reset_to(cursor), seq![Effect::ResetFocus])
        } else {
            (self, Seq::empty())
        }
    }

    /// The routing part of the callback, for a valid event; `shared` tells
    /// whether the daemon's shared state exists.
    pub open spec fn routing(self, code: i32, ev: MouseEvent, has_record: bool, shared: bool) -> (
        MouseView,
        Seq<Effect>,
        MouseNext,
    ) {
        if !is_routable(code, ev.message, has_record) {
            (self, Seq::empty(), MouseNext::Done(false))
        } else {
            let s = MouseView { previous: Some((ev.x, ev.y)), ..self };
            if self.previous == Some((ev.x, ev.y)) {
                (s, Seq::empty(), MouseNext::Done(false))
            } else if !shared {
                (s, seq![Effect::CountEvent], MouseNext::Done(false))
            } else {
                (s, seq![Effect::CountEvent], MouseNext::Route(ev.x, ev.y))
            }
        }
    }

    /// After a touch-promoted message (or a pen-promoted one, when the
    /// stylus is included). A pen hovering without contact keeps the mouse
    /// anchor but does not involve focus restoration.
    pub open spec fn promoted(self, ev: MouseEvent, env: HookEnv, policy: Option<PolicyView>) -> (
        MouseView,
        Seq<Effect>,
    ) {
        let down = ev.message == WM_LBUTTONDOWN;
        let up = ev.message == WM_LBUTTONUP;
        let (gesture, accepted) = self.gesture.accept(allowed_at(policy, ev.x, ev.y, env), down, up);
        if !accepted {
            (
                MouseView {
                    touch: ResumeView::empty(),
                    mouse_position: Some((ev.x, ev.y)),
                    gesture,
                    ..self
                },
                seq![Effect::ResetFocus, Effect::CountEvent],
            )
        } else {
            let focus = has_touch_signature(ev.extra_info) || ev.message != WM_MOUSEMOVE
                || gesture.contact;
            (
                MouseView {
                    touch: self.touch.touched(self.mouse_position, down, up),
                    gesture,
                    ..self
                },
                if focus {
                    seq![
                        Effect::FocusOnTouch { message: ev.message, x: ev.x, y: ev.y, time: ev.time },
                        Effect::CountEvent,
                    ]
                } else {
                    seq![Effect::CountEvent]
                },
            )
        }
    }

    /// The first step of the callback.
    pub open spec fn step(
        self,
        code: i32,
        ev: MouseEvent,
        has_record: bool,
        env: Option<HookEnv>,
        policy: Option<PolicyView>,
    ) -> (MouseView, Seq<Effect>, MouseNext) {
        if code < 0 || !has_record {
            (self, Seq::empty(), MouseNext::Done(false))
        } else {
            match env {
                None => self.routing(code, ev, has_record, false),
                Some(v) => {
                    let (s, sync) = self.synced(v.shared.touch_generation, v.cursor);
                    if !v.shared.active() {
                        let r = MouseView { touch: ResumeView::empty(), ..s }.routing(
                            code,
                            ev,
                            has_record,
                            true,
                        );
                        (r.0, sync + r.1, r.2)
                    } else if has_touch_signature(ev.extra_info) || (has_pen_signature(ev.extra_info)
                        && policy is Some && policy.unwrap().include_stylus) {
                        let (t, e) = s.promoted(ev, v, policy);
                        (t, sync + e, MouseNext::Done(false))
                    } else if has_pen_signature(ev.extra_info) {
                        (
                            MouseView {
                                touch: ResumeView::empty(),
                                mouse_position: Some((ev.x, ev.y)),
                                gesture: no_gesture(),
                                ..s
                            },
                            sync.push(Effect::ResetFocus),
                            MouseNext::Done(false),
                        )
                    } else {
                        let is_move = ev.message == WM_MOUSEMOVE;
                        let e = if !ev.injected() && v.shared.restore_keyboard_focus {
                            sync.push(Effect::FocusOnPhysicalInput { is_move, contact: s.gesture.contact })
                        } else {
                            sync
                        };
                        if ev.injected() && s.touch.pending() {
                            (s, e, MouseNext::Done(false))
                        } else if is_move && s.touch.contact {
                            (s, e.push(Effect::CountEvent), MouseNext::Done(false))
                        } else if is_move && s.touch.pending() {
                            (
                                MouseView { previous: None, ..s },
                                e,
                                MouseNext::SetCursor(s.touch.anchor.unwrap().0, s.touch.anchor.unwrap().1),
                            )
                        } else {
                            let t = if is_move {
                                s
                            } else {
                                MouseView {
                                    touch: ResumeView::empty(),
                                    mouse_position: Some((ev.x, ev.y)),
                                    ..s
                                }
                            };
                            let r = t.routing(code, ev, has_record, true);
                            (r.0, e + r.1, r.2)
                        }
                    }
                },
            }
        }
    }

    /// After the hook tried to set the cursor: on success the return is done
    /// and the callback swallows the event at the new cursor position
    /// `cursor`; on failure the return stays pending (the next move tries
    /// again) and the event goes on to routing.
    pub open spec fn cursor_set(self, ok: bool, cursor: Option<(i32, i32)>, code: i32, ev: MouseEvent, has_record: bool) -> (
        MouseView,
        Seq<Effect>,
        MouseNext,
    ) {
        if ok {
            (
                MouseView { touch: self.touch.resumed(), mouse_position: cursor, ..self },
                seq![Effect::CountEvent],
                MouseNext::Done(true),
            )
        } else {
            self.routing(code, ev, has_record, true)
        }
    }
}

/// The per-thread state of the hook callback.
pub struct MouseHook {
    previous: Option<(i32, i32)>,
    touch: TouchResume,
    generation: u32,
    mouse_position: Option<(i32, i32)>,
    gesture: TouchGesture,
}

impl View for MouseHook {
    type V = MouseView;

    closed spec fn view(&self) -> MouseView {
        MouseView {
            previous: self.previous,
            touch: self.touch@,
            generation: self.generation,
            mouse_position: self.mouse_position,
            gesture: self.gesture@,
        }
    }
}

impl MouseHook {
    /// The state of a thread that has seen nothing yet.
    pub fn new() -> (s: Self)
        ensures
            s@ == (MouseView {
                previous: None,
                touch: ResumeView::empty(),
                generation: 0,
                mouse_position: None,
                gesture: no_gesture(),
            }),
    {
        MouseHook {
            previous: None,
            touch: TouchResume::new(),
            generation: 0,
            mouse_position: None,
            gesture: TouchGesture::new(),
        }
    }

    /// The promoted-touch return record.
    pub fn touch_state(&self) -> (r: TouchResume)
        ensures
            r@ == self@.touch,
    {
        self.touch
    }

    /// The last known mouse position.
    pub fn mouse_position(&self) -> (r: Option<(i32, i32)>)
        ensures
            r == self@.mouse_position,
    {
        self.mouse_position
    }

    /// Whether a different shared generation would discard this state.
    pub fn is_stale(&self, generation: u32) -> (r: bool)
        ensures
            r == (self@.generation != generation),
    {
        self.generation != generation
    }

    /// Forgets all touch and routing state; the mouse position becomes the cursor's.
    pub fn reset(&mut self, cursor: Option<(i32, i32)>) -> (e: Vec<Effect>)
        ensures
            final(self)@ == old(self)@.reset_to(cursor),
            e@ == seq![Effect::ResetFocus],
    {
        self.gesture = TouchGesture::new();
        self.touch = TouchResume::new();
        self.previous = None;
        self.mouse_position = cursor;
        vec![Effect::ResetFocus]
    }

    /// Deduplicates a routed move: whether it differs from the last one.
    fn accept_move(&mut self, loc: (i32, i32)) -> (changed: bool)
        ensures
            changed == (old(self)@.previous != Some(loc)),
            final(self)@ == (MouseView { previous: Some(loc), ..old(self)@ }),
    {
        let changed = match self.previous {
            Some(p) => p.0 != loc.0 || p.1 != loc.1,
            None => true,
        };
        self.previous = Some(loc);
        changed
    }

    /// The routing part of the callback.
    fn routing(&mut self, code: i32, ev: &MouseEvent, has_record: bool, shared: bool, e: Vec<Effect>) -> (r: MouseStep)
        ensures
            ({
                let s = old(self)@.routing(code, *ev, has_record, shared);
                &&& final(self)@ == s.0
                &&& r.effects@ == e@ + s.1
                &&& r.next == s.2
            }),
    {
        let mut e = e;
        let ghost e0 = e@;
        if !is_mouse_move_message(code, ev.message, has_record) {
            assert(e@ =~= e0 + Seq::<Effect>::empty());
            return MouseStep { effects: e, next: MouseNext::Done(false) };
        }
        let changed = self.accept_move((ev.x, ev.y));
        if !changed {
            assert(e@ =~= e0 + Seq::<Effect>::empty());
            return MouseStep { effects: e, next: MouseNext::Done(false) };
        }
        e.push(Effect::CountEvent);
        assert(e@ =~= e0 + seq![Effect::CountEvent]);
        if !shared {
            return MouseStep { effects: e, next: MouseNext::Done(false) };
        }
        MouseStep { effects: e, next: MouseNext::Route(ev.x, ev.y) }
    }

    /// Forgets the last routed position, so the next move is routed even to
    /// the same place.
    pub fn reset_movement(&mut self)
        ensures
            final(self)@ == (MouseView { previous: None, ..old(self)@ }),
    {
        self.previous = None;
    }

    /// Only the routing part of the callback, for a hook whose touch
    /// handling has already let the event through to routing: valid moves
    /// are deduplicated by position, counted and (with `shared`) routed.
    pub fn route(&mut self, code: i32, ev: &MouseEvent, has_record: bool, shared: bool) -> (r: MouseStep)
        ensures
            ({
                let s = old(self)@.routing(code, *ev, has_record, shared);
                &&& final(self)@ == s.0
                &&& r.effects@ == s.1
                &&& r.next == s.2
            }),
    {
        let r = self.routing(code, ev, has_record, shared, Vec::new());
        assert(r.effects@ =~= Seq::<Effect>::empty() + old(self)@.routing(code, *ev, has_record, shared).1);
        r
    }

    /// The first step of the callback for an event with hook code `code`
    /// (`has_record`: the message record is present), given the shared state
    /// (`None`: the daemon is not set up) and the policy (`None`: busy).
    pub fn process(
        &mut self,
        code: i32,
        ev: &MouseEvent,
        has_record: bool,
        env: Option<&HookEnv>,
        policy: Option<&TouchPolicy>,
    ) -> (r: MouseStep)
        ensures
            ({
                let env_view = match env {
                    Some(v) => Some(*v),
                    None => None,
                };
                let s = old(self)@.step(code, *ev, has_record, env_view, policy_view(policy));
                &&& final(self)@ == s.0
                &&& r.effects@ == s.1
                &&& r.next == s.2
            }),
    {
        if code < 0 || !has_record {
            return MouseStep { effects: Vec::new(), next: MouseNext::Done(false) };
        }
        let v = match env {
            Some(v) => v,
            None => {
                return self.routing(code, ev, has_record, false, Vec::new());
            },
        };
        let mut e: Vec<Effect> = Vec::new();
        if self.generation != v.shared.touch_generation {
            self.generation = v.shared.touch_generation;
            e = self.reset(v.cursor);
        }
        if !v.shared.touch_active() {
            self.touch = TouchResume::new();
            return self.routing(code, ev, has_record, true, e);
        }
        let stylus = match policy {
            Some(p) => p.stylus_included(),
            None => false,
        };
        if is_touch(ev.extra_info) || (is_pen(ev.extra_info) && stylus) {
            let ghost e0 = e@;
            let down = ev.message == WM_LBUTTONDOWN;
            let up = ev.message == WM_LBUTTONUP;
            let allowed = match policy {
                Some(p) => p.includes(ev.x, ev.y) && !modifier_held(p.override_modifier(), v.keys),
                None => false,
            };
            let accepted = self.gesture.accepts(allowed, down, up);
            if !accepted {
                e.push(Effect::ResetFocus);
                self.touch = TouchResume::new();
                self.mouse_position = Some((ev.x, ev.y));
                e.push(Effect::CountEvent);
                assert(e@ =~= e0 + seq![Effect::ResetFocus, Effect::CountEvent]);
                return MouseStep { effects: e, next: MouseNext::Done(false) };
            }
            let focus = is_touch(ev.extra_info) || ev.message != WM_MOUSEMOVE
                || self.gesture.in_contact();
            if focus {
                e.push(Effect::FocusOnTouch { message: ev.message, x: ev.x, y: ev.y, time: ev.time });
            }
            let cursor = self.mouse_position;
            self.touch.touch(cursor, down, up);
            e.push(Effect::CountEvent);
            assert(e@ =~= e0 + if focus {
                seq![
                    Effect::FocusOnTouch { message: ev.message, x: ev.x, y: ev.y, time: ev.time },
                    Effect::CountEvent,
                ]
            } else {
                seq![Effect::CountEvent]
            });
            return MouseStep { effects: e, next: MouseNext::Done(false) };
        }
        if is_pen(ev.extra_info) {
            self.gesture = TouchGesture::new();
            e.push(Effect::ResetFocus);
            self.touch = TouchResume::new();
            self.mouse_position = Some((ev.x, ev.y));
            return MouseStep { effects: e, next: MouseNext::Done(false) };
        }
        let injected = ev.is_injected();
        let is_move = ev.message == WM_MOUSEMOVE;
        if !injected && v.shared.restore_keyboard_focus {
            e.push(Effect::FocusOnPhysicalInput { is_move, contact: self.gesture.in_contact() });
        }
        if injected && self.touch.pending() {
            return MouseStep { effects: e, next: MouseNext::Done(false) };
        }
        if is_move {
            if self.touch.in_contact() {
                e.push(Effect::CountEvent);
                return MouseStep { effects: e, next: MouseNext::Done(false) };
            }
            if let Some(t) = self.touch.anchor() {
                // The return stays pending until the cursor is placed: an
                // injected move that re-enters meanwhile passes through.
                self.previous = None;
                return MouseStep { effects: e, next: MouseNext::SetCursor(t.0, t.1) };
            }
        } else {
            self.touch = TouchResume::new();
            self.mouse_position = Some((ev.x, ev.y));
        }
        self.routing(code, ev, has_record, true, e)
    }

    /// The step after the hook tried to set the cursor (`ok`), with the
    /// cursor position read afterwards.
    pub fn after_set_cursor(
        &mut self,
        ok: bool,
        cursor: Option<(i32, i32)>,
        code: i32,
        ev: &MouseEvent,
        has_record: bool,
    ) -> (r: MouseStep)
        ensures
            ({
                let s = old(self)@.cursor_set(ok, cursor, code, *ev, has_record);
                &&& final(self)@ == s.0
                &&& r.effects@ == s.1
                &&& r.next == s.2
            }),
    {
        if ok {
            self.touch.resume();
            self.mouse_position = cursor;
            return MouseStep { effects: vec![Effect::CountEvent], next: MouseNext::Done(true) };
        }
        self.routing(code, ev, has_record, true, Vec::new())
    }

    /// The last step: the routing engine `handled` the move at `loc` (then
    /// the cursor, read afterwards, is the mouse position) or let it pass.
    pub fn after_route(&mut self, handled: bool, loc: (i32, i32), cursor: Option<(i32, i32)>) -> (r: bool)
        ensures
            r == handled,
            final(self)@ == (MouseView {
                mouse_position: if handled {
                    cursor
                } else {
                    Some(loc)
                },
                ..old(self)@
            }),
    {
        self.mouse_position = if handled {
            cursor
        } else {
            Some(loc)
        };
        handled
    }
}


/// Only a valid mouse move ever reaches the routing engine.
pub proof fn lemma_only_moves_are_routed(
    m: MouseView,
    code: i32,
    ev: MouseEvent,
    has_record: bool,
    env: Option<HookEnv>,
    policy: Option<PolicyView>,
    ok: bool,
    cursor: Option<(i32, i32)>,
)
    ensures
        m.step(code, ev, has_record, env, policy).2 is Route ==> is_routable(code, ev.message, has_record),
        m.cursor_set(ok, cursor, code, ev, has_record).2 is Route ==> is_routable(code, ev.message, has_record),
{
}

/// A move to the position last routed is not routed again.
pub proof fn lemma_repeated_position_dropped(m: MouseView, code: i32, ev: MouseEvent, has_record: bool, shared: bool)
    requires
        m.previous == Some((ev.x, ev.y)),
    ensures
        m.routing(code, ev, has_record, shared).2 == MouseNext::Done(false),
{
}

/// Touch-promoted messages never reach routing and are never swallowed.
pub proof fn lemma_touch_never_routed(
    m: MouseView,
    code: i32,
    ev: MouseEvent,
    has_record: bool,
    env: HookEnv,
    policy: Option<PolicyView>,
)
    requires
        has_touch_signature(ev.extra_info),
        env.shared.active(),
    ensures
        m.step(code, ev, has_record, Some(env), policy).2 == MouseNext::Done(false),
{
}

/// The first physical move after a touch asks to put the pointer back at
/// the saved position. The return stays pending until the cursor is placed
/// (an injected move that re-enters meanwhile passes through): it is done
/// once the cursor is placed, and stays pending for the next move when the
/// placement fails.
pub proof fn lemma_mouse_first_move_returns(
    m: MouseView,
    code: i32,
    ev: MouseEvent,
    env: HookEnv,
    policy: Option<PolicyView>,
    cursor: Option<(i32, i32)>,
)
    requires
        code >= 0,
        !has_touch_signature(ev.extra_info),
        !has_pen_signature(ev.extra_info),
        !ev.injected(),
        ev.message == WM_MOUSEMOVE,
        env.shared.active(),
        m.generation == env.shared.touch_generation,
        !m.touch.contact,
        m.touch.pending(),
    ensures
        m.step(code, ev, true, Some(env), policy).2 == MouseNext::SetCursor(
            m.touch.anchor.unwrap().0,
            m.touch.anchor.unwrap().1,
        ),
        m.step(code, ev, true, Some(env), policy).0.touch == m.touch,
        ({
            let s = m.step(code, ev, true, Some(env), policy).0;
            &&& s.cursor_set(true, cursor, code, ev, true).2 == MouseNext::Done(true)
            &&& !s.cursor_set(true, cursor, code, ev, true).0.touch.pending()
            &&& s.cursor_set(false, cursor, code, ev, true).0.touch == m.touch
        }),
{
}

/// With the stylus included, pen input is handled like touch: an accepted
/// pen message passes through and keeps a pending return.
pub proof fn lemma_mouse_included_pen_keeps_return(
    m: MouseView,
    code: i32,
    ev: MouseEvent,
    env: HookEnv,
    p: PolicyView,
)
    requires
        code >= 0,
        has_pen_signature(ev.extra_info),
        env.shared.active(),
        m.generation == env.shared.touch_generation,
        p.include_stylus,
        allowed_at(Some(p), ev.x, ev.y, env),
        !m.gesture.bypass,
        m.touch.pending(),
    ensures
        m.step(code, ev, true, Some(env), Some(p)).2 == MouseNext::Done(false),
        m.step(code, ev, true, Some(env), Some(p)).0.touch.anchor == m.touch.anchor,
{
}

/// Without the stylus, pen input cancels the return and takes the pen's
/// position as the mouse position.
pub proof fn lemma_mouse_pen_cancels_return(
    m: MouseView,
    code: i32,
    ev: MouseEvent,
    env: HookEnv,
    policy: Option<PolicyView>,
)
    requires
        code >= 0,
        has_pen_signature(ev.extra_info),
        !has_touch_signature(ev.extra_info),
        env.shared.active(),
        match policy {
            Some(p) => !p.include_stylus,
            None => true,
        },
    ensures
        m.step(code, ev, true, Some(env), policy).2 == MouseNext::Done(false),
        !m.step(code, ev, true, Some(env), policy).0.touch.pending(),
        m.step(code, ev, true, Some(env), policy).0.mouse_position == Some((ev.x, ev.y)),
{
}


/// The state after a sequence of events handled in the first step alone.
pub open spec fn run_mouse(m: MouseView, evs: Seq<MouseEvent>, env: HookEnv, policy: Option<PolicyView>) -> MouseView
    decreases evs.len(),
{
    if evs.len() == 0 {
        m
    } else {
        run_mouse(m, evs.drop_last(), env, policy).step(0, evs.last(), true, Some(env), policy).0
    }
}

/// Every event, starting from `m`, is a touch-promoted message that the
/// gesture accepts when it arrives.
pub open spec fn mouse_accepted_taps(m: MouseView, evs: Seq<MouseEvent>, env: HookEnv, policy: Option<PolicyView>) -> bool {
    forall|i: int|
        0 <= i < evs.len() ==> tap_accepted(
            run_mouse(m, evs.take(i), env, policy).gesture,
            #[trigger] evs[i],
            env,
            policy,
        )
}

/// Through accepted taps the saved position is the mouse position before the
/// first tap, and a final release ends contact.
proof fn lemma_mouse_taps_keep_start(
    m: MouseView,
    taps: Seq<MouseEvent>,
    env: HookEnv,
    policy: Option<PolicyView>,
    a: (i32, i32),
)
    requires
        env.shared.active(),
        m.generation == env.shared.touch_generation,
        m.mouse_position == Some(a),
        !m.touch.pending(),
        mouse_accepted_taps(m, taps, env, policy),
    ensures
        run_mouse(m, taps, env, policy).generation == m.generation,
        run_mouse(m, taps, env, policy).mouse_position == Some(a),
        taps.len() == 0 ==> !run_mouse(m, taps, env, policy).touch.pending(),
        taps.len() > 0 ==> run_mouse(m, taps, env, policy).touch.anchor == Some(a),
        taps.len() > 0 && taps.last().message == WM_LBUTTONUP ==> !run_mouse(m, taps, env, policy).touch.contact,
    decreases taps.len(),
{
    if taps.len() > 0 {
        let rest = taps.drop_last();
        assert forall|i: int| 0 <= i < rest.len() implies tap_accepted(
            run_mouse(m, rest.take(i), env, policy).gesture,
            #[trigger] rest[i],
            env,
            policy,
        ) by {
            assert(rest[i] == taps[i]);
            assert(rest.take(i) =~= taps.take(i));
        }
        lemma_mouse_taps_keep_start(m, rest, env, policy, a);
        let n = taps.len() - 1;
        assert(taps.take(n) =~= rest);
        assert(tap_accepted(run_mouse(m, taps.take(n), env, policy).gesture, taps[n], env, policy));
    }
}

/// However many accepted taps happened, the first physical move afterwards puts the
/// cursor back at the mouse position from before the first tap and is
/// swallowed once the cursor is placed; the next physical move is routed
/// with no second return.
pub proof fn lemma_mouse_taps_then_move_return_to_start(
    m: MouseView,
    taps: Seq<MouseEvent>,
    mv: MouseEvent,
    next: MouseEvent,
    env: HookEnv,
    policy: Option<PolicyView>,
    a: (i32, i32),
    cursor: Option<(i32, i32)>,
)
    requires
        env.shared.active(),
        m.generation == env.shared.touch_generation,
        m.mouse_position == Some(a),
        !m.touch.pending(),
        taps.len() > 0,
        mouse_accepted_taps(m, taps, env, policy),
        taps.last().message == WM_LBUTTONUP,
        !has_touch_signature(mv.extra_info),
        !has_pen_signature(mv.extra_info),
        !mv.injected(),
        mv.message == WM_MOUSEMOVE,
        !has_touch_signature(next.extra_info),
        !has_pen_signature(next.extra_info),
        !next.injected(),
        next.message == WM_MOUSEMOVE,
    ensures
        ({
            let t = run_mouse(m, taps, env, policy);
            let r = t.step(0, mv, true, Some(env), policy);
            let placed = r.0.cursor_set(true, cursor, 0, mv, true);
            &&& r.2 == MouseNext::SetCursor(a.0, a.1)
            &&& placed.2 == MouseNext::Done(true)
            &&& !placed.0.touch.pending()
            &&& placed.0.step(0, next, true, Some(env), policy).2 == MouseNext::Route(next.x, next.y)
        }),
{
    lemma_mouse_taps_keep_start(m, taps, env, policy, a);
    let t = run_mouse(m, taps, env, policy);
    lemma_mouse_first_move_returns(t, 0, mv, env, policy, cursor);
}


/// A physical click or wheel event takes ownership at its position: with
/// the touch features active it leaves no pending return, and the mouse
/// position becomes the event's.
pub proof fn lemma_mouse_click_cancels_return(
    m: MouseView,
    code: i32,
    ev: MouseEvent,
    env: HookEnv,
    policy: Option<PolicyView>,
)
    requires
        code >= 0,
        !has_touch_signature(ev.extra_info),
        !has_pen_signature(ev.extra_info),
        !ev.injected(),
        ev.message != WM_MOUSEMOVE,
        env.shared.active(),
    ensures
        !m.step(code, ev, true, Some(env), policy).0.touch.pending(),
        m.step(code, ev, true, Some(env), policy).0.mouse_position == Some((ev.x, ev.y)),
        !(m.step(code, ev, true, Some(env), policy).2 is SetCursor),
{
}

/// A valid move to a position other than the last routed one is counted and
/// routed there (when the shared state exists), and becomes the last routed
/// position; without shared state it is counted only.
pub proof fn lemma_new_position_routed(m: MouseView, code: i32, ev: MouseEvent, shared: bool)
    requires
        code >= 0,
        ev.message == WM_MOUSEMOVE,
        m.previous != Some((ev.x, ev.y)),
    ensures
        m.routing(code, ev, true, shared).1 == seq![Effect::CountEvent],
        m.routing(code, ev, true, shared).0.previous == Some((ev.x, ev.y)),
        shared ==> m.routing(code, ev, true, shared).2 == MouseNext::Route(ev.x, ev.y),
        !shared ==> m.routing(code, ev, true, shared).2 == MouseNext::Done(false),
{
}

/// Two valid moves that differ in either coordinate are both routed: the
/// second is not dropped as a repeat of the first.
pub proof fn lemma_moves_differing_in_one_coordinate_routed(
    m: MouseView,
    code: i32,
    first: MouseEvent,
    second: MouseEvent,
)
    requires
        code >= 0,
        first.message == WM_MOUSEMOVE,
        second.message == WM_MOUSEMOVE,
        m.previous != Some((first.x, first.y)),
        first.x != second.x || first.y != second.y,
    ensures
        m.routing(code, first, true, true).2 == MouseNext::Route(first.x, first.y),
        m.routing(code, first, true, true).0.routing(code, second, true, true).2 == MouseNext::Route(
            second.x,
            second.y,
        ),
{
}

} // verus!
