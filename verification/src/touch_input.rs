//! Touchscreen policy and mouse-resumption decisions for the pump thread that
//! runs the low-level mouse hook. The host owns one `TouchInput`, hands it
//! each event with what it read of the world, and carries out the effects it
//! returns. A pending return is cleared only after a successful warp.
use vstd::prelude::*;
use vstd::multiset::Multiset;
use crate::hook::{
    Effect, HookEnv, MouseEvent, Rect, Verdict, ZoneLayout, WM_LBUTTONDOWN,
    WM_LBUTTONUP, WM_MOUSEMOVE,
};
use crate::policy::{
    is_held, modifier_held, GestureView, PolicyView, TouchGesture, TouchPolicy,
};
use crate::touch::{
    has_pen_signature, has_touch_signature, is_pen, is_touch, NativeTouchResume, NativeView,
    ResumeView, TouchResume,
};

verus! {

/// The abstract per-thread touch state.
pub struct InputView {
    pub touch: ResumeView,
    pub native: NativeView,
    pub generation: u32,
    pub mouse_position: Option<(i32, i32)>,
    pub gesture: GestureView,
}

/// The empty gesture.
pub open spec fn no_gesture() -> GestureView {
    GestureView { bypass: false, contact: false }
}

/// The view of a policy that may be unavailable (its lock busy).
pub open spec fn policy_view(policy: Option<&TouchPolicy>) -> Option<PolicyView> {
    match policy {
        Some(p) => Some(p@),
        None => None,
    }
}

/// The touch features are allowed at a point: the policy could be read, the
/// point is on a selected display and the override key is not held.
pub open spec fn allowed_at(policy: Option<PolicyView>, x: i32, y: i32, env: HookEnv) -> bool {
    match policy {
        Some(p) => p.includes(x, y) && !is_held(p.modifier, env.keys),
        None => false,
    }
}

/// The effects of a reset: forget routed movement and focus restoration.
pub open spec fn reset_effects() -> Seq<Effect> {
    seq![Effect::ResetMovement, Effect::ResetFocus]
}

/// The abstract result of one hook event.
pub struct StepView {
    pub state: InputView,
    pub effects: Seq<Effect>,
    pub verdict: Verdict,
    pub warp: Option<WarpView>,
}

/// A return to perform: where, and the promoted-touch record once it is done.
pub struct WarpView {
    pub target: (i32, i32),
    pub resumed: ResumeView,
}

impl InputView {
    /// Everything forgotten; the mouse position is the cursor's.
    pub open spec fn reset_to(self, cursor: Option<(i32, i32)>) -> InputView {
        InputView {
            touch: ResumeView::empty(),
            native: NativeView::empty(),
            generation: self.generation,
            mouse_position: cursor,
            gesture: no_gesture(),
        }
    }

    /// After catching up with the shared generation: a change discards all
    /// touch state.
    pub open spec fn synced(self, generation: u32, cursor: Option<(i32, i32)>) -> (
        InputView,
        Seq<Effect>,
    ) {
        if self.generation != generation {
            (InputView { generation, ..self }.reset_to(cursor), reset_effects())
        } else {
            (self, Seq::empty())
        }
    }

    /// Neither return pending.
    pub open spec fn cleared(self) -> InputView {
        InputView { touch: ResumeView::empty(), native: NativeView::empty(), ..self }
    }

    /// Some return is pending.
    pub open spec fn pending(self) -> bool {
        self.touch.pending() || self.native.pending()
    }

    /// After a native touchscreen report.
    pub open spec fn observed_native(self, env: HookEnv, policy: Option<PolicyView>) -> (
        InputView,
        Seq<Effect>,
    ) {
        let (s, e) = self.synced(env.shared.touch_generation, env.cursor);
        if !env.shared.active() || !env.shared.hooked {
            (InputView { native: NativeView::empty(), ..s }, e)
        } else {
            let allowed = match policy {
                Some(p) => !is_held(p.modifier, env.keys),
                None => false,
            };
            (InputView { native: s.native.observed(s.mouse_position, allowed), ..s }, e)
        }
    }

    /// After a touch- (or, when enabled, pen-) promoted message.
    pub open spec fn promoted(self, ev: MouseEvent, env: HookEnv, policy: Option<PolicyView>) -> (
        InputView,
        Seq<Effect>,
    ) {
        let native = self.native.after_promoted();
        let down = ev.message == WM_LBUTTONDOWN;
        let up = ev.message == WM_LBUTTONUP;
        let (gesture, accepted) = self.gesture.accept(
            allowed_at(policy, ev.x, ev.y, env),
            down,
            up,
        );
        if !accepted {
            (
                InputView {
                    touch: ResumeView::empty(),
                    native,
                    mouse_position: Some((ev.x, ev.y)),
                    gesture,
                    ..self
                },
                seq![Effect::CancelNativeFocus, Effect::ResetFocus, Effect::CountEvent],
            )
        } else {
            let focus = !has_pen_signature(ev.extra_info) || ev.message != WM_MOUSEMOVE
                || gesture.contact;
            (
                InputView {
                    touch: self.touch.touched(self.mouse_position, down, up),
                    native,
                    gesture,
                    ..self
                },
                seq![Effect::CancelNativeFocus] + if focus {
                    seq![
                        Effect::FocusOnTouch {
                            message: ev.message,
                            x: ev.x,
                            y: ev.y,
                            time: ev.time,
                        },
                    ]
                } else {
                    Seq::empty()
                } + seq![Effect::CountEvent],
            )
        }
    }

    /// After a physical or injected mouse event while the features are active.
    pub open spec fn physical(self, ev: MouseEvent, env: HookEnv, policy: Option<PolicyView>) -> StepView {
        let injected = ev.injected();
        let is_move = ev.message == WM_MOUSEMOVE;
        let e1 = if !injected {
            seq![Effect::CancelNativeFocus]
        } else {
            Seq::empty()
        };
        let e2 = if !injected && env.shared.restore_keyboard_focus {
            seq![Effect::FocusOnPhysicalInput { is_move, contact: self.gesture.contact }]
        } else {
            Seq::empty()
        };
        let e = e1 + e2;
        if injected && self.pending() {
            StepView { state: self, effects: e, verdict: Verdict::PassThrough, warp: None }
        } else if is_move {
            if self.touch.contact {
                StepView {
                    state: self,
                    effects: e.push(Effect::CountEvent),
                    verdict: Verdict::PassThrough,
                    warp: None,
                }
            } else {
                let touched = match env.cursor {
                    Some(c) => c,
                    None => (ev.x, ev.y),
                };
                let selected = match policy {
                    Some(p) => p.includes(touched.0, touched.1),
                    None => false,
                };
                let native_target = if self.native.pending() {
                    self.native.target(selected)
                } else {
                    None
                };
                let target = if self.touch.anchor is Some {
                    self.touch.anchor
                } else {
                    native_target
                };
                match target {
                    Some(t) => StepView {
                        state: self,
                        effects: e,
                        verdict: Verdict::Consume,
                        warp: Some(WarpView { target: t, resumed: self.touch.resumed() }),
                    },
                    None => StepView {
                        state: InputView { native: NativeView::empty(), ..self },
                        effects: e,
                        verdict: Verdict::Route,
                        warp: None,
                    },
                }
            }
        } else {
            StepView {
                state: InputView {
                    touch: ResumeView::empty(),
                    native: NativeView::empty(),
                    mouse_position: Some((ev.x, ev.y)),
                    ..self
                },
                effects: e,
                verdict: Verdict::Route,
                warp: None,
            }
        }
    }

    /// One mouse event: catch up with the generation, then dispatch on the
    /// kind of input.
    pub open spec fn step(self, ev: MouseEvent, env: HookEnv, policy: Option<PolicyView>) -> StepView {
        let (s, sync) = self.synced(env.shared.touch_generation, env.cursor);
        if !env.shared.active() {
            StepView { state: s.cleared(), effects: sync, verdict: Verdict::Route, warp: None }
        } else if has_touch_signature(ev.extra_info) || (has_pen_signature(ev.extra_info)
            && policy is Some && policy.unwrap().include_stylus) {
            let (t, e) = s.promoted(ev, env, policy);
            StepView { state: t, effects: sync + e, verdict: Verdict::PassThrough, warp: None }
        } else if has_pen_signature(ev.extra_info) {
            StepView {
                state: InputView {
                    touch: ResumeView::empty(),
                    native: NativeView::empty(),
                    mouse_position: Some((ev.x, ev.y)),
                    gesture: no_gesture(),
                    ..s
                },
                effects: sync.push(Effect::ResetFocus),
                verdict: Verdict::PassThrough,
                warp: None,
            }
        } else {
            let r = s.physical(ev, env, policy);
            StepView { effects: sync + r.effects, ..r }
        }
    }

    /// After the warp of `w` succeeded at `actual`, or failed (`None`).
    pub open spec fn warped(self, w: WarpView, actual: Option<(i32, i32)>) -> (InputView, Seq<Effect>) {
        match actual {
            Some(a) => (
                InputView {
                    touch: w.resumed,
                    native: NativeView::empty(),
                    mouse_position: Some(a),
                    ..self
                },
                seq![Effect::ResetMovement, Effect::CountEvent],
            ),
            None => (self, seq![Effect::CountEvent]),
        }
    }
}

/// The main monitors still have exactly the bounds the layout was built
/// for (as a multiset: mirrored displays may share bounds), so a work-area
/// change does not invalidate it.
pub open spec fn layout_unchanged(layout: ZoneLayout, monitors: Seq<Rect>) -> bool {
    &&& !layout.virtual_layout
    &&& monitors.len() != 0
    &&& layout.main_zones@.to_multiset() == monitors.to_multiset()
}

/// The multiset of a concatenation is the sum of the multisets.
proof fn lemma_multiset_concat(a: Seq<Rect>, b: Seq<Rect>)
    ensures
        (a + b).to_multiset() =~= a.to_multiset().add(b.to_multiset()),
    decreases b.len(),
{
    broadcast use vstd::seq_lib::group_to_multiset_ensures;

    if b.len() == 0 {
        assert(a + b =~= a);
        assert(b.to_multiset() =~= Multiset::<Rect>::empty());
    } else {
        lemma_multiset_concat(a, b.drop_last());
        assert(a + b =~= (a + b.drop_last()).push(b.last()));
        assert(b =~= b.drop_last().push(b.last()));
    }
}

/// A return to perform, as handed out by `TouchInput::process`.
#[derive(Clone, Copy, Debug)]
pub struct Warp {
    target: (i32, i32),
    resumed: TouchResume,
}

impl View for Warp {
    type V = WarpView;

    closed spec fn view(&self) -> WarpView {
        WarpView { target: self.target, resumed: self.resumed@ }
    }
}

impl Warp {
    /// Where the pointer goes back to.
    pub fn target(&self) -> (r: (i32, i32))
        ensures
            r == self@.target,
    {
        self.target
    }
}

/// The result of one hook event: effects to carry out, in order, what to do
/// with the event, and possibly a return to perform before reporting the
/// verdict (then finish it with `TouchInput::finish_warp`).
pub struct Step {
    pub effects: Vec<Effect>,
    pub verdict: Verdict,
    pub warp: Option<Warp>,
}

/// The view of an optional warp.
pub open spec fn warp_view(w: Option<Warp>) -> Option<WarpView> {
    match w {
        Some(x) => Some(x@),
        None => None,
    }
}

/// What to do with a native contact-count report.
#[derive(Clone, Copy, Debug, PartialEq, Eq, Structural)]
pub enum NativeContact {
    /// The hook is not set up: report `false`.
    Ignore,
    /// No native return is pending: cancel native focus restoration and report `false`.
    Cancel,
    /// Hand the contact state to focus restoration and report its answer.
    Forward,
}

/// The per-thread touch state of the mouse hook.
pub struct TouchInput {
    touch: TouchResume,
    native: NativeTouchResume,
    generation: u32,
    mouse_position: Option<(i32, i32)>,
    gesture: TouchGesture,
}

impl View for TouchInput {
    type V = InputView;

    closed spec fn view(&self) -> InputView {
        InputView {
            touch: self.touch@,
            native: self.native@,
            generation: self.generation,
            mouse_position: self.mouse_position,
            gesture: self.gesture@,
        }
    }
}

impl TouchInput {
    /// The state of a thread that has seen nothing yet.
    pub fn new() -> (s: Self)
        ensures
            s@ == (InputView {
                touch: ResumeView::empty(),
                native: NativeView::empty(),
                generation: 0,
                mouse_position: None,
                gesture: no_gesture(),
            }),
    {
        TouchInput {
            touch: TouchResume::new(),
            native: NativeTouchResume::new(),
            generation: 0,
            mouse_position: None,
            gesture: TouchGesture::new(),
        }
    }

    /// The promoted-touch return record.
    pub fn touch_state(&self) -> (r: TouchResume)
        ensures
            r@ == self@.touch,
    {
        self.touch
    }

    /// The native-report return record.
    pub fn native_state(&self) -> (r: NativeTouchResume)
        ensures
            r@ == self@.native,
    {
        self.native
    }

    /// The current gesture.
    pub fn gesture_state(&self) -> (r: TouchGesture)
        ensures
            r@ == self@.gesture,
    {
        self.gesture
    }

    /// Replaces the promoted-touch return record.
    pub fn set_touch_state(&mut self, touch: TouchResume)
        ensures
            final(self)@ == (InputView { touch: touch@, ..old(self)@ }),
    {
        self.touch = touch;
    }

    /// Replaces the native-report return record.
    pub fn set_native_state(&mut self, native: NativeTouchResume)
        ensures
            final(self)@ == (InputView { native: native@, ..old(self)@ }),
    {
        self.native = native;
    }

    /// The last known mouse position, including the hook's own warps.
    pub fn mouse_position(&self) -> (r: Option<(i32, i32)>)
        ensures
            r == self@.mouse_position,
    {
        self.mouse_position
    }

    /// The generation this state belongs to.
    pub fn generation(&self) -> (r: u32)
        ensures
            r == self@.generation,
    {
        self.generation
    }

    /// Whether a different shared generation would discard this state (the
    /// host then reads the cursor for the reset).
    pub fn is_stale(&self, generation: u32) -> (r: bool)
        ensures
            r == (self@.generation != generation),
    {
        self.generation != generation
    }

    /// Forgets all touch state; the mouse position becomes the cursor's.
    pub fn reset(&mut self, cursor: Option<(i32, i32)>) -> (e: Vec<Effect>)
        ensures
            final(self)@ == old(self)@.reset_to(cursor),
            e@ == reset_effects(),
    {
        self.gesture = TouchGesture::new();
        self.touch = TouchResume::new();
        self.native = NativeTouchResume::new();
        self.mouse_position = cursor;
        vec![Effect::ResetMovement, Effect::ResetFocus]
    }

    /// Catches up with the shared generation; a new generation discards all
    /// touch state.
    pub fn sync_generation(&mut self, generation: u32, cursor: Option<(i32, i32)>) -> (e: Vec<Effect>)
        ensures
            (final(self)@, e@) == old(self)@.synced(generation, cursor),
    {
        if self.generation != generation {
            self.generation = generation;
            self.reset(cursor)
        } else {
            Vec::new()
        }
    }

    /// Forgets both pending returns.
    pub fn clear_pending(&mut self)
        ensures
            final(self)@ == old(self)@.cleared(),
    {
        self.touch = TouchResume::new();
        self.native = NativeTouchResume::new();
    }

    /// Records the mouse position after routing: the cursor's when the
    /// hook warped it, else the event's.
    pub fn record_mouse_position(&mut self, position: (i32, i32), warped: bool, cursor: Option<(i32, i32)>)
        ensures
            final(self)@ == (InputView {
                mouse_position: if warped {
                    cursor
                } else {
                    Some(position)
                },
                ..old(self)@
            }),
    {
        self.mouse_position = if warped {
            cursor
        } else {
            Some(position)
        };
    }

    /// Records a native touchscreen report (the cursor is suppressed by
    /// touch, so the saved mouse position, not the cursor, is the anchor).
    pub fn observe_native(&mut self, env: &HookEnv, policy: Option<&TouchPolicy>) -> (e: Vec<Effect>)
        ensures
            (final(self)@, e@) == old(self)@.observed_native(*env, policy_view(policy)),
    {
        let e = self.sync_generation(env.shared.touch_generation, env.cursor);
        if !env.shared.touch_active() || !env.shared.hooked {
            self.native = NativeTouchResume::new();
            return e;
        }
        let allowed = match policy {
            Some(p) => !modifier_held(p.override_modifier(), env.keys),
            None => false,
        };
        self.native.observe(self.mouse_position, allowed);
        e
    }

    /// A native touchscreen report arrived; `None` when the hook is not set up.
    pub fn on_native_touch(&mut self, env: Option<&HookEnv>, policy: Option<&TouchPolicy>) -> (e: Vec<Effect>)
        ensures
            match env {
                Some(v) => (final(self)@, e@) == old(self)@.observed_native(*v, policy_view(policy)),
                None => final(self)@ == old(self)@ && e@.len() == 0,
            },
    {
        match env {
            Some(v) => self.observe_native(v, policy),
            None => Vec::new(),
        }
    }

    /// Records a touch- (or, when enabled, pen-) promoted message.
    fn on_promoted_touch(
        &mut self,
        ev: &MouseEvent,
        env: &HookEnv,
        policy: Option<&TouchPolicy>,
        e: &mut Vec<Effect>,
    )
        ensures
            final(self)@ == old(self)@.promoted(*ev, *env, policy_view(policy)).0,
            final(e)@ == old(e)@ + old(self)@.promoted(*ev, *env, policy_view(policy)).1,
    {
        let ghost e0 = e@;
        e.push(Effect::CancelNativeFocus);
        self.native.promoted();
        let down = ev.message == WM_LBUTTONDOWN;
        let up = ev.message == WM_LBUTTONUP;
        let allowed = match policy {
            Some(p) => p.includes(ev.x, ev.y) && !modifier_held(p.override_modifier(), env.keys),
            None => false,
        };
        let accepted = self.gesture.accepts(allowed, down, up);
        if !accepted {
            e.push(Effect::ResetFocus);
            self.touch = TouchResume::new();
            self.mouse_position = Some((ev.x, ev.y));
            e.push(Effect::CountEvent);
            assert(e@ =~= e0 + seq![Effect::CancelNativeFocus, Effect::ResetFocus, Effect::CountEvent]);
            return;
        }
        let ghost e1 = e@;
        if !is_pen(ev.extra_info) || ev.message != WM_MOUSEMOVE || self.gesture.in_contact() {
            e.push(Effect::FocusOnTouch { message: ev.message, x: ev.x, y: ev.y, time: ev.time });
        }
        let cursor = self.mouse_position;
        self.touch.touch(cursor, down, up);
        e.push(Effect::CountEvent);
        let ghost focus = !has_pen_signature(ev.extra_info) || ev.message != WM_MOUSEMOVE
            || self@.gesture.contact;
        assert(e@ =~= e0 + (seq![Effect::CancelNativeFocus] + if focus {
            seq![Effect::FocusOnTouch { message: ev.message, x: ev.x, y: ev.y, time: ev.time }]
        } else {
            Seq::empty()
        } + seq![Effect::CountEvent]));
    }

    /// A physical or injected mouse event while the touch features are active.
    fn on_physical(&mut self, ev: &MouseEvent, env: &HookEnv, policy: Option<&TouchPolicy>, e: Vec<Effect>) -> (r: Step)
        ensures
            ({
                let s = old(self)@.physical(*ev, *env, policy_view(policy));
                &&& final(self)@ == s.state
                &&& r.effects@ == e@ + s.effects
                &&& r.verdict == s.verdict
                &&& warp_view(r.warp) == s.warp
            }),
    {
        let ghost e0 = e@;
        let mut e = e;
        let injected = ev.is_injected();
        let is_move = ev.message == WM_MOUSEMOVE;
        if !injected {
            e.push(Effect::CancelNativeFocus);
        }
        if !injected && env.shared.restore_keyboard_focus {
            e.push(Effect::FocusOnPhysicalInput { is_move, contact: self.gesture.in_contact() });
        }
        let ghost e1 = if !injected {
            seq![Effect::CancelNativeFocus]
        } else {
            Seq::empty()
        };
        let ghost e2 = if !injected && env.shared.restore_keyboard_focus {
            seq![Effect::FocusOnPhysicalInput { is_move, contact: self@.gesture.contact }]
        } else {
            Seq::empty()
        };
        assert(e@ =~= e0 + (e1 + e2));
        if injected && (self.touch.pending() || self.native.pending()) {
            return Step { effects: e, verdict: Verdict::PassThrough, warp: None };
        }
        if is_move {
            if self.touch.in_contact() {
                e.push(Effect::CountEvent);
                assert(e@ =~= e0 + (e1 + e2).push(Effect::CountEvent));
                return Step { effects: e, verdict: Verdict::PassThrough, warp: None };
            }
            let mut resumed = self.touch;
            let native_target = if self.native.pending() {
                let touched = match env.cursor {
                    Some(c) => c,
                    None => (ev.x, ev.y),
                };
                let selected = match policy {
                    Some(p) => p.includes(touched.0, touched.1),
                    None => false,
                };
                self.native.target(selected)
            } else {
                None
            };
            let target = match resumed.resume() {
                Some(t) => Some(t),
                None => native_target,
            };
            if let Some(t) = target {
                return Step {
                    effects: e,
                    verdict: Verdict::Consume,
                    warp: Some(Warp { target: t, resumed }),
                };
            }
            self.native = NativeTouchResume::new();
        } else {
            self.touch = TouchResume::new();
            self.native = NativeTouchResume::new();
            self.mouse_position = Some((ev.x, ev.y));
        }
        Step { effects: e, verdict: Verdict::Route, warp: None }
    }

    /// Decides one low-level mouse event with the shared state at hand:
    /// `Route` continues monitor routing; the other verdicts pass the event
    /// through or swallow it.
    pub fn process_with_shared(&mut self, ev: &MouseEvent, env: &HookEnv, policy: Option<&TouchPolicy>) -> (r: Step)
        ensures
            ({
                let s = old(self)@.step(*ev, *env, policy_view(policy));
                &&& final(self)@ == s.state
                &&& r.effects@ == s.effects
                &&& r.verdict == s.verdict
                &&& warp_view(r.warp) == s.warp
            }),
    {
        let mut e = self.sync_generation(env.shared.touch_generation, env.cursor);
        if !env.shared.touch_active() {
            self.clear_pending();
            return Step { effects: e, verdict: Verdict::Route, warp: None };
        }
        let stylus = match policy {
            Some(p) => p.stylus_included(),
            None => false,
        };
        if is_touch(ev.extra_info) || (is_pen(ev.extra_info) && stylus) {
            self.on_promoted_touch(ev, env, policy, &mut e);
            return Step { effects: e, verdict: Verdict::PassThrough, warp: None };
        }
        if is_pen(ev.extra_info) {
            self.native = NativeTouchResume::new();
            self.gesture = TouchGesture::new();
            e.push(Effect::ResetFocus);
            self.touch = TouchResume::new();
            self.mouse_position = Some((ev.x, ev.y));
            return Step { effects: e, verdict: Verdict::PassThrough, warp: None };
        }
        self.on_physical(ev, env, policy, e)
    }

    /// Decides one low-level mouse event; without shared state (`None`) the
    /// event goes to monitor routing untouched.
    pub fn process(&mut self, ev: &MouseEvent, env: Option<&HookEnv>, policy: Option<&TouchPolicy>) -> (r: Step)
        ensures
            match env {
                Some(v) => {
                    let s = old(self)@.step(*ev, *v, policy_view(policy));
                    &&& final(self)@ == s.state
                    &&& r.effects@ == s.effects
                    &&& r.verdict == s.verdict
                    &&& warp_view(r.warp) == s.warp
                },
                None => final(self)@ == old(self)@ && r.effects@.len() == 0 && r.verdict
                    == Verdict::Route && r.warp is None,
            },
    {
        match env {
            Some(v) => self.process_with_shared(ev, v, policy),
            None => Step { effects: Vec::new(), verdict: Verdict::Route, warp: None },
        }
    }

    /// Completes a return handed out by `process`, given where the pointer
    /// actually landed (`None`: the warp could not be made, for instance
    /// because the routing engine was busy; the return stays pending).
    pub fn finish_warp(&mut self, warp: Warp, actual: Option<(i32, i32)>) -> (e: Vec<Effect>)
        ensures
            (final(self)@, e@) == old(self)@.warped(warp@, actual),
    {
        match actual {
            Some(a) => {
                self.touch = warp.resumed;
                self.native = NativeTouchResume::new();
                self.mouse_position = Some(a);
                vec![Effect::ResetMovement, Effect::CountEvent]
            },
            None => vec![Effect::CountEvent],
        }
    }

    /// What to do with a native contact-count report.
    pub fn on_native_contact(&self, set_up: bool) -> (r: NativeContact)
        ensures
            r == if !set_up {
                NativeContact::Ignore
            } else if !self@.native.pending() {
                NativeContact::Cancel
            } else {
                NativeContact::Forward
            },
    {
        if !set_up {
            NativeContact::Ignore
        } else if !self.native.pending() {
            NativeContact::Cancel
        } else {
            NativeContact::Forward
        }
    }

    /// After all fingers were released: finish native focus restoration at
    /// the cursor if a native return is pending there, else cancel it.
    pub fn finish_native_focus(&mut self, env: Option<&HookEnv>, policy: Option<&TouchPolicy>) -> (e: Vec<Effect>)
        ensures
            match env {
                None => final(self)@ == old(self)@ && e@.len() == 0,
                Some(v) => {
                    let (s, sync) = old(self)@.synced(v.shared.touch_generation, v.cursor);
                    &&& final(self)@ == s
                    &&& e@ == sync.push(
                        match v.cursor {
                            Some(p) => if v.shared.active() && s.native.pending() && match policy_view(policy) {
                                Some(q) => q.includes(p.0, p.1),
                                None => false,
                            } {
                                Effect::FinishNativeFocus { x: p.0, y: p.1 }
                            } else {
                                Effect::CancelNativeFocus
                            },
                            None => Effect::CancelNativeFocus,
                        },
                    )
                },
            },
    {
        let v = match env {
            Some(v) => v,
            None => {
                return Vec::new();
            },
        };
        let mut e = self.sync_generation(v.shared.touch_generation, v.cursor);
        let allowed = v.shared.touch_active() && self.native.pending() && match v.cursor {
            Some(p) => match policy {
                Some(q) => q.includes(p.0, p.1),
                None => false,
            },
            None => false,
        };
        if allowed {
            let p = v.cursor.unwrap();
            e.push(Effect::FinishNativeFocus { x: p.0, y: p.1 });
        } else {
            e.push(Effect::CancelNativeFocus);
        }
        e
    }

    /// Whether a work-area change (an AppBar swipe) may skip the hook's
    /// teardown: only while a return is pending, the touch features and the
    /// hook are on, and the attached monitors (`None`: unknown) have exactly
    /// the bounds of the loaded layout (`None`: layout busy).
    pub fn preserve_work_area_return(
        &mut self,
        env: &HookEnv,
        monitors: Option<&Vec<Rect>>,
        layout: Option<&ZoneLayout>,
    ) -> (r: (Vec<Effect>, bool))
        ensures
            ({
                let (s, sync) = old(self)@.synced(env.shared.touch_generation, env.cursor);
                &&& final(self)@ == s
                &&& r.0@ == sync
                &&& r.1 == (env.shared.active() && env.shared.hooked && s.pending() && match monitors {
                    Some(m) => match layout {
                        Some(l) => layout_unchanged(*l, m@),
                        None => false,
                    },
                    None => false,
                })
            }),
    {
        let e = self.sync_generation(env.shared.touch_generation, env.cursor);
        if !env.shared.touch_active() || !env.shared.hooked || !(self.touch.pending()
            || self.native.pending()) {
            return (e, false);
        }
        let m = match monitors {
            Some(m) => m,
            None => {
                return (e, false);
            },
        };
        let l = match layout {
            Some(l) => l,
            None => {
                return (e, false);
            },
        };
        (e, zones_match(l, m))
    }

    /// `preserve_work_area_return`, or `false` when the hook is not set up.
    pub fn preserve_on_work_area_change(
        &mut self,
        env: Option<&HookEnv>,
        monitors: Option<&Vec<Rect>>,
        layout: Option<&ZoneLayout>,
    ) -> (r: (Vec<Effect>, bool))
        ensures
            match env {
                None => final(self)@ == old(self)@ && r.0@.len() == 0 && !r.1,
                Some(v) => {
                    let (s, sync) = old(self)@.synced(v.shared.touch_generation, v.cursor);
                    &&& final(self)@ == s
                    &&& r.0@ == sync
                    &&& r.1 == (v.shared.active() && v.shared.hooked && s.pending() && match monitors {
                        Some(m) => match layout {
                            Some(l) => layout_unchanged(*l, m@),
                            None => false,
                        },
                        None => false,
                    })
                },
            },
    {
        match env {
            Some(v) => self.preserve_work_area_return(v, monitors, layout),
            None => (Vec::new(), false),
        }
    }
}

/// Whether `layout` still matches the attached `monitors`.
fn zones_match(layout: &ZoneLayout, monitors: &Vec<Rect>) -> (r: bool)
    ensures
        r == layout_unchanged(*layout, monitors@),
{
    broadcast use vstd::seq_lib::group_to_multiset_ensures;

    if layout.virtual_layout || monitors.len() == 0 {
        return false;
    }
    let zones = &layout.main_zones;
    let mut rest: Vec<Rect> = Vec::new();
    let mut j: usize = 0;
    while j < monitors.len()
        invariant
            j <= monitors.len(),
            rest@ == monitors@.take(j as int),
        decreases monitors.len() - j,
    {
        rest.push(monitors[j]);
        j = j + 1;
        assert(rest@ =~= monitors@.take(j as int));
    }
    assert(rest@ =~= monitors@);
    assert(zones@.take(0) =~= Seq::<Rect>::empty());
    let mut i: usize = 0;
    while i < zones.len()
        invariant
            i <= zones@.len(),
            zones@ == layout.main_zones@,
            zones@.take(i as int).to_multiset().add(rest@.to_multiset()) == monitors@.to_multiset(),
        decreases zones.len() - i,
    {
        let zone = zones[i];
        let mut k: usize = 0;
        while k < rest.len() && rest[k] != zone
            invariant
                k <= rest@.len(),
                forall|m: int| 0 <= m < k ==> rest@[m] != zone,
            decreases rest.len() - k,
        {
            k = k + 1;
        }
        if k == rest.len() {
            proof {
                broadcast use vstd::seq_lib::group_to_multiset_ensures;

                assert(!rest@.contains(zone));
                let pre = zones@.take(i as int);
                let post = zones@.skip(i as int);
                assert(zones@ =~= pre + post);
                lemma_multiset_concat(pre, post);
                assert(post[0] == zone);
                assert(post.contains(zone));
                if zones@.to_multiset() == monitors@.to_multiset() {
                    assert(pre.to_multiset().add(post.to_multiset()).count(zone) == pre.to_multiset().add(
                        rest@.to_multiset(),
                    ).count(zone));
                    assert(post.to_multiset().count(zone) > 0);
                    assert(rest@.to_multiset().count(zone) == 0);
                    assert(false);
                }
            }
            return false;
        }
        let ghost before = rest@;
        rest.remove(k);
        proof {
            broadcast use vstd::seq_lib::group_to_multiset_ensures;

            assert(zones@.take(i + 1) =~= zones@.take(i as int).push(zone));
            assert(before[k as int] == zone);
            assert(rest@ == before.remove(k as int));
            assert(rest@.to_multiset() == before.to_multiset().remove(zone));
            assert(before.contains(zone));
            assert(before.to_multiset().count(zone) > 0);
            assert(zones@.take(i + 1).to_multiset().add(rest@.to_multiset()) =~= zones@.take(
                i as int,
            ).to_multiset().add(before.to_multiset()));
        }
        i = i + 1;
    }
    assert(zones@.take(zones@.len() as int) =~= zones@);
    assert(zones@.to_multiset().len() + rest@.to_multiset().len() == monitors@.to_multiset().len());
    if rest.len() == 0 {
        assert(rest@.to_multiset() =~= Multiset::<Rect>::empty());
        assert(zones@.to_multiset() =~= monitors@.to_multiset());
        true
    } else {
        assert(zones@.to_multiset().len() < monitors@.to_multiset().len());
        false
    }
}


/// A physical or injected mouse event: no touch or pen signature.
pub open spec fn is_mouse_input(ev: MouseEvent) -> bool {
    !has_touch_signature(ev.extra_info) && !has_pen_signature(ev.extra_info)
}

/// Injected mouse events neither trigger nor consume a pending return: the
/// state is left as it is and the event passes through.
pub proof fn lemma_injected_keeps_return(s: InputView, ev: MouseEvent, env: HookEnv, policy: Option<PolicyView>)
    requires
        is_mouse_input(ev),
        ev.injected(),
        env.shared.active(),
        s.generation == env.shared.touch_generation,
        s.pending(),
    ensures
        s.step(ev, env, policy).state == s,
        s.step(ev, env, policy).verdict == Verdict::PassThrough,
        s.step(ev, env, policy).warp is None,
{
}

/// A physical click or wheel event takes ownership at the current position:
/// both returns are cancelled and the event goes to routing.
pub proof fn lemma_click_cancels_return(s: InputView, ev: MouseEvent, env: HookEnv, policy: Option<PolicyView>)
    requires
        is_mouse_input(ev),
        !ev.injected(),
        ev.message != WM_MOUSEMOVE,
        env.shared.active(),
    ensures
        !s.step(ev, env, policy).state.pending(),
        s.step(ev, env, policy).state.mouse_position == Some((ev.x, ev.y)),
        s.step(ev, env, policy).verdict == Verdict::Route,
        s.step(ev, env, policy).warp is None,
{
}

/// Pen input cancels restoration unless the stylus is included.
pub proof fn lemma_pen_cancels_return(s: InputView, ev: MouseEvent, env: HookEnv, policy: Option<PolicyView>)
    requires
        has_pen_signature(ev.extra_info),
        !has_touch_signature(ev.extra_info),
        env.shared.active(),
        match policy {
            Some(p) => !p.include_stylus,
            None => true,
        },
    ensures
        !s.step(ev, env, policy).state.pending(),
        s.step(ev, env, policy).verdict == Verdict::PassThrough,
{
}

/// Touch-promoted messages pass through without monitor routing.
pub proof fn lemma_touch_passes_through(s: InputView, ev: MouseEvent, env: HookEnv, policy: Option<PolicyView>)
    requires
        has_touch_signature(ev.extra_info),
        env.shared.active(),
    ensures
        s.step(ev, env, policy).verdict == Verdict::PassThrough,
        s.step(ev, env, policy).warp is None,
{
}

/// With the touch features off (disabled, paused, suspended, hook not
/// wanted) no return stays pending and every event goes to routing.
pub proof fn lemma_inactive_discards_return(s: InputView, ev: MouseEvent, env: HookEnv, policy: Option<PolicyView>)
    requires
        !env.shared.active(),
    ensures
        !s.step(ev, env, policy).state.pending(),
        s.step(ev, env, policy).verdict == Verdict::Route,
        s.step(ev, env, policy).warp is None,
{
}

/// A reload (a new generation) discards pending returns and the gesture, and
/// the mouse position becomes the cursor's.
pub proof fn lemma_reload_discards_return(s: InputView, generation: u32, cursor: Option<(i32, i32)>)
    requires
        s.generation != generation,
    ensures
        !s.synced(generation, cursor).0.pending(),
        s.synced(generation, cursor).0.generation == generation,
        s.synced(generation, cursor).0.mouse_position == cursor,
        s.synced(generation, cursor).0.gesture == no_gesture(),
        s.synced(generation, cursor).1 == reset_effects(),
{
}

/// A touch drag delays restoration until its release: a physical move while
/// in contact is passed through and changes nothing.
pub proof fn lemma_drag_delays_return(s: InputView, ev: MouseEvent, env: HookEnv, policy: Option<PolicyView>)
    requires
        is_mouse_input(ev),
        !ev.injected(),
        ev.message == WM_MOUSEMOVE,
        env.shared.active(),
        s.generation == env.shared.touch_generation,
        s.touch.contact,
    ensures
        s.step(ev, env, policy).state == s,
        s.step(ev, env, policy).verdict == Verdict::PassThrough,
        s.step(ev, env, policy).warp is None,
{
}

/// The first physical move after a touch is consumed to return the pointer
/// to the saved mouse position; the return stays pending during the warp and
/// is cleared once the warp completes.
pub proof fn lemma_first_move_returns(
    s: InputView,
    ev: MouseEvent,
    env: HookEnv,
    policy: Option<PolicyView>,
    actual: (i32, i32),
)
    requires
        is_mouse_input(ev),
        !ev.injected(),
        ev.message == WM_MOUSEMOVE,
        env.shared.active(),
        s.generation == env.shared.touch_generation,
        !s.touch.contact,
        s.touch.pending(),
    ensures
        s.step(ev, env, policy).verdict == Verdict::Consume,
        s.step(ev, env, policy).state == s,
        s.step(ev, env, policy).warp matches Some(w) && w.target == s.touch.anchor.unwrap() && {
            let done = s.warped(w, Some(actual)).0;
            &&& !done.pending()
            &&& done.mouse_position == Some(actual)
        },
{
}

/// A return that could not be performed (the routing engine was busy) stays
/// pending with the same anchor.
pub proof fn lemma_busy_engine_keeps_return(s: InputView, w: WarpView)
    ensures
        s.warped(w, None).0 == s,
        s.warped(w, None).1 == seq![Effect::CountEvent],
{
}


/// Pen hover keeps the mouse anchor but never triggers focus restoration:
/// an accepted pen move without contact tells focus restoration nothing.
pub proof fn lemma_pen_hover_leaves_focus_alone(s: InputView, ev: MouseEvent, env: HookEnv, policy: Option<PolicyView>)
    requires
        has_pen_signature(ev.extra_info),
        !has_touch_signature(ev.extra_info),
        ev.message == WM_MOUSEMOVE,
        !s.gesture.contact,
    ensures
        s.promoted(ev, env, policy).1 == seq![Effect::CancelNativeFocus, Effect::CountEvent]
            || s.promoted(ev, env, policy).1 == seq![
            Effect::CancelNativeFocus,
            Effect::ResetFocus,
            Effect::CountEvent,
        ],
{
    assert(seq![Effect::CancelNativeFocus] + Seq::<Effect>::empty() + seq![Effect::CountEvent]
        =~= seq![Effect::CancelNativeFocus, Effect::CountEvent]);
}

/// The display of a native touch is checked when the mouse resumes: when
/// the cursor shows the touch landed outside the selected displays, no
/// return is made and the native request is dropped.
pub proof fn lemma_native_return_needs_selected_display(
    s: InputView,
    ev: MouseEvent,
    env: HookEnv,
    p: PolicyView,
    c: (i32, i32),
)
    requires
        is_mouse_input(ev),
        !ev.injected(),
        ev.message == WM_MOUSEMOVE,
        env.shared.active(),
        s.generation == env.shared.touch_generation,
        !s.touch.contact,
        !s.touch.pending(),
        env.cursor == Some(c),
        !p.includes(c.0, c.1),
    ensures
        s.step(ev, env, Some(p)).verdict == Verdict::Route,
        s.step(ev, env, Some(p)).warp is None,
        !s.step(ev, env, Some(p)).state.native.pending(),
{
}


/// The state after a sequence of events, none of which performs a return.
pub open spec fn run(s: InputView, evs: Seq<MouseEvent>, env: HookEnv, policy: Option<PolicyView>) -> InputView
    decreases evs.len(),
{
    if evs.len() == 0 {
        s
    } else {
        run(s, evs.drop_last(), env, policy).step(evs.last(), env, policy).state
    }
}

/// A touch-promoted message that the gesture in state `g` accepts.
pub open spec fn tap_accepted(g: GestureView, ev: MouseEvent, env: HookEnv, policy: Option<PolicyView>) -> bool {
    &&& has_touch_signature(ev.extra_info)
    &&& g.accept(
        allowed_at(policy, ev.x, ev.y, env),
        ev.message == WM_LBUTTONDOWN,
        ev.message == WM_LBUTTONUP,
    ).1
}

/// Every event, starting from `s`, is a touch-promoted message that the
/// gesture accepts when it arrives (whether or not it lands where the
/// touch features are allowed: a drag may end on an unselected display).
pub open spec fn accepted_taps(s: InputView, evs: Seq<MouseEvent>, env: HookEnv, policy: Option<PolicyView>) -> bool {
    forall|i: int|
        0 <= i < evs.len() ==> tap_accepted(
            run(s, evs.take(i), env, policy).gesture,
            #[trigger] evs[i],
            env,
            policy,
        )
}

/// Through accepted taps the saved position is the mouse position before the
/// first tap, and a final release ends contact.
proof fn lemma_taps_keep_start(
    s: InputView,
    taps: Seq<MouseEvent>,
    env: HookEnv,
    policy: Option<PolicyView>,
    a: (i32, i32),
)
    requires
        env.shared.active(),
        s.generation == env.shared.touch_generation,
        s.mouse_position == Some(a),
        !s.touch.pending(),
        accepted_taps(s, taps, env, policy),
    ensures
        run(s, taps, env, policy).generation == s.generation,
        run(s, taps, env, policy).mouse_position == Some(a),
        taps.len() == 0 ==> !run(s, taps, env, policy).touch.pending(),
        taps.len() > 0 ==> run(s, taps, env, policy).touch.anchor == Some(a),
        taps.len() > 0 && taps.last().message == WM_LBUTTONUP ==> !run(s, taps, env, policy).touch.contact,
    decreases taps.len(),
{
    if taps.len() > 0 {
        let rest = taps.drop_last();
        assert forall|i: int| 0 <= i < rest.len() implies tap_accepted(
            run(s, rest.take(i), env, policy).gesture,
            #[trigger] rest[i],
            env,
            policy,
        ) by {
            assert(rest[i] == taps[i]);
            assert(rest.take(i) =~= taps.take(i));
        }
        lemma_taps_keep_start(s, rest, env, policy, a);
        let n = taps.len() - 1;
        assert(taps.take(n) =~= rest);
        assert(tap_accepted(run(s, taps.take(n), env, policy).gesture, taps[n], env, policy));
    }
}

/// However many accepted taps happened, the first physical move afterwards returns
/// the pointer to the mouse position from before the first tap; once that
/// return is done, the next physical move goes to routing with no second
/// return.
pub proof fn lemma_taps_then_move_return_to_start(
    s: InputView,
    taps: Seq<MouseEvent>,
    mv: MouseEvent,
    next: MouseEvent,
    env: HookEnv,
    policy: Option<PolicyView>,
    a: (i32, i32),
    actual: (i32, i32),
)
    requires
        env.shared.active(),
        s.generation == env.shared.touch_generation,
        s.mouse_position == Some(a),
        !s.touch.pending(),
        taps.len() > 0,
        accepted_taps(s, taps, env, policy),
        taps.last().message == WM_LBUTTONUP,
        is_mouse_input(mv),
        !mv.injected(),
        mv.message == WM_MOUSEMOVE,
        is_mouse_input(next),
        !next.injected(),
        next.message == WM_MOUSEMOVE,
    ensures
        ({
            let t = run(s, taps, env, policy);
            let r = t.step(mv, env, policy);
            &&& r.verdict == Verdict::Consume
            &&& r.warp matches Some(w) && w.target == a && {
                let done = r.state.warped(w, Some(actual)).0;
                &&& !done.pending()
                &&& done.step(next, env, policy).verdict == Verdict::Route
                &&& done.step(next, env, policy).warp is None
            }
        }),
{
    lemma_taps_keep_start(s, taps, env, policy, a);
    let t = run(s, taps, env, policy);
    lemma_first_move_returns(t, mv, env, policy, actual);
}


/// An accepted promoted message that is neither a press nor a release
/// leaves the finger as it was (down during a drag) and keeps the saved
/// position.
pub proof fn lemma_promoted_move_keeps_contact(
    s: InputView,
    ev: MouseEvent,
    env: HookEnv,
    policy: Option<PolicyView>,
)
    requires
        has_touch_signature(ev.extra_info),
        ev.message != WM_LBUTTONDOWN,
        ev.message != WM_LBUTTONUP,
        env.shared.active(),
        s.generation == env.shared.touch_generation,
        tap_accepted(s.gesture, ev, env, policy),
    ensures
        s.step(ev, env, policy).state.touch.contact == s.touch.contact,
        s.step(ev, env, policy).state.touch.anchor == s.touch.touched(s.mouse_position, false, false).anchor,
{
}

/// After an accepted press, the finger is down: a physical move before the
/// release passes through with no return, whatever promoted moves came between.
pub proof fn lemma_drag_passes_physical_moves(
    s: InputView,
    press: MouseEvent,
    moves: Seq<MouseEvent>,
    mv: MouseEvent,
    env: HookEnv,
    policy: Option<PolicyView>,
)
    requires
        has_touch_signature(press.extra_info),
        press.message == WM_LBUTTONDOWN,
        env.shared.active(),
        s.generation == env.shared.touch_generation,
        tap_accepted(s.gesture, press, env, policy),
        accepted_taps(s.step(press, env, policy).state, moves, env, policy),
        forall|i: int| 0 <= i < moves.len() ==> (#[trigger] moves[i]).message != WM_LBUTTONDOWN
            && moves[i].message != WM_LBUTTONUP,
        is_mouse_input(mv),
        !mv.injected(),
        mv.message == WM_MOUSEMOVE,
    ensures
        ({
            let t = run(s.step(press, env, policy).state, moves, env, policy);
            &&& t.touch.contact
            &&& t.step(mv, env, policy).verdict == Verdict::PassThrough
            &&& t.step(mv, env, policy).warp is None
        }),
{
    lemma_drag_contact(s.step(press, env, policy).state, moves, env, policy);
}

/// Accepted promoted moves keep contact and the generation.
proof fn lemma_drag_contact(s: InputView, moves: Seq<MouseEvent>, env: HookEnv, policy: Option<PolicyView>)
    requires
        env.shared.active(),
        s.generation == env.shared.touch_generation,
        s.touch.contact,
        accepted_taps(s, moves, env, policy),
        forall|i: int| 0 <= i < moves.len() ==> (#[trigger] moves[i]).message != WM_LBUTTONDOWN
            && moves[i].message != WM_LBUTTONUP,
    ensures
        run(s, moves, env, policy).touch.contact,
        run(s, moves, env, policy).generation == s.generation,
    decreases moves.len(),
{
    if moves.len() > 0 {
        let rest = moves.drop_last();
        assert forall|i: int| 0 <= i < rest.len() implies tap_accepted(
            run(s, rest.take(i), env, policy).gesture,
            #[trigger] rest[i],
            env,
            policy,
        ) by {
            assert(rest[i] == moves[i]);
            assert(rest.take(i) =~= moves.take(i));
        }
        assert forall|i: int| 0 <= i < rest.len() implies (#[trigger] rest[i]).message != WM_LBUTTONDOWN
            && rest[i].message != WM_LBUTTONUP by {
            assert(rest[i] == moves[i]);
        }
        lemma_drag_contact(s, rest, env, policy);
        let n = moves.len() - 1;
        assert(moves.take(n) =~= rest);
        assert(tap_accepted(run(s, moves.take(n), env, policy).gesture, moves[n], env, policy));
        assert(moves[n].message != WM_LBUTTONDOWN && moves[n].message != WM_LBUTTONUP);
    }
}

} // verus!
