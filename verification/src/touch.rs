//! Touch and pen recognition, and the two records of a pending return of the
//! mouse pointer: one fed by touch-promoted mouse messages, one by native
//! touchscreen reports.
use vstd::prelude::*;

verus! {

/// The mask that isolates the signature Windows puts in the extra
/// information of touch- and pen-promoted mouse messages.
pub const SIGNATURE_MASK: usize = 0xFFFF_FF00;

/// The signature of touch- and pen-promoted mouse messages.
pub const PEN_OR_TOUCH_SIGNATURE: usize = 0xFF51_5700;

/// The bit that marks a promoted message as coming from touch, not a pen.
pub const TOUCH_BIT: usize = 0x80;

/// Whether a mouse message's extra information carries the pen/touch signature.
pub open spec fn has_pen_signature(extra: usize) -> bool {
    extra & SIGNATURE_MASK == PEN_OR_TOUCH_SIGNATURE
}

/// Whether a mouse message was promoted from touch input.
pub open spec fn has_touch_signature(extra: usize) -> bool {
    has_pen_signature(extra) && extra & TOUCH_BIT != 0
}

/// Whether a mouse message carries the pen/touch signature (touch messages
/// carry it too, so test for touch first).
pub fn is_pen(extra: usize) -> (r: bool)
    ensures
        r == has_pen_signature(extra),
{
    extra & SIGNATURE_MASK == PEN_OR_TOUCH_SIGNATURE
}

/// Whether a mouse message was promoted from touch input.
pub fn is_touch(extra: usize) -> (r: bool)
    ensures
        r == has_touch_signature(extra),
{
    extra & SIGNATURE_MASK == PEN_OR_TOUCH_SIGNATURE && extra & TOUCH_BIT != 0
}

/// The abstract state of the return fed by promoted touch messages.
pub struct ResumeView {
    /// The mouse position saved at the first touch of a burst.
    pub anchor: Option<(i32, i32)>,
    /// A finger (or pen) is down.
    pub contact: bool,
}

impl ResumeView {
    /// Nothing saved, nothing down.
    pub open spec fn empty() -> ResumeView {
        ResumeView { anchor: None, contact: false }
    }

    /// A return is pending.
    pub open spec fn pending(self) -> bool {
        self.anchor is Some
    }

    /// After one promoted message with the last mouse position `cursor`: the
    /// first saved position is kept through repeated taps; a press starts
    /// contact and a release ends it.
    pub open spec fn touched(self, cursor: Option<(i32, i32)>, down: bool, up: bool) -> ResumeView {
        ResumeView {
            anchor: if self.anchor is Some {
                self.anchor
            } else {
                cursor
            },
            contact: if up {
                false
            } else if down {
                true
            } else {
                self.contact
            },
        }
    }

    /// After the saved position was handed out.
    pub open spec fn resumed(self) -> ResumeView {
        ResumeView { anchor: None, contact: self.contact }
    }
}

/// The return fed by promoted touch messages.
#[derive(Clone, Copy, Debug)]
pub struct TouchResume {
    anchor: Option<(i32, i32)>,
    contact: bool,
}

impl View for TouchResume {
    type V = ResumeView;

    closed spec fn view(&self) -> ResumeView {
        ResumeView { anchor: self.anchor, contact: self.contact }
    }
}

impl TouchResume {
    /// Nothing saved, nothing down.
    pub fn new() -> (r: Self)
        ensures
            r@ == ResumeView::empty(),
    {
        TouchResume { anchor: None, contact: false }
    }

    /// Records one promoted message, given the last mouse position.
    pub fn touch(&mut self, cursor: Option<(i32, i32)>, down: bool, up: bool)
        ensures
            final(self)@ == old(self)@.touched(cursor, down, up),
    {
        if self.anchor.is_none() {
            self.anchor = cursor;
        }
        if down {
            self.contact = true;
        }
        if up {
            self.contact = false;
        }
    }

    /// A return is pending.
    pub fn pending(&self) -> (r: bool)
        ensures
            r == self@.pending(),
    {
        self.anchor.is_some()
    }

    /// The saved position, if any.
    pub fn anchor(&self) -> (r: Option<(i32, i32)>)
        ensures
            r == self@.anchor,
    {
        self.anchor
    }

    /// A finger is down.
    pub fn in_contact(&self) -> (r: bool)
        ensures
            r == self@.contact,
    {
        self.contact
    }

    /// Hands out the saved position, if any, and forgets it.
    pub fn resume(&mut self) -> (r: Option<(i32, i32)>)
        ensures
            r == old(self)@.anchor,
            final(self)@ == old(self)@.resumed(),
    {
        let r = self.anchor;
        self.anchor = None;
        r
    }
}

impl Default for TouchResume {
    fn default() -> (r: Self)
        ensures
            r@ == ResumeView::empty(),
    {
        TouchResume::new()
    }
}

/// The abstract state of the return fed by native touchscreen reports.
pub struct NativeView {
    /// The mouse position saved at the first report of a burst.
    pub anchor: Option<(i32, i32)>,
    /// The override key was seen during this burst: nothing is saved until reset.
    pub bypass: bool,
    /// Promoted mouse messages arrived: they own this burst.
    pub promoted: bool,
}

impl NativeView {
    /// Nothing saved, nothing seen.
    pub open spec fn empty() -> NativeView {
        NativeView { anchor: None, bypass: false, promoted: false }
    }

    /// A return is pending.
    pub open spec fn pending(self) -> bool {
        self.anchor is Some
    }

    /// A burst owned by promoted messages holds no anchor of its own.
    pub open spec fn wf(self) -> bool {
        self.promoted ==> self.anchor is None
    }

    /// After a native report, given the last mouse position and whether the
    /// touch features are allowed now (no override key held). Promoted
    /// messages own the burst; an override cancels it; otherwise the first
    /// saved position is kept.
    pub open spec fn observed(self, position: Option<(i32, i32)>, allowed: bool) -> NativeView {
        if self.promoted {
            self
        } else if !allowed {
            NativeView { anchor: None, bypass: true, promoted: false }
        } else if self.bypass || self.anchor is Some {
            self
        } else {
            NativeView { anchor: position, bypass: false, promoted: false }
        }
    }

    /// After a promoted message arrived.
    pub open spec fn after_promoted(self) -> NativeView {
        NativeView { anchor: None, bypass: self.bypass, promoted: true }
    }

    /// Where to return when the touched display is `selected` or not.
    pub open spec fn target(self, selected: bool) -> Option<(i32, i32)> {
        if selected {
            self.anchor
        } else {
            None
        }
    }
}

/// The return fed by native touchscreen reports.
#[derive(Clone, Copy, Debug)]
pub struct NativeTouchResume {
    anchor: Option<(i32, i32)>,
    bypass: bool,
    promoted: bool,
}

impl View for NativeTouchResume {
    type V = NativeView;

    closed spec fn view(&self) -> NativeView {
        NativeView { anchor: self.anchor, bypass: self.bypass, promoted: self.promoted }
    }
}

impl NativeTouchResume {
    /// A burst owned by promoted messages holds no anchor of its own.
    #[verifier::type_invariant]
    spec fn inv(self) -> bool {
        self.promoted ==> self.anchor is None
    }

    /// Every record is well formed.
    pub fn well_formed(&self)
        ensures
            self@.wf(),
    {
        proof {
            use_type_invariant(self);
        }
    }

    /// Nothing saved, nothing seen.
    pub fn new() -> (r: Self)
        ensures
            r@ == NativeView::empty(),
            r@.wf(),
    {
        NativeTouchResume { anchor: None, bypass: false, promoted: false }
    }

    /// Records a native touchscreen report.
    pub fn observe(&mut self, position: Option<(i32, i32)>, allowed: bool)
        ensures
            final(self)@ == old(self)@.observed(position, allowed),
            final(self)@.wf(),
    {
        proof {
            use_type_invariant(&*self);
        }
        if self.promoted {
        } else if !allowed {
            self.anchor = None;
            self.bypass = true;
        } else if !self.bypass && self.anchor.is_none() {
            self.anchor = position;
        }
    }

    /// Records that promoted mouse messages arrived for this burst.
    pub fn promoted(&mut self)
        ensures
            final(self)@ == old(self)@.after_promoted(),
            final(self)@.wf(),
    {
        self.anchor = None;
        self.promoted = true;
    }

    /// A return is pending.
    pub fn pending(&self) -> (r: bool)
        ensures
            r == self@.pending(),
    {
        self.anchor.is_some()
    }

    /// Where to return when the touched display is `selected` or not.
    pub fn target(&self, selected: bool) -> (r: Option<(i32, i32)>)
        ensures
            r == self@.target(selected),
    {
        if selected {
            self.anchor
        } else {
            None
        }
    }
}

impl Default for NativeTouchResume {
    fn default() -> (r: Self)
        ensures
            r@ == NativeView::empty(),
    {
        NativeTouchResume::new()
    }
}


/// Repeated taps keep the position saved at the first one.
pub proof fn lemma_repeated_taps_keep_anchor(
    r: ResumeView,
    cursor: Option<(i32, i32)>,
    down: bool,
    up: bool,
)
    requires
        r.pending(),
    ensures
        r.touched(cursor, down, up).anchor == r.anchor,
{
}

/// A return is handed out once: afterwards nothing is pending.
pub proof fn lemma_resume_once(r: ResumeView)
    ensures
        !r.resumed().pending(),
        r.resumed().contact == r.contact,
{
}

/// Seeing the override key cancels a native burst for good: no later report
/// of the burst makes a return pending again. (Every `NativeTouchResume` is
/// well formed: see `NativeTouchResume::well_formed`.)
pub proof fn lemma_override_cancels_native_burst(
    n: NativeView,
    position: Option<(i32, i32)>,
    later: Option<(i32, i32)>,
    allowed: bool,
)
    requires
        n.wf(),
    ensures
        !n.observed(position, false).pending(),
        !n.observed(position, false).observed(later, allowed).pending(),
{
}

/// Once promoted messages arrived for a burst, native reports of the same
/// burst never make a native return pending.
pub proof fn lemma_promoted_burst_owns_contact(n: NativeView, position: Option<(i32, i32)>, allowed: bool)
    ensures
        !n.after_promoted().pending(),
        !n.after_promoted().observed(position, allowed).pending(),
        n.after_promoted().observed(position, allowed).promoted,
{
}


/// A touch-promoted message is recognised by the documented signature
/// `0xFF515700` under the mask `0xFFFFFF00` with the touch bit `0x80` set;
/// a pen-or-touch message by the signature alone.
pub proof fn lemma_signature_bits(x: usize)
    ensures
        has_pen_signature(x) == (x & 0xFFFF_FF00usize == 0xFF51_5700usize),
        has_touch_signature(x) == (x & 0xFFFF_FF00usize == 0xFF51_5700usize && x & 0x80usize != 0),
{
}

/// The low seven bits of the extra information (the cursor id) never change
/// whether a message is recognised as pen or touch.
pub proof fn lemma_cursor_id_ignored(x: usize, y: usize)
    requires
        x & !0x7Fusize == y & !0x7Fusize,
    ensures
        has_touch_signature(x) == has_touch_signature(y),
        has_pen_signature(x) == has_pen_signature(y),
{
    assert((x & !0x7Fusize == y & !0x7Fusize) ==> ((x & 0xFFFF_FF00usize == 0xFF51_5700usize) == (y
        & 0xFFFF_FF00usize == 0xFF51_5700usize) && (x & 0x80usize != 0) == (y & 0x80usize != 0)))
        by (bit_vector);
}

/// A press starts contact, a release ends it (also when a message is both),
/// and any other promoted message leaves contact as it was.
pub proof fn lemma_contact_follows_press_and_release(r: ResumeView, cursor: Option<(i32, i32)>, down: bool, up: bool)
    ensures
        r.touched(cursor, false, false).contact == r.contact,
        r.touched(cursor, true, false).contact,
        !r.touched(cursor, down, true).contact,
{
}

} // verus!
