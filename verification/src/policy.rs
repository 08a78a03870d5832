//! Validated touchscreen policy, built when a layout is loaded, and the
//! per-gesture override state.
use vstd::prelude::*;
use crate::text::{
    chars_of, is_white, lemma_lower_trim_clean, last_piece, last_piece_of, lemma_split_nonempty, lower_all, lower_chars,
    same_chars, separates, split, split_chars, string_of, trim, trim_lower, Separators,
};


verus! {

/// The key that, held before a touch, bypasses the touch features for that gesture.
#[derive(Clone, Copy, Debug, PartialEq, Eq, Structural)]
pub enum Modifier {
    /// No override key (the setting "None").
    NoKey,
    Ctrl,
    Alt,
    Shift,
    Win,
}

/// Which modifier keys are down at the moment of an event.
#[derive(Clone, Copy, Debug, PartialEq, Eq, Structural)]
pub struct HeldKeys {
    pub ctrl: bool,
    pub alt: bool,
    pub shift: bool,
    pub left_win: bool,
    pub right_win: bool,
}

/// Whether the configured override modifier is held.
pub open spec fn is_held(modifier: Modifier, keys: HeldKeys) -> bool {
    match modifier {
        Modifier::NoKey => false,
        Modifier::Ctrl => keys.ctrl,
        Modifier::Alt => keys.alt,
        Modifier::Shift => keys.shift,
        Modifier::Win => keys.left_win || keys.right_win,
    }
}

/// Whether the configured override modifier is held, given the key states.
pub fn modifier_held(modifier: Modifier, keys: HeldKeys) -> (r: bool)
    ensures
        r == is_held(modifier, keys),
{
    match modifier {
        Modifier::NoKey => false,
        Modifier::Ctrl => keys.ctrl,
        Modifier::Alt => keys.alt,
        Modifier::Shift => keys.shift,
        Modifier::Win => keys.left_win || keys.right_win,
    }
}

/// The abstract state of a touch gesture.
pub struct GestureView {
    pub bypass: bool,
    pub contact: bool,
}

impl GestureView {
    /// One promoted touch message: the state after it and whether the touch
    /// features apply to it. The bypass decision is taken at finger-down, or
    /// while hovering without a bypass, and then holds for the whole gesture,
    /// including the trailing moves after finger-up.
    pub open spec fn accept(self, allowed: bool, down: bool, up: bool) -> (GestureView, bool) {
        let bypass = if !self.contact && (down || !self.bypass) {
            !allowed
        } else {
            self.bypass
        };
        let contact = if up {
            false
        } else if down {
            true
        } else {
            self.contact
        };
        (GestureView { bypass, contact }, !bypass)
    }
}

/// Keeps an override or unselected display bypassed for the entire gesture,
/// including trailing promoted moves after finger-up.
#[derive(Clone, Copy, Debug)]
pub struct TouchGesture {
    /// The touch features are bypassed for this gesture.
    pub bypass: bool,
    /// A finger or pen is on the surface.
    pub contact: bool,
}

impl View for TouchGesture {
    type V = GestureView;

    open spec fn view(&self) -> GestureView {
        GestureView { bypass: self.bypass, contact: self.contact }
    }
}

impl TouchGesture {
    /// No gesture in progress and nothing bypassed.
    pub fn new() -> (g: Self)
        ensures
            g@ == (GestureView { bypass: false, contact: false }),
    {
        TouchGesture { bypass: false, contact: false }
    }

    /// Whether a finger or pen is on the surface in this gesture.
    pub fn in_contact(&self) -> (r: bool)
        ensures
            r == self@.contact,
    {
        self.contact
    }

    /// Records one promoted touch message and says whether the touch features
    /// apply to it.
    pub fn accepts(&mut self, allowed: bool, down: bool, up: bool) -> (r: bool)
        ensures
            final(self)@ == old(self)@.accept(allowed, down, up).0,
            r == old(self)@.accept(allowed, down, up).1,
    {
        if !self.contact && (down || !self.bypass) {
            self.bypass = !allowed;
        }
        if down {
            self.contact = true;
        }
        if up {
            self.contact = false;
        }
        !self.bypass
    }
}

impl Default for TouchGesture {
    fn default() -> (g: Self)
        ensures
            g@ == (GestureView { bypass: false, contact: false }),
    {
        TouchGesture::new()
    }
}

/// A display rectangle selected for the touch features, in whole pixels:
/// a point is inside when `left <= x < right` and `top <= y < bottom`.
#[derive(Clone, Copy, Debug, PartialEq, Eq, Structural)]
pub struct DisplayBounds {
    pub left: i64,
    pub top: i64,
    pub right: i64,
    pub bottom: i64,
}

impl DisplayBounds {
    /// Whether the point lies inside the rectangle.
    pub open spec fn holds(self, x: i32, y: i32) -> bool {
        self.left <= x < self.right && self.top <= y < self.bottom
    }

    /// Whether the point lies inside the rectangle.
    pub fn contains(&self, x: i32, y: i32) -> (r: bool)
        ensures
            r == self.holds(x, y),
    {
        self.left <= x as i64 && (x as i64) < self.right && self.top <= y as i64 && (y as i64)
            < self.bottom
    }
}

/// The touch options of a loaded layout, as plain values.
pub struct TouchLayout {
    /// Requested focus-restoration delay in milliseconds, before validation.
    pub focus_restore_delay: i64,
    pub focus_restore_on_mouse_move: bool,
    pub touch_all_displays: bool,
    /// The selected displays' rectangles.
    pub touch_display_bounds: Vec<DisplayBounds>,
    /// The override key's name, such as `Shift`.
    pub touch_override_modifier: String,
    /// Executable names whose focus is never restored.
    pub focus_keep_apps: String,
    /// Executable names to which restoration is restricted.
    pub focus_restore_apps: String,
    pub stylus_mouse_independent: bool,
}

impl Default for TouchLayout {
    /// The options of a layout that sets none of them: all displays, 120 ms,
    /// restoration after finger-up, no override key, no app rules, no stylus.
    fn default() -> (l: Self)
        ensures
            l.focus_restore_delay == 120,
            !l.focus_restore_on_mouse_move,
            l.touch_all_displays,
            l.touch_display_bounds@.len() == 0,
            l.touch_override_modifier@ == seq!['N', 'o', 'n', 'e'],
            l.focus_keep_apps@.len() == 0,
            l.focus_restore_apps@.len() == 0,
            !l.stylus_mouse_independent,
    {
        let name = vec!['N', 'o', 'n', 'e'];
        TouchLayout {
            focus_restore_delay: 120,
            focus_restore_on_mouse_move: false,
            touch_all_displays: true,
            touch_display_bounds: Vec::new(),
            touch_override_modifier: string_of(&name),
            focus_keep_apps: String::new(),
            focus_restore_apps: String::new(),
            stylus_mouse_independent: false,
        }
    }
}

/// The focus-restoration delay, limited to 0..=5000 ms.
pub open spec fn delay_limit(v: i64) -> u64 {
    if v < 0 {
        0
    } else if v > 5000 {
        5000
    } else {
        v as u64
    }
}

/// The override key named by `s`, compared without ASCII case; any other
/// name means no override key.
pub open spec fn modifier_named(s: Seq<char>) -> Modifier {
    let l = lower_all(s);
    if l == seq!['c', 't', 'r', 'l'] {
        Modifier::Ctrl
    } else if l == seq!['a', 'l', 't'] {
        Modifier::Alt
    } else if l == seq!['s', 'h', 'i', 'f', 't'] {
        Modifier::Shift
    } else if l == seq!['w', 'i', 'n'] {
        Modifier::Win
    } else {
        Modifier::NoKey
    }
}

/// The application names that a list of pieces contributes: each piece is
/// trimmed, empty ones are dropped, and the rest are lower-cased.
pub open spec fn app_names(pieces: Seq<Seq<char>>) -> Seq<Seq<char>>
    decreases pieces.len(),
{
    if pieces.len() == 0 {
        Seq::empty()
    } else {
        let rest = app_names(pieces.drop_last());
        let t = trim(pieces.last());
        if t.len() > 0 {
            rest.push(lower_all(t))
        } else {
            rest
        }
    }
}

/// The application names of a `;`, CR or LF separated list.
pub open spec fn app_list(value: Seq<char>) -> Seq<Seq<char>> {
    app_names(split(value, Separators::AppList))
}

/// The views of a list of strings.
pub open spec fn names_view(v: Seq<String>) -> Seq<Seq<char>> {
    v.map_values(|s: String| s@)
}

/// The abstract touch policy.
pub struct PolicyView {
    pub delay_ms: u64,
    pub on_mouse_move: bool,
    pub all_displays: bool,
    pub bounds: Seq<DisplayBounds>,
    pub modifier: Modifier,
    pub include_stylus: bool,
    pub keep_apps: Seq<Seq<char>>,
    pub restore_apps: Seq<Seq<char>>,
}

impl PolicyView {
    /// Whether the touch features apply at a point.
    pub open spec fn includes(self, x: i32, y: i32) -> bool {
        self.all_displays || exists|i: int| 0 <= i < self.bounds.len() && #[trigger] self.bounds[i].holds(x, y)
    }

    /// The executable name of a process path: its last `\\` or `/` component,
    /// lower-cased.
    pub open spec fn app_name(path: Seq<char>) -> Seq<char> {
        lower_all(last_piece(path, Separators::Path))
    }

    /// Whether focus may be restored after touching a window of the process
    /// at `path` (`None` when the process could not be resolved). The keep
    /// list wins over the restore list; an empty restore list admits every
    /// application not kept; without any rule every process qualifies.
    pub open spec fn restores(self, path: Option<Seq<char>>) -> bool {
        if self.keep_apps.len() == 0 && self.restore_apps.len() == 0 {
            true
        } else {
            match path {
                Some(p) => {
                    let name = PolicyView::app_name(p);
                    !self.keep_apps.contains(name) && (self.restore_apps.len() == 0
                        || self.restore_apps.contains(name))
                },
                None => false,
            }
        }
    }
}

/// The policy that the layout's touch options describe.
pub open spec fn policy_of(layout: TouchLayout) -> PolicyView {
    PolicyView {
        delay_ms: delay_limit(layout.focus_restore_delay),
        on_mouse_move: layout.focus_restore_on_mouse_move,
        all_displays: layout.touch_all_displays,
        bounds: layout.touch_display_bounds@,
        modifier: modifier_named(layout.touch_override_modifier@),
        include_stylus: layout.stylus_mouse_independent,
        keep_apps: app_list(layout.focus_keep_apps@),
        restore_apps: app_list(layout.focus_restore_apps@),
    }
}

/// The view of a path that may be missing.
pub open spec fn path_view(path: Option<&str>) -> Option<Seq<char>> {
    match path {
        Some(p) => Some(p@),
        None => None,
    }
}

/// Validated touchscreen policy. Parsed on layout load, never in a mouse callback.
#[derive(Clone, Debug)]
pub struct TouchPolicy {
    pub delay_ms: u64,
    pub on_mouse_move: bool,
    pub all_displays: bool,
    pub bounds: Vec<DisplayBounds>,
    pub modifier: Modifier,
    pub include_stylus: bool,
    /// Executable names whose focus is never restored (trimmed, lower-case).
    pub keep_apps: Vec<String>,
    /// Executable names to which restoration is restricted (trimmed, lower-case).
    pub restore_apps: Vec<String>,
}

impl View for TouchPolicy {
    type V = PolicyView;

    open spec fn view(&self) -> PolicyView {
        PolicyView {
            delay_ms: self.delay_ms,
            on_mouse_move: self.on_mouse_move,
            all_displays: self.all_displays,
            bounds: self.bounds@,
            modifier: self.modifier,
            include_stylus: self.include_stylus,
            keep_apps: names_view(self.keep_apps@),
            restore_apps: names_view(self.restore_apps@),
        }
    }
}

/// The focus-restoration delay, limited to 0..=5000 ms.
pub fn delay_ms_of(v: i64) -> (r: u64)
    ensures
        r == delay_limit(v),
{
    if v < 0 {
        0
    } else if v > 5000 {
        5000
    } else {
        v as u64
    }
}

/// The override key named by `name`, compared without ASCII case.
pub fn modifier_of(name: &str) -> (r: Modifier)
    ensures
        r == modifier_named(name@),
{
    let l = lower_chars(&chars_of(name));
    let ctrl = ['c', 't', 'r', 'l'];
    let alt = ['a', 'l', 't'];
    let shift = ['s', 'h', 'i', 'f', 't'];
    let win = ['w', 'i', 'n'];
    assert(ctrl@ =~= seq!['c', 't', 'r', 'l']);
    assert(alt@ =~= seq!['a', 'l', 't']);
    assert(shift@ =~= seq!['s', 'h', 'i', 'f', 't']);
    assert(win@ =~= seq!['w', 'i', 'n']);
    if same_chars(&l, &ctrl) {
        Modifier::Ctrl
    } else if same_chars(&l, &alt) {
        Modifier::Alt
    } else if same_chars(&l, &shift) {
        Modifier::Shift
    } else if same_chars(&l, &win) {
        Modifier::Win
    } else {
        Modifier::NoKey
    }
}

/// Appends the name that one list piece contributes, if any.
fn push_app_name(names: &mut Vec<String>, piece: &Vec<char>)
    ensures
        names_view(final(names)@) == if trim(piece@).len() > 0 {
            names_view(old(names)@).push(lower_all(trim(piece@)))
        } else {
            names_view(old(names)@)
        },
{
    let t = trim_lower(piece);
    if t.len() > 0 {
        let name = string_of(&t);
        names.push(name);
        assert(names_view(names@) =~= names_view(old(names)@).push(lower_all(trim(piece@))));
    }
}

/// Exact executable names of a `;`, CR or LF separated list: trimmed,
/// without empty entries, lower-cased.
pub fn apps(value: &str) -> (r: Vec<String>)
    ensures
        names_view(r@) == app_list(value@),
{
    let s = chars_of(value);
    let k = Separators::AppList;
    let mut names: Vec<String> = Vec::new();
    let mut cur: Vec<char> = Vec::new();
    let mut i: usize = 0;
    proof {
        assert(s@.take(0) =~= Seq::<char>::empty());
        assert(split(s@.take(0), k).drop_last() =~= Seq::<Seq<char>>::empty());
        assert(names_view(names@) =~= Seq::<Seq<char>>::empty());
    }
    while i < s.len()
        invariant
            i <= s.len(),
            k == Separators::AppList,
            names_view(names@) == app_names(split(s@.take(i as int), k).drop_last()),
            cur@ == split(s@.take(i as int), k).last(),
        decreases s.len() - i,
    {
        let c = s[i];
        let ghost p = split(s@.take(i as int), k);
        proof {
            assert(s@.take(i + 1).drop_last() =~= s@.take(i as int));
            lemma_split_nonempty(s@.take(i as int), k);
        }
        if separates(k, c) {
            push_app_name(&mut names, &cur);
            cur = Vec::new();
            assert(split(s@.take(i + 1), k).drop_last() =~= p);
            assert(cur@ =~= split(s@.take(i + 1), k).last());
        } else {
            cur.push(c);
            assert(split(s@.take(i + 1), k).drop_last() =~= p.drop_last());
        }
        i = i + 1;
    }
    proof {
        assert(s@.take(s@.len() as int) =~= s@);
        lemma_split_nonempty(s@, k);
    }
    push_app_name(&mut names, &cur);
    names
}

/// The candidate rectangles of a display-bounds list: the `;`-separated
/// entries that have exactly four `,`-separated fields (left, top, width,
/// height); the numbers themselves are read by the caller.
pub open spec fn rect_fields(rects: Seq<Seq<char>>) -> Seq<Seq<Seq<char>>>
    decreases rects.len(),
{
    if rects.len() == 0 {
        Seq::empty()
    } else {
        let rest = rect_fields(rects.drop_last());
        let f = split(rects.last(), Separators::Comma);
        if f.len() == 4 {
            rest.push(f)
        } else {
            rest
        }
    }
}

/// The candidate rectangles of a display-bounds list.
pub open spec fn bound_fields(value: Seq<char>) -> Seq<Seq<Seq<char>>> {
    rect_fields(split(value, Separators::Semicolon))
}

/// The views of a list of lists of strings.
pub open spec fn fields_view(v: Seq<Vec<String>>) -> Seq<Seq<Seq<char>>> {
    v.map_values(|r: Vec<String>| names_view(r@))
}

/// The strings holding the given character lists.
fn strings_of(pieces: &Vec<Vec<char>>) -> (r: Vec<String>)
    ensures
        names_view(r@) == pieces@.map_values(|v: Vec<char>| v@),
{
    let mut out: Vec<String> = Vec::new();
    let mut j: usize = 0;
    while j < pieces.len()
        invariant
            j <= pieces.len(),
            names_view(out@) == pieces@.map_values(|v: Vec<char>| v@).take(j as int),
        decreases pieces.len() - j,
    {
        let ghost before = names_view(out@);
        let s = string_of(&pieces[j]);
        out.push(s);
        assert(names_view(out@) =~= before.push(pieces@[j as int]@));
        assert(pieces@.map_values(|v: Vec<char>| v@).take(j + 1) =~= pieces@.map_values(
            |v: Vec<char>| v@,
        ).take(j as int).push(pieces@[j as int]@));
        j = j + 1;
    }
    assert(pieces@.map_values(|v: Vec<char>| v@).take(pieces.len() as int) =~= pieces@.map_values(
        |v: Vec<char>| v@,
    ));
    out
}

/// The candidate rectangles of a display-bounds list such as
/// `-1920,0,1920,1080;0,0,1280,800`: the four fields of each entry that has
/// exactly four.
pub fn display_bound_fields(value: &str) -> (r: Vec<Vec<String>>)
    ensures
        fields_view(r@) == bound_fields(value@),
{
    let rects = split_chars(&chars_of(value), Separators::Semicolon);
    let ghost rv = rects@.map_values(|v: Vec<char>| v@);
    let mut out: Vec<Vec<String>> = Vec::new();
    let mut i: usize = 0;
    proof {
        assert(rv.take(0) =~= Seq::<Seq<char>>::empty());
        assert(fields_view(out@) =~= Seq::<Seq<Seq<char>>>::empty());
    }
    while i < rects.len()
        invariant
            i <= rects.len(),
            rv == rects@.map_values(|v: Vec<char>| v@),
            fields_view(out@) == rect_fields(rv.take(i as int)),
        decreases rects.len() - i,
    {
        let f = split_chars(&rects[i], Separators::Comma);
        let ghost before = fields_view(out@);
        proof {
            assert(rv.take(i + 1).drop_last() =~= rv.take(i as int));
            assert(rv.take(i + 1).last() == rects@[i as int]@);
        }
        if f.len() == 4 {
            let strings = strings_of(&f);
            out.push(strings);
            assert(fields_view(out@) =~= before.push(split(rects@[i as int]@, Separators::Comma)));
        }
        i = i + 1;
    }
    assert(rv.take(rects.len() as int) =~= rv);
    out
}

/// Whether `list` holds `name`.
fn contains_name(list: &Vec<String>, name: &String) -> (r: bool)
    ensures
        r == names_view(list@).contains(name@),
{
    let mut i: usize = 0;
    while i < list.len()
        invariant
            i <= list.len(),
            forall|j: int| 0 <= j < i ==> list@[j]@ != name@,
        decreases list.len() - i,
    {
        if list[i] == *name {
            assert(names_view(list@)[i as int] == name@);
            return true;
        }
        i = i + 1;
    }
    assert forall|j: int| 0 <= j < names_view(list@).len() implies names_view(list@)[j] != name@ by {
        assert(list@[j]@ != name@);
    }
    false
}

impl TouchPolicy {
    /// The override key.
    pub fn override_modifier(&self) -> (r: Modifier)
        ensures
            r == self@.modifier,
    {
        self.modifier
    }

    /// Whether pen input gets the touch features too.
    pub fn stylus_included(&self) -> (r: bool)
        ensures
            r == self@.include_stylus,
    {
        self.include_stylus
    }

    /// The policy that a layout's touch options describe.
    pub fn from_layout(layout: &TouchLayout) -> (p: Self)
        ensures
            p@ == policy_of(*layout),
    {
        let keep = apps(layout.focus_keep_apps.as_str());
        let restore = apps(layout.focus_restore_apps.as_str());
        TouchPolicy {
            delay_ms: delay_ms_of(layout.focus_restore_delay),
            on_mouse_move: layout.focus_restore_on_mouse_move,
            all_displays: layout.touch_all_displays,
            bounds: layout.touch_display_bounds.clone(),
            modifier: modifier_of(layout.touch_override_modifier.as_str()),
            include_stylus: layout.stylus_mouse_independent,
            keep_apps: keep,
            restore_apps: restore,
        }
    }

    /// Whether the touch features apply at a point: everywhere when all
    /// displays are selected, else inside one of the selected rectangles.
    pub fn includes(&self, x: i32, y: i32) -> (r: bool)
        ensures
            r == self@.includes(x, y),
    {
        if self.all_displays {
            return true;
        }
        let mut i: usize = 0;
        while i < self.bounds.len()
            invariant
                i <= self.bounds.len(),
                !self.all_displays,
                forall|j: int| 0 <= j < i ==> !self.bounds@[j].holds(x, y),
            decreases self.bounds.len() - i,
        {
            if self.bounds[i].contains(x, y) {
                assert(self@.bounds[i as int].holds(x, y));
                return true;
            }
            i = i + 1;
        }
        assert(!self@.includes(x, y));
        false
    }

    /// Exact executable basenames, case-insensitive. Keep wins over restore.
    /// An unresolved process is safe only when there are no app rules to enforce.
    pub fn restores_app(&self, path: Option<&str>) -> (r: bool)
        ensures
            r == self@.restores(path_view(path)),
    {
        if self.keep_apps.len() == 0 && self.restore_apps.len() == 0 {
            return true;
        }
        let path = match path {
            Some(p) => p,
            None => {
                return false;
            },
        };
        let chars = chars_of(path);
        let last = last_piece_of(&chars, Separators::Path);
        let name = string_of(&lower_chars(&last));
        !contains_name(&self.keep_apps, &name) && (self.restore_apps.len() == 0 || contains_name(
            &self.restore_apps,
            &name,
        ))
    }
}

impl Default for TouchPolicy {
    fn default() -> (p: Self)
        ensures
            p@.delay_ms == 120,
            !p@.on_mouse_move,
            p@.all_displays,
            p@.bounds.len() == 0,
            p@.modifier == Modifier::NoKey,
            !p@.include_stylus,
            p@.keep_apps.len() == 0,
            p@.restore_apps.len() == 0,
    {
        let layout = TouchLayout::default();
        proof {
            let l = lower_all(layout.touch_override_modifier@);
            assert(l[0] == 'n');
            assert(l.len() == 4);
            assert(l != seq!['c', 't', 'r', 'l']);
            assert(l != seq!['s', 'h', 'i', 'f', 't']);
            assert(l != seq!['a', 'l', 't']);
            assert(l != seq!['w', 'i', 'n']);
            assert(split(Seq::<char>::empty(), Separators::AppList) =~= seq![Seq::<char>::empty()]);
            assert(layout.focus_keep_apps@ =~= Seq::<char>::empty());
            assert(layout.focus_restore_apps@ =~= Seq::<char>::empty());
            assert(trim(Seq::<char>::empty()) =~= Seq::<char>::empty());
            assert(app_list(Seq::<char>::empty()).len() == 0) by {
                let ps = split(Seq::<char>::empty(), Separators::AppList);
                assert(ps.len() == 1);
                assert(ps.last() =~= Seq::<char>::empty());
                assert(ps.drop_last() =~= Seq::<Seq<char>>::empty());
                assert(app_names(ps.drop_last()).len() == 0);
                assert(trim(ps.last()).len() == 0);
            }
        }
        Self::from_layout(&layout)
    }
}


/// While a finger is down, neither the display under it nor the override key
/// changes whether the gesture is bypassed.
pub proof fn lemma_policy_fixed_during_contact(g: GestureView, allowed: bool, down: bool, up: bool)
    requires
        g.contact,
    ensures
        g.accept(allowed, down, up).1 == !g.bypass,
        g.accept(allowed, down, up).0.bypass == g.bypass,
{
}

/// A bypassed gesture stays bypassed for every message but the next press,
/// including the trailing moves after finger-up, even once the override key
/// is released.
pub proof fn lemma_bypass_survives_trailing_moves(g: GestureView, allowed: bool, up: bool)
    requires
        g.bypass,
    ensures
        !g.accept(allowed, false, up).1,
        g.accept(allowed, false, up).0.bypass,
{
}

/// A press that starts a gesture decides it afresh: the touch features apply
/// exactly when they are allowed there and then.
pub proof fn lemma_press_decides_gesture(g: GestureView, allowed: bool, up: bool)
    requires
        !g.contact,
    ensures
        g.accept(allowed, true, up).1 == allowed,
{
}

/// The keep list wins over the restore list.
pub proof fn lemma_keep_wins(p: PolicyView, path: Seq<char>)
    requires
        p.keep_apps.contains(PolicyView::app_name(path)),
    ensures
        !p.restores(Some(path)),
{
}

/// Without app rules, every process qualifies, even an unresolved one.
pub proof fn lemma_no_rules_restore_everywhere(p: PolicyView, path: Option<Seq<char>>)
    requires
        p.keep_apps.len() == 0,
        p.restore_apps.len() == 0,
    ensures
        p.restores(path),
{
}

/// When app rules are configured, an unresolved process is left alone.
pub proof fn lemma_unresolved_process_kept(p: PolicyView)
    requires
        p.keep_apps.len() != 0 || p.restore_apps.len() != 0,
    ensures
        !p.restores(None),
{
}

/// With all displays selected the touch features apply everywhere; with no
/// display selected they apply nowhere.
pub proof fn lemma_display_selection(p: PolicyView, x: i32, y: i32)
    ensures
        p.all_displays ==> p.includes(x, y),
        !p.all_displays && p.bounds.len() == 0 ==> !p.includes(x, y),
{
}

/// The delay stays within 0..=5000 ms and keeps every value in that range.
pub proof fn lemma_delay_limits(v: i64)
    ensures
        delay_limit(v) <= 5000,
        0 <= v <= 5000 ==> delay_limit(v) == v,
        v < 0 ==> delay_limit(v) == 0,
        v > 5000 ==> delay_limit(v) == 5000,
{
}


/// An application name as the lists hold it: not empty, lower-case, and
/// without white space at either end.
pub open spec fn clean_name(e: Seq<char>) -> bool {
    &&& e.len() > 0
    &&& lower_all(e) == e
    &&& !is_white(e[0])
    &&& !is_white(e.last())
}

/// Every name a list of pieces contributes is clean.
proof fn lemma_app_names_clean(pieces: Seq<Seq<char>>)
    ensures
        forall|i: int| 0 <= i < app_names(pieces).len() ==> clean_name(#[trigger] app_names(pieces)[i]),
    decreases pieces.len(),
{
    if pieces.len() > 0 {
        lemma_app_names_clean(pieces.drop_last());
        lemma_lower_trim_clean(pieces.last());
        let rest = app_names(pieces.drop_last());
        let t = trim(pieces.last());
        if t.len() > 0 {
            assert forall|i: int| 0 <= i < app_names(pieces).len() implies clean_name(
                #[trigger] app_names(pieces)[i],
            ) by {
                if i < rest.len() {
                    assert(app_names(pieces)[i] == rest[i]);
                } else {
                    assert(app_names(pieces)[i] == lower_all(t));
                }
            }
        }
    }
}

/// Application lists hold exact names: every entry is non-empty, lower-case
/// and trimmed.
pub proof fn lemma_app_list_clean(value: Seq<char>)
    ensures
        forall|i: int| 0 <= i < app_list(value).len() ==> clean_name(#[trigger] app_list(value)[i]),
{
    lemma_app_names_clean(split(value, Separators::AppList));
}


/// Which keys make each override count as held: none for no override, the
/// Control, Alt or Shift key for those, and either Windows key (left or
/// right) for Win.
pub proof fn lemma_override_keys(keys: HeldKeys)
    ensures
        !is_held(Modifier::NoKey, keys),
        is_held(Modifier::Ctrl, keys) == keys.ctrl,
        is_held(Modifier::Alt, keys) == keys.alt,
        is_held(Modifier::Shift, keys) == keys.shift,
        is_held(Modifier::Win, keys) == (keys.left_win || keys.right_win),
{
}

} // verus!
