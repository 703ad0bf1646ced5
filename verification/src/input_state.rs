//! Per-frame input: a snapshot of what the platform reported this frame
//! (keys, gamepad slots, mouse buttons) and the queries the engine asks
//! of it — is an action held, pressed, released, which source fired —
//! folded into the `InputState` the Lua side reads.
//!
//! The platform layer fills a `Frame` once per frame; analog sticks come
//! in already reduced to the side of the deadzone they lie on.

use crate::input::{
    binding_axes, binding_axes_exec, binding_buttons, binding_buttons_exec, binding_keys,
    binding_keys_exec, claimed, effective_face_buttons, effective_face_buttons_spec,
    family_of_name, is_valid_action, is_valid_action_spec, mapping_for, mapping_spec, GamepadFamily,
    InputSource, ACTION_COUNT, MOUSE_LEFT, MOUSE_RIGHT,
};
use crate::keys::{MOUSE_BUTTON_LEFT, MOUSE_BUTTON_RIGHT};
use crate::keymap::Keymap;
use crate::project_name::opt_str_view;
use crate::text::{chars_eq, chars_of, string_of};
use vstd::prelude::*;

verus! {

/// Number of gamepad slots polled each frame.
pub const MAX_GAMEPADS: usize = 4;

/// Number of gamepad button codes tracked per pad.
pub const PAD_BUTTONS: usize = 18;

/// One gamepad slot as the platform reported it this frame.
pub struct PadFrame {
    /// A pad is connected in this slot.
    pub available: bool,
    /// The name the platform reports for the slot.
    pub name: Option<String>,
    /// Held buttons, indexed by button code.
    pub down: [bool; 18],
    /// Buttons that went down this frame.
    pub pressed: [bool; 18],
    /// Buttons that went up this frame.
    pub released: [bool; 18],
    /// Left stick, per axis: negative or positive when tilted past the
    /// deadzone that way, zero inside it.
    pub stick: [i8; 2],
}

/// Everything the input layer reads from the platform in one frame.
pub struct Frame {
    /// Keys held down.
    pub keys_down: Vec<i32>,
    /// Keys that went down this frame.
    pub keys_pressed: Vec<i32>,
    /// Keys that went up this frame.
    pub keys_released: Vec<i32>,
    /// Gamepad slots in order; only the first `MAX_GAMEPADS` are read.
    pub pads: Vec<PadFrame>,
    pub mouse_left_down: bool,
    pub mouse_right_down: bool,
    pub mouse_left_pressed: bool,
    pub mouse_right_pressed: bool,
    pub mouse_left_released: bool,
    pub mouse_right_released: bool,
}

/// Number of slots read from a frame.
pub open spec fn slots(f: Frame) -> int {
    if f.pads.len() < MAX_GAMEPADS {
        f.pads.len() as int
    } else {
        MAX_GAMEPADS as int
    }
}

/// The keyboard side of the action at index `i` fires with `keys` in the
/// given state: its override if it has one (the override replaces the
/// defaults), else any default key that no action claims as override.
pub open spec fn key_part(keys: Seq<i32>, m: Seq<Option<i32>>, i: int) -> bool {
    match m[i] {
        Some(k) => keys.contains(k),
        None => exists|j: int|
            0 <= j < binding_keys(i).len() && !claimed(m, binding_keys(i)[j]) && keys.contains(
                #[trigger] binding_keys(i)[j],
            ),
    }
}

/// Name of a pad slot, as characters.
pub open spec fn pad_name(p: PadFrame) -> Option<Seq<char>> {
    match p.name {
        Some(s) => Some(s@),
        None => None,
    }
}

/// Family of a pad slot: by its name, Xbox when it has none.
pub open spec fn family_of_pad(p: PadFrame) -> GamepadFamily {
    match pad_name(p) {
        Some(n) => family_of_name(n),
        None => GamepadFamily::Xbox,
    }
}

/// Family of slot `pad`, which need not exist; Xbox for a missing slot.
pub open spec fn family_at(f: Frame, pad: int) -> GamepadFamily {
    if 0 <= pad < f.pads.len() {
        family_of_pad(f.pads@[pad])
    } else {
        GamepadFamily::Xbox
    }
}

/// One of the buttons `bs` is set in `states`.
pub open spec fn buttons_hit(states: Seq<bool>, bs: Seq<i32>) -> bool {
    exists|j: int| 0 <= j < bs.len() && 0 <= bs[j] < states.len() && states[#[trigger] bs[j] as int]
}

/// The stick is tilted past the deadzone along `axis` toward `sign`.
pub open spec fn axis_tilted(stick: Seq<i8>, axis: i32, sign: i8) -> bool {
    0 <= axis < stick.len() && ((sign < 0 && stick[axis as int] < 0) || (sign > 0 && stick[
        axis as int
    ] > 0))
}

/// One of the stick directions `axes` is tilted.
pub open spec fn stick_hit(stick: Seq<i8>, axes: Seq<(i32, i8)>) -> bool {
    exists|j: int| 0 <= j < axes.len() && axis_tilted(stick, (#[trigger] axes[j]).0, axes[j].1)
}

/// Slot `p` holds `action`: a face button of its family, or a bound
/// stick direction.
pub open spec fn pad_down(p: PadFrame, action: u32) -> bool {
    p.available && (buttons_hit(p.down@, effective_face_buttons_spec(action, family_of_pad(p)))
        || stick_hit(p.stick@, binding_axes(action - 1)))
}

/// Slot `p` pressed a face button of `action` this frame.
pub open spec fn pad_pressed(p: PadFrame, action: u32) -> bool {
    p.available && buttons_hit(p.pressed@, effective_face_buttons_spec(action, family_of_pad(p)))
}

/// Slot `p` released a face button of `action` this frame.
pub open spec fn pad_released(p: PadFrame, action: u32) -> bool {
    p.available && buttons_hit(p.released@, effective_face_buttons_spec(action, family_of_pad(p)))
}

/// Some source bound to `action` is held.
pub open spec fn action_down_spec(f: Frame, m: Seq<Option<i32>>, action: u32) -> bool {
    is_valid_action_spec(action) && (key_part(f.keys_down@, m, action - 1) || exists|p: int|
        0 <= p < slots(f) && pad_down(#[trigger] f.pads@[p], action))
}

/// Some key or button bound to `action` went down this frame (sticks
/// are not edge-detected).
pub open spec fn action_pressed_spec(f: Frame, m: Seq<Option<i32>>, action: u32) -> bool {
    is_valid_action_spec(action) && (key_part(f.keys_pressed@, m, action - 1) || exists|p: int|
        0 <= p < slots(f) && pad_pressed(#[trigger] f.pads@[p], action))
}

/// Some key or button bound to `action` went up this frame.
pub open spec fn action_released_spec(f: Frame, m: Seq<Option<i32>>, action: u32) -> bool {
    is_valid_action_spec(action) && (key_part(f.keys_released@, m, action - 1) || exists|p: int|
        0 <= p < slots(f) && pad_released(#[trigger] f.pads@[p], action))
}

/// Whether `k` is among `keys`.
pub fn contains_key(keys: &Vec<i32>, k: i32) -> (r: bool)
    ensures
        r == keys@.contains(k),
{
    let mut i: usize = 0;
    while i < keys.len()
        invariant
            i <= keys.len(),
            forall|j: int| 0 <= j < i ==> keys@[j] != k,
        decreases keys.len() - i,
    {
        if keys[i] == k {
            proof {
                assert(keys@[i as int] == k);
            }
            return true;
        }
        i = i + 1;
    }
    false
}

/// The keyboard side of the action at index `i` with `keys` in the given
/// state.
pub fn key_part_exec(keys: &Vec<i32>, keymap: &Keymap, i: usize) -> (r: bool)
    requires
        i < ACTION_COUNT,
    ensures
        r == key_part(keys@, keymap.overrides@, i as int),
{
    let ghost m = keymap.overrides@;
    match keymap.override_for((i + 1) as u32) {
        Some(k) => contains_key(keys, k),
        None => {
            proof {
                assert(m[i as int] is None);
            }
            let defaults = binding_keys_exec(i);
            let mut j: usize = 0;
            while j < defaults.len()
                invariant
                    j <= defaults.len(),
                    defaults@ == binding_keys(i as int),
                    m == keymap.overrides@,
                    i < ACTION_COUNT,
                    m[i as int] is None,
                    forall|t: int|
                        0 <= t < j ==> !(!claimed(m, defaults@[t]) && keys@.contains(
                            #[trigger] defaults@[t],
                        )),
                decreases defaults.len() - j,
            {
                if !keymap.is_used_as_override(defaults[j]) && contains_key(keys, defaults[j]) {
                    proof {
                        assert(binding_keys(i as int)[j as int] == defaults@[j as int]);
                    }
                    return true;
                }
                j = j + 1;
            }
            false
        },
    }
}

/// Whether one of the buttons `bs` is set in `states`.
pub fn buttons_hit_exec(states: &[bool; 18], bs: &Vec<i32>) -> (r: bool)
    ensures
        r == buttons_hit(states@, bs@),
{
    let mut j: usize = 0;
    while j < bs.len()
        invariant
            j <= bs.len(),
            states@.len() == PAD_BUTTONS,
            forall|t: int|
                0 <= t < j ==> !(0 <= bs@[t] < states@.len() && states@[#[trigger] bs@[t] as int]),
        decreases bs.len() - j,
    {
        let b = bs[j];
        if b >= 0 && (b as usize) < PAD_BUTTONS && states[b as usize] {
            return true;
        }
        j = j + 1;
    }
    false
}

/// Whether one of the stick directions `axes` is tilted.
pub fn stick_hit_exec(stick: &[i8; 2], axes: &Vec<(i32, i8)>) -> (r: bool)
    ensures
        r == stick_hit(stick@, axes@),
{
    let mut j: usize = 0;
    while j < axes.len()
        invariant
            j <= axes.len(),
            stick@.len() == 2,
            forall|t: int|
                0 <= t < j ==> !axis_tilted(stick@, (#[trigger] axes@[t]).0, axes@[t].1),
        decreases axes.len() - j,
    {
        let (axis, sign) = axes[j];
        if axis >= 0 && axis < 2 {
            let v = stick[axis as usize];
            if (sign < 0 && v < 0) || (sign > 0 && v > 0) {
                return true;
            }
        }
        j = j + 1;
    }
    false
}

/// Family of a pad slot, by its name.
pub fn family_of_pad_exec(p: &PadFrame) -> (r: GamepadFamily)
    ensures
        r == family_of_pad(*p),
{
    match &p.name {
        Some(n) => GamepadFamily::detect(n.as_str()),
        None => GamepadFamily::Xbox,
    }
}

/// Resolves the family of a single pad slot, which need not exist.
pub fn pad_family(f: &Frame, pad: i32) -> (r: GamepadFamily)
    ensures
        r == family_at(*f, pad as int),
{
    if pad >= 0 && (pad as usize) < f.pads.len() {
        family_of_pad_exec(&f.pads[pad as usize])
    } else {
        GamepadFamily::Xbox
    }
}

/// Which button table of a pad a query reads.
#[derive(Clone, Copy, Debug, PartialEq, Eq, Structural)]
pub enum Edge {
    Down,
    Pressed,
    Released,
}

/// The keys of a frame in the state the query reads.
pub open spec fn keys_in(f: Frame, e: Edge) -> Seq<i32> {
    match e {
        Edge::Down => f.keys_down@,
        Edge::Pressed => f.keys_pressed@,
        Edge::Released => f.keys_released@,
    }
}

/// Slot `p` fires `action` for the query.
pub open spec fn pad_fires(p: PadFrame, action: u32, e: Edge) -> bool {
    match e {
        Edge::Down => pad_down(p, action),
        Edge::Pressed => pad_pressed(p, action),
        Edge::Released => pad_released(p, action),
    }
}

/// Some slot of the frame fires `action` for the query.
pub fn pads_fire(f: &Frame, action: u32, e: Edge) -> (r: bool)
    requires
        is_valid_action_spec(action),
    ensures
        r == exists|p: int| 0 <= p < slots(*f) && pad_fires(#[trigger] f.pads@[p], action, e),
{
    let n = if f.pads.len() < MAX_GAMEPADS {
        f.pads.len()
    } else {
        MAX_GAMEPADS
    };
    let axes = binding_axes_exec((action - 1) as usize);
    let mut p: usize = 0;
    while p < n
        invariant
            p <= n,
            n == slots(*f),
            n <= f.pads.len(),
            is_valid_action_spec(action),
            axes@ == binding_axes(action - 1),
            forall|q: int| 0 <= q < p ==> !pad_fires(#[trigger] f.pads@[q], action, e),
        decreases n - p,
    {
        let pad = &f.pads[p];
        if pad.available {
            let buttons = effective_face_buttons(action, family_of_pad_exec(pad));
            let hit = match e {
                Edge::Down => buttons_hit_exec(&pad.down, &buttons) || stick_hit_exec(
                    &pad.stick,
                    &axes,
                ),
                Edge::Pressed => buttons_hit_exec(&pad.pressed, &buttons),
                Edge::Released => buttons_hit_exec(&pad.released, &buttons),
            };
            if hit {
                proof {
                    assert(pad_fires(f.pads@[p as int], action, e));
                }
                return true;
            }
        }
        p = p + 1;
    }
    false
}

/// True while any source bound to `action` is held. An override replaces
/// the action's keyboard defaults; a default key claimed as another
/// action's override is suppressed, so a key only fires its current
/// owner. Face buttons follow each pad's own family.
pub fn action_down(f: &Frame, keymap: &Keymap, action: u32) -> (r: bool)
    ensures
        r == action_down_spec(*f, keymap.overrides@, action),
        is_valid_action_spec(action) ==> (keymap.overrides@[action - 1] matches Some(k) ==> (f.keys_down@.contains(k) ==> r)),
        is_valid_action_spec(action) && keymap.overrides@[action - 1] is None && (exists|j: int|
            0 <= j < binding_keys(action - 1).len() && !claimed(keymap.overrides@, binding_keys(action - 1)[j])
                && f.keys_down@.contains(#[trigger] binding_keys(action - 1)[j])) ==> r,
        f.pads.len() == 0 && r ==> is_valid_action_spec(action) && match keymap.overrides@[action - 1] {
            Some(k) => f.keys_down@.contains(k),
            None => exists|j: int|
                0 <= j < binding_keys(action - 1).len() && !claimed(keymap.overrides@, binding_keys(action - 1)[j])
                    && f.keys_down@.contains(#[trigger] binding_keys(action - 1)[j]),
        },
{
    if !is_valid_action(action) {
        return false;
    }
    key_part_exec(&f.keys_down, keymap, (action - 1) as usize) || pads_fire(f, action, Edge::Down)
}

/// True the frame any key or button bound to `action` goes down.
pub fn action_pressed(f: &Frame, keymap: &Keymap, action: u32) -> (r: bool)
    ensures
        r == action_pressed_spec(*f, keymap.overrides@, action),
        is_valid_action_spec(action) ==> (keymap.overrides@[action - 1] matches Some(k) ==> (f.keys_pressed@.contains(k) ==> r)),
        is_valid_action_spec(action) && keymap.overrides@[action - 1] is None && (exists|j: int|
            0 <= j < binding_keys(action - 1).len() && !claimed(keymap.overrides@, binding_keys(action - 1)[j])
                && f.keys_pressed@.contains(#[trigger] binding_keys(action - 1)[j])) ==> r,
        f.pads.len() == 0 && r ==> is_valid_action_spec(action) && match keymap.overrides@[action - 1] {
            Some(k) => f.keys_pressed@.contains(k),
            None => exists|j: int|
                0 <= j < binding_keys(action - 1).len() && !claimed(keymap.overrides@, binding_keys(action - 1)[j])
                    && f.keys_pressed@.contains(#[trigger] binding_keys(action - 1)[j]),
        },
{
    if !is_valid_action(action) {
        return false;
    }
    key_part_exec(&f.keys_pressed, keymap, (action - 1) as usize) || pads_fire(
        f,
        action,
        Edge::Pressed,
    )
}

/// What went up this frame decides a release: two frames that agree on
/// the released keys and the pads give the same answer, whatever keys
/// are held.
pub proof fn lemma_release_ignores_held_keys(f1: Frame, f2: Frame, m: Seq<Option<i32>>, action: u32)
    requires
        f1.keys_released@ == f2.keys_released@,
        f1.pads@ == f2.pads@,
    ensures
        action_released_spec(f1, m, action) == action_released_spec(f2, m, action),
{
    assert(slots(f1) == slots(f2));
}

/// With no override for the action and no pads, the action is released
/// exactly when one of its default keys that no override claims went up.
pub proof fn lemma_release_of_default_keys(f: Frame, m: Seq<Option<i32>>, action: u32)
    requires
        1 <= action <= 7,
        m.len() == 7,
        m[action - 1] is None,
        f.pads.len() == 0,
    ensures
        action_released_spec(f, m, action) == exists|j: int|
            0 <= j < binding_keys(action - 1).len() && !claimed(m, binding_keys(action - 1)[j])
                && f.keys_released@.contains(#[trigger] binding_keys(action - 1)[j]),
{
}

/// True the frame any key or button bound to `action` goes up.
pub fn action_released(f: &Frame, keymap: &Keymap, action: u32) -> (r: bool)
    ensures
        r == action_released_spec(*f, keymap.overrides@, action),
        is_valid_action_spec(action) ==> (keymap.overrides@[action - 1] matches Some(k) ==> (f.keys_released@.contains(k) ==> r)),
        is_valid_action_spec(action) && keymap.overrides@[action - 1] is None && (exists|j: int|
            0 <= j < binding_keys(action - 1).len() && !claimed(keymap.overrides@, binding_keys(action - 1)[j])
                && f.keys_released@.contains(#[trigger] binding_keys(action - 1)[j])) ==> r,
        f.pads.len() == 0 && r ==> is_valid_action_spec(action) && match keymap.overrides@[action - 1] {
            Some(k) => f.keys_released@.contains(k),
            None => exists|j: int|
                0 <= j < binding_keys(action - 1).len() && !claimed(keymap.overrides@, binding_keys(action - 1)[j])
                    && f.keys_released@.contains(#[trigger] binding_keys(action - 1)[j]),
        },
{
    if !is_valid_action(action) {
        return false;
    }
    key_part_exec(&f.keys_released, keymap, (action - 1) as usize) || pads_fire(
        f,
        action,
        Edge::Released,
    )
}


/// Slot `p` holds a button or stick direction of the static binding of
/// the action at index `i`.
pub open spec fn pad_hits(f: Frame, i: int, p: int) -> bool {
    &&& 0 <= i < 7
    &&& 0 <= p < slots(f)
    &&& f.pads@[p].available
    &&& (buttons_hit(f.pads@[p].down@, binding_buttons(i)) || stick_hit(
        f.pads@[p].stick@,
        binding_axes(i),
    ))
}

/// Some slot holds a binding of the action at index `i`.
pub open spec fn action_hit(f: Frame, i: int) -> bool {
    exists|p: int| #[trigger] pad_hits(f, i, p)
}

/// `(i, p)` is the first hit in action-major, slot-minor order.
pub open spec fn is_first_hit(f: Frame, i: int, p: int) -> bool {
    &&& pad_hits(f, i, p)
    &&& forall|i2: int| 0 <= i2 < i ==> !#[trigger] action_hit(f, i2)
    &&& forall|p2: int| 0 <= p2 < p ==> !#[trigger] pad_hits(f, i, p2)
}

/// Some slot holds some binding.
pub open spec fn any_pad_hit(f: Frame) -> bool {
    exists|i: int, p: int| #[trigger] pad_hits(f, i, p)
}

/// Slot `p` is that of the first hit.
pub open spec fn first_hit_at(f: Frame, p: int) -> bool {
    exists|i: int| #[trigger] is_first_hit(f, i, p)
}

/// The slot of the first hit.
pub open spec fn first_hit_pad(f: Frame) -> int {
    choose|p: int| #[trigger] first_hit_at(f, p)
}

/// Some action's keyboard side is held.
pub open spec fn any_key_fires(f: Frame, m: Seq<Option<i32>>) -> bool {
    exists|i: int| 0 <= i < 7 && #[trigger] key_part(f.keys_down@, m, i)
}

/// The source that fired a bound action this frame, and for a gamepad
/// its slot. Gamepads win ties, since they only emit deliberate input;
/// when nothing bound fired the prior source stays and no slot is given.
pub open spec fn detect_spec(f: Frame, m: Seq<Option<i32>>, prior: InputSource) -> (
    InputSource,
    Option<i32>,
) {
    if any_pad_hit(f) {
        (InputSource::Gamepad, Some(first_hit_pad(f) as i32))
    } else if any_key_fires(f, m) {
        (InputSource::Keyboard, None)
    } else {
        (prior, None)
    }
}

/// The first hit is unique.
pub proof fn lemma_first_hit_unique(f: Frame, i: int, p: int, i2: int, p2: int)
    requires
        is_first_hit(f, i, p),
        is_first_hit(f, i2, p2),
    ensures
        i == i2,
        p == p2,
{
    if i < i2 {
        assert(action_hit(f, i));
    } else if i2 < i {
        assert(action_hit(f, i2));
    }
    if p < p2 {
        assert(pad_hits(f, i, p));
    } else if p2 < p {
        assert(pad_hits(f, i2, p2));
    }
}

/// The first hit is the one `first_hit_pad` names.
proof fn lemma_first_hit_pad(f: Frame, i: int, p: int)
    requires
        is_first_hit(f, i, p),
    ensures
        any_pad_hit(f),
        first_hit_pad(f) == p,
{
    assert(pad_hits(f, i, p));
    assert(first_hit_at(f, p));
    let q = first_hit_pad(f);
    assert(first_hit_at(f, q));
    let j = choose|j: int| #[trigger] is_first_hit(f, j, q);
    lemma_first_hit_unique(f, i, p, j, q);
}

/// Returns the input source that fired any bound action this frame and,
/// for gamepad sources, the slot that fired; `(prior, None)` when nothing
/// bound fired, so a stray Esc or F-key press can't flip the indicator.
pub fn detect_source(f: &Frame, keymap: &Keymap, prior: InputSource) -> (r: (
    InputSource,
    Option<i32>,
))
    ensures
        r == detect_spec(*f, keymap.overrides@, prior),
{
    let n = if f.pads.len() < MAX_GAMEPADS {
        f.pads.len()
    } else {
        MAX_GAMEPADS
    };
    let mut i: usize = 0;
    while i < ACTION_COUNT
        invariant
            i <= ACTION_COUNT,
            n == slots(*f),
            n <= f.pads.len(),
            forall|i2: int| 0 <= i2 < i ==> !#[trigger] action_hit(*f, i2),
        decreases ACTION_COUNT - i,
    {
        let buttons = binding_buttons_exec(i);
        let axes = binding_axes_exec(i);
        let mut p: usize = 0;
        while p < n
            invariant
                p <= n,
                i < ACTION_COUNT,
                n == slots(*f),
                n <= f.pads.len(),
                buttons@ == binding_buttons(i as int),
                axes@ == binding_axes(i as int),
                forall|i2: int| 0 <= i2 < i ==> !#[trigger] action_hit(*f, i2),
                forall|p2: int| 0 <= p2 < p ==> !#[trigger] pad_hits(*f, i as int, p2),
            decreases n - p,
        {
            let pad = &f.pads[p];
            if pad.available && (buttons_hit_exec(&pad.down, &buttons) || stick_hit_exec(
                &pad.stick,
                &axes,
            )) {
                proof {
                    assert(pad_hits(*f, i as int, p as int));
                    assert(is_first_hit(*f, i as int, p as int));
                    lemma_first_hit_pad(*f, i as int, p as int);
                }
                return (InputSource::Gamepad, Some(p as i32));
            }
            p = p + 1;
        }
        proof {
            assert forall|q: int| !#[trigger] pad_hits(*f, i as int, q) by {
                if 0 <= q < p {
                }
            }
        }
        i = i + 1;
    }
    proof {
        assert forall|i2: int, q: int| !#[trigger] pad_hits(*f, i2, q) by {
            if 0 <= i2 < 7 {
                assert(!action_hit(*f, i2));
            }
        }
    }
    let mut k: usize = 0;
    while k < ACTION_COUNT
        invariant
            k <= ACTION_COUNT,
            !any_pad_hit(*f),
            forall|k2: int| 0 <= k2 < k ==> !#[trigger] key_part(f.keys_down@, keymap.overrides@, k2),
        decreases ACTION_COUNT - k,
    {
        if key_part_exec(&f.keys_down, keymap, k) {
            return (InputSource::Keyboard, None);
        }
        k = k + 1;
    }
    (prior, None)
}

/// Slot `p` is connected and reports a name.
pub open spec fn named_slot(f: Frame, p: int) -> bool {
    0 <= p < slots(f) && f.pads@[p].available && f.pads@[p].name is Some
}

/// Family of the lowest connected slot that reports a name; Xbox when
/// there is none.
pub open spec fn current_family_spec(f: Frame) -> GamepadFamily {
    if exists|p: int| #[trigger] named_slot(f, p) {
        let p = choose|p: int|
            #[trigger] named_slot(f, p) && forall|q: int| 0 <= q < p ==> !named_slot(f, q);
        family_of_pad(f.pads@[p])
    } else {
        GamepadFamily::Xbox
    }
}

/// First connected gamepad's family, so glyphs stay stable while a
/// single pad is in use.
pub fn current_gamepad_family(f: &Frame) -> (r: GamepadFamily)
    ensures
        r == current_family_spec(*f),
{
    let n = if f.pads.len() < MAX_GAMEPADS {
        f.pads.len()
    } else {
        MAX_GAMEPADS
    };
    let mut p: usize = 0;
    while p < n
        invariant
            p <= n,
            n == slots(*f),
            n <= f.pads.len(),
            forall|q: int| 0 <= q < p ==> !#[trigger] named_slot(*f, q),
        decreases n - p,
    {
        let pad = &f.pads[p];
        if pad.available && pad.name.is_some() {
            proof {
                assert(named_slot(*f, p as int));
                let c = choose|c: int|
                    #[trigger] named_slot(*f, c) && forall|q: int| 0 <= q < c ==> !named_slot(*f, q);
                if c < p {
                } else if p < c {
                    assert(!named_slot(*f, p as int));
                }
            }
            return family_of_pad_exec(pad);
        }
        p = p + 1;
    }
    proof {
        assert forall|q: int| !#[trigger] named_slot(*f, q) by {
            if 0 <= q < p {
            }
        }
    }
    GamepadFamily::Xbox
}

/// Number of keys in the direct-read key table.
pub const KEY_TABLE_LEN: usize = 75;

/// Raylib codes of the keys Lua can read directly (`input.KEY_*`), in
/// table order; the position of a key is its bit in the snapshot.
pub open spec fn key_table_codes() -> Seq<i32> {
    seq![
        65, 66, 67, 68, 69, 70, 71, 72, 73, 74,
        75, 76, 77, 78, 79, 80, 81, 82, 83, 84,
        85, 86, 87, 88, 89, 90, 48, 49, 50, 51,
        52, 53, 54, 55, 56, 57, 290, 291, 292, 293,
        294, 295, 296, 297, 298, 299, 300, 301, 32, 257,
        256, 258, 259, 261, 263, 262, 265, 264, 340, 344,
        341, 345, 342, 346, 96, 45, 61, 91, 93, 92,
        59, 39, 44, 46, 47,
    ]
}

/// Lua names of the keys in the direct-read table, in table order.
pub open spec fn key_table_names() -> Seq<Seq<char>> {
    seq![
        seq!['K', 'E', 'Y', '_', 'A'],
        seq!['K', 'E', 'Y', '_', 'B'],
        seq!['K', 'E', 'Y', '_', 'C'],
        seq!['K', 'E', 'Y', '_', 'D'],
        seq!['K', 'E', 'Y', '_', 'E'],
        seq!['K', 'E', 'Y', '_', 'F'],
        seq!['K', 'E', 'Y', '_', 'G'],
        seq!['K', 'E', 'Y', '_', 'H'],
        seq!['K', 'E', 'Y', '_', 'I'],
        seq!['K', 'E', 'Y', '_', 'J'],
        seq!['K', 'E', 'Y', '_', 'K'],
        seq!['K', 'E', 'Y', '_', 'L'],
        seq!['K', 'E', 'Y', '_', 'M'],
        seq!['K', 'E', 'Y', '_', 'N'],
        seq!['K', 'E', 'Y', '_', 'O'],
        seq!['K', 'E', 'Y', '_', 'P'],
        seq!['K', 'E', 'Y', '_', 'Q'],
        seq!['K', 'E', 'Y', '_', 'R'],
        seq!['K', 'E', 'Y', '_', 'S'],
        seq!['K', 'E', 'Y', '_', 'T'],
        seq!['K', 'E', 'Y', '_', 'U'],
        seq!['K', 'E', 'Y', '_', 'V'],
        seq!['K', 'E', 'Y', '_', 'W'],
        seq!['K', 'E', 'Y', '_', 'X'],
        seq!['K', 'E', 'Y', '_', 'Y'],
        seq!['K', 'E', 'Y', '_', 'Z'],
        seq!['K', 'E', 'Y', '_', '0'],
        seq!['K', 'E', 'Y', '_', '1'],
        seq!['K', 'E', 'Y', '_', '2'],
        seq!['K', 'E', 'Y', '_', '3'],
        seq!['K', 'E', 'Y', '_', '4'],
        seq!['K', 'E', 'Y', '_', '5'],
        seq!['K', 'E', 'Y', '_', '6'],
        seq!['K', 'E', 'Y', '_', '7'],
        seq!['K', 'E', 'Y', '_', '8'],
        seq!['K', 'E', 'Y', '_', '9'],
        seq!['K', 'E', 'Y', '_', 'F', '1'],
        seq!['K', 'E', 'Y', '_', 'F', '2'],
        seq!['K', 'E', 'Y', '_', 'F', '3'],
        seq!['K', 'E', 'Y', '_', 'F', '4'],
        seq!['K', 'E', 'Y', '_', 'F', '5'],
        seq!['K', 'E', 'Y', '_', 'F', '6'],
        seq!['K', 'E', 'Y', '_', 'F', '7'],
        seq!['K', 'E', 'Y', '_', 'F', '8'],
        seq!['K', 'E', 'Y', '_', 'F', '9'],
        seq!['K', 'E', 'Y', '_', 'F', '1', '0'],
        seq!['K', 'E', 'Y', '_', 'F', '1', '1'],
        seq!['K', 'E', 'Y', '_', 'F', '1', '2'],
        seq!['K', 'E', 'Y', '_', 'S', 'P', 'A', 'C', 'E'],
        seq!['K', 'E', 'Y', '_', 'E', 'N', 'T', 'E', 'R'],
        seq!['K', 'E', 'Y', '_', 'E', 'S', 'C', 'A', 'P', 'E'],
        seq!['K', 'E', 'Y', '_', 'T', 'A', 'B'],
        seq!['K', 'E', 'Y', '_', 'B', 'A', 'C', 'K', 'S', 'P', 'A', 'C', 'E'],
        seq!['K', 'E', 'Y', '_', 'D', 'E', 'L', 'E', 'T', 'E'],
        seq!['K', 'E', 'Y', '_', 'L', 'E', 'F', 'T'],
        seq!['K', 'E', 'Y', '_', 'R', 'I', 'G', 'H', 'T'],
        seq!['K', 'E', 'Y', '_', 'U', 'P'],
        seq!['K', 'E', 'Y', '_', 'D', 'O', 'W', 'N'],
        seq!['K', 'E', 'Y', '_', 'L', 'S', 'H', 'I', 'F', 'T'],
        seq!['K', 'E', 'Y', '_', 'R', 'S', 'H', 'I', 'F', 'T'],
        seq!['K', 'E', 'Y', '_', 'L', 'C', 'T', 'R', 'L'],
        seq!['K', 'E', 'Y', '_', 'R', 'C', 'T', 'R', 'L'],
        seq!['K', 'E', 'Y', '_', 'L', 'A', 'L', 'T'],
        seq!['K', 'E', 'Y', '_', 'R', 'A', 'L', 'T'],
        seq!['K', 'E', 'Y', '_', 'B', 'A', 'C', 'K', 'T', 'I', 'C', 'K'],
        seq!['K', 'E', 'Y', '_', 'M', 'I', 'N', 'U', 'S'],
        seq!['K', 'E', 'Y', '_', 'E', 'Q', 'U', 'A', 'L'],
        seq!['K', 'E', 'Y', '_', 'L', 'B', 'R', 'A', 'C', 'K', 'E', 'T'],
        seq!['K', 'E', 'Y', '_', 'R', 'B', 'R', 'A', 'C', 'K', 'E', 'T'],
        seq!['K', 'E', 'Y', '_', 'B', 'A', 'C', 'K', 'S', 'L', 'A', 'S', 'H'],
        seq!['K', 'E', 'Y', '_', 'S', 'E', 'M', 'I', 'C', 'O', 'L', 'O', 'N'],
        seq!['K', 'E', 'Y', '_', 'A', 'P', 'O', 'S', 'T', 'R', 'O', 'P', 'H', 'E'],
        seq!['K', 'E', 'Y', '_', 'C', 'O', 'M', 'M', 'A'],
        seq!['K', 'E', 'Y', '_', 'P', 'E', 'R', 'I', 'O', 'D'],
        seq!['K', 'E', 'Y', '_', 'S', 'L', 'A', 'S', 'H'],
    ]
}

/// The codes of the direct-read key table.
pub fn key_table_codes_exec() -> (r: Vec<i32>)
    ensures
        r@ == key_table_codes(),
{
    let r = vec![
        65, 66, 67, 68, 69, 70, 71, 72, 73, 74,
        75, 76, 77, 78, 79, 80, 81, 82, 83, 84,
        85, 86, 87, 88, 89, 90, 48, 49, 50, 51,
        52, 53, 54, 55, 56, 57, 290, 291, 292, 293,
        294, 295, 296, 297, 298, 299, 300, 301, 32, 257,
        256, 258, 259, 261, 263, 262, 265, 264, 340, 344,
        341, 345, 342, 346, 96, 45, 61, 91, 93, 92,
        59, 39, 44, 46, 47,
    ];
    proof {
        assert(r@ =~= key_table_codes());
    }
    r
}

/// Lua name of the key at position `i` of the direct-read table.
pub fn key_table_name(i: usize) -> (r: &'static str)
    requires
        i < KEY_TABLE_LEN,
    ensures
        r@ == key_table_names()[i as int],
{
    match i {
        0 => {
            proof {
                reveal_strlit("KEY_A");
                assert("KEY_A"@ =~= key_table_names()[0]);
            }
            "KEY_A"
        },
        1 => {
            proof {
                reveal_strlit("KEY_B");
                assert("KEY_B"@ =~= key_table_names()[1]);
            }
            "KEY_B"
        },
        2 => {
            proof {
                reveal_strlit("KEY_C");
                assert("KEY_C"@ =~= key_table_names()[2]);
            }
            "KEY_C"
        },
        3 => {
            proof {
                reveal_strlit("KEY_D");
                assert("KEY_D"@ =~= key_table_names()[3]);
            }
            "KEY_D"
        },
        4 => {
            proof {
                reveal_strlit("KEY_E");
                assert("KEY_E"@ =~= key_table_names()[4]);
            }
            "KEY_E"
        },
        5 => {
            proof {
                reveal_strlit("KEY_F");
                assert("KEY_F"@ =~= key_table_names()[5]);
            }
            "KEY_F"
        },
        6 => {
            proof {
                reveal_strlit("KEY_G");
                assert("KEY_G"@ =~= key_table_names()[6]);
            }
            "KEY_G"
        },
        7 => {
            proof {
                reveal_strlit("KEY_H");
                assert("KEY_H"@ =~= key_table_names()[7]);
            }
            "KEY_H"
        },
        8 => {
            proof {
                reveal_strlit("KEY_I");
                assert("KEY_I"@ =~= key_table_names()[8]);
            }
            "KEY_I"
        },
        9 => {
            proof {
                reveal_strlit("KEY_J");
                assert("KEY_J"@ =~= key_table_names()[9]);
            }
            "KEY_J"
        },
        10 => {
            proof {
                reveal_strlit("KEY_K");
                assert("KEY_K"@ =~= key_table_names()[10]);
            }
            "KEY_K"
        },
        11 => {
            proof {
                reveal_strlit("KEY_L");
                assert("KEY_L"@ =~= key_table_names()[11]);
            }
            "KEY_L"
        },
        12 => {
            proof {
                reveal_strlit("KEY_M");
                assert("KEY_M"@ =~= key_table_names()[12]);
            }
            "KEY_M"
        },
        13 => {
            proof {
                reveal_strlit("KEY_N");
                assert("KEY_N"@ =~= key_table_names()[13]);
            }
            "KEY_N"
        },
        14 => {
            proof {
                reveal_strlit("KEY_O");
                assert("KEY_O"@ =~= key_table_names()[14]);
            }
            "KEY_O"
        },
        15 => {
            proof {
                reveal_strlit("KEY_P");
                assert("KEY_P"@ =~= key_table_names()[15]);
            }
            "KEY_P"
        },
        16 => {
            proof {
                reveal_strlit("KEY_Q");
                assert("KEY_Q"@ =~= key_table_names()[16]);
            }
            "KEY_Q"
        },
        17 => {
            proof {
                reveal_strlit("KEY_R");
                assert("KEY_R"@ =~= key_table_names()[17]);
            }
            "KEY_R"
        },
        18 => {
            proof {
                reveal_strlit("KEY_S");
                assert("KEY_S"@ =~= key_table_names()[18]);
            }
            "KEY_S"
        },
        19 => {
            proof {
                reveal_strlit("KEY_T");
                assert("KEY_T"@ =~= key_table_names()[19]);
            }
            "KEY_T"
        },
        20 => {
            proof {
                reveal_strlit("KEY_U");
                assert("KEY_U"@ =~= key_table_names()[20]);
            }
            "KEY_U"
        },
        21 => {
            proof {
                reveal_strlit("KEY_V");
                assert("KEY_V"@ =~= key_table_names()[21]);
            }
            "KEY_V"
        },
        22 => {
            proof {
                reveal_strlit("KEY_W");
                assert("KEY_W"@ =~= key_table_names()[22]);
            }
            "KEY_W"
        },
        23 => {
            proof {
                reveal_strlit("KEY_X");
                assert("KEY_X"@ =~= key_table_names()[23]);
            }
            "KEY_X"
        },
        24 => {
            proof {
                reveal_strlit("KEY_Y");
                assert("KEY_Y"@ =~= key_table_names()[24]);
            }
            "KEY_Y"
        },
        25 => {
            proof {
                reveal_strlit("KEY_Z");
                assert("KEY_Z"@ =~= key_table_names()[25]);
            }
            "KEY_Z"
        },
        26 => {
            proof {
                reveal_strlit("KEY_0");
                assert("KEY_0"@ =~= key_table_names()[26]);
            }
            "KEY_0"
        },
        27 => {
            proof {
                reveal_strlit("KEY_1");
                assert("KEY_1"@ =~= key_table_names()[27]);
            }
            "KEY_1"
        },
        28 => {
            proof {
                reveal_strlit("KEY_2");
                assert("KEY_2"@ =~= key_table_names()[28]);
            }
            "KEY_2"
        },
        29 => {
            proof {
                reveal_strlit("KEY_3");
                assert("KEY_3"@ =~= key_table_names()[29]);
            }
            "KEY_3"
        },
        30 => {
            proof {
                reveal_strlit("KEY_4");
                assert("KEY_4"@ =~= key_table_names()[30]);
            }
            "KEY_4"
        },
        31 => {
            proof {
                reveal_strlit("KEY_5");
                assert("KEY_5"@ =~= key_table_names()[31]);
            }
            "KEY_5"
        },
        32 => {
            proof {
                reveal_strlit("KEY_6");
                assert("KEY_6"@ =~= key_table_names()[32]);
            }
            "KEY_6"
        },
        33 => {
            proof {
                reveal_strlit("KEY_7");
                assert("KEY_7"@ =~= key_table_names()[33]);
            }
            "KEY_7"
        },
        34 => {
            proof {
                reveal_strlit("KEY_8");
                assert("KEY_8"@ =~= key_table_names()[34]);
            }
            "KEY_8"
        },
        35 => {
            proof {
                reveal_strlit("KEY_9");
                assert("KEY_9"@ =~= key_table_names()[35]);
            }
            "KEY_9"
        },
        36 => {
            proof {
                reveal_strlit("KEY_F1");
                assert("KEY_F1"@ =~= key_table_names()[36]);
            }
            "KEY_F1"
        },
        37 => {
            proof {
                reveal_strlit("KEY_F2");
                assert("KEY_F2"@ =~= key_table_names()[37]);
            }
            "KEY_F2"
        },
        38 => {
            proof {
                reveal_strlit("KEY_F3");
                assert("KEY_F3"@ =~= key_table_names()[38]);
            }
            "KEY_F3"
        },
        39 => {
            proof {
                reveal_strlit("KEY_F4");
                assert("KEY_F4"@ =~= key_table_names()[39]);
            }
            "KEY_F4"
        },
        40 => {
            proof {
                reveal_strlit("KEY_F5");
                assert("KEY_F5"@ =~= key_table_names()[40]);
            }
            "KEY_F5"
        },
        41 => {
            proof {
                reveal_strlit("KEY_F6");
                assert("KEY_F6"@ =~= key_table_names()[41]);
            }
            "KEY_F6"
        },
        42 => {
            proof {
                reveal_strlit("KEY_F7");
                assert("KEY_F7"@ =~= key_table_names()[42]);
            }
            "KEY_F7"
        },
        43 => {
            proof {
                reveal_strlit("KEY_F8");
                assert("KEY_F8"@ =~= key_table_names()[43]);
            }
            "KEY_F8"
        },
        44 => {
            proof {
                reveal_strlit("KEY_F9");
                assert("KEY_F9"@ =~= key_table_names()[44]);
            }
            "KEY_F9"
        },
        45 => {
            proof {
                reveal_strlit("KEY_F10");
                assert("KEY_F10"@ =~= key_table_names()[45]);
            }
            "KEY_F10"
        },
        46 => {
            proof {
                reveal_strlit("KEY_F11");
                assert("KEY_F11"@ =~= key_table_names()[46]);
            }
            "KEY_F11"
        },
        47 => {
            proof {
                reveal_strlit("KEY_F12");
                assert("KEY_F12"@ =~= key_table_names()[47]);
            }
            "KEY_F12"
        },
        48 => {
            proof {
                reveal_strlit("KEY_SPACE");
                assert("KEY_SPACE"@ =~= key_table_names()[48]);
            }
            "KEY_SPACE"
        },
        49 => {
            proof {
                reveal_strlit("KEY_ENTER");
                assert("KEY_ENTER"@ =~= key_table_names()[49]);
            }
            "KEY_ENTER"
        },
        50 => {
            proof {
                reveal_strlit("KEY_ESCAPE");
                assert("KEY_ESCAPE"@ =~= key_table_names()[50]);
            }
            "KEY_ESCAPE"
        },
        51 => {
            proof {
                reveal_strlit("KEY_TAB");
                assert("KEY_TAB"@ =~= key_table_names()[51]);
            }
            "KEY_TAB"
        },
        52 => {
            proof {
                reveal_strlit("KEY_BACKSPACE");
                assert("KEY_BACKSPACE"@ =~= key_table_names()[52]);
            }
            "KEY_BACKSPACE"
        },
        53 => {
            proof {
                reveal_strlit("KEY_DELETE");
                assert("KEY_DELETE"@ =~= key_table_names()[53]);
            }
            "KEY_DELETE"
        },
        54 => {
            proof {
                reveal_strlit("KEY_LEFT");
                assert("KEY_LEFT"@ =~= key_table_names()[54]);
            }
            "KEY_LEFT"
        },
        55 => {
            proof {
                reveal_strlit("KEY_RIGHT");
                assert("KEY_RIGHT"@ =~= key_table_names()[55]);
            }
            "KEY_RIGHT"
        },
        56 => {
            proof {
                reveal_strlit("KEY_UP");
                assert("KEY_UP"@ =~= key_table_names()[56]);
            }
            "KEY_UP"
        },
        57 => {
            proof {
                reveal_strlit("KEY_DOWN");
                assert("KEY_DOWN"@ =~= key_table_names()[57]);
            }
            "KEY_DOWN"
        },
        58 => {
            proof {
                reveal_strlit("KEY_LSHIFT");
                assert("KEY_LSHIFT"@ =~= key_table_names()[58]);
            }
            "KEY_LSHIFT"
        },
        59 => {
            proof {
                reveal_strlit("KEY_RSHIFT");
                assert("KEY_RSHIFT"@ =~= key_table_names()[59]);
            }
            "KEY_RSHIFT"
        },
        60 => {
            proof {
                reveal_strlit("KEY_LCTRL");
                assert("KEY_LCTRL"@ =~= key_table_names()[60]);
            }
            "KEY_LCTRL"
        },
        61 => {
            proof {
                reveal_strlit("KEY_RCTRL");
                assert("KEY_RCTRL"@ =~= key_table_names()[61]);
            }
            "KEY_RCTRL"
        },
        62 => {
            proof {
                reveal_strlit("KEY_LALT");
                assert("KEY_LALT"@ =~= key_table_names()[62]);
            }
            "KEY_LALT"
        },
        63 => {
            proof {
                reveal_strlit("KEY_RALT");
                assert("KEY_RALT"@ =~= key_table_names()[63]);
            }
            "KEY_RALT"
        },
        64 => {
            proof {
                reveal_strlit("KEY_BACKTICK");
                assert("KEY_BACKTICK"@ =~= key_table_names()[64]);
            }
            "KEY_BACKTICK"
        },
        65 => {
            proof {
                reveal_strlit("KEY_MINUS");
                assert("KEY_MINUS"@ =~= key_table_names()[65]);
            }
            "KEY_MINUS"
        },
        66 => {
            proof {
                reveal_strlit("KEY_EQUAL");
                assert("KEY_EQUAL"@ =~= key_table_names()[66]);
            }
            "KEY_EQUAL"
        },
        67 => {
            proof {
                reveal_strlit("KEY_LBRACKET");
                assert("KEY_LBRACKET"@ =~= key_table_names()[67]);
            }
            "KEY_LBRACKET"
        },
        68 => {
            proof {
                reveal_strlit("KEY_RBRACKET");
                assert("KEY_RBRACKET"@ =~= key_table_names()[68]);
            }
            "KEY_RBRACKET"
        },
        69 => {
            proof {
                reveal_strlit("KEY_BACKSLASH");
                assert("KEY_BACKSLASH"@ =~= key_table_names()[69]);
            }
            "KEY_BACKSLASH"
        },
        70 => {
            proof {
                reveal_strlit("KEY_SEMICOLON");
                assert("KEY_SEMICOLON"@ =~= key_table_names()[70]);
            }
            "KEY_SEMICOLON"
        },
        71 => {
            proof {
                reveal_strlit("KEY_APOSTROPHE");
                assert("KEY_APOSTROPHE"@ =~= key_table_names()[71]);
            }
            "KEY_APOSTROPHE"
        },
        72 => {
            proof {
                reveal_strlit("KEY_COMMA");
                assert("KEY_COMMA"@ =~= key_table_names()[72]);
            }
            "KEY_COMMA"
        },
        73 => {
            proof {
                reveal_strlit("KEY_PERIOD");
                assert("KEY_PERIOD"@ =~= key_table_names()[73]);
            }
            "KEY_PERIOD"
        },
        _ => {
            proof {
                reveal_strlit("KEY_SLASH");
                assert("KEY_SLASH"@ =~= key_table_names()[74]);
            }
            "KEY_SLASH"
        },
    }
}

/// The position of `value` in the direct-read key table: the first
/// entry whose code equals it, `None` when no entry does.
pub open spec fn key_bit_index_spec(value: u32) -> Option<int> {
    if exists|i: int| 0 <= i < KEY_TABLE_LEN && #[trigger] key_table_codes()[i] == value {
        Some(
            choose|i: int|
                0 <= i < KEY_TABLE_LEN && #[trigger] key_table_codes()[i] == value && forall|j: int|
                    0 <= j < i ==> key_table_codes()[j] != value,
        )
    } else {
        None
    }
}

/// Lookup of the bit index for a Lua-side key value; `None` for values
/// outside the table, so bogus arguments read as false.
pub fn key_bit_index(value: u32) -> (r: Option<usize>)
    ensures
        match r {
            Some(i) => key_bit_index_spec(value) == Some(i as int),
            None => key_bit_index_spec(value) is None,
        },
{
    let codes = key_table_codes_exec();
    let mut i: usize = 0;
    while i < codes.len()
        invariant
            i <= codes.len(),
            codes@ == key_table_codes(),
            forall|j: int| 0 <= j < i ==> key_table_codes()[j] != value,
        decreases codes.len() - i,
    {
        if codes[i] as i64 == value as i64 {
            proof {
                let c = choose|c: int|
                    0 <= c < KEY_TABLE_LEN && #[trigger] key_table_codes()[c] == value && forall|
                        j: int,
                    |
                        0 <= j < c ==> key_table_codes()[j] != value;
                assert(key_table_codes()[i as int] == value);
                if c < i {
                } else if i < c {
                    assert(key_table_codes()[i as int] != value);
                }
            }
            return Some(i);
        }
        i = i + 1;
    }
    None
}

/// The platform's code for a Lua-side mouse button: left and right only.
pub open spec fn mouse_button_spec(button: u32) -> Option<u32> {
    if button == MOUSE_LEFT {
        Some(MOUSE_BUTTON_LEFT)
    } else if button == MOUSE_RIGHT {
        Some(MOUSE_BUTTON_RIGHT)
    } else {
        None
    }
}

/// The platform's mouse button for a Lua-side button id.
pub fn mouse_button_from_u32(button: u32) -> (r: Option<u32>)
    ensures
        r == mouse_button_spec(button),
{
    if button == MOUSE_LEFT {
        Some(MOUSE_BUTTON_LEFT)
    } else if button == MOUSE_RIGHT {
        Some(MOUSE_BUTTON_RIGHT)
    } else {
        None
    }
}

/// One frame's worth of input state, read by the Lua closures.
#[derive(Clone, Copy)]
pub struct InputState {
    actions_down: [bool; 7],
    actions_pressed: [bool; 7],
    actions_released: [bool; 7],
    keys_held: [bool; 75],
    keys_pressed: [bool; 75],
    keys_released: [bool; 75],
    mouse_left_down: bool,
    mouse_right_down: bool,
    mouse_left_pressed: bool,
    mouse_right_pressed: bool,
    mouse_left_released: bool,
    mouse_right_released: bool,
    mouse_x: i32,
    mouse_y: i32,
    mapping: [Option<&'static str>; 7],
    last_source: InputSource,
    last_pad: Option<i32>,
    gamepad_family: GamepadFamily,
}

/// What an `InputState` holds: per-action and per-key flags, mouse
/// buttons and position, the primary binding label of each action, and
/// the source, slot and family glyphs follow.
#[verifier::ext_equal]
pub struct InputView {
    pub actions_down: Seq<bool>,
    pub actions_pressed: Seq<bool>,
    pub actions_released: Seq<bool>,
    pub keys_held: Seq<bool>,
    pub keys_pressed: Seq<bool>,
    pub keys_released: Seq<bool>,
    pub mouse_down: (bool, bool),
    pub mouse_pressed: (bool, bool),
    pub mouse_released: (bool, bool),
    pub mouse: (i32, i32),
    pub mapping: Seq<Option<Seq<char>>>,
    pub last_source: InputSource,
    pub last_pad: Option<i32>,
    pub gamepad_family: GamepadFamily,
}

impl View for InputState {
    type V = InputView;

    closed spec fn view(&self) -> InputView {
        InputView {
            actions_down: self.actions_down@,
            actions_pressed: self.actions_pressed@,
            actions_released: self.actions_released@,
            keys_held: self.keys_held@,
            keys_pressed: self.keys_pressed@,
            keys_released: self.keys_released@,
            mouse_down: (self.mouse_left_down, self.mouse_right_down),
            mouse_pressed: (self.mouse_left_pressed, self.mouse_right_pressed),
            mouse_released: (self.mouse_left_released, self.mouse_right_released),
            mouse: (self.mouse_x, self.mouse_y),
            mapping: self.mapping@.map_values(|o: Option<&'static str>| opt_str_view(o)),
            last_source: self.last_source,
            last_pad: self.last_pad,
            gamepad_family: self.gamepad_family,
        }
    }
}

/// The slot glyphs follow: the one that fired, else the prior one.
pub open spec fn next_pad(f: Frame, m: Seq<Option<i32>>, prior_pad: Option<i32>) -> Option<i32> {
    match detect_spec(f, m, InputSource::Keyboard).1 {
        Some(p) => Some(p),
        None => prior_pad,
    }
}

/// Family glyphs follow: that of the slot last used, else that of the
/// first connected slot.
pub open spec fn next_family(f: Frame, pad: Option<i32>) -> GamepadFamily {
    match pad {
        Some(p) => family_at(f, p as int),
        None => current_family_spec(f),
    }
}

/// The snapshot of a frame.
pub open spec fn snapshot_spec(
    f: Frame,
    m: Seq<Option<i32>>,
    prior_source: InputSource,
    prior_pad: Option<i32>,
    mouse: (i32, i32),
) -> InputView {
    let source = detect_spec(f, m, prior_source).0;
    let pad = next_pad(f, m, prior_pad);
    let family = next_family(f, pad);
    InputView {
        actions_down: Seq::new(7, |i: int| action_down_spec(f, m, (i + 1) as u32)),
        actions_pressed: Seq::new(7, |i: int| action_pressed_spec(f, m, (i + 1) as u32)),
        actions_released: Seq::new(7, |i: int| action_released_spec(f, m, (i + 1) as u32)),
        keys_held: Seq::new(75, |i: int| f.keys_down@.contains(key_table_codes()[i])),
        keys_pressed: Seq::new(75, |i: int| f.keys_pressed@.contains(key_table_codes()[i])),
        keys_released: Seq::new(75, |i: int| f.keys_released@.contains(key_table_codes()[i])),
        mouse_down: (f.mouse_left_down, f.mouse_right_down),
        mouse_pressed: (f.mouse_left_pressed, f.mouse_right_pressed),
        mouse_released: (f.mouse_left_released, f.mouse_right_released),
        mouse,
        mapping: Seq::new(7, |i: int| mapping_spec((i + 1) as u32, m, source, family)),
        last_source: source,
        last_pad: pad,
        gamepad_family: family,
    }
}

/// Whether each key of the direct-read table is among `keys`.
fn key_flags(keys: &Vec<i32>) -> (r: [bool; 75])
    ensures
        forall|i: int| 0 <= i < 75 ==> r@[i] == keys@.contains(#[trigger] key_table_codes()[i]),
{
    let codes = key_table_codes_exec();
    let mut out = [false; 75];
    let mut i: usize = 0;
    while i < KEY_TABLE_LEN
        invariant
            i <= KEY_TABLE_LEN,
            codes@ == key_table_codes(),
            out@.len() == 75,
            forall|j: int| 0 <= j < i ==> out@[j] == keys@.contains(#[trigger] key_table_codes()[j]),
        decreases KEY_TABLE_LEN - i,
    {
        let hit = contains_key(keys, codes[i]);
        out[i] = hit;
        i = i + 1;
    }
    out
}

impl Default for InputState {
    fn default() -> (r: Self)
        ensures
            forall|i: int| 0 <= i < 7 ==> !r@.actions_down[i] && !r@.actions_pressed[i]
                && !r@.actions_released[i] && r@.mapping[i] is None,
            forall|i: int| 0 <= i < 75 ==> !r@.keys_held[i] && !r@.keys_pressed[i]
                && !r@.keys_released[i],
            r@.mouse_down == (false, false),
            r@.mouse_pressed == (false, false),
            r@.mouse_released == (false, false),
            r@.mouse == (0i32, 0i32),
            r@.last_source == InputSource::Keyboard,
            r@.last_pad is None,
            r@.gamepad_family == GamepadFamily::Xbox,
    {
        InputState {
            actions_down: [false; 7],
            actions_pressed: [false; 7],
            actions_released: [false; 7],
            keys_held: [false; 75],
            keys_pressed: [false; 75],
            keys_released: [false; 75],
            mouse_left_down: false,
            mouse_right_down: false,
            mouse_left_pressed: false,
            mouse_right_pressed: false,
            mouse_left_released: false,
            mouse_right_released: false,
            mouse_x: 0,
            mouse_y: 0,
            mapping: [None; 7],
            last_source: InputSource::Keyboard,
            last_pad: None,
            gamepad_family: GamepadFamily::Xbox,
        }
    }
}

impl InputState {
    /// Rolls one frame into a snapshot. `prior_source` and `prior_pad`
    /// carry forward when no bound input fired, so glyphs stay stable
    /// across idle frames; `mouse` is the cursor in game pixels.
    pub fn sample(
        f: &Frame,
        keymap: &Keymap,
        prior_source: InputSource,
        prior_pad: Option<i32>,
        mouse: (i32, i32),
    ) -> (r: Self)
        ensures
            r@ == snapshot_spec(*f, keymap.overrides@, prior_source, prior_pad, mouse),
    {
        let ghost m = keymap.overrides@;
        let mut down = [false; 7];
        let mut pressed = [false; 7];
        let mut released = [false; 7];
        let mut i: usize = 0;
        while i < ACTION_COUNT
            invariant
                i <= ACTION_COUNT,
                m == keymap.overrides@,
                down@.len() == 7,
                pressed@.len() == 7,
                released@.len() == 7,
                forall|j: int|
                    0 <= j < i ==> {
                        &&& down@[j] == action_down_spec(*f, m, (j + 1) as u32)
                        &&& pressed@[j] == action_pressed_spec(*f, m, (j + 1) as u32)
                        &&& released@[j] == action_released_spec(*f, m, (j + 1) as u32)
                    },
            decreases ACTION_COUNT - i,
        {
            let action = (i + 1) as u32;
            down[i] = action_down(f, keymap, action);
            pressed[i] = action_pressed(f, keymap, action);
            released[i] = action_released(f, keymap, action);
            i = i + 1;
        }
        let (last_source, fired_pad) = detect_source(f, keymap, prior_source);
        proof {
            assert(detect_spec(*f, m, prior_source).1 == detect_spec(*f, m, InputSource::Keyboard).1);
        }
        let last_pad = match fired_pad {
            Some(p) => Some(p),
            None => prior_pad,
        };
        let gamepad_family = match last_pad {
            Some(pad) => pad_family(f, pad),
            None => current_gamepad_family(f),
        };
        let mut mapping: [Option<&'static str>; 7] = [None; 7];
        let mut k: usize = 0;
        while k < ACTION_COUNT
            invariant
                k <= ACTION_COUNT,
                m == keymap.overrides@,
                mapping@.len() == 7,
                forall|j: int|
                    0 <= j < k ==> opt_str_view(#[trigger] mapping@[j]) == mapping_spec(
                        (j + 1) as u32,
                        m,
                        last_source,
                        gamepad_family,
                    ),
            decreases ACTION_COUNT - k,
        {
            let label = mapping_for((k + 1) as u32, keymap, last_source, gamepad_family);
            mapping[k] = label;
            k = k + 1;
        }
        let r = InputState {
            actions_down: down,
            actions_pressed: pressed,
            actions_released: released,
            keys_held: key_flags(&f.keys_down),
            keys_pressed: key_flags(&f.keys_pressed),
            keys_released: key_flags(&f.keys_released),
            mouse_left_down: f.mouse_left_down,
            mouse_right_down: f.mouse_right_down,
            mouse_left_pressed: f.mouse_left_pressed,
            mouse_right_pressed: f.mouse_right_pressed,
            mouse_left_released: f.mouse_left_released,
            mouse_right_released: f.mouse_right_released,
            mouse_x: mouse.0,
            mouse_y: mouse.1,
            mapping,
            last_source,
            last_pad,
            gamepad_family,
        };
        proof {
            let s = snapshot_spec(*f, m, prior_source, prior_pad, mouse);
            assert(r@.actions_down =~= s.actions_down);
            assert(r@.actions_pressed =~= s.actions_pressed);
            assert(r@.actions_released =~= s.actions_released);
            assert(r@.keys_held =~= s.keys_held);
            assert(r@.keys_pressed =~= s.keys_pressed);
            assert(r@.keys_released =~= s.keys_released);
            assert(r@.mapping =~= s.mapping);
            assert(r@ =~= s);
        }
        r
    }

    /// Label of the primary binding of `action` on the active source.
    pub fn mapping_for(&self, action: u32) -> (r: Option<&'static str>)
        ensures
            opt_str_view(r) == (if is_valid_action_spec(action) {
                self@.mapping[action - 1]
            } else {
                None
            }),
    {
        if is_valid_action(action) {
            self.mapping[(action - 1) as usize]
        } else {
            None
        }
    }

    /// The source that last fired a bound action.
    pub fn last_source(&self) -> (r: InputSource)
        ensures
            r == self@.last_source,
    {
        self.last_source
    }

    /// The slot of the gamepad last used, if any has been.
    pub fn last_pad(&self) -> (r: Option<i32>)
        ensures
            r == self@.last_pad,
    {
        self.last_pad
    }

    /// The family glyphs are drawn for.
    pub fn gamepad_family(&self) -> (r: GamepadFamily)
        ensures
            r == self@.gamepad_family,
    {
        self.gamepad_family
    }

    /// `action` was held this frame.
    pub fn action_down(&self, action: u32) -> (r: bool)
        ensures
            r == (is_valid_action_spec(action) && self@.actions_down[action - 1]),
    {
        is_valid_action(action) && self.actions_down[(action - 1) as usize]
    }

    /// `action` went down this frame.
    pub fn action_pressed(&self, action: u32) -> (r: bool)
        ensures
            r == (is_valid_action_spec(action) && self@.actions_pressed[action - 1]),
    {
        is_valid_action(action) && self.actions_pressed[(action - 1) as usize]
    }

    /// `action` went up this frame.
    pub fn action_released(&self, action: u32) -> (r: bool)
        ensures
            r == (is_valid_action_spec(action) && self@.actions_released[action - 1]),
    {
        is_valid_action(action) && self.actions_released[(action - 1) as usize]
    }

    /// The mouse button was held; false for unknown buttons.
    pub fn mouse_button_down(&self, button: u32) -> (r: bool)
        ensures
            r == match mouse_button_spec(button) {
                Some(b) => if b == MOUSE_BUTTON_LEFT {
                    self@.mouse_down.0
                } else {
                    self@.mouse_down.1
                },
                None => false,
            },
    {
        match mouse_button_from_u32(button) {
            Some(b) => if b == MOUSE_BUTTON_LEFT {
                self.mouse_left_down
            } else {
                self.mouse_right_down
            },
            None => false,
        }
    }

    /// The mouse button went down this frame; false for unknown buttons.
    pub fn mouse_button_pressed(&self, button: u32) -> (r: bool)
        ensures
            r == match mouse_button_spec(button) {
                Some(b) => if b == MOUSE_BUTTON_LEFT {
                    self@.mouse_pressed.0
                } else {
                    self@.mouse_pressed.1
                },
                None => false,
            },
    {
        match mouse_button_from_u32(button) {
            Some(b) => if b == MOUSE_BUTTON_LEFT {
                self.mouse_left_pressed
            } else {
                self.mouse_right_pressed
            },
            None => false,
        }
    }

    /// The mouse button went up this frame; false for unknown buttons.
    pub fn mouse_button_released(&self, button: u32) -> (r: bool)
        ensures
            r == match mouse_button_spec(button) {
                Some(b) => if b == MOUSE_BUTTON_LEFT {
                    self@.mouse_released.0
                } else {
                    self@.mouse_released.1
                },
                None => false,
            },
    {
        match mouse_button_from_u32(button) {
            Some(b) => if b == MOUSE_BUTTON_LEFT {
                self.mouse_left_released
            } else {
                self.mouse_right_released
            },
            None => false,
        }
    }

    /// The key of the direct-read table was held; false for other values.
    pub fn key_held(&self, key: u32) -> (r: bool)
        ensures
            r == match key_bit_index_spec(key) {
                Some(i) => self@.keys_held[i],
                None => false,
            },
    {
        match key_bit_index(key) {
            Some(i) => self.keys_held[i],
            None => false,
        }
    }

    /// The key of the direct-read table went down this frame.
    pub fn key_pressed(&self, key: u32) -> (r: bool)
        ensures
            r == match key_bit_index_spec(key) {
                Some(i) => self@.keys_pressed[i],
                None => false,
            },
    {
        match key_bit_index(key) {
            Some(i) => self.keys_pressed[i],
            None => false,
        }
    }

    /// The key of the direct-read table went up this frame.
    pub fn key_released(&self, key: u32) -> (r: bool)
        ensures
            r == match key_bit_index_spec(key) {
                Some(i) => self@.keys_released[i],
                None => false,
            },
    {
        match key_bit_index(key) {
            Some(i) => self.keys_released[i],
            None => false,
        }
    }

    /// The cursor in game pixels.
    pub fn mouse_position(&self) -> (r: (i32, i32))
        ensures
            r == self@.mouse,
    {
        (self.mouse_x, self.mouse_y)
    }
}


/// A key claimed as one action's override fires that action only: with
/// nothing but that key held and no pad connected, its owner is held and
/// no other action is (the owner's defaults and the other actions'
/// defaults that share the key are suppressed).
pub proof fn lemma_claimed_key_fires_only_its_owner(
    f: Frame,
    m: Seq<Option<i32>>,
    k: i32,
    owner: u32,
    other: u32,
)
    requires
        m.len() == 7,
        is_valid_action_spec(owner),
        is_valid_action_spec(other),
        m[owner - 1] == Some(k),
        m[other - 1] != Some(k),
        f.keys_down@ == seq![k],
        f.pads.len() == 0,
    ensures
        action_down_spec(f, m, owner),
        !action_down_spec(f, m, other),
{
    assert(f.keys_down@[0] == k);
    assert(claimed(m, k)) by {
        assert(m[owner - 1] == Some(k));
    }
    let i = other - 1;
    match m[i] {
        Some(k2) => {
            assert(k2 != k);
            assert(!f.keys_down@.contains(k2)) by {
                if f.keys_down@.contains(k2) {
                    let j = choose|j: int| 0 <= j < f.keys_down@.len() && f.keys_down@[j] == k2;
                    assert(j == 0);
                }
            }
        },
        None => {
            assert forall|j: int|
                0 <= j < binding_keys(i).len() && !claimed(m, binding_keys(i)[j]) implies !f.keys_down@.contains(
                #[trigger] binding_keys(i)[j],
            ) by {
                if f.keys_down@.contains(binding_keys(i)[j]) {
                    let t = choose|t: int|
                        0 <= t < f.keys_down@.len() && f.keys_down@[t] == binding_keys(i)[j];
                    assert(t == 0);
                }
            }
        },
    }
}

/// A frame in which no pad holds a binding and every held key is outside
/// every binding and override leaves the source as it was and names no
/// slot: a stray Esc or F-key can't flip the glyphs.
pub proof fn lemma_unbound_input_keeps_source(f: Frame, m: Seq<Option<i32>>, prior: InputSource)
    requires
        m.len() == 7,
        !any_pad_hit(f),
        forall|t: int|
            0 <= t < f.keys_down@.len() ==> !claimed(m, #[trigger] f.keys_down@[t]) && forall|
                i: int,
            |
                0 <= i < 7 ==> !binding_keys(i).contains(f.keys_down@[t]),
    ensures
        detect_spec(f, m, prior) == (prior, None::<i32>),
{
    assert forall|i: int| 0 <= i < 7 implies !#[trigger] key_part(f.keys_down@, m, i) by {
        match m[i] {
            Some(k) => {
                if f.keys_down@.contains(k) {
                    let t = choose|t: int| 0 <= t < f.keys_down@.len() && f.keys_down@[t] == k;
                    assert(claimed(m, f.keys_down@[t]));
                }
            },
            None => {
                assert forall|j: int|
                    0 <= j < binding_keys(i).len() implies !f.keys_down@.contains(
                    #[trigger] binding_keys(i)[j],
                ) by {
                    if f.keys_down@.contains(binding_keys(i)[j]) {
                        let t = choose|t: int|
                            0 <= t < f.keys_down@.len() && f.keys_down@[t] == binding_keys(i)[j];
                        assert(binding_keys(i).contains(f.keys_down@[t]));
                    }
                }
            },
        }
    }
}

/// When no pad holds a binding, the snapshot keeps the prior slot, so a
/// stretch of idle frames doesn't wipe the glyph identity.
pub proof fn lemma_idle_pads_keep_prior_slot(
    f: Frame,
    m: Seq<Option<i32>>,
    prior_source: InputSource,
    prior_pad: Option<i32>,
    mouse: (i32, i32),
)
    requires
        !any_pad_hit(f),
    ensures
        snapshot_spec(f, m, prior_source, prior_pad, mouse).last_pad == prior_pad,
        snapshot_spec(f, m, prior_source, prior_pad, mouse).gamepad_family == next_family(
            f,
            prior_pad,
        ),
{
}

/// Connection change seen in one slot between two polls.
pub enum PadEvent {
    Connected { pad: usize, name: String, family: GamepadFamily },
    Changed { pad: usize, name: String, family: GamepadFamily },
    Disconnected { pad: usize, prev: String },
}

/// A slot's state change produces an event: it connected, its name
/// changed, or it disconnected.
pub open spec fn emits(prev: Option<Seq<char>>, cur: Option<Seq<char>>) -> bool {
    match (prev, cur) {
        (None, Some(_)) => true,
        (Some(p), Some(c)) => p != c,
        (Some(_), None) => true,
        (None, None) => false,
    }
}

/// `e` reports the change of slot `pad` from `prev` to `cur`.
pub open spec fn reports(e: PadEvent, pad: int, prev: Option<Seq<char>>, cur: Option<Seq<char>>) -> bool {
    match (prev, cur) {
        (None, Some(c)) => e matches PadEvent::Connected { pad: p, name, family } && p == pad
            && name@ == c && family == family_of_name(c),
        (Some(_), Some(c)) => e matches PadEvent::Changed { pad: p, name, family } && p == pad
            && name@ == c && family == family_of_name(c),
        (Some(o), None) => e matches PadEvent::Disconnected { pad: p, prev } && p == pad && prev@
            == o,
        (None, None) => false,
    }
}

/// Name of a slot, as characters.
pub open spec fn name_view(o: Option<String>) -> Option<Seq<char>> {
    match o {
        Some(n) => Some(n@),
        None => None,
    }
}

/// Names of slots, as characters.
pub open spec fn names_view(s: Seq<Option<String>>) -> Seq<Option<Seq<char>>> {
    s.map_values(|o: Option<String>| name_view(o))
}

/// The slots among the first `n` whose state changed, in order.
pub open spec fn changed_slots(prev: Seq<Option<Seq<char>>>, cur: Seq<Option<Seq<char>>>, n: int) -> Seq<
    int,
>
    decreases n,
{
    if n <= 0 {
        seq![]
    } else if emits(prev[n - 1], cur[n - 1]) {
        changed_slots(prev, cur, n - 1).push(n - 1)
    } else {
        changed_slots(prev, cur, n - 1)
    }
}

/// Tracks per-slot gamepad names across frames so connect, disconnect
/// and hot-swap are each reported once.
pub struct GamepadProbe {
    last_seen: [Option<String>; 4],
}

impl View for GamepadProbe {
    type V = Seq<Option<Seq<char>>>;

    closed spec fn view(&self) -> Seq<Option<Seq<char>>> {
        names_view(self.last_seen@)
    }
}

/// A copy of a slot's name.
fn copy_name(o: &Option<String>) -> (r: Option<String>)
    ensures
        name_view(r) == name_view(*o),
{
    match o {
        Some(n) => Some(string_of(chars_of(n.as_str()).as_slice())),
        None => None,
    }
}

impl GamepadProbe {
    /// A probe that has seen no pad.
    pub fn new() -> (r: Self)
        ensures
            r@ == Seq::new(4, |i: int| None::<Seq<char>>),
    {
        let r = GamepadProbe { last_seen: [None, None, None, None] };
        proof {
            assert(r@ =~= Seq::new(4, |i: int| None::<Seq<char>>));
        }
        r
    }

    /// Compares each slot's current name (`None` when no pad is
    /// connected) with the last poll, returns one event per change in
    /// slot order, and remembers the current names.
    pub fn poll(&mut self, current: &[Option<String>; 4]) -> (r: Vec<PadEvent>)
        ensures
            final(self)@ == names_view(current@),
            r.len() == changed_slots(old(self)@, names_view(current@), 4).len(),
            forall|k: int|
                0 <= k < r.len() ==> {
                    let pad = changed_slots(old(self)@, names_view(current@), 4)[k];
                    reports(#[trigger] r@[k], pad, old(self)@[pad], names_view(current@)[pad])
                },
    {
        let ghost prev = self@;
        let ghost cur = names_view(current@);
        let mut out: Vec<PadEvent> = Vec::new();
        let mut pad: usize = 0;
        while pad < MAX_GAMEPADS
            invariant
                pad <= MAX_GAMEPADS,
                prev.len() == 4,
                cur == names_view(current@),
                cur.len() == 4,
                self@.len() == 4,
                forall|q: int| 0 <= q < pad ==> self@[q] == cur[q],
                forall|q: int| pad <= q < 4 ==> self@[q] == prev[q],
                out.len() == changed_slots(prev, cur, pad as int).len(),
                forall|k: int|
                    0 <= k < out.len() ==> {
                        let p = changed_slots(prev, cur, pad as int)[k];
                        reports(#[trigger] out@[k], p, prev[p], cur[p])
                    },
            decreases MAX_GAMEPADS - pad,
        {
            let ghost before = out@;
            let ghost pv = prev[pad as int];
            let ghost cv = cur[pad as int];
            proof {
                assert(self@[pad as int] == pv);
            }
            match (&self.last_seen[pad], &current[pad]) {
                (None, Some(name)) => {
                    let family = GamepadFamily::detect(name.as_str());
                    out.push(
                        PadEvent::Connected {
                            pad,
                            name: string_of(chars_of(name.as_str()).as_slice()),
                            family,
                        },
                    );
                },
                (Some(p), Some(name)) => {
                    let same = chars_eq(
                        chars_of(p.as_str()).as_slice(),
                        chars_of(name.as_str()).as_slice(),
                    );
                    if !same {
                        let family = GamepadFamily::detect(name.as_str());
                        out.push(
                            PadEvent::Changed {
                                pad,
                                name: string_of(chars_of(name.as_str()).as_slice()),
                                family,
                            },
                        );
                    }
                },
                (Some(p), None) => {
                    out.push(
                        PadEvent::Disconnected {
                            pad,
                            prev: string_of(chars_of(p.as_str()).as_slice()),
                        },
                    );
                },
                (None, None) => {},
            }
            let name = copy_name(&current[pad]);
            let ghost seen = self.last_seen@;
            self.last_seen[pad] = name;
            proof {
                assert(self.last_seen@ == seen.update(pad as int, name));
                assert(name_view(name) == name_view(current@[pad as int]));
                assert forall|q: int| 0 <= q < 4 && q != pad implies self@[q] == names_view(seen)[q] by {}
                let cs = changed_slots(prev, cur, pad as int + 1);
                if emits(pv, cv) {
                    assert(cs == changed_slots(prev, cur, pad as int).push(pad as int));
                    assert(out@ == before.push(out@[out.len() - 1]));
                } else {
                    assert(cs == changed_slots(prev, cur, pad as int));
                    assert(out@ == before);
                }
                assert(self@[pad as int] == cv);
            }
            pad = pad + 1;
        }
        proof {
            assert(self@ =~= cur);
        }
        out
    }
}

} // verus!
