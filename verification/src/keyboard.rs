//! The PS/2 keyboard state: which keys are held, whether Shift is down, and
//! which key was pressed last. The kernel reads one scancode (set 1) at a time
//! from the keyboard controller and hands it to `KeyboardState::get_key`.
use vstd::prelude::*;

verus! {

/// Scancode of the left Shift key being pressed.
pub const LEFT_SHIFT_PRESS: u8 = 0x2A;

/// Scancode of the right Shift key being pressed.
pub const RIGHT_SHIFT_PRESS: u8 = 0x36;

/// Scancode of the left Shift key being released.
pub const LEFT_SHIFT_RELEASE: u8 = 0xAA;

/// Scancode of the right Shift key being released.
pub const RIGHT_SHIFT_RELEASE: u8 = 0xB6;

/// Bit of a scancode that marks a key release.
pub const RELEASE_BIT: u8 = 0x80;

/// Number of entries of the held-key table (one per possible byte).
pub const KEY_SLOTS: usize = 256;

/// What the keyboard state is, as plain mathematical values.
pub struct KeyboardView {
    pub shift_pressed: bool,
    pub last_keycode: u8,
    pub last_repeat_tick: u64,
    pub held: Seq<bool>,
}

/// True for the two scancodes that press a Shift key.
pub open spec fn is_shift_press(scancode: u8) -> bool {
    scancode == LEFT_SHIFT_PRESS || scancode == RIGHT_SHIFT_PRESS
}

/// True for the two scancodes that release a Shift key.
pub open spec fn is_shift_release(scancode: u8) -> bool {
    scancode == LEFT_SHIFT_RELEASE || scancode == RIGHT_SHIFT_RELEASE
}

/// The key that a scancode speaks of: its low seven bits.
pub open spec fn keycode_of(scancode: u8) -> u8 {
    (scancode % 128) as u8
}

/// True when the scancode reports that a key was let go.
pub open spec fn is_release(scancode: u8) -> bool {
    scancode >= 128
}

/// The keyboard state after one scancode, read when the tick counter
/// stood at `ticks`.
pub open spec fn next_keyboard(s: KeyboardView, scancode: u8, ticks: u64) -> KeyboardView {
    if is_shift_press(scancode) {
        KeyboardView { shift_pressed: true, ..s }
    } else if is_shift_release(scancode) {
        KeyboardView { shift_pressed: false, ..s }
    } else if is_release(scancode) {
        let k = keycode_of(scancode);
        KeyboardView {
            held: s.held.update(k as int, false),
            last_keycode: if s.last_keycode == k { 0 } else { s.last_keycode },
            ..s
        }
    } else {
        let k = keycode_of(scancode);
        if !s.held[k as int] {
            KeyboardView {
                held: s.held.update(k as int, true),
                last_keycode: k,
                last_repeat_tick: ticks,
                ..s
            }
        } else {
            s
        }
    }
}

/// Well-formedness of a keyboard view: one entry per byte in the table, and
/// a nonzero last key is a key that is still held.
pub open spec fn keyboard_wf(s: KeyboardView) -> bool {
    &&& s.held.len() == KEY_SLOTS
    &&& (s.last_keycode != 0 ==> s.held[s.last_keycode as int])
    &&& forall|k: int| 128 <= k < KEY_SLOTS ==> !#[trigger] s.held[k]
}

/// The keyboard state of the kernel.
pub struct KeyboardState {
    shift_pressed: bool,
    last_keycode: u8,
    last_repeat_tick: u64,
    key_held: Vec<bool>,
}

impl View for KeyboardState {
    type V = KeyboardView;

    closed spec fn view(&self) -> KeyboardView {
        KeyboardView {
            shift_pressed: self.shift_pressed,
            last_keycode: self.last_keycode,
            last_repeat_tick: self.last_repeat_tick,
            held: self.key_held@,
        }
    }
}

impl KeyboardState {
    /// Well-formedness of the state (see `keyboard_wf`).
    pub open spec fn wf(&self) -> bool {
        keyboard_wf(self@)
    }

    /// A keyboard with no key held, Shift up and no last key.
    pub fn new() -> (k: KeyboardState)
        ensures
            k.wf(),
            !k@.shift_pressed,
            k@.last_keycode == 0,
            k@.last_repeat_tick == 0,
            forall|i: int| 0 <= i < KEY_SLOTS ==> !#[trigger] k@.held[i],
    {
        let mut held: Vec<bool> = Vec::new();
        let mut i: usize = 0;
        while i < KEY_SLOTS
            invariant
                i <= KEY_SLOTS,
                held@.len() == i,
                forall|j: int| 0 <= j < i ==> !#[trigger] held@[j],
            decreases KEY_SLOTS - i,
        {
            held.push(false);
            i = i + 1;
        }
        KeyboardState { shift_pressed: false, last_keycode: 0, last_repeat_tick: 0, key_held: held }
    }

    /// Whether a Shift key is down.
    pub fn shift_pressed(&self) -> (b: bool)
        ensures
            b == self@.shift_pressed,
    {
        self.shift_pressed
    }

    /// The key pressed last that is still held, or 0.
    pub fn last_keycode(&self) -> (k: u8)
        ensures
            k == self@.last_keycode,
    {
        self.last_keycode
    }

    /// The tick at which the last key went down.
    pub fn last_repeat_tick(&self) -> (t: u64)
        ensures
            t == self@.last_repeat_tick,
    {
        self.last_repeat_tick
    }

    /// Whether the key with the given keycode is held.
    pub fn is_held(&self, keycode: u8) -> (b: bool)
        requires
            self.wf(),
        ensures
            b == self@.held[keycode as int],
    {
        self.key_held[keycode as usize]
    }

    /// Takes one scancode read from the keyboard controller, with the tick
    /// counter as it stood then. Shift scancodes set or clear Shift; a release
    /// lets the key go (and forgets it as the last key); the first press of a
    /// key marks it held and makes it the last key, stamped with the tick;
    /// a repeated press of a held key changes nothing. No character comes out
    /// here: the result is always `None`.
    pub fn get_key(&mut self, scancode: u8, ticks: u64) -> (r: Option<u8>)
        requires
            old(self).wf(),
        ensures
            final(self).wf(),
            final(self)@ == next_keyboard(old(self)@, scancode, ticks),
            r is None,
    {
        if scancode == LEFT_SHIFT_PRESS || scancode == RIGHT_SHIFT_PRESS {
            self.shift_pressed = true;
            return None;
        }
        if scancode == LEFT_SHIFT_RELEASE || scancode == RIGHT_SHIFT_RELEASE {
            self.shift_pressed = false;
            return None;
        }
        let is_release = (scancode & RELEASE_BIT) != 0;
        let keycode = scancode & 0x7F;
        assert(is_release == (scancode >= 128) && keycode == scancode % 128) by (bit_vector)
            requires
                is_release == ((scancode & 0x80u8) != 0),
                keycode == scancode & 0x7Fu8,
        ;
        if is_release {
            self.key_held.set(keycode as usize, false);
            if self.last_keycode == keycode {
                self.last_keycode = 0;
            }
            return None;
        } else {
            if !self.key_held[keycode as usize] {
                self.key_held.set(keycode as usize, true);
                self.last_keycode = keycode;
                self.last_repeat_tick = ticks;
                return None;
            }
            return None;
        }
    }
}

/// Pressing a key that is up and letting it go again leaves the same keys
/// held as before, no last key, and the press's tick as the repeat tick.
pub proof fn lemma_press_then_release(s: KeyboardView, keycode: u8, t1: u64, t2: u64)
    requires
        keyboard_wf(s),
        keycode < 128,
        !s.held[keycode as int],
        !is_shift_press(keycode),
    ensures
        next_keyboard(next_keyboard(s, keycode, t1), (keycode + 128) as u8, t2) == (KeyboardView {
            last_keycode: 0,
            last_repeat_tick: t1,
            ..s
        }),
{
    let r = (keycode + 128) as u8;
    assert(keycode_of(r) == keycode);
    assert(!is_shift_release(r)) by {
        if is_shift_release(r) {
            assert(keycode == LEFT_SHIFT_PRESS || keycode == RIGHT_SHIFT_PRESS);
        }
    }
    let p = next_keyboard(s, keycode, t1);
    assert(p.held.update(keycode as int, false) =~= s.held);
}

/// Further presses of a key that is held (the keyboard's auto-repeat)
/// change nothing.
pub proof fn lemma_repeat_press_unchanged(s: KeyboardView, scancode: u8, ticks: u64)
    requires
        keyboard_wf(s),
        scancode < 128,
        !is_shift_press(scancode),
        s.held[scancode as int],
    ensures
        next_keyboard(s, scancode, ticks) == s,
{
}

/// Shift scancodes set or clear Shift and touch nothing else; other scancodes
/// never change Shift.
pub proof fn lemma_shift_only_by_shift_keys(s: KeyboardView, scancode: u8, ticks: u64)
    ensures
        is_shift_press(scancode) ==> next_keyboard(s, scancode, ticks) == (KeyboardView {
            shift_pressed: true,
            ..s
        }),
        is_shift_release(scancode) ==> next_keyboard(s, scancode, ticks) == (KeyboardView {
            shift_pressed: false,
            ..s
        }),
        !is_shift_press(scancode) && !is_shift_release(scancode) ==> next_keyboard(
            s,
            scancode,
            ticks,
        ).shift_pressed == s.shift_pressed,
{
}

/// Every scancode keeps the keyboard well formed: the table keeps one entry
/// per byte, entries past the seven-bit keycodes stay clear, and a nonzero
/// last key is still held.
pub proof fn lemma_next_keyboard_wf(s: KeyboardView, scancode: u8, ticks: u64)
    requires
        keyboard_wf(s),
    ensures
        keyboard_wf(next_keyboard(s, scancode, ticks)),
{
}

/// The first press of a key (not a Shift key) marks it held, makes it the
/// last key and stamps it with the tick; a release lets it go and forgets it
/// as the last key if it was. Either way no other key's entry changes, and
/// Shift stays as it was.
pub proof fn lemma_press_release_effects(s: KeyboardView, k: u8, ticks: u64)
    requires
        keyboard_wf(s),
        k < 128,
        !is_shift_press(k),
        !is_shift_release((k + 128) as u8),
    ensures
        !s.held[k as int] ==> ({
            let p = next_keyboard(s, k, ticks);
            &&& p.held[k as int]
            &&& p.last_keycode == k
            &&& p.last_repeat_tick == ticks
            &&& p.shift_pressed == s.shift_pressed
            &&& p.held.len() == s.held.len()
            &&& forall|j: int| 0 <= j < s.held.len() && j != k ==> #[trigger] p.held[j] == s.held[j]
        }),
        ({
            let q = next_keyboard(s, (k + 128) as u8, ticks);
            &&& !q.held[k as int]
            &&& q.last_keycode == (if s.last_keycode == k { 0 } else { s.last_keycode })
            &&& q.last_repeat_tick == s.last_repeat_tick
            &&& q.shift_pressed == s.shift_pressed
            &&& q.held.len() == s.held.len()
            &&& forall|j: int| 0 <= j < s.held.len() && j != k ==> #[trigger] q.held[j] == s.held[j]
        }),
{
    assert(keycode_of((k + 128) as u8) == k);
}

} // verus!
