//! The keypad: sixteen keys, and the keys of a physical keyboard that stand
//! for them.

use vstd::prelude::*;

verus! {

/// How a key of the physical keyboard changed.
#[derive(Debug, Clone, Copy, PartialEq, Eq, Structural)]
pub enum KeyKind {
    /// The key went down.
    Press,
    /// The key is held down and repeats.
    Repeat,
    /// The key went up.
    Release,
}

/// An event of the terminal, as far as the keypad cares about it.
#[derive(Debug, Clone, Copy, PartialEq, Eq, Structural)]
pub enum Input {
    /// A key that stands for the character `c`, with or without the control
    /// key held down.
    Key { c: char, kind: KeyKind, control: bool },
    /// Anything else: another kind of key, the mouse, a new size.
    Other,
}

/// The key of the keypad that the character `c` stands for on a keyboard
/// with the Workman layout, where the four by four keys from `7` to `/` make
/// the keypad.
pub open spec fn workman_key(c: char) -> Option<u8> {
    if c == '7' || c == '&' {
        Some(0x1u8)
    } else if c == '8' || c == '*' {
        Some(0x2u8)
    } else if c == '9' || c == '(' {
        Some(0x3u8)
    } else if c == 'f' || c == 'F' {
        Some(0x4u8)
    } else if c == 'u' || c == 'U' {
        Some(0x5u8)
    } else if c == 'p' || c == 'P' {
        Some(0x6u8)
    } else if c == 'n' || c == 'N' {
        Some(0x7u8)
    } else if c == 'e' || c == 'E' {
        Some(0x8u8)
    } else if c == 'o' || c == 'O' {
        Some(0x9u8)
    } else if c == 'l' || c == 'L' {
        Some(0xau8)
    } else if c == ',' || c == '<' {
        Some(0x0u8)
    } else if c == '.' || c == '>' {
        Some(0xbu8)
    } else if c == '0' || c == ')' {
        Some(0xcu8)
    } else if c == ';' || c == ':' {
        Some(0xdu8)
    } else if c == 'i' || c == 'I' {
        Some(0xeu8)
    } else if c == '/' || c == '?' {
        Some(0xfu8)
    } else {
        None
    }
}

/// Whether `e` is the request to stop the program: control and `c`, going
/// down.
pub open spec fn interrupts(e: Input) -> bool {
    e matches Input::Key { c, kind, control } && (c == 'c' || c == 'C') && control
        && kind != KeyKind::Release
}

/// The key of the keypad that `e` is about, and whether that key is down
/// after it. `None` where `e` is about no key of the keypad.
pub open spec fn filtered(e: Input) -> Option<(u8, bool)> {
    match e {
        Input::Key { c, kind, .. } => match workman_key(c) {
            Some(k) => Some((k, kind != KeyKind::Release)),
            None => None,
        },
        Input::Other => None,
    }
}

/// The keys that are down after `e`, where `keys` were down before it.
pub open spec fn applied(keys: Seq<bool>, e: Input) -> Seq<bool> {
    match filtered(e) {
        Some((k, pressed)) => keys.update(k as int, pressed),
        None => keys,
    }
}

/// The keys that are down after the events `events`, in their order, where
/// `keys` were down before them.
pub open spec fn applied_all(keys: Seq<bool>, events: Seq<Input>) -> Seq<bool>
    decreases events.len(),
{
    if events.len() == 0 {
        keys
    } else {
        applied(applied_all(keys, events.drop_last()), events.last())
    }
}

/// The key of the keypad that `e` releases, if it releases one.
pub open spec fn released(e: Input) -> Option<u8> {
    match filtered(e) {
        Some((k, false)) => Some(k),
        _ => None,
    }
}

/// The key of the keypad that the character `c` stands for, if it stands for
/// one.
pub fn keycode_to_chip8(c: char) -> (key: Option<u8>)
    ensures
        key == workman_key(c),
        key is Some ==> key->Some_0 < 16,
{
    workman_keycode_to_chip8(c)
}

/// The key of the keypad that the character `c` stands for on a keyboard
/// with the Workman layout, if it stands for one.
pub fn workman_keycode_to_chip8(c: char) -> (key: Option<u8>)
    ensures
        key == workman_key(c),
        key is Some ==> key->Some_0 < 16,
{
    let key = match c {
        '7' | '&' => 0x1,
        '8' | '*' => 0x2,
        '9' | '(' => 0x3,
        'f' | 'F' => 0x4,
        'u' | 'U' => 0x5,
        'p' | 'P' => 0x6,
        'n' | 'N' => 0x7,
        'e' | 'E' => 0x8,
        'o' | 'O' => 0x9,
        'l' | 'L' => 0xa,
        ',' | '<' => 0x0,
        '.' | '>' => 0xb,
        '0' | ')' => 0xc,
        ';' | ':' => 0xd,
        'i' | 'I' => 0xe,
        '/' | '?' => 0xf,
        _ => {
            return None;
        },
    };
    Some(key)
}

/// Whether `e` is the request to stop the program: control and `c`, going
/// down.
pub fn is_interrupt(e: &Input) -> (b: bool)
    ensures
        b == interrupts(*e),
{
    match e {
        Input::Key { c, kind, control } => {
            let going_down = match kind {
                KeyKind::Release => false,
                _ => true,
            };
            (*c == 'c' || *c == 'C') && *control && going_down
        },
        Input::Other => false,
    }
}

/// The key of the keypad that `e` is about, and whether that key is down
/// after it; `None` where `e` is about no key of the keypad. The request to
/// stop the program is not an event of the keypad: the caller has dealt
/// with it.
pub fn filter_event(e: &Input) -> (r: Option<(u8, bool)>)
    requires
        !interrupts(*e),
    ensures
        r == filtered(*e),
        r is Some ==> r->Some_0.0 < 16,
{
    match e {
        Input::Key { c, kind, .. } => {
            let pressed = match kind {
                KeyKind::Press | KeyKind::Repeat => true,
                KeyKind::Release => false,
            };
            match keycode_to_chip8(*c) {
                Some(k) => Some((k, pressed)),
                None => None,
            }
        },
        Input::Other => None,
    }
}

/// Which of the sixteen keys of the keypad are down.
#[derive(Debug, Clone, Copy)]
pub struct Keyboard {
    pressed: [bool; 16],
}

impl View for Keyboard {
    type V = Seq<bool>;

    closed spec fn view(&self) -> Seq<bool> {
        self.pressed@
    }
}

impl Default for Keyboard {
    fn default() -> (kb: Self)
        ensures
            kb@ == Seq::new(16, |k: int| false),
    {
        Keyboard::new()
    }
}

impl Keyboard {
    /// A keypad with no key down.
    pub fn new() -> (kb: Self)
        ensures
            kb@ == Seq::new(16, |k: int| false),
    {
        let kb = Keyboard { pressed: [false; 16] };
        assert(kb@ =~= Seq::new(16, |k: int| false));
        kb
    }

    /// A keypad always has sixteen keys.
    pub proof fn lemma_len(&self)
        ensures
            self@.len() == 16,
    {
    }

    /// Whether key `x` is down.
    pub fn is_key_pressed(&self, x: u8) -> (b: bool)
        requires
            x <= 0x0f,
        ensures
            b == self@[x as int],
    {
        self.pressed[x as usize]
    }

    /// Takes note of one event.
    pub fn update_state(&mut self, e: &Input)
        requires
            !interrupts(*e),
        ensures
            final(self)@ == applied(old(self)@, *e),
    {
        match filter_event(e) {
            Some((k, pressed)) => {
                self.pressed[k as usize] = pressed;
            },
            None => {},
        }
    }

    /// Takes note of the events that are pending, in their order.
    pub fn update(&mut self, events: &[Input])
        requires
            forall|j: int| 0 <= j < events@.len() ==> !interrupts(#[trigger] events@[j]),
        ensures
            final(self)@ == applied_all(old(self)@, events@),
    {
        let mut j: usize = 0;
        while j < events.len()
            invariant
                j <= events@.len(),
                forall|j: int| 0 <= j < events@.len() ==> !interrupts(#[trigger] events@[j]),
                self@ == applied_all(old(self)@, events@.take(j as int)),
            decreases events@.len() - j,
        {
            self.update_state(&events[j]);
            assert(events@.take(j + 1).drop_last() =~= events@.take(j as int));
            j = j + 1;
        }
        assert(events@.take(j as int) =~= events@);
    }

    /// One turn of the wait for a key to be released: takes note of `e`, the
    /// event that came next, and tells which key of the keypad it released.
    /// The wait is over with the first event for which this is `Some`: a key
    /// that merely is down, or goes down, does not end it.
    pub fn wait_for_key_release(&mut self, e: &Input) -> (key: Option<u8>)
        requires
            !interrupts(*e),
        ensures
            final(self)@ == applied(old(self)@, *e),
            key == released(*e),
            key is Some ==> key->Some_0 < 16 && !final(self)@[key->Some_0 as int],
    {
        proof {
            self.lemma_len();
        }
        match filter_event(e) {
            Some((k, pressed)) => {
                self.pressed[k as usize] = pressed;
                if !pressed {
                    Some(k)
                } else {
                    None
                }
            },
            None => None,
        }
    }
}

} // verus!
