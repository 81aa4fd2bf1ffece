//! The state behind a terminal front end: the display, the keypad and the
//! two timers. What reads the clock, the keyboard and writes the terminal
//! hands its findings to the functions of this module.

use vstd::prelude::*;
use crate::io::{DrawSprite, TIME_BETWEEN_TICKS_NS};
use crate::keyboard::{applied, interrupts, released, Input, Keyboard};
use crate::screen::{blank_grid, collides, drawn, Point, Screen};

verus! {

/// What a [`TerminalIo`] holds.
pub struct TerminalState {
    /// The display's rows, from top to bottom.
    pub screen: Seq<Seq<bool>>,
    /// Which of the sixteen keys are down.
    pub keys: Seq<bool>,
    /// The delay timer.
    pub delay: u8,
    /// The sound timer.
    pub sound: u8,
}

/// A timer's value after `ticks` ticks: the timer counts down and stays at
/// zero.
pub open spec fn ticked(timer: u8, ticks: int) -> u8 {
    if timer >= ticks {
        (timer - ticks) as u8
    } else {
        0
    }
}

/// The display, keypad and timers of a machine that is shown in a terminal.
#[derive(Debug)]
pub struct TerminalIo {
    screen: Screen,
    kb: Keyboard,
    dt: u8,
    st: u8,
}

impl View for TerminalIo {
    type V = TerminalState;

    closed spec fn view(&self) -> TerminalState {
        TerminalState { screen: self.screen@, keys: self.kb@, delay: self.dt, sound: self.st }
    }
}

/// `rand::random`, for a byte: a value from the thread's random number
/// generator. Nothing is claimed of the byte that comes back.
#[verifier::external_body]
fn random_byte() -> u8 {
    rand::random()
}

impl TerminalIo {
    /// An empty display, no key down, both timers at zero.
    pub fn new() -> (io: Self)
        ensures
            io@ == (TerminalState {
                screen: blank_grid(),
                keys: Seq::new(16, |k: int| false),
                delay: 0,
                sound: 0,
            }),
    {
        Self { screen: Screen::new(), kb: Keyboard::new(), dt: 0, st: 0 }
    }

    /// The display.
    pub fn screen(&self) -> (screen: &Screen)
        ensures
            screen@ == self@.screen,
    {
        &self.screen
    }

    /// Lets the timers run for the `elapsed_ns` nanoseconds that have passed
    /// since their last tick: each full tick interval in it takes one off
    /// both timers, which stay at zero once they are there. Returns the
    /// nanoseconds that remain after the last full interval.
    pub fn update(&mut self, elapsed_ns: u64) -> (rest_ns: u64)
        ensures
            rest_ns == elapsed_ns % TIME_BETWEEN_TICKS_NS,
            final(self)@ == (TerminalState {
                delay: ticked(old(self)@.delay, elapsed_ns as int / TIME_BETWEEN_TICKS_NS as int),
                sound: ticked(old(self)@.sound, elapsed_ns as int / TIME_BETWEEN_TICKS_NS as int),
                ..old(self)@
            }),
    {
        let ticks = elapsed_ns / TIME_BETWEEN_TICKS_NS;
        let down: u8 = if ticks > 0xff {
            0xff
        } else {
            ticks as u8
        };
        self.dt = self.dt.saturating_sub(down);
        self.st = self.st.saturating_sub(down);
        elapsed_ns % TIME_BETWEEN_TICKS_NS
    }

    /// Unsets every pixel of the display.
    pub fn clear_screen(&mut self)
        ensures
            final(self)@ == (TerminalState { screen: blank_grid(), ..old(self)@ }),
    {
        self.screen.clear();
    }

    /// A random byte. It changes nothing of what is held here.
    pub fn get_random_byte(&mut self) -> (b: u8)
        ensures
            final(self)@ == old(self)@,
    {
        random_byte()
    }

    /// Draws `sprite` on the display with its top left corner at `pos` and
    /// tells whether that erased a pixel.
    pub fn draw_sprite(&mut self, pos: Point, sprite: &[u8]) -> (r: DrawSprite)
        ensures
            final(self)@ == (TerminalState {
                screen: drawn(old(self)@.screen, pos, sprite@),
                ..old(self)@
            }),
            r == if collides(old(self)@.screen, pos, sprite@) {
                DrawSprite::Collision
            } else {
                DrawSprite::NoCollision
            },
    {
        self.screen.draw_sprite(pos, sprite)
    }

    /// Takes note of an event of the terminal.
    pub fn handle_input(&mut self, e: &Input)
        requires
            !interrupts(*e),
        ensures
            final(self)@ == (TerminalState { keys: applied(old(self)@.keys, *e), ..old(self)@ }),
    {
        self.kb.update_state(e);
    }

    /// Whether key `k` is down.
    pub fn is_key_pressed(&self, k: u8) -> (b: bool)
        requires
            k <= 0x0f,
        ensures
            b == self@.keys[k as int],
    {
        self.kb.is_key_pressed(k)
    }

    /// One turn of the wait for a key to be released: takes note of `e`, the
    /// event that came next, and tells which key of the keypad it released.
    /// The wait is over with the first event for which this is `Some`.
    pub fn blocking_get_key(&mut self, e: &Input) -> (key: Option<u8>)
        requires
            !interrupts(*e),
        ensures
            final(self)@ == (TerminalState { keys: applied(old(self)@.keys, *e), ..old(self)@ }),
            key == released(*e),
            key is Some ==> key->Some_0 < 16,
    {
        self.kb.wait_for_key_release(e)
    }

    /// The value of the delay timer.
    pub fn read_delay_timer(&self) -> (value: u8)
        ensures
            value == self@.delay,
    {
        self.dt
    }

    /// The value of the sound timer.
    pub fn read_sound_timer(&self) -> (value: u8)
        ensures
            value == self@.sound,
    {
        self.st
    }

    /// Sets the delay timer.
    pub fn write_delay_timer(&mut self, value: u8)
        ensures
            final(self)@ == (TerminalState { delay: value, ..old(self)@ }),
    {
        self.dt = value;
    }

    /// Sets the sound timer.
    pub fn write_sound_timer(&mut self, value: u8)
        ensures
            final(self)@ == (TerminalState { sound: value, ..old(self)@ }),
    {
        self.st = value;
    }
}

} // verus!
