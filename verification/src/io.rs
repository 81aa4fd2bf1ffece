//! The boundary between the interpreter and the outside world: display,
//! keypad, timers and the source of random bytes.

use vstd::prelude::*;
use crate::screen::Point;

verus! {

/// The time between two ticks of the delay and sound timers, in nanoseconds:
/// the timers run at 60 Hz.
pub const TIME_BETWEEN_TICKS_NS: u64 = 16_666_666;

/// Whether a sprite that was drawn erased a pixel.
#[derive(Debug, Clone, Copy, PartialEq, Eq, Structural)]
pub enum DrawSprite {
    /// No pixel went from set to unset.
    NoCollision,
    /// At least one pixel went from set to unset.
    Collision,
}

/// What the interpreter needs from the outside world. Nothing is assumed of
/// what an implementation hands back: the interpreter's contracts hold for
/// every answer.
pub trait Chip8Io {
    /// Called after every instruction, so that an implementation can poll
    /// its input and let its timers run.
    fn update(&mut self) {
    }

    /// Unsets every pixel of the display.
    fn clear_screen(&mut self);

    /// A random byte.
    fn get_random_byte(&mut self) -> u8;

    /// Draws `sprite` with its top left corner at `pos`, which lies on the
    /// display, and tells whether a pixel was erased.
    fn draw_sprite(&mut self, pos: Point, sprite: &[u8]) -> DrawSprite;

    /// Whether key `k` is down.
    fn is_key_pressed(&mut self, k: u8) -> bool;

    /// Waits until a key that was down is released, and returns that key.
    fn blocking_get_key(&mut self) -> u8;

    /// The value of the delay timer.
    fn read_delay_timer(&mut self) -> u8;

    /// Sets the delay timer.
    fn write_delay_timer(&mut self, value: u8);

    /// Sets the sound timer.
    fn write_sound_timer(&mut self, value: u8);
}

/// What an instruction asks of the outside world before it can complete.
#[derive(Debug, Clone, Copy, PartialEq, Eq, Structural)]
pub enum Request {
    /// Nothing: the instruction touches the machine only.
    Nothing,
    /// Unset every pixel of the display.
    ClearScreen,
    /// Supply a random byte.
    RandomByte,
    /// Draw the `rows` bytes of memory from address `start` on as a sprite
    /// at `origin`, and tell whether a pixel was erased.
    DrawSprite { origin: Point, start: u16, rows: u8 },
    /// Tell whether key `key` is down.
    KeyPressed { key: u8 },
    /// Wait for the release of a key and tell which it was.
    WaitKey,
    /// Supply the value of the delay timer.
    ReadDelay,
    /// Set the delay timer to `value`.
    WriteDelay { value: u8 },
    /// Set the sound timer to `value`.
    WriteSound { value: u8 },
}

/// What the outside world handed back for a [`Request`].
#[derive(Debug, Clone, Copy, PartialEq, Eq, Structural)]
pub enum Reply {
    /// The request asked for no value.
    Nothing,
    /// A byte: random, a timer's value or a key.
    Byte(u8),
    /// A yes or no: a collision, or a key that is down.
    Flag(bool),
}

impl Reply {
    /// The byte that the reply carries; zero where it carries none.
    pub open spec fn byte(self) -> u8 {
        match self {
            Reply::Byte(b) => b,
            _ => 0,
        }
    }

    /// The yes or no that the reply carries; no where it carries none.
    pub open spec fn flag(self) -> bool {
        match self {
            Reply::Flag(f) => f,
            _ => false,
        }
    }
}

/// Whether `reply` is of the kind that `request` asks for.
pub open spec fn answers(request: Request, reply: Reply) -> bool {
    match request {
        Request::RandomByte | Request::WaitKey | Request::ReadDelay => reply is Byte,
        Request::DrawSprite { .. } | Request::KeyPressed { .. } => reply is Flag,
        _ => reply is Nothing,
    }
}

} // verus!
