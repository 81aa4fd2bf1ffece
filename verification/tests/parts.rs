use chip_8::debug::{hex_digit, write_hex_byte, write_row};
use chip_8::instr::{bcd_from_u8, decode, nibbles_from_u16};
use chip_8::io::TIME_BETWEEN_TICKS_NS;
use chip_8::keyboard::{
    filter_event, is_interrupt, keycode_to_chip8, workman_keycode_to_chip8, Input, KeyKind,
    Keyboard,
};
use chip_8::mem::DIGITS;
use chip_8::{DrawSprite, Fault, Flip, Instr, Mem, Point, Regs, Screen, Stack, TerminalIo};

fn press(c: char) -> Input {
    Input::Key { c, kind: KeyKind::Press, control: false }
}

fn release(c: char) -> Input {
    Input::Key { c, kind: KeyKind::Release, control: false }
}

fn lit_pixels(screen: &Screen) -> Vec<(i8, i8)> {
    let mut found = vec![];
    for y in 0..32 {
        for x in 0..64 {
            if screen.get(Point::new(x, y)) {
                found.push((x, y));
            }
        }
    }
    found
}

#[test]
fn stack_push_then_pop_returns_the_address() {
    let mut stack = Stack::new();
    assert_eq!(stack.len(), 0);
    assert_eq!(stack.push(0x234), Ok(()));
    assert_eq!(stack.push(0x456), Ok(()));
    assert_eq!(stack.len(), 2);
    assert_eq!(stack.pop(), Ok(0x456));
    assert_eq!(stack.pop(), Ok(0x234));
    assert_eq!(stack.len(), 0);
}

#[test]
fn stack_seventeenth_push_overflows() {
    let mut stack = Stack::new();
    for n in 0..16 {
        assert_eq!(stack.push(n), Ok(()));
    }
    assert_eq!(stack.push(16), Err(Fault::StackOverflow));
    assert_eq!(stack.len(), 16);
    assert_eq!(stack.pop(), Ok(15));
    assert_eq!(stack.push(99), Ok(()));
    for n in [99u16, 14, 13, 12, 11, 10, 9, 8, 7, 6, 5, 4, 3, 2, 1, 0] {
        assert_eq!(stack.pop(), Ok(n));
    }
}

#[test]
fn stack_pop_on_empty_underflows() {
    let mut stack = Stack::new();
    assert_eq!(stack.pop(), Err(Fault::StackUnderflow));
    assert_eq!(stack.push(1), Ok(()));
    assert_eq!(stack.pop(), Ok(1));
    assert_eq!(stack.pop(), Err(Fault::StackUnderflow));
    assert_eq!(stack.len(), 0);
}

#[test]
fn memory_starts_with_digits_and_program() {
    let mem = Mem::new(&[0x12, 0x34, 0x56]).unwrap();
    for digit in 0..16u16 {
        for row in 0..5u16 {
            assert_eq!(mem.get(digit * 5 + row), DIGITS[digit as usize][row as usize]);
        }
    }
    assert_eq!(mem.get(0), 0xF0);
    assert_eq!(mem.get(5), 0x20);
    assert_eq!(mem.get(79), 0x80);
    for addr in 80..0x200 {
        assert_eq!(mem.get(addr), 0);
    }
    assert_eq!(mem.get(0x200), 0x12);
    assert_eq!(mem.get(0x201), 0x34);
    assert_eq!(mem.get(0x202), 0x56);
    for addr in 0x203..0x1000 {
        assert_eq!(mem.get(addr), 0);
    }
}

#[test]
fn memory_refuses_a_program_that_does_not_fit() {
    assert!(Mem::new(&vec![1; 3584]).is_ok());
    assert!(matches!(Mem::new(&vec![1; 3585]), Err(Fault::ProgramTooLarge { len: 3585 })));
    assert!(matches!(Mem::new(&vec![1; 5000]), Err(Fault::ProgramTooLarge { len: 5000 })));
    assert!(Mem::new(&[]).is_ok());
}

#[test]
fn memory_access_is_checked() {
    let mut mem = Mem::new(&[]).unwrap();
    assert_eq!(mem.read(0), Ok(0xF0));
    assert_eq!(mem.read(0xFFF), Ok(0));
    assert_eq!(mem.read(0x1000), Err(Fault::OutOfBounds { addr: 0x1000 }));
    assert_eq!(mem.read(0xFFFF), Err(Fault::OutOfBounds { addr: 0xFFFF }));
    assert_eq!(mem.write(0xFFF, 7), Ok(()));
    assert_eq!(mem.read(0xFFF), Ok(7));
    assert_eq!(mem.write(0x1000, 7), Err(Fault::OutOfBounds { addr: 0x1000 }));
    mem.set(0x300, 9);
    assert_eq!(mem.get(0x300), 9);
    assert_eq!(mem.get(0x2FF), 0);
    assert_eq!(mem.get(0x301), 0);
}

#[test]
fn memory_ranges_are_checked() {
    assert_eq!(Mem::check_range(0, 0x1000), Ok(()));
    assert_eq!(Mem::check_range(0, 0x1001), Err(Fault::OutOfBounds { addr: 0x1000 }));
    assert_eq!(Mem::check_range(0xFFF, 1), Ok(()));
    assert_eq!(Mem::check_range(0xFFF, 2), Err(Fault::OutOfBounds { addr: 0x1000 }));
    assert_eq!(Mem::check_range(0x1000, 0), Ok(()));
    assert_eq!(Mem::check_range(0x1000, 1), Err(Fault::OutOfBounds { addr: 0x1000 }));
    assert_eq!(Mem::check_range(0x1001, 0), Err(Fault::OutOfBounds { addr: 0x1001 }));
    assert_eq!(Mem::check_range(0xFFFF, 0xFFFF), Err(Fault::OutOfBounds { addr: 0xFFFF }));
}

#[test]
fn memory_slice_and_sprite_offset() {
    let mem = Mem::new(&[1, 2, 3, 4]).unwrap();
    assert_eq!(mem.slice(0x201, 2), &[2, 3]);
    assert_eq!(mem.slice(0x201, 0), &[] as &[u8]);
    assert_eq!(mem.slice(Mem::sprite_offset(1), 5), &[0x20, 0x60, 0x20, 0x20, 0x70]);
    assert_eq!(mem.slice(0xFFE, 2), &[0, 0]);
    assert_eq!(Mem::sprite_offset(0), 0);
    assert_eq!(Mem::sprite_offset(0xF), 75);
    assert_eq!(Mem::sprite_offset(0xFF), 1275);
    assert_eq!(Mem::LEN, 4096);
    assert_eq!(Mem::ROM_START, 0x200);
}

#[test]
fn memory_used_length_ends_at_the_last_byte_that_is_not_zero() {
    let mut mem = Mem::new(&[]).unwrap();
    assert_eq!(mem.used_len(), 80);
    mem.set(0xFFF, 1);
    assert_eq!(mem.used_len(), 4096);
    mem.set(0xFFF, 0);
    for addr in 0..80 {
        mem.set(addr, 0);
    }
    assert_eq!(mem.used_len(), 0);
    mem.set(0, 1);
    assert_eq!(mem.used_len(), 1);
}

#[test]
fn memory_on_one_line() {
    let mut mem = Mem::new(&[]).unwrap();
    for addr in 3..80 {
        mem.set(addr, 0);
    }
    assert_eq!(mem.debug_compact(), "[f0, 90, 90]");
    mem.set(1, 0);
    mem.set(2, 0);
    assert_eq!(mem.debug_compact(), "[f0]");
    mem.set(0, 0);
    assert_eq!(mem.debug_compact(), "[]");
    mem.set(2, 0x0A);
    assert_eq!(mem.debug_compact(), "[00, 00, 0a]");
}

#[test]
fn memory_dump_leaves_rows_of_zeros_out() {
    let mut mem = Mem::new(&[0xAB, 0xCD]).unwrap();
    mem.set(0xFFF, 0x01);
    let expected = "\n\
        000: f0 90 90 90 f0 20 60 20  20 70 f0 10 f0 80 f0 f0\n\
        010: 10 f0 10 f0 90 90 f0 10  10 f0 80 f0 10 f0 f0 80\n\
        020: f0 90 f0 f0 10 20 40 40  f0 90 f0 90 f0 f0 90 f0\n\
        030: 10 f0 f0 90 f0 90 90 e0  90 e0 90 e0 f0 80 80 80\n\
        040: f0 e0 90 90 90 e0 f0 80  f0 80 f0 f0 80 f0 80 80\n\
        ...\n\
        200: ab cd 00 00 00 00 00 00  00 00 00 00 00 00 00 00\n\
        ...\n\
        ff0: 00 00 00 00 00 00 00 00  00 00 00 00 00 00 00 01\n";
    assert_eq!(mem.dump(), expected);
}

#[test]
fn memory_dump_of_zeros_is_one_gap() {
    let mut mem = Mem::new(&[]).unwrap();
    for addr in 0..80 {
        mem.set(addr, 0);
    }
    assert_eq!(mem.dump(), "\n...\n");
}

#[test]
fn registers_start_at_zero_and_keep_what_is_set() {
    let mut v = Regs::new();
    for x in 0..16 {
        assert_eq!(v.get(x), 0);
    }
    v.set(3, 0x33);
    v.set(0xF, 0xFF);
    for x in 0..16 {
        let expected = match x {
            3 => 0x33,
            0xF => 0xFF,
            _ => 0,
        };
        assert_eq!(v.get(x), expected);
    }
}

#[test]
fn registers_as_text() {
    let mut v = Regs::new();
    v.set(0, 0x01);
    v.set(7, 0x7A);
    v.set(8, 0x80);
    v.set(15, 0xFF);
    assert_eq!(v.render(), "[ 01 00 00 00 00 00 00 7a  80 00 00 00 00 00 00 ff ]");
}

#[test]
fn hexadecimal_text() {
    let digits: String = (0..16).map(hex_digit).collect();
    assert_eq!(digits, "0123456789abcdef");
    let mut out = String::from("x");
    write_hex_byte(&mut out, 0x0A);
    write_hex_byte(&mut out, 0xF0);
    assert_eq!(out, "x0af0");
    let mut out = String::new();
    write_row(&mut out, &[0, 1, 2, 3, 4, 5, 6, 7, 8, 9, 10, 11, 12, 13, 14, 255]);
    assert_eq!(out, "00 01 02 03 04 05 06 07  08 09 0a 0b 0c 0d 0e ff");
}

#[test]
fn point_wraps_around_the_display() {
    assert_eq!(Point::new(-1, -1).wrap(), Point::new(63, 31));
    assert_eq!(Point::new(64, 32).wrap(), Point::new(0, 0));
    assert_eq!(Point::new(-4, 0).wrap(), Point::new(60, 0));
    assert_eq!(Point::new(60, 0).wrap(), Point::new(60, 0));
    assert_eq!(Point::new(127, 127).wrap(), Point::new(63, 31));
    assert_eq!(Point::new(-128, -128).wrap(), Point::new(0, 0));
    assert_eq!(Point::new(-65, -33).wrap(), Point::new(63, 31));
    assert_eq!(Point::from((5, -3)).wrap(), Point::new(5, 29));
}

#[test]
fn point_in_bounds_is_the_display() {
    assert!(Point::new(0, 0).in_bounds());
    assert!(Point::new(63, 31).in_bounds());
    assert!(!Point::new(64, 31).in_bounds());
    assert!(!Point::new(63, 32).in_bounds());
    assert!(!Point::new(-1, 0).in_bounds());
    assert!(!Point::new(0, -1).in_bounds());
}

#[test]
fn point_wrapping_add() {
    assert_eq!(Point::new(60, 30).wrapping_add(Point::new(7, 4)), Point::new(3, 2));
    assert_eq!(Point::new(127, 127).wrapping_add(Point::new(127, 127)), Point::new(62, 30));
    assert_eq!(Point::new(-128, -128).wrapping_add(Point::new(-128, -128)), Point::new(0, 0));
    assert_eq!(Point::new(0, 0).wrapping_add(Point::new(-1, -1)), Point::new(63, 31));
    assert_eq!(Point::new(1, 2).wrapping_add(Point::new(3, 4)), Point::new(4, 6));
}

#[test]
fn points_add_coordinate_by_coordinate() {
    assert_eq!(Point::new(60, 30) + Point::new(7, 4), Point::new(67, 34));
    assert_eq!(Point::new(-4, -1) + Point::new(3, 1), Point::new(-1, 0));
    assert!(!(Point::new(60, 30) + Point::new(7, 4)).in_bounds());
}

#[test]
fn screen_starts_empty_and_flips() {
    let mut screen = Screen::new();
    assert!(lit_pixels(&screen).is_empty());
    assert_eq!(screen.flip(Point::new(3, 4)), Flip::NoCollision);
    assert_eq!(lit_pixels(&screen), vec![(3, 4)]);
    assert_eq!(screen.flip(Point::new(63, 31)), Flip::NoCollision);
    assert_eq!(lit_pixels(&screen), vec![(3, 4), (63, 31)]);
    assert_eq!(screen.flip(Point::new(3, 4)), Flip::Collision);
    assert_eq!(lit_pixels(&screen), vec![(63, 31)]);
    screen.clear();
    assert!(lit_pixels(&screen).is_empty());
    assert!(lit_pixels(&Screen::default()).is_empty());
}

#[test]
fn sprite_bits_go_from_left_to_right() {
    let mut screen = Screen::new();
    assert_eq!(screen.draw_sprite(Point::new(10, 5), &[0x80, 0x01, 0xA5]), DrawSprite::NoCollision);
    assert_eq!(lit_pixels(&screen), vec![(10, 5), (17, 6), (10, 7), (12, 7), (15, 7), (17, 7)]);
}

#[test]
fn drawing_twice_restores_the_display() {
    let mut screen = Screen::new();
    screen.flip(Point::new(1, 1));
    screen.flip(Point::new(40, 20));
    let before = lit_pixels(&screen);
    let sprite = [0xF0, 0x90, 0x90, 0x90, 0xF0];
    // The sprite covers the pixel at 1,1, which is set, with an unset bit
    // of its own; nothing is erased.
    assert_eq!(screen.draw_sprite(Point::new(0, 0), &sprite), DrawSprite::NoCollision);
    assert_ne!(lit_pixels(&screen), before);
    assert_eq!(screen.draw_sprite(Point::new(0, 0), &sprite), DrawSprite::Collision);
    assert_eq!(lit_pixels(&screen), before);
}

#[test]
fn collision_is_reported_once_for_many_pixels() {
    let mut screen = Screen::new();
    assert_eq!(screen.draw_sprite(Point::new(0, 0), &[0xFF, 0xFF]), DrawSprite::NoCollision);
    assert_eq!(screen.draw_sprite(Point::new(4, 1), &[0xFF]), DrawSprite::Collision);
    let mut expected: Vec<(i8, i8)> = (0..8).map(|x| (x, 0)).collect();
    expected.extend((0..4).map(|x| (x, 1)));
    expected.extend((8..12).map(|x| (x, 1)));
    assert_eq!(lit_pixels(&screen), expected);
    assert_eq!(screen.draw_sprite(Point::new(20, 20), &[0x00]), DrawSprite::NoCollision);
    assert_eq!(screen.draw_sprite(Point::new(0, 0), &[]), DrawSprite::NoCollision);
    assert_eq!(lit_pixels(&screen), expected);
}

#[test]
fn sprite_is_clipped_at_the_right_edge() {
    let mut screen = Screen::new();
    assert_eq!(screen.draw_sprite(Point::new(60, 0), &[0xFF]), DrawSprite::NoCollision);
    assert_eq!(lit_pixels(&screen), vec![(60, 0), (61, 0), (62, 0), (63, 0)]);
    let mut wrapped = Screen::new();
    wrapped.draw_sprite(Point::new(-4, 0).wrap(), &[0xFF]);
    assert_eq!(lit_pixels(&wrapped), lit_pixels(&screen));
}

#[test]
fn sprite_is_clipped_at_the_lower_edge() {
    let mut screen = Screen::new();
    screen.draw_sprite(Point::new(0, 30), &[0x80, 0x80, 0x80, 0x80]);
    assert_eq!(lit_pixels(&screen), vec![(0, 30), (0, 31)]);
}

#[test]
fn sprite_off_the_display_shows_what_reaches_it() {
    let mut screen = Screen::new();
    screen.draw_sprite(Point::new(-4, -1), &[0xFF, 0xFF]);
    assert_eq!(lit_pixels(&screen), vec![(0, 0), (1, 0), (2, 0), (3, 0)]);
    let mut screen = Screen::new();
    screen.draw_sprite(Point::new(127, 127), &[0xFF]);
    screen.draw_sprite(Point::new(-128, -128), &[0xFF; 300]);
    screen.draw_sprite(Point::new(64, 0), &[0xFF]);
    screen.draw_sprite(Point::new(0, 32), &[0xFF]);
    assert!(lit_pixels(&screen).is_empty());
    screen.draw_sprite(Point::new(0, -128), &[0x80; 130]);
    assert_eq!(lit_pixels(&screen), vec![(0, 0), (0, 1)]);
}

#[test]
fn screen_as_text() {
    let mut screen = Screen::new();
    screen.flip(Point::new(0, 0));
    screen.flip(Point::new(63, 0));
    screen.flip(Point::new(1, 31));
    let text = screen.render();
    let lines: Vec<&str> = text.split('\n').collect();
    assert_eq!(lines.len(), 34);
    assert_eq!(lines[0], "");
    assert_eq!(lines[33], "");
    assert_eq!(lines[1], format!("#{}#", ".".repeat(62)));
    assert_eq!(lines[32], format!(".#{}", ".".repeat(62)));
    for line in &lines[2..32] {
        assert_eq!(*line, ".".repeat(64));
    }
}

#[test]
fn words_decode_to_instructions() {
    let cases = [
        (0x00E0, Instr::ClearScreen),
        (0x00EE, Instr::Return),
        (0x1ABC, Instr::Jump { addr: 0xABC }),
        (0x2FFF, Instr::Call { addr: 0xFFF }),
        (0x3A12, Instr::SkipEqImm { x: 0xA, k: 0x12 }),
        (0x4B34, Instr::SkipNeImm { x: 0xB, k: 0x34 }),
        (0x5CD0, Instr::SkipEqReg { x: 0xC, y: 0xD }),
        (0x6EFF, Instr::LoadImm { x: 0xE, k: 0xFF }),
        (0x7F01, Instr::AddImm { x: 0xF, k: 0x01 }),
        (0x8120, Instr::Move { x: 1, y: 2 }),
        (0x8121, Instr::Or { x: 1, y: 2 }),
        (0x8122, Instr::And { x: 1, y: 2 }),
        (0x8123, Instr::Xor { x: 1, y: 2 }),
        (0x8124, Instr::Add { x: 1, y: 2 }),
        (0x8125, Instr::Sub { x: 1, y: 2 }),
        (0x8126, Instr::ShiftRight { x: 1, y: 2 }),
        (0x8127, Instr::SubFrom { x: 1, y: 2 }),
        (0x812E, Instr::ShiftLeft { x: 1, y: 2 }),
        (0x9340, Instr::SkipNeReg { x: 3, y: 4 }),
        (0xA123, Instr::LoadIndex { addr: 0x123 }),
        (0xB456, Instr::JumpOffset { addr: 0x456 }),
        (0xC5F0, Instr::Random { x: 5, k: 0xF0 }),
        (0xD67F, Instr::Draw { x: 6, y: 7, n: 0xF }),
        (0xE89E, Instr::SkipKey { x: 8 }),
        (0xE9A1, Instr::SkipNotKey { x: 9 }),
        (0xFA07, Instr::ReadDelay { x: 0xA }),
        (0xFB0A, Instr::WaitKey { x: 0xB }),
        (0xFC15, Instr::WriteDelay { x: 0xC }),
        (0xFD18, Instr::WriteSound { x: 0xD }),
        (0xFE1E, Instr::AddIndex { x: 0xE }),
        (0xFF29, Instr::LoadGlyph { x: 0xF }),
        (0xF033, Instr::StoreBcd { x: 0 }),
        (0xF155, Instr::StoreRegs { x: 1 }),
        (0xF265, Instr::LoadRegs { x: 2 }),
    ];
    for (word, instr) in cases {
        assert_eq!(decode(word), Some(instr), "{word:04x}");
    }
}

#[test]
fn other_words_decode_to_nothing() {
    for word in [
        0x0000u16, 0x00E1, 0x00EF, 0x01E0, 0x0FFF, 0x5121, 0x512F, 0x8128, 0x8129, 0x812A, 0x812B,
        0x812C, 0x812D, 0x812F, 0x9121, 0xE09F, 0xE0A0, 0xE000, 0xF000, 0xF008, 0xF166, 0xFFFF,
    ] {
        assert_eq!(decode(word), None, "{word:04x}");
    }
}

#[test]
fn instructions_are_counted() {
    let known = (0..=0xFFFFu16).filter(|w| decode(*w).is_some()).count();
    // Two without operands, ten families with twelve bits of operand, eleven
    // with eight bits and eleven with four.
    assert_eq!(known, 2 + 10 * 4096 + 11 * 256 + 11 * 16);
}

#[test]
fn nibbles_are_taken_from_the_top() {
    assert_eq!(nibbles_from_u16(0x1234), [1, 2, 3, 4]);
    assert_eq!(nibbles_from_u16(0xF00A), [0xF, 0, 0, 0xA]);
    assert_eq!(nibbles_from_u16(0x0000), [0, 0, 0, 0]);
    assert_eq!(nibbles_from_u16(0xFFFF), [15, 15, 15, 15]);
}

#[test]
fn decimal_digits() {
    assert_eq!(bcd_from_u8(0), [0, 0, 0]);
    assert_eq!(bcd_from_u8(7), [0, 0, 7]);
    assert_eq!(bcd_from_u8(42), [0, 4, 2]);
    assert_eq!(bcd_from_u8(100), [1, 0, 0]);
    assert_eq!(bcd_from_u8(254), [2, 5, 4]);
    assert_eq!(bcd_from_u8(255), [2, 5, 5]);
}

#[test]
fn characters_map_to_keys() {
    let keys = [
        ("7&", 0x1),
        ("8*", 0x2),
        ("9(", 0x3),
        ("fF", 0x4),
        ("uU", 0x5),
        ("pP", 0x6),
        ("nN", 0x7),
        ("eE", 0x8),
        ("oO", 0x9),
        ("lL", 0xA),
        (",<", 0x0),
        (".>", 0xB),
        ("0)", 0xC),
        (";:", 0xD),
        ("iI", 0xE),
        ("/?", 0xF),
    ];
    for (chars, key) in keys {
        for c in chars.chars() {
            assert_eq!(workman_keycode_to_chip8(c), Some(key));
            assert_eq!(keycode_to_chip8(c), Some(key));
        }
    }
    for c in ['a', '1', ' ', 'k', 'j', 'm', 'c'] {
        assert_eq!(workman_keycode_to_chip8(c), None);
        assert_eq!(keycode_to_chip8(c), None);
    }
}

#[test]
fn events_are_filtered() {
    assert_eq!(filter_event(&press('f')), Some((4, true)));
    assert_eq!(filter_event(&release('f')), Some((4, false)));
    assert_eq!(
        filter_event(&Input::Key { c: 'F', kind: KeyKind::Repeat, control: true }),
        Some((4, true))
    );
    assert_eq!(filter_event(&press('a')), None);
    assert_eq!(filter_event(&Input::Other), None);
    assert_eq!(filter_event(&Input::Key { c: 'c', kind: KeyKind::Release, control: true }), None);
    assert_eq!(filter_event(&press('c')), None);
}

#[test]
fn control_c_going_down_interrupts() {
    for c in ['c', 'C'] {
        assert!(is_interrupt(&Input::Key { c, kind: KeyKind::Press, control: true }));
        assert!(is_interrupt(&Input::Key { c, kind: KeyKind::Repeat, control: true }));
        assert!(!is_interrupt(&Input::Key { c, kind: KeyKind::Release, control: true }));
        assert!(!is_interrupt(&Input::Key { c, kind: KeyKind::Press, control: false }));
    }
    assert!(!is_interrupt(&Input::Key { c: 'f', kind: KeyKind::Press, control: true }));
    assert!(!is_interrupt(&Input::Other));
}

#[test]
fn keyboard_follows_the_events() {
    let mut kb = Keyboard::new();
    for k in 0..16 {
        assert!(!kb.is_key_pressed(k));
        assert!(!Keyboard::default().is_key_pressed(k));
    }
    kb.update_state(&press('7'));
    assert!(kb.is_key_pressed(1));
    kb.update(&[press('8'), release('7'), Input::Other, press('a'), press('/')]);
    for k in 0..16 {
        assert_eq!(kb.is_key_pressed(k), k == 2 || k == 0xF);
    }
    kb.update(&[]);
    kb.update(&[release('8'), press('8'), release('?')]);
    for k in 0..16 {
        assert_eq!(kb.is_key_pressed(k), k == 2);
    }
}

#[test]
fn wait_ends_with_a_release_only() {
    let mut kb = Keyboard::new();
    assert_eq!(kb.wait_for_key_release(&press('u')), None);
    assert!(kb.is_key_pressed(5));
    assert_eq!(
        kb.wait_for_key_release(&Input::Key { c: 'u', kind: KeyKind::Repeat, control: false }),
        None
    );
    assert_eq!(kb.wait_for_key_release(&Input::Other), None);
    assert_eq!(kb.wait_for_key_release(&release('x')), None);
    assert!(kb.is_key_pressed(5));
    assert_eq!(kb.wait_for_key_release(&release('u')), Some(5));
    assert!(!kb.is_key_pressed(5));
    assert_eq!(kb.wait_for_key_release(&release(',')), Some(0));
}

#[test]
fn terminal_timers_count_down_to_zero() {
    assert_eq!(TIME_BETWEEN_TICKS_NS, 1_000_000_000 / 60);
    let mut io = TerminalIo::new();
    assert_eq!(io.read_delay_timer(), 0);
    assert_eq!(io.read_sound_timer(), 0);
    io.write_delay_timer(10);
    io.write_sound_timer(2);
    assert_eq!(io.update(TIME_BETWEEN_TICKS_NS - 1), TIME_BETWEEN_TICKS_NS - 1);
    assert_eq!(io.read_delay_timer(), 10);
    assert_eq!(io.read_sound_timer(), 2);
    assert_eq!(io.update(TIME_BETWEEN_TICKS_NS), 0);
    assert_eq!(io.read_delay_timer(), 9);
    assert_eq!(io.read_sound_timer(), 1);
    assert_eq!(io.update(50_000_000), 2);
    assert_eq!(io.read_delay_timer(), 6);
    assert_eq!(io.read_sound_timer(), 0);
    assert_eq!(io.update(u64::MAX), u64::MAX % TIME_BETWEEN_TICKS_NS);
    assert_eq!(io.read_delay_timer(), 0);
    assert_eq!(io.read_sound_timer(), 0);
    io.write_delay_timer(255);
    assert_eq!(io.update(255 * TIME_BETWEEN_TICKS_NS + 5), 5);
    assert_eq!(io.read_delay_timer(), 0);
    io.write_delay_timer(255);
    io.update(254 * TIME_BETWEEN_TICKS_NS);
    assert_eq!(io.read_delay_timer(), 1);
}

#[test]
fn terminal_draws_and_clears() {
    let mut io = TerminalIo::new();
    assert_eq!(io.draw_sprite(Point::new(1, 1), &[0xC0]), DrawSprite::NoCollision);
    assert_eq!(lit_pixels(io.screen()), vec![(1, 1), (2, 1)]);
    assert_eq!(io.draw_sprite(Point::new(2, 1), &[0x80]), DrawSprite::Collision);
    assert_eq!(lit_pixels(io.screen()), vec![(1, 1)]);
    io.clear_screen();
    assert!(lit_pixels(io.screen()).is_empty());
}

#[test]
fn terminal_keys_follow_the_events() {
    let mut io = TerminalIo::new();
    io.handle_input(&press('e'));
    assert!(io.is_key_pressed(8));
    assert!(!io.is_key_pressed(9));
    assert_eq!(io.blocking_get_key(&press('o')), None);
    assert!(io.is_key_pressed(9));
    assert_eq!(io.blocking_get_key(&release('e')), Some(8));
    assert!(!io.is_key_pressed(8));
    assert!(io.is_key_pressed(9));
}

#[test]
fn terminal_random_bytes_leave_the_rest_alone() {
    let mut io = TerminalIo::new();
    io.write_delay_timer(3);
    io.handle_input(&press('e'));
    let mut seen = [false; 256];
    for _ in 0..10_000 {
        seen[io.get_random_byte() as usize] = true;
    }
    // Ten thousand draws that all gave one of a few values would be no
    // random bytes.
    assert!(seen.iter().filter(|s| **s).count() > 128);
    assert_eq!(io.read_delay_timer(), 3);
    assert!(io.is_key_pressed(8));
    assert!(lit_pixels(io.screen()).is_empty());
}
