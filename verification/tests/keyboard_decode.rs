use os_rust::interrupts::{keyboard_interrupt_handler, PicPair, PIC_1_OFFSET, PIC_2_OFFSET};
use os_rust::keyboard::{write_decoded_key, DecodedKey, KeyboardDecoder};
use os_rust::vga_buffer::{Color, ColorCode, Writer, BUFFER_HEIGHT};

fn fresh_writer() -> Writer {
    Writer::new(ColorCode::new(Color::Yellow, Color::Black))
}

fn standard_pics() -> PicPair {
    PicPair::new(PIC_1_OFFSET, PIC_2_OFFSET)
}

fn last_row_text(w: &Writer) -> String {
    let mut text = String::new();
    for col in 0..w.column() {
        text.push(w.read_cell(BUFFER_HEIGHT - 1, col).ascii_character as char);
    }
    text
}

#[test]
fn key_a_press_prints_a() {
    let mut keyboard = KeyboardDecoder::new();
    let mut writer = fresh_writer();
    let pics = standard_pics();
    let (key, _) = keyboard_interrupt_handler(&mut keyboard, &mut writer, &pics, 0x1e);
    assert_eq!(key, Some(DecodedKey::Unicode('a')));
    assert_eq!(last_row_text(&writer), "a");
}

#[test]
fn key_release_prints_nothing() {
    let mut keyboard = KeyboardDecoder::new();
    let mut writer = fresh_writer();
    let pics = standard_pics();
    keyboard_interrupt_handler(&mut keyboard, &mut writer, &pics, 0x1e);
    // Release of the same key: decoded, but no character is produced and
    // nothing is written.
    let (key, _) = keyboard_interrupt_handler(&mut keyboard, &mut writer, &pics, 0x9e);
    assert_eq!(key, None);
    assert_eq!(last_row_text(&writer), "a");
}

#[test]
fn shift_modifier_latches_uppercase() {
    let mut keyboard = KeyboardDecoder::new();
    let mut writer = fresh_writer();
    let pics = standard_pics();
    // Left shift down is itself a raw key and prints its symbolic name.
    keyboard_interrupt_handler(&mut keyboard, &mut writer, &pics, 0x2a);
    assert_eq!(last_row_text(&writer), "LShift");
    keyboard_interrupt_handler(&mut keyboard, &mut writer, &pics, 0x1e);
    assert_eq!(last_row_text(&writer), "LShiftA");
    // Shift released, the next press is lowercase again.
    keyboard_interrupt_handler(&mut keyboard, &mut writer, &pics, 0xaa);
    keyboard_interrupt_handler(&mut keyboard, &mut writer, &pics, 0x1e);
    assert_eq!(last_row_text(&writer), "LShiftAa");
}

#[test]
fn extended_sequence_awaits_continuation() {
    let mut keyboard = KeyboardDecoder::new();
    let mut writer = fresh_writer();
    let pics = standard_pics();
    // First byte of a two-byte sequence: no event yet, nothing written.
    let (key, _) = keyboard_interrupt_handler(&mut keyboard, &mut writer, &pics, 0xe0);
    assert_eq!(key, None);
    assert_eq!(writer.column(), 0);
    // The continuation byte completes it: cursor up, a raw key.
    let (key, _) = keyboard_interrupt_handler(&mut keyboard, &mut writer, &pics, 0x48);
    assert_eq!(key, Some(DecodedKey::RawKey(String::from("ArrowUp"))));
    assert_eq!(last_row_text(&writer), "ArrowUp");
}

#[test]
fn decoder_two_stage_interface() {
    let mut keyboard = KeyboardDecoder::new();
    let event = keyboard.add_byte(0x1e).expect("completed sequence");
    match keyboard.process_keyevent(event) {
        Some(DecodedKey::Unicode(c)) => assert_eq!(c, 'a'),
        other => panic!("expected a decoded character, got {:?}", other),
    }
    // An incomplete sequence yields no event.
    assert!(keyboard.add_byte(0xe0).is_none());
}

#[test]
fn decoded_keys_render_through_the_writer() {
    let mut writer = fresh_writer();
    write_decoded_key(&mut writer, &DecodedKey::Unicode('x'));
    assert_eq!(last_row_text(&writer), "x");
    write_decoded_key(&mut writer, &DecodedKey::RawKey(String::from("PageUp")));
    assert_eq!(last_row_text(&writer), "xPageUp");
    // A character outside ASCII still renders totally, as placeholders.
    write_decoded_key(&mut writer, &DecodedKey::Unicode('é'));
    assert_eq!(last_row_text(&writer), "xPageUp\u{fe}\u{fe}");
}
