//! The scancode decoder: turns the raw bytes the keyboard controller emits
//! into key events and, with the current modifier state (shift, ctrl, caps
//! lock), into printable characters or symbolic key names.
//!
//! The decoding state machine itself is the `pc_keyboard` crate's; this
//! module owns one instance of it behind trusted wrappers and proves what
//! happens to the display for every value the decoder can hand back.
//! Malformed or unrecognized byte sequences are absorbed: the decoder yields
//! nothing and never surfaces an error.

use vstd::prelude::*;
use vstd::utf8::encode_utf8;
use crate::vga_buffer::{Writer, run};

verus! {

#[verifier::external_type_specification]
#[verifier::external_body]
pub struct ExKeyEvent(pc_keyboard::KeyEvent);

/// The keyboard decoder: one instance, fed one scancode byte per keyboard
/// interrupt. It holds the `pc_keyboard` state machine — the
/// pending-sequence accumulator and the modifier state — as an opaque value;
/// Verus sees the decoder only through the wrappers below.
#[verifier::external_body]
pub struct KeyboardDecoder {
    dev: pc_keyboard::Keyboard<pc_keyboard::layouts::Us104Key, pc_keyboard::ScancodeSet1>,
}

/// A malformed scancode: a byte the state machine cannot accept in its
/// current state. The decoder absorbs it — callers see no event, never an
/// error.
#[derive(Debug, Clone, Copy, PartialEq, Eq, Structural)]
pub struct ScancodeError;

/// A fully decoded key: either a printable character, or the symbolic name
/// of a key with no character (arrows, function keys, bare modifiers).
#[derive(Debug, Clone, PartialEq, Eq)]
pub enum DecodedKey {
    Unicode(char),
    RawKey(String),
}

/// Relies on pc_keyboard::Keyboard::new (with ScancodeSet1::new and the
/// Us104Key layout): a fresh decoder in its idle state for the US 104-key
/// layout and scancode set 1, ignoring control-character mapping.
#[verifier::external_body]
fn dev_new() -> KeyboardDecoder {
    KeyboardDecoder {
        dev: pc_keyboard::Keyboard::new(
            pc_keyboard::ScancodeSet1::new(),
            pc_keyboard::layouts::Us104Key,
            pc_keyboard::HandleControl::Ignore,
        ),
    }
}

/// Relies on pc_keyboard::Keyboard::add_byte: advances the multi-byte
/// scancode state machine by one byte and yields a key event when a sequence
/// completes, or an error for a malformed byte.
#[verifier::external_body]
fn dev_add_byte(
    dec: &mut KeyboardDecoder,
    scancode: u8,
) -> Result<Option<pc_keyboard::KeyEvent>, ScancodeError> {
    match dec.dev.add_byte(scancode) {
        Ok(event) => Ok(event),
        Err(_) => Err(ScancodeError),
    }
}

/// Relies on pc_keyboard::Keyboard::process_keyevent: maps a key event
/// through the current modifier state to a decoded key (updating that state
/// for modifier keys), or to nothing. A raw key is carried over as its
/// symbolic name.
#[verifier::external_body]
fn dev_process_keyevent(
    dec: &mut KeyboardDecoder,
    event: pc_keyboard::KeyEvent,
) -> Option<DecodedKey> {
    match dec.dev.process_keyevent(event) {
        Some(pc_keyboard::DecodedKey::Unicode(character)) => Some(DecodedKey::Unicode(character)),
        Some(pc_keyboard::DecodedKey::RawKey(key)) => Some(DecodedKey::RawKey(format!("{:?}", key))),
        None => None,
    }
}

/// Relies on char::encode_utf8: the UTF-8 byte sequence of one character.
#[verifier::external_body]
fn char_utf8(c: char) -> (r: Vec<u8>)
    ensures
        r@ == encode_utf8(seq![c]),
{
    let mut buf = [0u8; 4];
    c.encode_utf8(&mut buf).as_bytes().to_vec()
}

impl KeyboardDecoder {
    /// A fresh decoder: no pending bytes, no modifiers latched.
    pub fn new() -> KeyboardDecoder {
        dev_new()
    }

    /// Advances the state machine by one scancode byte; yields a key event
    /// exactly when a sequence completes. A malformed byte is absorbed: the
    /// state machine starts over and no event (and no error) surfaces.
    pub fn add_byte(&mut self, scancode: u8) -> Option<pc_keyboard::KeyEvent> {
        match dev_add_byte(self, scancode) {
            Ok(event) => event,
            Err(_) => None,
        }
    }

    /// Maps a completed key event through the current modifier state to a
    /// decoded key, updating the modifier state as a side effect.
    pub fn process_keyevent(&mut self, event: pc_keyboard::KeyEvent) -> Option<DecodedKey> {
        dev_process_keyevent(self, event)
    }
}

/// Writes one decoded key to the display: a character as its UTF-8 bytes, a
/// raw key as its symbolic name — in either case through the writer's
/// total, placeholder-substituting byte path.
pub fn write_decoded_key(writer: &mut Writer, key: &DecodedKey)
    requires
        old(writer).wf(),
    ensures
        final(writer).wf(),
        final(writer).color() == old(writer).color(),
        final(writer)@ == (match *key {
            DecodedKey::Unicode(c) => run(old(writer)@, encode_utf8(seq![c]), old(writer).color()),
            DecodedKey::RawKey(name) => run(old(writer)@, encode_utf8(name@), old(writer).color()),
        }),
{
    match key {
        DecodedKey::Unicode(c) => {
            let bytes = char_utf8(*c);
            writer.write_bytes(bytes.as_slice());
        },
        DecodedKey::RawKey(name) => {
            writer.write_string(name.as_str());
        },
    }
}

} // verus!
