//! Scancode decoding for the keyboard task: raw bytes from the
//! scancode stream run through the `pc_keyboard` decoder, and what
//! comes out is handed to the caller to print. The decoder's own
//! state machine lives in the outside crate; the polling protocol
//! around it is verified against the stream's model.

use vstd::prelude::*;

verus! {

use crate::scancode::{spec_poll_next, ScancodeStream};
use crate::task::{Context, Poll};

/// Specifications for `pc_keyboard::KeyEvent`, the key-plus-direction
/// event a completed scancode sequence decodes to.
#[verifier::external_type_specification]
#[verifier::external_body]
pub struct ExKeyEvent(pc_keyboard::KeyEvent);

/// A decoded key press as the kernel prints it: either a character,
/// or the raw key code of a key with no character.
#[derive(Clone, Copy, PartialEq, Eq, Debug)]
pub enum DecodedKey {
    Unicode(char),
    RawKey(u8),
}

/// The decoder state after one scancode byte. The decoder is a
/// deterministic state machine, so its next state is a function of
/// its state and the byte alone; what that state is stays unnamed.
pub uninterp spec fn decoder_after_byte(d: KeyboardDecoder, byte: u8) -> KeyboardDecoder;

/// The key event one scancode byte completes, if any; a function of
/// the decoder state and the byte alone (a decode error counts as no
/// event, as the kernel treats it).
pub uninterp spec fn event_of(d: KeyboardDecoder, byte: u8) -> Option<pc_keyboard::KeyEvent>;

/// The decoder state after applying a key event: the event may move
/// the modifier state.
pub uninterp spec fn decoder_after_event(d: KeyboardDecoder, event: pc_keyboard::KeyEvent)
    -> KeyboardDecoder;

/// The decoded key a key event yields under the decoder's modifier
/// state, carried over the fixed one-for-one variant mapping into
/// the kernel's own key type.
pub uninterp spec fn key_of(d: KeyboardDecoder, event: pc_keyboard::KeyEvent) -> Option<
    DecodedKey,
>;

/// The decoder state and decoded key after feeding one scancode
/// byte: the byte advances the decoder, and a completed event runs
/// through the modifier step.
pub open spec fn spec_decode(d: KeyboardDecoder, byte: u8) -> (KeyboardDecoder, Option<
    DecodedKey,
>) {
    let d1 = decoder_after_byte(d, byte);
    match event_of(d, byte) {
        Some(event) => (decoder_after_event(d1, event), key_of(d1, event)),
        None => (d1, None),
    }
}

/// The keyboard decoder the keyboard task feeds scancodes through.
/// It holds a `pc_keyboard::Keyboard` for scancode set 1 and the US
/// 104-key layout; Verus refuses a declaration of that generic
/// outside type, so the whole decoder state is opaque here.
#[verifier::external_body]
pub struct KeyboardDecoder {
    keyboard: pc_keyboard::Keyboard<pc_keyboard::layouts::Us104Key, pc_keyboard::ScancodeSet1>,
}

impl KeyboardDecoder {
    /// Relies on `pc_keyboard::Keyboard::new`: a fresh decoder,
    /// ignoring control characters, as the kernel configures it.
    #[verifier::external_body]
    pub fn new() -> KeyboardDecoder {
        KeyboardDecoder {
            keyboard: pc_keyboard::Keyboard::new(pc_keyboard::ScancodeSet1::new(),
                pc_keyboard::layouts::Us104Key, pc_keyboard::HandleControl::Ignore),
        }
    }

    /// Relies on `pc_keyboard::Keyboard::add_byte`: advances the
    /// decoder by one scancode byte and yields a key event when one
    /// completes. Both are functions of the decoder state and the
    /// byte alone, named above; a decode error is folded into "no
    /// event", as the kernel discards both alike.
    #[verifier::external_body]
    fn add_byte(&mut self, byte: u8) -> (r: Option<pc_keyboard::KeyEvent>)
        ensures
            *final(self) == decoder_after_byte(*old(self), byte),
            r == event_of(*old(self), byte),
    {
        match self.keyboard.add_byte(byte) {
            Ok(event) => event,
            Err(_) => None,
        }
    }

    /// Relies on `pc_keyboard::Keyboard::process_keyevent`: applies
    /// the current modifier state to a key event and yields the
    /// decoded key, if the event produces one. State and result are
    /// functions of the decoder state and the event alone, named
    /// above; the two variants of the outside result are carried
    /// over one for one, with the raw key code as its numeric value.
    #[verifier::external_body]
    fn process_keyevent(&mut self, event: pc_keyboard::KeyEvent) -> (r: Option<DecodedKey>)
        ensures
            *final(self) == decoder_after_event(*old(self), event),
            r == key_of(*old(self), event),
    {
        match self.keyboard.process_keyevent(event) {
            Some(pc_keyboard::DecodedKey::Unicode(character)) => Some(DecodedKey::Unicode(
                character)),
            Some(pc_keyboard::DecodedKey::RawKey(key)) => Some(DecodedKey::RawKey(
                key as u8)),
            None => None,
        }
    }

    /// Feeds one scancode byte through the decoder. A key press can
    /// take several bytes, so most bytes yield nothing; the decoder
    /// state and the decoded key are exactly what the named decode
    /// functions say for this state and byte.
    pub fn decode_scancode(&mut self, scancode: u8) -> (r: Option<DecodedKey>)
        ensures
            (*final(self), r) == spec_decode(*old(self), scancode),
    {
        match self.add_byte(scancode) {
            Some(key_event) => self.process_keyevent(key_event),
            None => None,
        }
    }
}

/// One poll of the keyboard task: take the next buffered scancode
/// from the stream if one is ready and feed it through the decoder,
/// handing back exactly the key that byte decodes to for the caller
/// to print. With no scancode buffered the task suspends, its waker
/// registered in the stream, so the next delivery wakes it; the
/// task itself never finishes.
pub fn print_keypresses(scancodes: &mut ScancodeStream, keyboard: &mut KeyboardDecoder,
    cx: &mut Context) -> (r: Poll<Option<DecodedKey>>)
    ensures
        ({
            let (m, p) = spec_poll_next(old(scancodes)@, old(cx).waker.0);
            &&& final(scancodes)@ == m
            &&& *final(cx) == *old(cx)
            &&& match p {
                Poll::Ready(Some(b)) => {
                    let (d, key) = spec_decode(*old(keyboard), b);
                    *final(keyboard) == d && r == Poll::Ready(key)
                },
                Poll::Ready(None) => *final(keyboard) == *old(keyboard) && r
                    == Poll::Ready(None::<DecodedKey>),
                Poll::Pending => *final(keyboard) == *old(keyboard) && r is Pending,
            }
        }),
{
    match scancodes.poll_scancode(cx) {
        Poll::Ready(Some(scancode)) => Poll::Ready(keyboard.decode_scancode(scancode)),
        Poll::Ready(None) => Poll::Ready(None),
        Poll::Pending => Poll::Pending,
    }
}

/// What the translate-digits-only interrupt handler prints for a
/// scancode: the digit whose make code it is, and nothing for every
/// other byte.
pub open spec fn spec_scancode_digit(scancode: u8) -> Option<char> {
    if scancode == 0x02 {
        Some('1')
    } else if scancode == 0x03 {
        Some('2')
    } else if scancode == 0x04 {
        Some('3')
    } else if scancode == 0x05 {
        Some('4')
    } else if scancode == 0x06 {
        Some('5')
    } else if scancode == 0x07 {
        Some('6')
    } else if scancode == 0x08 {
        Some('7')
    } else if scancode == 0x09 {
        Some('8')
    } else if scancode == 0x0a {
        Some('9')
    } else if scancode == 0x0b {
        Some('0')
    } else {
        None
    }
}

/// Translates key presses of the number keys and ignores all other
/// keys.
pub fn scancode_to_digit(scancode: u8) -> (r: Option<char>)
    ensures
        r == spec_scancode_digit(scancode),
{
    match scancode {
        0x02 => Some('1'),
        0x03 => Some('2'),
        0x04 => Some('3'),
        0x05 => Some('4'),
        0x06 => Some('5'),
        0x07 => Some('6'),
        0x08 => Some('7'),
        0x09 => Some('8'),
        0x0a => Some('9'),
        0x0b => Some('0'),
        _ => None,
    }
}

} // verus!
