use my_os::keyboard::{print_keypresses, scancode_to_digit, DecodedKey, KeyboardDecoder};
use my_os::scancode::ScancodeStream;
use my_os::task::{Context, Poll, TaskId};

#[test]
fn digit_scancodes_translate() {
    assert_eq!(scancode_to_digit(0x02), Some('1'));
    assert_eq!(scancode_to_digit(0x0a), Some('9'));
    assert_eq!(scancode_to_digit(0x0b), Some('0'));
    assert_eq!(scancode_to_digit(0x01), None);
    assert_eq!(scancode_to_digit(0x0c), None);
    assert_eq!(scancode_to_digit(0x1e), None);
}

#[test]
fn decoder_turns_make_codes_into_characters() {
    let mut decoder = KeyboardDecoder::new();
    // scancode set 1 make codes on the US layout
    assert_eq!(decoder.decode_scancode(0x1e), Some(DecodedKey::Unicode('a')));
    assert_eq!(decoder.decode_scancode(0x30), Some(DecodedKey::Unicode('b')));
    assert_eq!(decoder.decode_scancode(0x02), Some(DecodedKey::Unicode('1')));
}

#[test]
fn decoder_shift_modifier_applies() {
    let mut decoder = KeyboardDecoder::new();
    // left shift down, 'a' down, left shift up
    let shift_down = decoder.decode_scancode(0x2a);
    assert!(shift_down.is_none() || matches!(shift_down, Some(DecodedKey::RawKey(_))));
    assert_eq!(decoder.decode_scancode(0x1e), Some(DecodedKey::Unicode('A')));
    decoder.decode_scancode(0xaa);
    assert_eq!(decoder.decode_scancode(0x1e), Some(DecodedKey::Unicode('a')));
}

#[test]
fn keyboard_task_prints_buffered_scancodes() {
    let mut stream = ScancodeStream::new();
    let mut decoder = KeyboardDecoder::new();
    let mut cx = Context { waker: TaskId(11) };

    // nothing buffered: the task suspends with its waker registered
    assert_eq!(print_keypresses(&mut stream, &mut decoder, &mut cx), Poll::Pending);

    // the interrupt handler delivers a make code and learns whom to wake
    let outcome = stream.add_scancode(0x1e);
    assert!(outcome.delivered);
    assert_eq!(outcome.wake, Some(TaskId(11)));

    // the woken task consumes it and reports the decoded key to print
    assert_eq!(print_keypresses(&mut stream, &mut decoder, &mut cx),
        Poll::Ready(Some(DecodedKey::Unicode('a'))));

    // a break code consumes a poll but yields nothing to print
    stream.add_scancode(0x9e);
    assert_eq!(print_keypresses(&mut stream, &mut decoder, &mut cx), Poll::Ready(None));
}
