use foxterm::terminal::{
    update_pty, Keys, TextChar, BACK_BYTE, CONTROL_BYTE, RETURN_BYTE, TAB_BYTE,
};

const NO_KEYS: Keys = Keys { enter: false, tab: false, control: false };

#[test]
fn key_bytes_are_the_usual_ones() {
    assert_eq!(RETURN_BYTE, b'\r');
    assert_eq!(TAB_BYTE, b'\t');
    assert_eq!(CONTROL_BYTE, b'^');
    assert_eq!(BACK_BYTE, 8);
}

#[test]
fn nothing_typed_sends_nothing() {
    assert_eq!(update_pty(&Vec::new(), NO_KEYS), Vec::<u8>::new());
}

#[test]
fn typed_text_is_sent_in_order() {
    let text = vec![TextChar::Char('l'), TextChar::Char('s'), TextChar::Char(' ')];
    assert_eq!(update_pty(&text, NO_KEYS), vec![b'l', b's', b' ']);
}

#[test]
fn a_typed_backspace_is_the_erase_byte() {
    let text = vec![TextChar::Char('a'), TextChar::Back, TextChar::Char('b')];
    assert_eq!(update_pty(&text, NO_KEYS), vec![b'a', 8, b'b']);
}

#[test]
fn return_follows_the_text() {
    let text = vec![TextChar::Char('x')];
    let keys = Keys { enter: true, tab: false, control: false };
    assert_eq!(update_pty(&text, keys), vec![b'x', b'\r']);
}

#[test]
fn tab_and_control_each_send_their_byte() {
    let tab = Keys { enter: false, tab: true, control: false };
    assert_eq!(update_pty(&Vec::new(), tab), vec![b'\t']);
    let control = Keys { enter: false, tab: false, control: true };
    assert_eq!(update_pty(&Vec::new(), control), vec![b'^']);
}

#[test]
fn only_one_key_byte_is_sent() {
    let all = Keys { enter: true, tab: true, control: true };
    assert_eq!(update_pty(&Vec::new(), all), vec![b'\r']);
    let two = Keys { enter: false, tab: true, control: true };
    assert_eq!(update_pty(&Vec::new(), two), vec![b'\t']);
}

#[test]
fn a_character_is_sent_as_its_low_byte() {
    let text = vec![TextChar::Char('\u{e9}'), TextChar::Char('\u{142}'), TextChar::Char('\u{1f600}')];
    assert_eq!(update_pty(&text, NO_KEYS), vec![0xe9, 0x42, 0x00]);
}
