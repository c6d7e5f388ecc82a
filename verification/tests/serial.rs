use binbook_x4::fw::serial::{parse_command, trim, Command, SerialState};

#[test]
fn bare_words_parse_after_trimming() {
    assert_eq!(parse_command("LIST"), Command::List);
    assert_eq!(parse_command("  INFO\r"), Command::Info);
    assert_eq!(parse_command("\tPAGE "), Command::Page);
    assert_eq!(parse_command("list"), Command::Unknown);
    assert_eq!(parse_command("LISTS"), Command::Unknown);
    assert_eq!(parse_command(""), Command::Unknown);
}

#[test]
fn uploads_need_a_name_and_a_decimal_size() {
    assert_eq!(
        parse_command("UPLOAD book.bin 1024"),
        Command::Upload { name: "book.bin", size: 1024 }
    );
    assert_eq!(
        parse_command("UPLOAD   book.bin\t +7 "),
        Command::Upload { name: "book.bin", size: 7 }
    );
    assert_eq!(parse_command("UPLOAD book.bin"), Command::Unknown);
    assert_eq!(parse_command("UPLOAD book.bin 12 extra"), Command::Unknown);
    assert_eq!(parse_command("UPLOAD book.bin -1"), Command::Unknown);
    assert_eq!(parse_command("UPLOAD book.bin 4294967296"), Command::Unknown);
    assert_eq!(
        parse_command("UPLOAD book.bin 4294967295"),
        Command::Upload { name: "book.bin", size: u32::MAX }
    );
    assert_eq!(parse_command("UPLOAD"), Command::Unknown);
    assert_eq!(parse_command("UPLOADbook 1"), Command::Unknown);
}

#[test]
fn deletes_need_a_name() {
    assert_eq!(parse_command("DELETE  old.bin "), Command::Delete { name: "old.bin" });
    assert_eq!(parse_command("DELETE two words"), Command::Delete { name: "two words" });
    assert_eq!(parse_command("DELETE    "), Command::Unknown);
    assert_eq!(parse_command("DELETE"), Command::Unknown);
}

#[test]
fn trim_uses_unicode_white_space() {
    assert_eq!(trim("\u{3000} a b \u{a0}"), "a b");
    assert_eq!(trim("   "), "");
    assert_eq!(trim("x"), "x");
}

#[test]
fn lines_complete_at_newlines() {
    let mut serial: SerialState<16> = SerialState::new();
    assert_eq!(serial.feed(b"LI"), None);
    assert_eq!(serial.feed(b"ST\nINFO\n"), Some(Command::List));
    // The bytes after the completed line were not kept.
    assert_eq!(serial.feed(b"\n"), Some(Command::Unknown));
    assert_eq!(serial.feed(b"PAGE\n"), Some(Command::Page));
    assert_eq!(serial.feed(&[0xFF, b'\n']), Some(Command::Unknown));
}

#[test]
fn long_lines_are_discarded() {
    let mut serial: SerialState<4> = SerialState::new();
    assert_eq!(serial.feed(b"LIST"), None);
    assert_eq!(serial.feed(b"X"), Some(Command::Unknown));
    assert_eq!(serial.feed(b"INFO\n"), Some(Command::Info));
    let mut empty: SerialState<0> = SerialState::default();
    assert_eq!(empty.feed(b"\n"), Some(Command::Unknown));
    assert_eq!(empty.feed(b"A"), Some(Command::Unknown));
}
