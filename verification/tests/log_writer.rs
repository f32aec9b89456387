use compile_fail::utils::{InvalidText, LogWriter};

#[test]
fn bytes_without_line_feed_are_held_back() {
    let mut writer = LogWriter::new("rustc");
    assert_eq!(writer.write(b"warning: "), Ok(None));
    assert_eq!(writer.write(b""), Ok(None));
    assert_eq!(writer.write(b"unused"), Ok(None));
    assert_eq!(writer.write(b" variable\n"), Ok(Some("rustc: warning: unused variable".to_string())));
    assert_eq!(writer.flush_line(), Ok("rustc: ".to_string()));
}

#[test]
fn one_line_is_handed_on_for_each_write_with_a_line_feed() {
    let mut writer = LogWriter::new("out");
    assert_eq!(writer.write(b"  first \t\r\nsecond\nthi"), Ok(Some("out: first".to_string())));
    assert_eq!(writer.write(b"rd"), Ok(None));
    assert_eq!(writer.write(b"\n"), Ok(Some("out: second".to_string())));
    assert_eq!(writer.flush_line(), Ok("out: third".to_string()));
    assert_eq!(writer.flush_line(), Ok("out: ".to_string()));
}

#[test]
fn line_without_line_feed_is_flushed_whole() {
    let mut writer = LogWriter::new("p");
    assert_eq!(writer.write("  caf\u{e9} \u{3000}".as_bytes()), Ok(None));
    assert_eq!(writer.flush_line(), Ok("p: caf\u{e9}".to_string()));
}

#[test]
fn line_that_is_no_text_stays_in_the_buffer() {
    let mut writer = LogWriter::new("p");
    assert_eq!(writer.write(b"ok \xff\xfe\nnext\n"), Err(InvalidText));
    assert_eq!(writer.flush_line(), Err(InvalidText));
    assert_eq!(writer.write(b"more\n"), Err(InvalidText));
    let mut other = LogWriter::new("q");
    assert_eq!(other.write(b"\xc3"), Ok(None));
    assert_eq!(other.write(b"\xa9\n"), Ok(Some("q: \u{e9}".to_string())));
}
