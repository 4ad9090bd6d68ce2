use vm_rust::console::ConsoleBuffer;

#[test]
fn read_joins_lines_and_empties_the_console() {
    let mut c = ConsoleBuffer::new();
    c.write_line("one");
    c.write_line("two");
    assert_eq!(c.read(), "one\ntwo");
    assert_eq!(c.read(), "");
}

#[test]
fn head_and_tail() {
    let mut c = ConsoleBuffer::new();
    for line in ["a", "b", "c", "d"] {
        c.write_line(line);
    }
    assert_eq!(c.read_head(2), "a\nb");
    assert_eq!(c.read_tail(2), "c\nd");
    assert_eq!(c.read_head(10), "a\nb\nc\nd");
    assert_eq!(c.read_tail(10), "a\nb\nc\nd");
    assert_eq!(c.read_head(0), "");
    // Reading part of the console leaves it as it was.
    assert_eq!(c.read(), "a\nb\nc\nd");
}

#[test]
fn last_line_is_what_was_written() {
    let mut c = ConsoleBuffer::new();
    c.write_line("first");
    c.write_line("second line");
    assert_eq!(c.read_tail(1), "second line");
}

#[test]
fn clear_empties_the_console() {
    let mut c = ConsoleBuffer::new();
    c.write_line("x");
    c.clear();
    assert_eq!(c.read_tail(5), "");
}
