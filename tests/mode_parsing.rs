use fs_zbox::mode::Mode;

fn flags(m: &Mode) -> [bool; 7] {
    [m.appending, m.create, m.exclusive, m.reading, m.truncate, m.updating, m.writing]
}

#[test]
fn read_mode_sets_reading_only() {
    let m = Mode::parse("r");
    assert_eq!(flags(&m), [false, false, false, true, false, false, false]);
}

#[test]
fn write_mode_creates_and_truncates() {
    let m = Mode::parse("w");
    assert_eq!(flags(&m), [false, true, false, false, true, false, true]);
}

#[test]
fn append_mode_appends_and_creates() {
    let m = Mode::parse("a");
    assert_eq!(flags(&m), [true, true, false, false, false, false, true]);
}

#[test]
fn exclusive_mode_creates_exclusively() {
    let m = Mode::parse("x");
    assert_eq!(flags(&m), [false, true, true, false, true, false, true]);
}

#[test]
fn plus_adds_reading_and_writing() {
    let m = Mode::parse("+");
    assert_eq!(flags(&m), [false, false, false, true, false, false, true]);
    let m = Mode::parse("rb+");
    assert!(m.reading && m.writing && !m.create && !m.truncate);
}

#[test]
fn unknown_characters_are_ignored() {
    let m = Mode::parse("btz?");
    assert_eq!(flags(&m), [false; 7]);
    let m = Mode::parse("");
    assert_eq!(flags(&m), [false; 7]);
}

#[test]
fn flags_match_the_characters_present() {
    for s in ["r", "w", "a", "x", "+", "rw", "ra+", "wx", "b", "ab+", "xr"] {
        let m = Mode::parse(s);
        assert_eq!(m.reading, s.contains('r') || s.contains('+'), "{}", s);
        assert_eq!(
            m.writing,
            s.contains('w') || s.contains('a') || s.contains('x') || s.contains('+'),
            "{}",
            s
        );
        assert_eq!(m.create, s.contains('w') || s.contains('a') || s.contains('x'), "{}", s);
        assert_eq!(m.truncate, s.contains('w') || s.contains('x'), "{}", s);
        assert_eq!(m.appending, s.contains('a'), "{}", s);
        assert_eq!(m.exclusive, s.contains('x'), "{}", s);
    }
}

#[test]
fn from_str_agrees_with_parse() {
    assert_eq!(Mode::from("w+"), Mode::parse("w+"));
}

#[test]
fn mode_string_is_canonical() {
    assert_eq!(Mode::parse("r").mode_string(), "rb");
    assert_eq!(Mode::parse("r+").mode_string(), "rb+");
    assert_eq!(Mode::parse("w").mode_string(), "wb");
    assert_eq!(Mode::parse("a+").mode_string(), "ab+");
    assert_eq!(Mode::parse("x").mode_string(), "xb");
    assert_eq!(Mode::parse("b").mode_string(), "");
}
