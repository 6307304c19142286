use rmatrix::line::{Line, GLYPH_SET, LINE_MAX_LEN, LINE_MIN_LEN};

#[test]
fn new_line_starts_at_top_with_requested_length() {
    let line = Line::new(2, 5);
    assert_eq!(line.column(), 2);
    assert_eq!(line.row(), 0);
    assert_eq!(line.len(), 5);
    assert!(line.glyphs().iter().all(|c| GLYPH_SET.contains(*c)));
}

#[test]
fn new_line_of_every_allowed_length() {
    for len in LINE_MIN_LEN..LINE_MAX_LEN {
        let line = Line::new(0, len as u32);
        assert_eq!(line.len(), len);
    }
}

#[test]
fn from_glyphs_keeps_the_glyphs() {
    let line = Line::from_glyphs(3, vec!['a', 'b', 'c']).unwrap();
    assert_eq!(line.column(), 3);
    assert_eq!(line.row(), 0);
    assert_eq!(line.glyphs(), &vec!['a', 'b', 'c']);
}

#[test]
fn from_glyphs_rejects_lengths_outside_the_range() {
    assert!(Line::from_glyphs(0, vec![]).is_none());
    assert!(Line::from_glyphs(0, vec!['a', 'b']).is_none());
    assert!(Line::from_glyphs(0, vec!['a'; 15]).is_none());
    assert!(Line::from_glyphs(0, vec!['a'; 14]).is_some());
}

#[test]
fn shift_in_moves_toward_the_head_and_fills_the_tail_end() {
    let mut line = Line::from_glyphs(0, vec!['a', 'b', 'c', 'd']).unwrap();
    line.shift_in('z');
    assert_eq!(line.glyphs(), &vec!['z', 'a', 'b', 'c']);
    assert_eq!(line.row(), 0);
    line.shift_in('y');
    assert_eq!(line.glyphs(), &vec!['y', 'z', 'a', 'b']);
}

#[test]
fn shift_keeps_length_and_draws_from_the_glyph_set() {
    let mut line = Line::from_glyphs(1, vec!['\u{e9}', '\u{e9}', '\u{e9}']).unwrap();
    line.shift();
    assert_eq!(line.len(), 3);
    assert!(GLYPH_SET.contains(line.glyphs()[0]));
    assert_eq!(line.glyphs()[1], '\u{e9}');
    assert_eq!(line.glyphs()[2], '\u{e9}');
}

#[test]
fn advance_moves_down_one_row_and_keeps_length() {
    let mut line = Line::from_glyphs(0, vec!['a', 'b', 'c']).unwrap();
    for expected in 1..=5usize {
        let before = line.row();
        line.advance('q');
        assert!(line.row() > before);
        assert_eq!(line.row(), expected);
        assert_eq!(line.len(), 3);
    }
    assert_eq!(line.glyphs(), &vec!['q', 'q', 'q']);
}
