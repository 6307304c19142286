use rmatrix::line::{Line, GLYPH_SET, LINE_MAX_LEN, LINE_MIN_LEN};
use rmatrix::matrix::{LineChar, Matrix};

fn stream(col: usize, glyphs: &[char]) -> Line {
    Line::from_glyphs(col, glyphs.to_vec()).unwrap()
}

fn quiet_tick(m: &mut Matrix) {
    let fresh = vec!['x'; m.lines().len()];
    let picks = vec![None; m.width()];
    m.tick_with(fresh, picks);
}

#[test]
fn new_matrix_is_empty() {
    let m = Matrix::new(8, 6);
    assert_eq!(m.width(), 8);
    assert_eq!(m.height(), 6);
    assert!(m.lines().is_empty());
    let buffer = m.render();
    assert_eq!(buffer.len(), 8);
    assert!(buffer.iter().all(|col| col.len() == 6 && col.iter().all(|c| *c == LineChar::Empty)));
}

#[test]
fn injected_stream_renders_its_head_at_row_zero() {
    let mut m = Matrix::new(1, 5);
    assert!(m.push_line(stream(0, &['a', 'b', 'c'])));
    let buffer = m.render();
    assert_eq!(buffer[0][0], LineChar::Head('c'));
    for y in 1..5 {
        assert_eq!(buffer[0][y], LineChar::Empty);
    }
}

#[test]
fn stream_retires_only_once_its_tail_has_passed_the_bottom() {
    let mut m = Matrix::new(1, 5);
    assert!(m.push_line(stream(0, &['a', 'b', 'c'])));
    for _ in 0..6 {
        quiet_tick(&mut m);
    }
    assert_eq!(m.lines().len(), 1);
    assert_eq!(m.lines()[0].row(), 6);
    quiet_tick(&mut m);
    assert_eq!(m.lines()[0].row(), 7);
    quiet_tick(&mut m);
    assert_eq!(m.lines().len(), 1);
    assert_eq!(m.lines()[0].row(), 8);
    quiet_tick(&mut m);
    assert!(m.lines().is_empty());
}

#[test]
fn forced_spawn_fills_each_eligible_column_once() {
    let mut m = Matrix::new(4, 10);
    let picks = vec![Some(vec!['a', 'b', 'c']); 4];
    m.tick_with(vec![], picks);
    assert_eq!(m.lines().len(), 4);
    for (i, line) in m.lines().iter().enumerate() {
        assert_eq!(line.column(), i);
        assert_eq!(line.row(), 0);
    }
    let picks = vec![Some(vec!['d', 'e', 'f']); 4];
    m.tick_with(vec!['x'; 4], picks);
    assert_eq!(m.lines().len(), 4);
    assert!(m.lines().iter().all(|l| l.row() == 1));
}

#[test]
fn busy_column_gets_no_new_stream() {
    let mut m = Matrix::new(2, 10);
    assert!(m.push_line(stream(0, &['a', 'b', 'c'])));
    m.tick_with(vec!['x'], vec![Some(vec!['d', 'e', 'f']), Some(vec!['g', 'h', 'i'])]);
    assert_eq!(m.lines().len(), 2);
    assert_eq!(m.lines()[0].column(), 0);
    assert_eq!(m.lines()[1].column(), 1);
    assert_eq!(m.lines()[1].glyphs(), &vec!['g', 'h', 'i']);
}

#[test]
fn column_is_eligible_again_once_the_tail_clears_three_rows() {
    let mut m = Matrix::new(1, 20);
    assert!(m.push_line(stream(0, &['a', 'b', 'c'])));
    // Row 5 after the next frame: 5 - 3 < 3, still busy.
    for _ in 0..4 {
        quiet_tick(&mut m);
    }
    m.tick_with(vec!['x'], vec![Some(vec!['d', 'e', 'f'])]);
    assert_eq!(m.lines().len(), 1);
    // Row 6 after this frame: 6 - 3 >= 3, so the column takes a new stream.
    m.tick_with(vec!['x'], vec![Some(vec!['d', 'e', 'f'])]);
    assert_eq!(m.lines().len(), 2);
    assert_eq!(m.lines()[1].row(), 0);
}

#[test]
fn advance_shifts_in_the_given_glyph() {
    let mut m = Matrix::new(1, 10);
    assert!(m.push_line(stream(0, &['a', 'b', 'c'])));
    m.tick_with(vec!['z'], vec![None]);
    assert_eq!(m.lines()[0].glyphs(), &vec!['z', 'a', 'b']);
    assert_eq!(m.lines()[0].row(), 1);
}

#[test]
fn render_draws_tail_and_head() {
    let mut m = Matrix::new(2, 6);
    let mut line = stream(1, &['a', 'b', 'c', 'd']);
    line.advance('e');
    line.advance('f');
    line.advance('g');
    // Row 3, glyphs g f e a: tail glyph i at row 3 - i for i < 3, head at row 3.
    assert!(m.push_line(line));
    let buffer = m.render();
    assert!(buffer[0].iter().all(|c| *c == LineChar::Empty));
    assert_eq!(buffer[1][0], LineChar::Empty);
    assert_eq!(buffer[1][1], LineChar::Tail('e'));
    assert_eq!(buffer[1][2], LineChar::Tail('f'));
    assert_eq!(buffer[1][3], LineChar::Head('a'));
    assert_eq!(buffer[1][4], LineChar::Empty);
    assert_eq!(buffer[1][5], LineChar::Empty);
}

#[test]
fn render_clips_a_head_below_the_bottom() {
    let mut m = Matrix::new(1, 3);
    let mut line = stream(0, &['a', 'b', 'c', 'd']);
    for c in ['e', 'f', 'g', 'h'] {
        line.advance(c);
    }
    // Row 4, glyphs h g f e, on a grid of 3 rows: only tail glyph 2 shows, at row 2.
    assert!(m.push_line(line));
    let buffer = m.render();
    assert_eq!(buffer[0][0], LineChar::Empty);
    assert_eq!(buffer[0][1], LineChar::Empty);
    assert_eq!(buffer[0][2], LineChar::Tail('f'));
}

#[test]
fn later_stream_wins_where_two_overlap() {
    let mut m = Matrix::new(1, 10);
    let mut older = stream(0, &['a', 'b', 'c']);
    for c in ['d', 'e', 'f', 'g'] {
        older.advance(c);
    }
    let mut newer = stream(0, &['h', 'i', 'j']);
    for c in ['k', 'l', 'm'] {
        newer.advance(c);
    }
    // older: row 4, glyphs g f e; newer: row 3, glyphs m l k.
    assert!(m.push_line(older));
    assert!(m.push_line(newer));
    let buffer = m.render();
    assert_eq!(buffer[0][4], LineChar::Head('e'));
    assert_eq!(buffer[0][3], LineChar::Head('k'));
    assert_eq!(buffer[0][2], LineChar::Tail('l'));
    assert_eq!(buffer[0][1], LineChar::Empty);
}

#[test]
fn render_twice_gives_the_same_buffer() {
    let mut m = Matrix::new(12, 9);
    for _ in 0..40 {
        m.tick();
    }
    assert_eq!(m.render(), m.render());
}

#[test]
fn rendered_cells_come_from_live_streams() {
    let mut m = Matrix::new(10, 8);
    for _ in 0..60 {
        m.tick();
        let buffer = m.render();
        for x in 0..10 {
            for y in 0..8 {
                match buffer[x][y] {
                    LineChar::Empty => {}
                    LineChar::Head(c) => assert!(m.lines().iter().any(|l| l.column() == x
                        && l.row() == y
                        && *l.glyphs().last().unwrap() == c)),
                    LineChar::Tail(c) => assert!(m.lines().iter().any(|l| l.column() == x
                        && y < l.row()
                        && l.row() - y + 1 <= l.len()
                        && l.glyphs()[l.row() - y] == c)),
                }
            }
        }
    }
}

#[test]
fn push_line_rejects_what_does_not_fit() {
    let mut m = Matrix::new(2, 4);
    assert!(!m.push_line(stream(2, &['a', 'b', 'c'])));
    let mut far = stream(0, &['a', 'b', 'c']);
    for _ in 0..8 {
        far.advance('x');
    }
    // Row 8: 8 - 3 > 4, already retired.
    assert!(!m.push_line(far));
    let mut edge = stream(1, &['a', 'b', 'c']);
    for _ in 0..7 {
        edge.advance('x');
    }
    // Row 7: 7 - 3 = 4, not retired.
    assert!(m.push_line(edge));
    assert_eq!(m.lines().len(), 1);
}

#[test]
fn random_ticks_keep_the_grid_well_formed() {
    let mut m = Matrix::new(30, 12);
    let mut seen = 0;
    for _ in 0..300 {
        m.tick();
        seen += m.lines().len();
        for line in m.lines().iter() {
            assert!(line.column() < 30);
            assert!(line.len() >= LINE_MIN_LEN && line.len() < LINE_MAX_LEN);
            assert!(line.row() <= 12 + line.len());
            assert!(line.glyphs().iter().all(|c| GLYPH_SET.contains(*c)));
        }
    }
    assert!(seen > 0);
}
