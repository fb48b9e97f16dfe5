use germinal::ports::{PtySize, TerminalCell, TerminalColor, TerminalScreen, TerminalSize};
use germinal::terminal_palette::{
    fallback_named_color, resolve_cell_color, resolve_slot_color, snapshot_screen, CellColor, GridCell, TermDimensions,
};

fn rgb(r: u8, g: u8, b: u8) -> TerminalColor {
    TerminalColor { r, g, b }
}

#[test]
fn fallback_palette() {
    assert_eq!(fallback_named_color(0), rgb(0, 0, 0));
    assert_eq!(fallback_named_color(1), rgb(205, 49, 49));
    assert_eq!(fallback_named_color(15), rgb(255, 255, 255));
    assert_eq!(fallback_named_color(256), rgb(220, 226, 235));
    assert_eq!(fallback_named_color(257), rgb(16, 20, 28));
    assert_eq!(fallback_named_color(267), rgb(255, 255, 255));
    assert_eq!(fallback_named_color(268), rgb(128, 132, 138));
    assert_eq!(fallback_named_color(100), rgb(220, 226, 235));
}

#[test]
fn configured_colors_win_over_the_fallback() {
    assert_eq!(resolve_slot_color(1, Some(rgb(1, 2, 3))), rgb(1, 2, 3));
    assert_eq!(resolve_slot_color(1, None), rgb(205, 49, 49));
    assert_eq!(resolve_cell_color(CellColor::Spec(rgb(9, 9, 9)), Some(rgb(1, 1, 1))), Some(rgb(9, 9, 9)));
    assert_eq!(resolve_cell_color(CellColor::Indexed(2), None), Some(rgb(13, 188, 121)));
    assert_eq!(resolve_cell_color(CellColor::Named(257), None), Some(rgb(16, 20, 28)));
    assert_eq!(resolve_cell_color(CellColor::Named(257), Some(rgb(4, 5, 6))), Some(rgb(4, 5, 6)));
}

#[test]
fn dimensions_have_a_floor() {
    let d = TermDimensions::new(TerminalSize { cols: 0, rows: 0, cell_width: 9, cell_height: 18 });
    assert_eq!((d.cols, d.rows), (2, 1));
    let d = TermDimensions::new(TerminalSize { cols: 80, rows: 24, cell_width: 9, cell_height: 18 });
    assert_eq!((d.cols, d.rows), (80, 24));
}

fn cell(line: usize, column: usize, c: char) -> GridCell {
    GridCell { line, column, c, foreground: Some(rgb(1, 1, 1)), background: None, inverse: false, wide_spacer: false, hidden: false }
}

#[test]
fn snapshot_places_cells_row_by_row() {
    let grid = vec![
        cell(0, 0, 'a'),
        GridCell { inverse: true, ..cell(1, 1, 'b') },
        GridCell { wide_spacer: true, ..cell(0, 1, 'x') },
        GridCell { hidden: true, ..cell(1, 0, 'h') },
        cell(5, 0, 'z'),
    ];
    let screen = snapshot_screen(2, 2, &grid);
    assert_eq!(screen.size(), PtySize { cols: 2, rows: 2 });
    let cells = screen.cells();
    assert_eq!(cells.len(), 4);
    assert_eq!(cells[0], TerminalCell::new('a', Some(rgb(1, 1, 1)), None));
    assert_eq!(cells[1], TerminalCell::continuation(Some(rgb(1, 1, 1)), None));
    assert_eq!(cells[2], TerminalCell::new(' ', Some(rgb(1, 1, 1)), None));
    assert_eq!(cells[3], TerminalCell::new('b', None, Some(rgb(1, 1, 1))));
}

#[test]
fn later_cells_win() {
    let grid = vec![cell(0, 0, 'a'), cell(0, 0, 'b')];
    let screen = snapshot_screen(1, 1, &grid);
    assert_eq!(screen.cells()[0].ch(), 'b');
}

#[test]
fn blank_screens() {
    let screen = TerminalScreen::new(PtySize { cols: 3, rows: 2 });
    assert_eq!(screen.cells().len(), 6);
    assert!(screen.cells().iter().all(|c| c.ch() == ' ' && c.foreground().is_none() && c.background().is_none() && !c.is_continuation()));
    let mut screen = screen;
    screen.replace(PtySize { cols: 1, rows: 1 }, vec![TerminalCell::new('q', None, None)]);
    assert_eq!(screen.size(), PtySize { cols: 1, rows: 1 });
    assert_eq!(screen.cells()[0].ch(), 'q');
}
