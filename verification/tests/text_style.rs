use germinal::text_style::{char_cell_width, text_runs, text_style, TextRun, TextStyle};

#[test]
fn box_drawing_uses_monospace_text_style() {
    assert_eq!(text_style('─'), TextStyle::MonospaceBasic);
    assert_eq!(text_style('│'), TextStyle::MonospaceBasic);
    assert_eq!(text_style('╭'), TextStyle::MonospaceBasic);
}

#[test]
fn block_elements_use_symbol_text_style() {
    assert_eq!(text_style('░'), TextStyle::SymbolBasic);
    assert_eq!(text_style('▒'), TextStyle::SymbolBasic);
    assert_eq!(text_style('▓'), TextStyle::SymbolBasic);
}

#[test]
fn scripts_pick_their_styles() {
    assert_eq!(text_style('a'), TextStyle::MonospaceBasic);
    assert_eq!(text_style('中'), TextStyle::CjkBasic);
    assert_eq!(text_style('한'), TextStyle::CjkBasic);
    assert_eq!(text_style('ש'), TextStyle::Advanced);
    assert_eq!(text_style('ก'), TextStyle::Advanced);
    assert_eq!(text_style('→'), TextStyle::SymbolBasic);
}

#[test]
fn wide_characters_take_two_cells() {
    assert_eq!(char_cell_width('a'), 1);
    assert_eq!(char_cell_width('中'), 2);
    assert_eq!(char_cell_width('─'), 1);
    assert_eq!(char_cell_width('\u{1f600}'), 2);
}

#[test]
fn runs_split_where_the_style_changes() {
    let chars: Vec<char> = "ab中文c".chars().collect();
    let runs = text_runs(&chars);
    assert_eq!(
        runs,
        vec![
            TextRun { style: TextStyle::MonospaceBasic, start: 0, len: 2, start_cell: 0, cells: 2 },
            TextRun { style: TextStyle::CjkBasic, start: 2, len: 2, start_cell: 2, cells: 4 },
            TextRun { style: TextStyle::MonospaceBasic, start: 4, len: 1, start_cell: 6, cells: 1 },
        ]
    );
}

#[test]
fn empty_line_has_no_runs() {
    let chars: Vec<char> = Vec::new();
    assert!(text_runs(&chars).is_empty());
}
