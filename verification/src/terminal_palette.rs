//! Colors and screen snapshots of the terminal engine, in the library's own
//! values: the fallback palette, how cell colors resolve, the grid size handed
//! to the emulator, and how the emulator's visible cells become a screen.

use vstd::prelude::*;
use crate::ports::{PtySize, TerminalCell, TerminalColor, TerminalScreen, TerminalSize, blank_cell};
use alacritty_terminal::vte::ansi::NamedColor;

verus! {

/// The emulator's slot for the default foreground color: `NamedColor::Foreground as usize`,
/// which is 256 in the vte version that alacritty_terminal re-exports.
#[verifier::external_body]
fn foreground_slot() -> (slot: usize)
    ensures
        slot == 256,
{
    NamedColor::Foreground as usize
}

/// The slot of `NamedColor::Background`: 257.
#[verifier::external_body]
fn background_slot() -> (slot: usize)
    ensures
        slot == 257,
{
    NamedColor::Background as usize
}

/// The slot of `NamedColor::BrightForeground`: 267.
#[verifier::external_body]
fn bright_foreground_slot() -> (slot: usize)
    ensures
        slot == 267,
{
    NamedColor::BrightForeground as usize
}

/// The slot of `NamedColor::DimForeground`: 268.
#[verifier::external_body]
fn dim_foreground_slot() -> (slot: usize)
    ensures
        slot == 268,
{
    NamedColor::DimForeground as usize
}

pub open spec fn rgb(r: u8, g: u8, b: u8) -> TerminalColor {
    TerminalColor { r, g, b }
}

/// The foreground color used when the emulator has none configured.
pub open spec fn default_foreground() -> TerminalColor {
    rgb(220, 226, 235)
}

/// The background color used when the emulator has none configured.
pub open spec fn default_background() -> TerminalColor {
    rgb(16, 20, 28)
}

/// The color used for palette slot `index` when the emulator has none configured:
/// the sixteen ANSI colors, then the default foreground, background, bright and
/// dim foreground slots; any other slot takes the default foreground.
pub open spec fn fallback_color(index: int) -> TerminalColor {
    if index == 0 {
        rgb(0, 0, 0)
    } else if index == 1 {
        rgb(205, 49, 49)
    } else if index == 2 {
        rgb(13, 188, 121)
    } else if index == 3 {
        rgb(229, 229, 16)
    } else if index == 4 {
        rgb(36, 114, 200)
    } else if index == 5 {
        rgb(188, 63, 188)
    } else if index == 6 {
        rgb(17, 168, 205)
    } else if index == 7 {
        rgb(229, 229, 229)
    } else if index == 8 {
        rgb(102, 102, 102)
    } else if index == 9 {
        rgb(241, 76, 76)
    } else if index == 10 {
        rgb(35, 209, 139)
    } else if index == 11 {
        rgb(245, 245, 67)
    } else if index == 12 {
        rgb(59, 142, 234)
    } else if index == 13 {
        rgb(214, 112, 214)
    } else if index == 14 {
        rgb(41, 184, 219)
    } else if index == 15 {
        rgb(255, 255, 255)
    } else if index == 256 {
        default_foreground()
    } else if index == 257 {
        default_background()
    } else if index == 267 {
        rgb(255, 255, 255)
    } else if index == 268 {
        rgb(128, 132, 138)
    } else {
        default_foreground()
    }
}

fn color(r: u8, g: u8, b: u8) -> (c: TerminalColor)
    ensures
        c == rgb(r, g, b),
{
    TerminalColor { r, g, b }
}

/// The color used for palette slot `index` when the emulator has none configured.
pub fn fallback_named_color(index: usize) -> (c: TerminalColor)
    ensures
        c == fallback_color(index as int),
{
    let foreground = foreground_slot();
    let background = background_slot();
    let bright_foreground = bright_foreground_slot();
    let dim_foreground = dim_foreground_slot();
    match index {
        0 => color(0, 0, 0),
        1 => color(205, 49, 49),
        2 => color(13, 188, 121),
        3 => color(229, 229, 16),
        4 => color(36, 114, 200),
        5 => color(188, 63, 188),
        6 => color(17, 168, 205),
        7 => color(229, 229, 229),
        8 => color(102, 102, 102),
        9 => color(241, 76, 76),
        10 => color(35, 209, 139),
        11 => color(245, 245, 67),
        12 => color(59, 142, 234),
        13 => color(214, 112, 214),
        14 => color(41, 184, 219),
        15 => color(255, 255, 255),
        x if x == foreground => color(220, 226, 235),
        x if x == background => color(16, 20, 28),
        x if x == bright_foreground => color(255, 255, 255),
        x if x == dim_foreground => color(128, 132, 138),
        _ => color(220, 226, 235),
    }
}

/// The fallback palette, entry by entry: the sixteen ANSI colors (black, red,
/// green, yellow, blue, magenta, cyan, white, then their bright forms), the
/// default foreground (slot 256), background (257), bright foreground (267)
/// and dim foreground (268); every other slot takes the default foreground.
pub proof fn law_fallback_palette_table(index: int)
    ensures
        fallback_color(0) == (TerminalColor { r: 0, g: 0, b: 0 }),
        fallback_color(1) == (TerminalColor { r: 205, g: 49, b: 49 }),
        fallback_color(2) == (TerminalColor { r: 13, g: 188, b: 121 }),
        fallback_color(3) == (TerminalColor { r: 229, g: 229, b: 16 }),
        fallback_color(4) == (TerminalColor { r: 36, g: 114, b: 200 }),
        fallback_color(5) == (TerminalColor { r: 188, g: 63, b: 188 }),
        fallback_color(6) == (TerminalColor { r: 17, g: 168, b: 205 }),
        fallback_color(7) == (TerminalColor { r: 229, g: 229, b: 229 }),
        fallback_color(8) == (TerminalColor { r: 102, g: 102, b: 102 }),
        fallback_color(9) == (TerminalColor { r: 241, g: 76, b: 76 }),
        fallback_color(10) == (TerminalColor { r: 35, g: 209, b: 139 }),
        fallback_color(11) == (TerminalColor { r: 245, g: 245, b: 67 }),
        fallback_color(12) == (TerminalColor { r: 59, g: 142, b: 234 }),
        fallback_color(13) == (TerminalColor { r: 214, g: 112, b: 214 }),
        fallback_color(14) == (TerminalColor { r: 41, g: 184, b: 219 }),
        fallback_color(15) == (TerminalColor { r: 255, g: 255, b: 255 }),
        fallback_color(256) == (TerminalColor { r: 220, g: 226, b: 235 }),
        fallback_color(257) == (TerminalColor { r: 16, g: 20, b: 28 }),
        fallback_color(267) == (TerminalColor { r: 255, g: 255, b: 255 }),
        fallback_color(268) == (TerminalColor { r: 128, g: 132, b: 138 }),
        !(0 <= index <= 15 || index == 256 || index == 257 || index == 267 || index == 268) ==> fallback_color(
            index,
        ) == (TerminalColor { r: 220, g: 226, b: 235 }),
{
}

/// How a cell color resolves: an explicit color is itself; a palette color is
/// the color configured for its slot, and without one the slot's fallback.
pub proof fn law_cell_color_resolution(color: CellColor, configured: Option<TerminalColor>)
    ensures
        color matches CellColor::Spec(rgb) ==> resolved_cell_color(color, configured) == rgb,
        color matches CellColor::Indexed(i) ==> resolved_cell_color(color, configured) == (match configured {
            Some(c) => c,
            None => fallback_color(i as int),
        }),
        color matches CellColor::Named(n) ==> resolved_cell_color(color, configured) == (match configured {
            Some(c) => c,
            None => fallback_color(n as int),
        }),
{
}

/// A cell color as the emulator states it.
#[derive(Debug, Clone, Copy, PartialEq, Eq, Structural)]
pub enum CellColor {
    /// An explicit RGB color.
    Spec(TerminalColor),
    /// An entry of the 256-color palette.
    Indexed(u8),
    /// A named palette slot (`NamedColor as usize`).
    Named(usize),
}

/// The palette slot a cell color refers to, if any.
pub open spec fn cell_color_slot(color: CellColor) -> Option<int> {
    match color {
        CellColor::Spec(_) => None,
        CellColor::Indexed(i) => Some(i as int),
        CellColor::Named(n) => Some(n as int),
    }
}

/// The color of palette slot `slot`: the configured one, else the fallback.
pub open spec fn slot_color(slot: int, configured: Option<TerminalColor>) -> TerminalColor {
    match configured {
        Some(c) => c,
        None => fallback_color(slot),
    }
}

/// The color of palette slot `slot`: `configured` (what the emulator's color
/// table holds for the slot) when set, else the fallback color.
pub fn resolve_slot_color(slot: usize, configured: Option<TerminalColor>) -> (c: TerminalColor)
    ensures
        c == slot_color(slot as int, configured),
{
    match configured {
        Some(c) => c,
        None => fallback_named_color(slot),
    }
}

/// The color a cell color resolves to, given what the emulator's table holds for its slot.
pub open spec fn resolved_cell_color(color: CellColor, configured: Option<TerminalColor>) -> TerminalColor {
    match color {
        CellColor::Spec(rgb) => rgb,
        _ => slot_color(cell_color_slot(color)->0, configured),
    }
}

/// Resolves a cell color: an explicit color is itself; a palette color is what
/// the emulator's table holds for the slot (`configured`), else the fallback.
pub fn resolve_cell_color(color: CellColor, configured: Option<TerminalColor>) -> (c: Option<TerminalColor>)
    ensures
        c == Some(resolved_cell_color(color, configured)),
{
    match color {
        CellColor::Spec(rgb) => Some(rgb),
        CellColor::Indexed(index) => Some(resolve_slot_color(index as usize, configured)),
        CellColor::Named(slot) => Some(resolve_slot_color(slot, configured)),
    }
}

/// The grid size handed to the emulator: at least two columns and one row.
#[derive(Debug, Clone, Copy, PartialEq, Eq, Structural)]
pub struct TermDimensions {
    pub cols: usize,
    pub rows: usize,
}

impl TermDimensions {
    pub fn new(size: TerminalSize) -> (d: Self)
        ensures
            d.cols == (if size.cols < 2 { 2 } else { size.cols }),
            d.rows == (if size.rows < 1 { 1 } else { size.rows }),
    {
        let cols: u16 = if size.cols < 2 { 2 } else { size.cols };
        let rows: u16 = if size.rows < 1 { 1 } else { size.rows };
        TermDimensions { cols: cols as usize, rows: rows as usize }
    }
}

/// One visible cell of the emulator's grid, at a viewport position.
#[derive(Debug, Clone, Copy, PartialEq, Eq, Structural)]
pub struct GridCell {
    pub line: usize,
    pub column: usize,
    pub c: char,
    pub foreground: Option<TerminalColor>,
    pub background: Option<TerminalColor>,
    /// The cell swaps foreground and background.
    pub inverse: bool,
    /// The cell is the spacer after (or before) a wide character.
    pub wide_spacer: bool,
    /// The cell's character is hidden.
    pub hidden: bool,
}

/// The screen cell a grid cell becomes: colors swapped when inverse, a
/// continuation for a wide-character spacer, a blank for a hidden character.
pub open spec fn screen_cell(g: GridCell) -> TerminalCell {
    let fg = if g.inverse { g.background } else { g.foreground };
    let bg = if g.inverse { g.foreground } else { g.background };
    if g.wide_spacer {
        TerminalCell::spec_new(' ', fg, bg, true)
    } else {
        TerminalCell::spec_new(if g.hidden { ' ' } else { g.c }, fg, bg, false)
    }
}

/// The cells of a `cols` by `rows` screen after writing each grid cell, in
/// order, at its position; cells outside the screen are skipped, and a later
/// cell at the same position wins.
pub open spec fn screen_cells(cols: int, rows: int, grid: Seq<GridCell>) -> Seq<TerminalCell>
    decreases grid.len(),
{
    if grid.len() == 0 {
        Seq::new((cols * rows) as nat, |i: int| blank_cell())
    } else {
        let prev = screen_cells(cols, rows, grid.drop_last());
        let g = grid.last();
        if g.line < rows && g.column < cols {
            prev.update(g.line * cols + g.column, screen_cell(g))
        } else {
            prev
        }
    }
}

proof fn lemma_screen_cells_len(cols: int, rows: int, grid: Seq<GridCell>)
    requires
        cols >= 0,
        rows >= 0,
    ensures
        screen_cells(cols, rows, grid).len() == cols * rows,
    decreases grid.len(),
{
    assert(cols * rows >= 0) by (nonlinear_arith)
        requires
            cols >= 0,
            rows >= 0,
    ;
    if grid.len() > 0 {
        lemma_screen_cells_len(cols, rows, grid.drop_last());
        let prev = screen_cells(cols, rows, grid.drop_last());
        let g = grid.last();
        assert(prev.len() == cols * rows);
        if g.line < rows && g.column < cols {
            let line = g.line as int;
            let col = g.column as int;
            assert(0 <= line * cols + col < cols * rows) by (nonlinear_arith)
                requires
                    0 <= line < rows,
                    0 <= col < cols,
            ;
            assert(screen_cells(cols, rows, grid) == prev.update(g.line * cols + g.column, screen_cell(g)));
        } else {
            assert(screen_cells(cols, rows, grid) == prev);
        }
    } else {
        assert(screen_cells(cols, rows, grid).len() == (cols * rows) as nat);
    }
}

fn make_screen_cell(g: &GridCell) -> (cell: TerminalCell)
    ensures
        cell == screen_cell(*g),
{
    let mut foreground = g.foreground;
    let mut background = g.background;
    if g.inverse {
        std::mem::swap(&mut foreground, &mut background);
    }
    if g.wide_spacer {
        TerminalCell::continuation(foreground, background)
    } else {
        let ch = if g.hidden { ' ' } else { g.c };
        TerminalCell::new(ch, foreground, background)
    }
}

/// Builds the screen snapshot of a `cols` by `rows` viewport from its visible cells.
pub fn snapshot_screen(cols: u16, rows: u16, grid: &Vec<GridCell>) -> (screen: TerminalScreen)
    ensures
        screen.spec_size() == (PtySize { cols, rows }),
        screen.spec_cells() == screen_cells(cols as int, rows as int, grid@),
{
    let size = PtySize { cols, rows };
    let mut screen = TerminalScreen::new(size);
    let c = cols as usize;
    let r = rows as usize;
    proof {
        assert(c * r <= 0xffff * 0xffff) by (nonlinear_arith)
            requires
                c <= 0xffff,
                r <= 0xffff,
        ;
    }
    let n: usize = c * r;
    let mut cells = vec![TerminalCell::new(' ', None, None); n];
    proof {
        assert(cells@ =~= screen_cells(cols as int, rows as int, grid@.subrange(0, 0)));
    }
    let mut i: usize = 0;
    while i < grid.len()
        invariant
            0 <= i <= grid@.len(),
            n == c * r,
            c == cols,
            r == rows,
            cells@ == screen_cells(cols as int, rows as int, grid@.subrange(0, i as int)),
        decreases grid.len() - i,
    {
        proof {
            lemma_screen_cells_len(cols as int, rows as int, grid@.subrange(0, i as int));
            assert(grid@.subrange(0, i + 1).drop_last() =~= grid@.subrange(0, i as int));
            assert(grid@.subrange(0, i + 1).last() == grid@[i as int]);
        }
        let g = &grid[i];
        if g.line < r && g.column < c {
            proof {
                let line = g.line as int;
                let col = g.column as int;
                assert(line * c + col < c * r) by (nonlinear_arith)
                    requires
                        line < r,
                        col < c,
                        line >= 0,
                        col >= 0,
                ;
            }
            let index = g.line * c + g.column;
            cells.set(index, make_screen_cell(g));
        }
        i = i + 1;
    }
    proof {
        assert(grid@.subrange(0, i as int) =~= grid@);
    }
    screen.replace(size, cells);
    screen
}

} // verus!
