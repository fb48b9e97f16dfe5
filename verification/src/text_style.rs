//! How a line of text is cut into runs that the renderer shapes with one font
//! each, and how many terminal cells each character takes.

use vstd::prelude::*;

verus! {

/// How a run of text is shaped and which font family draws it.
#[derive(Clone, Copy, Debug, PartialEq, Eq, Structural)]
pub enum TextStyle {
    MonospaceBasic,
    CjkBasic,
    SymbolBasic,
    Advanced,
}

/// Which configured font family draws a run.
#[derive(Clone, Copy, Debug, PartialEq, Eq, Structural)]
pub enum FontFamilyChoice {
    /// The terminal's monospace family.
    Monospace,
    /// The configured CJK family.
    Cjk,
    /// The configured symbol family.
    Symbol,
    /// The configured family for complex scripts.
    Complex,
}

/// How the shaper treats a run.
#[derive(Clone, Copy, Debug, PartialEq, Eq, Structural)]
pub enum TextShaping {
    Basic,
    Advanced,
}

/// The font family and shaping that draw a run.
#[derive(Clone, Copy, Debug, PartialEq, Eq, Structural)]
pub struct FontChoice {
    pub family: FontFamilyChoice,
    pub shaping: TextShaping,
}

/// Advanced shaping, with the complex-script family when one is configured.
pub open spec fn advanced_choice(has_complex: bool) -> FontChoice {
    FontChoice {
        family: if has_complex { FontFamilyChoice::Complex } else { FontFamilyChoice::Monospace },
        shaping: TextShaping::Advanced,
    }
}

/// The font for a run of `style`: monospace runs use the monospace family;
/// CJK and symbol runs use their family with basic shaping when it is
/// configured, and advanced shaping otherwise, as do advanced runs.
pub open spec fn spec_font_choice(style: TextStyle, has_cjk: bool, has_symbol: bool, has_complex: bool) -> FontChoice {
    match style {
        TextStyle::MonospaceBasic => FontChoice { family: FontFamilyChoice::Monospace, shaping: TextShaping::Basic },
        TextStyle::CjkBasic => if has_cjk {
            FontChoice { family: FontFamilyChoice::Cjk, shaping: TextShaping::Basic }
        } else {
            advanced_choice(has_complex)
        },
        TextStyle::SymbolBasic => if has_symbol {
            FontChoice { family: FontFamilyChoice::Symbol, shaping: TextShaping::Basic }
        } else {
            advanced_choice(has_complex)
        },
        TextStyle::Advanced => advanced_choice(has_complex),
    }
}

fn advanced_font_choice(has_complex: bool) -> (c: FontChoice)
    ensures
        c == advanced_choice(has_complex),
{
    if has_complex {
        FontChoice { family: FontFamilyChoice::Complex, shaping: TextShaping::Advanced }
    } else {
        FontChoice { family: FontFamilyChoice::Monospace, shaping: TextShaping::Advanced }
    }
}

/// The font family and shaping for a run of `style`, given which of the CJK,
/// symbol and complex-script families are configured.
pub fn font_choice(style: TextStyle, has_cjk: bool, has_symbol: bool, has_complex: bool) -> (c: FontChoice)
    ensures
        c == spec_font_choice(style, has_cjk, has_symbol, has_complex),
{
    match style {
        TextStyle::MonospaceBasic => FontChoice { family: FontFamilyChoice::Monospace, shaping: TextShaping::Basic },
        TextStyle::CjkBasic => {
            if has_cjk {
                FontChoice { family: FontFamilyChoice::Cjk, shaping: TextShaping::Basic }
            } else {
                advanced_font_choice(has_complex)
            }
        },
        TextStyle::SymbolBasic => {
            if has_symbol {
                FontChoice { family: FontFamilyChoice::Symbol, shaping: TextShaping::Basic }
            } else {
                advanced_font_choice(has_complex)
            }
        },
        TextStyle::Advanced => advanced_font_choice(has_complex),
    }
}

/// Scripts that need complex shaping: Hebrew to Devanagari and the other
/// Indic scripts, Thai and Lao, Tibetan and Myanmar, Khmer and Mongolian, the
/// blocks from Syloti Nagri to Hangul's neighbors, and the Arabic presentation forms.
pub open spec fn needs_advanced_shaping(c: u32) -> bool {
    ||| 0x0590 <= c <= 0x08ff
    ||| 0x0900 <= c <= 0x0dff
    ||| 0x0e00 <= c <= 0x0eff
    ||| 0x0f00 <= c <= 0x109f
    ||| 0x1780 <= c <= 0x18af
    ||| 0xa800 <= c <= 0xabff
    ||| 0xfb50 <= c <= 0xfdff
    ||| 0xfe70 <= c <= 0xfeff
}

/// Code points drawn with a CJK font.
pub open spec fn cjk(c: u32) -> bool {
    ||| 0x1100 <= c <= 0x11ff
    ||| 0x2e80 <= c <= 0xa4cf
    ||| 0xac00 <= c <= 0xd7af
    ||| 0xf900 <= c <= 0xfaff
    ||| 0xff00 <= c <= 0xffef
    ||| 0x20000 <= c <= 0x3fffd
}

/// Code points drawn with a symbol font: arrows, math and technical symbols,
/// and pictographs, except the box-drawing block, which stays monospace.
pub open spec fn symbol_font(c: u32) -> bool {
    !(0x2500 <= c <= 0x257f) && (0x2190 <= c <= 0x27ff || 0x2900 <= c <= 0x2bff || 0x1f000 <= c <= 0x1faff)
}

/// Code points that take two terminal cells.
pub open spec fn wide_cell(c: u32) -> bool {
    ||| 0x1100 <= c <= 0x115f
    ||| 0x2329 <= c <= 0x232a
    ||| 0x2e80 <= c <= 0xa4cf
    ||| 0xac00 <= c <= 0xd7a3
    ||| 0xf900 <= c <= 0xfaff
    ||| 0xfe10 <= c <= 0xfe19
    ||| 0xfe30 <= c <= 0xfe6f
    ||| 0xff00 <= c <= 0xff60
    ||| 0xffe0 <= c <= 0xffe6
    ||| 0x1f300 <= c <= 0x1faff
    ||| 0x20000 <= c <= 0x3fffd
}

/// The style of a character: complex shaping first, then CJK, then symbols,
/// else monospace.
pub open spec fn style_of(ch: char) -> TextStyle {
    let c = ch as u32;
    if needs_advanced_shaping(c) {
        TextStyle::Advanced
    } else if cjk(c) {
        TextStyle::CjkBasic
    } else if symbol_font(c) {
        TextStyle::SymbolBasic
    } else {
        TextStyle::MonospaceBasic
    }
}

/// The number of cells a character takes.
pub open spec fn cell_width(ch: char) -> nat {
    if wide_cell(ch as u32) {
        2
    } else {
        1
    }
}

pub fn requires_advanced_shaping(ch: char) -> (b: bool)
    ensures
        b == needs_advanced_shaping(ch as u32),
{
    let c = ch as u32;
    (0x0590 <= c && c <= 0x08ff) || (0x0900 <= c && c <= 0x0dff) || (0x0e00 <= c && c <= 0x0eff) || (0x0f00 <= c
        && c <= 0x109f) || (0x1780 <= c && c <= 0x18af) || (0xa800 <= c && c <= 0xabff) || (0xfb50 <= c && c
        <= 0xfdff) || (0xfe70 <= c && c <= 0xfeff)
}

pub fn is_cjk_char(ch: char) -> (b: bool)
    ensures
        b == cjk(ch as u32),
{
    let c = ch as u32;
    (0x1100 <= c && c <= 0x11ff) || (0x2e80 <= c && c <= 0xa4cf) || (0xac00 <= c && c <= 0xd7af) || (0xf900 <= c
        && c <= 0xfaff) || (0xff00 <= c && c <= 0xffef) || (0x20000 <= c && c <= 0x3fffd)
}

pub fn is_symbol_font_char(ch: char) -> (b: bool)
    ensures
        b == symbol_font(ch as u32),
{
    let c = ch as u32;
    if 0x2500 <= c && c <= 0x257f {
        return false;
    }
    (0x2190 <= c && c <= 0x27ff) || (0x2900 <= c && c <= 0x2bff) || (0x1f000 <= c && c <= 0x1faff)
}

pub fn is_wide_cell_char(ch: char) -> (b: bool)
    ensures
        b == wide_cell(ch as u32),
{
    let c = ch as u32;
    (0x1100 <= c && c <= 0x115f) || (0x2329 <= c && c <= 0x232a) || (0x2e80 <= c && c <= 0xa4cf) || (0xac00 <= c
        && c <= 0xd7a3) || (0xf900 <= c && c <= 0xfaff) || (0xfe10 <= c && c <= 0xfe19) || (0xfe30 <= c && c
        <= 0xfe6f) || (0xff00 <= c && c <= 0xff60) || (0xffe0 <= c && c <= 0xffe6) || (0x1f300 <= c && c
        <= 0x1faff) || (0x20000 <= c && c <= 0x3fffd)
}

pub fn char_cell_width(ch: char) -> (w: u8)
    ensures
        w == cell_width(ch),
{
    if is_wide_cell_char(ch) {
        2
    } else {
        1
    }
}

pub fn text_style(ch: char) -> (s: TextStyle)
    ensures
        s == style_of(ch),
{
    if requires_advanced_shaping(ch) {
        TextStyle::Advanced
    } else if is_cjk_char(ch) {
        TextStyle::CjkBasic
    } else if is_symbol_font_char(ch) {
        TextStyle::SymbolBasic
    } else {
        TextStyle::MonospaceBasic
    }
}


/// The style of every character, by code point: complex scripts (Hebrew and
/// Arabic through Devanagari, the other Indic scripts, Thai, Lao, Tibetan,
/// Myanmar, Khmer, Mongolian, U+A800..U+ABFF and the Arabic presentation
/// forms) are shaped advanced; otherwise Hangul Jamo, the CJK blocks, Hangul
/// syllables, CJK compatibility ideographs, full-width forms and the
/// supplementary ideographs take the CJK font; otherwise arrows, math and
/// technical symbols and pictographs, except box drawing, take the symbol
/// font; everything else is monospace.
pub proof fn law_text_style_by_code_point(ch: char)
    ensures
        ({
            let c = ch as u32;
            let advanced = (0x0590 <= c <= 0x08ff) || (0x0900 <= c <= 0x0dff) || (0x0e00 <= c <= 0x0eff) || (
            0x0f00 <= c <= 0x109f) || (0x1780 <= c <= 0x18af) || (0xa800 <= c <= 0xabff) || (0xfb50 <= c
                <= 0xfdff) || (0xfe70 <= c <= 0xfeff);
            let cjk_font = (0x1100 <= c <= 0x11ff) || (0x2e80 <= c <= 0xa4cf) || (0xac00 <= c <= 0xd7af) || (
            0xf900 <= c <= 0xfaff) || (0xff00 <= c <= 0xffef) || (0x20000 <= c <= 0x3fffd);
            let symbol = !(0x2500 <= c <= 0x257f) && ((0x2190 <= c <= 0x27ff) || (0x2900 <= c <= 0x2bff) || (
            0x1f000 <= c <= 0x1faff));
            &&& advanced ==> style_of(ch) == TextStyle::Advanced
            &&& !advanced && cjk_font ==> style_of(ch) == TextStyle::CjkBasic
            &&& !advanced && !cjk_font && symbol ==> style_of(ch) == TextStyle::SymbolBasic
            &&& !advanced && !cjk_font && !symbol ==> style_of(ch) == TextStyle::MonospaceBasic
        }),
{
}

/// The cell width of every character, by code point: Hangul Jamo initials,
/// the angle brackets U+2329..U+232A, the CJK blocks, Hangul syllables, CJK
/// compatibility ideographs, vertical and small forms, full-width forms and
/// signs, pictographs and the supplementary ideographs take two cells; every
/// other character takes one.
pub proof fn law_cell_width_by_code_point(ch: char)
    ensures
        ({
            let c = ch as u32;
            let wide = (0x1100 <= c <= 0x115f) || (0x2329 <= c <= 0x232a) || (0x2e80 <= c <= 0xa4cf) || (0xac00
                <= c <= 0xd7a3) || (0xf900 <= c <= 0xfaff) || (0xfe10 <= c <= 0xfe19) || (0xfe30 <= c <= 0xfe6f)
                || (0xff00 <= c <= 0xff60) || (0xffe0 <= c <= 0xffe6) || (0x1f300 <= c <= 0x1faff) || (0x20000
                <= c <= 0x3fffd);
            &&& wide ==> cell_width(ch) == 2
            &&& !wide ==> cell_width(ch) == 1
        }),
{
}

/// The font of every run: monospace runs take the monospace family with basic
/// shaping; CJK and symbol runs take their family with basic shaping when it
/// is configured; every other run is shaped advanced, with the complex-script
/// family when it is configured and the monospace family otherwise.
pub proof fn law_font_choice_by_style(style: TextStyle, has_cjk: bool, has_symbol: bool, has_complex: bool)
    ensures
        ({
            let choice = spec_font_choice(style, has_cjk, has_symbol, has_complex);
            let basic = style == TextStyle::MonospaceBasic || (style == TextStyle::CjkBasic && has_cjk) || (style
                == TextStyle::SymbolBasic && has_symbol);
            &&& style == TextStyle::MonospaceBasic ==> choice == FontChoice {
                family: FontFamilyChoice::Monospace,
                shaping: TextShaping::Basic,
            }
            &&& style == TextStyle::CjkBasic && has_cjk ==> choice == FontChoice {
                family: FontFamilyChoice::Cjk,
                shaping: TextShaping::Basic,
            }
            &&& style == TextStyle::SymbolBasic && has_symbol ==> choice == FontChoice {
                family: FontFamilyChoice::Symbol,
                shaping: TextShaping::Basic,
            }
            &&& !basic && has_complex ==> choice == FontChoice {
                family: FontFamilyChoice::Complex,
                shaping: TextShaping::Advanced,
            }
            &&& !basic && !has_complex ==> choice == FontChoice {
                family: FontFamilyChoice::Monospace,
                shaping: TextShaping::Advanced,
            }
        }),
{
}

/// A maximal run of characters with one style: the characters at
/// `start .. start + len`, which begin `start_cell` cells into the line and take `cells` cells.
#[derive(Clone, Copy, Debug, PartialEq, Eq, Structural)]
pub struct TextRun {
    pub style: TextStyle,
    pub start: usize,
    pub len: usize,
    pub start_cell: usize,
    pub cells: usize,
}

/// The cells taken by the characters at `a .. b`.
pub open spec fn cells_between(chars: Seq<char>, a: int, b: int) -> int
    decreases b - a,
{
    if b <= a {
        0
    } else {
        cells_between(chars, a, b - 1) + cell_width(chars[b - 1])
    }
}

/// Whether `run` is well placed in `chars`: it is not empty, all its
/// characters have its style, and its cell offset and width are those of its characters.
pub open spec fn run_fits(chars: Seq<char>, run: TextRun) -> bool {
    &&& run.len > 0
    &&& forall|k: int| run.start <= k < run.start + run.len ==> style_of(#[trigger] chars[k]) == run.style
    &&& run.start_cell == cells_between(chars, 0, run.start as int)
    &&& run.cells == cells_between(chars, run.start as int, run.start + run.len)
}

/// Whether run `i` starts where run `i - 1` ends and has another style.
pub open spec fn follows(runs: Seq<TextRun>, i: int) -> bool {
    runs[i].start == runs[i - 1].start + runs[i - 1].len && runs[i].style != runs[i - 1].style
}

/// Whether `runs` cut the first `n` characters of `chars` into maximal runs
/// of one style each, left to right, with their cell offsets and widths.
#[verifier::opaque]
pub open spec fn is_runs_of(chars: Seq<char>, n: int, runs: Seq<TextRun>) -> bool {
    &&& (n == 0 <==> runs.len() == 0)
    &&& runs.len() > 0 ==> runs[0].start == 0 && runs.last().start + runs.last().len == n
    &&& forall|i: int| 0 < i < runs.len() ==> #[trigger] follows(runs, i)
    &&& forall|i: int| 0 <= i < runs.len() ==> #[trigger] run_fits(chars, runs[i])
}

/// Whether `runs` cut all of `chars` into maximal runs of one style.
pub open spec fn is_text_runs(chars: Seq<char>, runs: Seq<TextRun>) -> bool {
    is_runs_of(chars, chars.len() as int, runs)
}

proof fn lemma_cells_between_bound(chars: Seq<char>, a: int, b: int)
    requires
        a <= b,
    ensures
        b - a <= cells_between(chars, a, b) <= 2 * (b - a),
    decreases b - a,
{
    if a < b {
        lemma_cells_between_bound(chars, a, b - 1);
    }
}

proof fn lemma_cells_between_split(chars: Seq<char>, a: int, m: int, b: int)
    requires
        a <= m <= b,
    ensures
        cells_between(chars, a, b) == cells_between(chars, a, m) + cells_between(chars, m, b),
    decreases b - m,
{
    if m < b {
        lemma_cells_between_split(chars, a, m, b - 1);
    }
}

proof fn lemma_runs_extend(chars: Seq<char>, i: int, old_runs: Seq<TextRun>, runs: Seq<TextRun>)
    requires
        0 <= i < chars.len(),
        is_runs_of(chars, i, old_runs),
        old_runs.len() > 0,
        old_runs.last().style == style_of(chars[i]),
        old_runs.last().len + 1 <= usize::MAX,
        old_runs.last().cells + cell_width(chars[i]) <= usize::MAX,
        runs == old_runs.update(
            old_runs.len() - 1,
            TextRun {
                style: old_runs.last().style,
                start: old_runs.last().start,
                len: (old_runs.last().len + 1) as usize,
                start_cell: old_runs.last().start_cell,
                cells: (old_runs.last().cells + cell_width(chars[i])) as usize,
            },
        ),
    ensures
        is_runs_of(chars, i + 1, runs),
{
    reveal(is_runs_of);
    let last = old_runs.len() - 1;
    let r = old_runs[last];
    assert(run_fits(chars, r));
    lemma_run_extend(chars, i, r, runs[last]);
    assert forall|j: int| 0 <= j < runs.len() implies #[trigger] run_fits(chars, runs[j]) by {
        if j < last {
            assert(runs[j] == old_runs[j]);
        }
    }
    assert forall|j: int| 0 < j < runs.len() implies #[trigger] follows(runs, j) by {
        assert(runs[j - 1] == old_runs[j - 1]);
        assert(follows(old_runs, j));
    }
}

proof fn lemma_run_extend(chars: Seq<char>, i: int, r: TextRun, e: TextRun)
    requires
        0 <= i < chars.len(),
        run_fits(chars, r),
        r.start + r.len == i,
        r.style == style_of(chars[i]),
        e.style == r.style,
        e.start == r.start,
        e.len == r.len + 1,
        e.start_cell == r.start_cell,
        e.cells == r.cells + cell_width(chars[i]),
    ensures
        run_fits(chars, e),
{
    assert(cells_between(chars, r.start as int, i + 1) == cells_between(chars, r.start as int, i) + cell_width(
        chars[i],
    ));
}

proof fn lemma_runs_push(chars: Seq<char>, i: int, old_runs: Seq<TextRun>, runs: Seq<TextRun>)
    requires
        0 <= i < chars.len(),
        is_runs_of(chars, i, old_runs),
        old_runs.len() > 0 ==> old_runs.last().style != style_of(chars[i]),
        cells_between(chars, 0, i) <= usize::MAX,
        i <= usize::MAX,
        runs == old_runs.push(
            TextRun {
                style: style_of(chars[i]),
                start: i as usize,
                len: 1,
                start_cell: cells_between(chars, 0, i) as usize,
                cells: cell_width(chars[i]) as usize,
            },
        ),
    ensures
        is_runs_of(chars, i + 1, runs),
{
    reveal(is_runs_of);
    lemma_cells_between_bound(chars, 0, i);
    assert(cells_between(chars, i, i + 1) == cells_between(chars, i, i) + cell_width(chars[i]));
    assert(run_fits(chars, runs.last()));
    assert forall|j: int| 0 <= j < runs.len() implies #[trigger] run_fits(chars, runs[j]) by {
        if j < old_runs.len() {
            assert(runs[j] == old_runs[j]);
        }
    }
    assert forall|j: int| 0 < j < runs.len() implies #[trigger] follows(runs, j) by {
        assert(runs[j - 1] == old_runs[j - 1]);
        if j < old_runs.len() {
            assert(follows(old_runs, j));
        }
    }
}

proof fn lemma_runs_bounds(chars: Seq<char>, i: int, runs: Seq<TextRun>)
    requires
        0 <= i,
        is_runs_of(chars, i, runs),
        runs.len() > 0,
    ensures
        runs.last().start + runs.last().len == i,
        runs.last().cells == cells_between(chars, runs.last().start as int, i),
        runs.last().start <= i,
        runs.last().len <= i,
{
    reveal(is_runs_of);
    assert(run_fits(chars, runs[runs.len() - 1]));
}

/// Cuts a line into maximal runs of characters that share a style, with the
/// cell offset and cell width of each run.
pub fn text_runs(chars: &[char]) -> (runs: Vec<TextRun>)
    requires
        chars@.len() <= usize::MAX / 2,
    ensures
        is_text_runs(chars@, runs@),
{
    let mut runs: Vec<TextRun> = Vec::new();
    let mut cursor: usize = 0;
    let mut i: usize = 0;
    let n = chars.len();
    proof {
        reveal(is_runs_of);
    }
    while i < n
        invariant
            n == chars@.len(),
            n <= usize::MAX / 2,
            0 <= i <= n,
            cursor == cells_between(chars@, 0, i as int),
            is_runs_of(chars@, i as int, runs@),
        decreases n - i,
    {
        let ch = chars[i];
        let style = text_style(ch);
        let w = char_cell_width(ch) as usize;
        proof {
            lemma_cells_between_bound(chars@, 0, i as int);
        }
        let ghost old_runs = runs@;
        if runs.len() > 0 && runs[runs.len() - 1].style == style {
            let last = runs.len() - 1;
            let r = runs[last];
            proof {
                lemma_runs_bounds(chars@, i as int, runs@);
            }
            proof {
                lemma_cells_between_bound(chars@, r.start as int, i as int);
            }
            runs.set(
                last,
                TextRun { style: r.style, start: r.start, len: r.len + 1, start_cell: r.start_cell, cells: r.cells + w },
            );
            proof {
                lemma_runs_extend(chars@, i as int, old_runs, runs@);
            }
        } else {
            runs.push(TextRun { style, start: i, len: 1, start_cell: cursor, cells: w });
            proof {
                lemma_runs_push(chars@, i as int, old_runs, runs@);
            }
        }
        cursor = cursor + w;
        i = i + 1;
    }
    runs
}

} // verus!
