//! The AI terminal deck's screen: the agent's output is fed to a `vt100`
//! parser as it is read from the pseudo-terminal, and the parser's screen
//! is laid out, cell by cell, over the area the deck draws in.

use vstd::prelude::*;

verus! {

/// A `vt100::Parser`, held opaque: Verus refuses a declaration of the
/// parser type itself, whose generic parameter is bound by a `vt100` trait.
#[verifier::external_body]
pub struct Vt100Parser {
    inner: vt100::Parser,
}

#[verifier::external_type_specification]
#[verifier::external_body]
pub struct ExScreen(vt100::Screen);

#[verifier::external_type_specification]
#[verifier::external_body]
pub struct ExCell(vt100::Cell);

/// The bytes a `vt100` parser has processed since it was made.
pub uninterp spec fn parser_input(p: Vt100Parser) -> Seq<u8>;

/// `vt100::Parser::new` with no scrollback: a parser that has processed
/// nothing.
#[verifier::external_body]
fn vt100_new(rows: u16, cols: u16) -> (r: Vt100Parser)
    requires
        rows > 0,
        cols > 0,
    ensures
        parser_input(r) == Seq::<u8>::empty(),
{
    Vt100Parser {
        inner: vt100::Parser::new(
            core::num::NonZeroU16::new(rows).unwrap(),
            core::num::NonZeroU16::new(cols).unwrap(),
            0,
        ),
    }
}

/// `vt100::Parser::process`: the bytes are processed after those before.
#[verifier::external_body]
fn vt100_process(p: &mut Vt100Parser, bytes: &[u8])
    ensures
        parser_input(*final(p)) == parser_input(*old(p)) + bytes@,
{
    p.inner.process(bytes);
}

/// `vt100::Parser::set_size`: resizes the screen; no bytes are processed.
#[verifier::external_body]
fn vt100_set_size(p: &mut Vt100Parser, rows: u16, cols: u16)
    requires
        rows > 0,
        cols > 0,
    ensures
        parser_input(*final(p)) == parser_input(*old(p)),
{
    p.inner.set_size(core::num::NonZeroU16::new(rows).unwrap(), core::num::NonZeroU16::new(cols).unwrap());
}

/// `vt100::Parser::screen`: the parser's screen. What it shows depends on
/// the parser's whole history (bytes and resizes) and is not stated.
#[verifier::external_body]
fn vt100_screen(p: &Vt100Parser) -> (r: &vt100::Screen) {
    p.inner.screen()
}

/// `vt100::Screen::size`: (rows, columns), both at least one.
#[verifier::external_body]
fn screen_size(s: &vt100::Screen) -> (r: (u16, u16))
    ensures
        r.0 > 0,
        r.1 > 0,
{
    let (rows, cols) = s.size();
    (rows.get(), cols.get())
}

/// `vt100::Screen::cell`: the cell at a position, if there is one.
#[verifier::external_body]
fn screen_cell(s: &vt100::Screen, row: u16, col: u16) -> (r: Option<&vt100::Cell>) {
    s.cell(row, col)
}

/// `vt100::Screen::cursor_position`: (row, column).
#[verifier::external_body]
fn screen_cursor(s: &vt100::Screen) -> (r: (u16, u16)) {
    s.cursor_position()
}

/// `vt100::Screen::hide_cursor`.
#[verifier::external_body]
fn screen_hide_cursor(s: &vt100::Screen) -> (r: bool) {
    s.hide_cursor()
}

/// `vt100::Cell::contents`, copied.
#[verifier::external_body]
fn cell_contents(c: &vt100::Cell) -> (r: String) {
    c.contents().to_string()
}

/// `vt100::Cell::is_wide_continuation`.
#[verifier::external_body]
fn cell_is_wide_continuation(c: &vt100::Cell) -> (r: bool) {
    c.is_wide_continuation()
}

/// `vt100::Cell::bold`.
#[verifier::external_body]
fn cell_bold(c: &vt100::Cell) -> (r: bool) {
    c.bold()
}

/// `vt100::Cell::dim`.
#[verifier::external_body]
fn cell_dim(c: &vt100::Cell) -> (r: bool) {
    c.dim()
}

/// `vt100::Cell::italic`.
#[verifier::external_body]
fn cell_italic(c: &vt100::Cell) -> (r: bool) {
    c.italic()
}

/// `vt100::Cell::underline`.
#[verifier::external_body]
fn cell_underline(c: &vt100::Cell) -> (r: bool) {
    c.underline()
}

/// `vt100::Cell::inverse`.
#[verifier::external_body]
fn cell_inverse(c: &vt100::Cell) -> (r: bool) {
    c.inverse()
}

/// `vt100::Cell::fgcolor`, variant by variant.
#[verifier::external_body]
fn cell_fgcolor(c: &vt100::Cell) -> (r: TermColor) {
    match c.fgcolor() {
        vt100::Color::Default => TermColor::Default,
        vt100::Color::Idx(i) => TermColor::Indexed(i),
        vt100::Color::Rgb(r, g, b) => TermColor::Rgb(r, g, b),
    }
}

/// `vt100::Cell::bgcolor`, variant by variant.
#[verifier::external_body]
fn cell_bgcolor(c: &vt100::Cell) -> (r: TermColor) {
    match c.bgcolor() {
        vt100::Color::Default => TermColor::Default,
        vt100::Color::Idx(i) => TermColor::Indexed(i),
        vt100::Color::Rgb(r, g, b) => TermColor::Rgb(r, g, b),
    }
}

/// A terminal color.
#[derive(Debug, Clone, Copy, PartialEq, Eq, Structural)]
pub enum TermColor {
    Default,
    Indexed(u8),
    Rgb(u8, u8, u8),
}

/// How a cell is drawn: its attributes, and its colors where they are not
/// the terminal's default.
#[derive(Debug, Clone, Copy, PartialEq, Eq, Structural)]
pub struct CellStyle {
    pub bold: bool,
    pub dim: bool,
    pub italic: bool,
    pub underlined: bool,
    pub reversed: bool,
    pub fg: Option<TermColor>,
    pub bg: Option<TermColor>,
}

/// A color other than the default, which draws no color of its own.
pub open spec fn shown_color(c: TermColor) -> Option<TermColor> {
    if c is Default { None } else { Some(c) }
}

fn shown(c: TermColor) -> (r: Option<TermColor>)
    ensures
        r == shown_color(c),
{
    match c {
        TermColor::Default => None,
        other => Some(other),
    }
}

/// The style of a cell: one flag per attribute, and its colors.
pub fn cell_style(bold: bool, dim: bool, italic: bool, underline: bool, inverse: bool, fg: TermColor, bg: TermColor) -> (r: CellStyle)
    ensures
        r == (CellStyle {
            bold,
            dim,
            italic,
            underlined: underline,
            reversed: inverse,
            fg: shown_color(fg),
            bg: shown_color(bg),
        }),
{
    CellStyle { bold, dim, italic, underlined: underline, reversed: inverse, fg: shown(fg), bg: shown(bg) }
}

/// What the deck reads of one screen cell.
#[derive(Debug, Clone, PartialEq, Eq)]
pub struct CellView {
    pub symbol: String,
    /// The right half of a double-width character.
    pub wide_continuation: bool,
    pub bold: bool,
    pub dim: bool,
    pub italic: bool,
    pub underline: bool,
    pub inverse: bool,
    pub fg: TermColor,
    pub bg: TermColor,
}

/// What the deck reads of the screen: its size, its cells from the top left
/// (row by row, as far as the deck draws), the cursor and whether it is hidden.
#[derive(Debug, PartialEq, Eq)]
pub struct ScreenView {
    pub rows: u16,
    pub cols: u16,
    pub cells: Vec<Vec<Option<CellView>>>,
    pub cursor: (u16, u16),
    pub hide_cursor: bool,
}

/// The area the deck draws in.
#[derive(Debug, Clone, Copy, PartialEq, Eq, Structural)]
pub struct Area {
    pub x: u16,
    pub y: u16,
    pub width: u16,
    pub height: u16,
}

/// The screen laid out over an area: starting at (`x`, `y`), one entry per
/// drawn cell (row by row), and where the cursor is shown.
#[derive(Debug, PartialEq, Eq)]
pub struct RenderPlan {
    pub x: u16,
    pub y: u16,
    pub cells: Vec<Vec<Option<(String, CellStyle)>>>,
    pub cursor: Option<(u16, u16)>,
}

pub open spec fn min16(a: u16, b: u16) -> u16 {
    if a < b { a } else { b }
}

fn min_u16(a: u16, b: u16) -> (r: u16)
    ensures
        r == min16(a, b),
{
    if a < b { a } else { b }
}

/// The cell read at (`y`, `x`), if there is one.
pub open spec fn cell_at(v: ScreenView, y: int, x: int) -> Option<CellView> {
    if 0 <= y < v.cells@.len() && 0 <= x < v.cells@[y]@.len() {
        v.cells@[y]@[x]
    } else {
        None
    }
}

/// What is drawn for a cell: its symbol and style, unless it is missing or
/// the right half of a wide character (drawn with its left half).
pub open spec fn drawn(c: Option<CellView>) -> Option<(Seq<char>, CellStyle)> {
    match c {
        Some(cv) => if cv.wide_continuation {
            None
        } else {
            Some((cv.symbol@, CellStyle {
                bold: cv.bold,
                dim: cv.dim,
                italic: cv.italic,
                underlined: cv.underline,
                reversed: cv.inverse,
                fg: shown_color(cv.fg),
                bg: shown_color(cv.bg),
            }))
        },
        None => None,
    }
}

pub open spec fn drawn_view(e: Option<(String, CellStyle)>) -> Option<(Seq<char>, CellStyle)> {
    match e {
        Some(p) => Some((p.0@, p.1)),
        None => None,
    }
}

fn draw_cell(c: &Option<CellView>) -> (r: Option<(String, CellStyle)>)
    ensures
        drawn_view(r) == drawn(*c),
{
    match c {
        Some(cv) => if cv.wide_continuation {
            None
        } else {
            Some((
                cv.symbol.clone(),
                cell_style(cv.bold, cv.dim, cv.italic, cv.underline, cv.inverse, cv.fg, cv.bg),
            ))
        },
        None => None,
    }
}

/// Lays the screen out over `area`: only the rows and columns that fit are
/// drawn (the smaller of the screen's and the area's), at the area's
/// origin; the right halves of wide characters are skipped; each cell keeps
/// its attributes and its colors other than the default. The cursor, unless
/// hidden, is shown at its position, held inside the drawn region.
pub fn render_plan(view: &ScreenView, area: Area) -> (r: RenderPlan)
    requires
        area.x + area.width <= u16::MAX,
        area.y + area.height <= u16::MAX,
    ensures
        r.x == area.x,
        r.y == area.y,
        r.cells@.len() == min16(view.rows, area.height),
        forall|y: int| 0 <= y < r.cells@.len() ==> #[trigger] r.cells@[y]@.len() == min16(view.cols, area.width),
        forall|y: int, x: int| 0 <= y < r.cells@.len() && 0 <= x < r.cells@[y]@.len() ==> drawn_view(
            #[trigger] r.cells@[y]@[x],
        ) == drawn(cell_at(*view, y, x)),
        r.cursor == if !view.hide_cursor && min16(view.rows, area.height) > 0 && min16(view.cols, area.width) > 0 {
            Some((
                (area.x + min16(view.cursor.1, (min16(view.cols, area.width) - 1) as u16)) as u16,
                (area.y + min16(view.cursor.0, (min16(view.rows, area.height) - 1) as u16)) as u16,
            ))
        } else {
            None::<(u16, u16)>
        },
{
    let rows = min_u16(view.rows, area.height);
    let cols = min_u16(view.cols, area.width);
    let mut out: Vec<Vec<Option<(String, CellStyle)>>> = Vec::new();
    let mut y: u16 = 0;
    while y < rows
        invariant
            y <= rows,
            rows == min16(view.rows, area.height),
            cols == min16(view.cols, area.width),
            out@.len() == y,
            forall|j: int| 0 <= j < y ==> #[trigger] out@[j]@.len() == cols,
            forall|j: int, x: int| 0 <= j < y && 0 <= x < cols ==> drawn_view(#[trigger] out@[j]@[x]) == drawn(
                cell_at(*view, j, x),
            ),
        decreases rows - y,
    {
        let mut line: Vec<Option<(String, CellStyle)>> = Vec::new();
        let mut x: u16 = 0;
        while x < cols
            invariant
                x <= cols,
                line@.len() == x,
                forall|k: int| 0 <= k < x ==> drawn_view(#[trigger] line@[k]) == drawn(cell_at(*view, y as int, k)),
            decreases cols - x,
        {
            let d = if (y as usize) < view.cells.len() && (x as usize) < view.cells[y as usize].len() {
                draw_cell(&view.cells[y as usize][x as usize])
            } else {
                None
            };
            line.push(d);
            x = x + 1;
        }
        out.push(line);
        y = y + 1;
    }
    let cursor = if !view.hide_cursor && rows > 0 && cols > 0 {
        let cx = min_u16(view.cursor.1, cols - 1);
        let cy = min_u16(view.cursor.0, rows - 1);
        Some((area.x + cx, area.y + cy))
    } else {
        None
    };
    RenderPlan { x: area.x, y: area.y, cells: out, cursor }
}

/// What one read of the pseudo-terminal gave.
#[derive(Debug, Clone, PartialEq, Eq)]
pub enum ReadOutcome {
    /// Some bytes of the agent's output.
    Data(Vec<u8>),
    /// The end: the agent exited or the terminal closed.
    Eof,
    /// The read was interrupted and is to be retried.
    Interrupted,
    /// The read failed.
    Failed,
}

/// The deck's virtual screen: the parser fed with the agent's output, how
/// many chunks of output it has taken, and whether the output has ended.
pub struct TerminalScreen {
    parser: Vt100Parser,
    output_seq: u64,
    exited: bool,
}

/// The counter after one more chunk (wrapping, as an atomic add does).
pub open spec fn next_seq(n: u64) -> u64 {
    if n < u64::MAX { (n + 1) as u64 } else { 0 }
}

impl TerminalScreen {
    /// The bytes fed to the screen so far.
    pub closed spec fn fed(&self) -> Seq<u8> {
        parser_input(self.parser)
    }

    pub closed spec fn seq(&self) -> u64 {
        self.output_seq
    }

    pub closed spec fn ended(&self) -> bool {
        self.exited
    }

    /// A blank screen of `rows` by `cols`.
    pub fn new(rows: u16, cols: u16) -> (r: TerminalScreen)
        requires
            rows > 0,
            cols > 0,
        ensures
            r.fed() == Seq::<u8>::empty(),
            r.seq() == 0,
            !r.ended(),
    {
        TerminalScreen { parser: vt100_new(rows, cols), output_seq: 0, exited: false }
    }

    /// Takes in a chunk of the agent's output.
    pub fn feed(&mut self, bytes: &[u8])
        ensures
            final(self).fed() == old(self).fed() + bytes@,
            final(self).seq() == next_seq(old(self).seq()),
            final(self).ended() == old(self).ended(),
    {
        vt100_process(&mut self.parser, bytes);
        self.output_seq = if self.output_seq < u64::MAX { self.output_seq + 1 } else { 0 };
    }

    /// One step of the reader: output is fed and reading goes on; an
    /// interrupted read is retried; the end or a failure ends the output.
    /// The result is whether to read again.
    pub fn on_read(&mut self, outcome: ReadOutcome) -> (r: bool)
        ensures
            match outcome {
                ReadOutcome::Data(bytes) => r && final(self).fed() == old(self).fed() + bytes@
                    && final(self).seq() == next_seq(old(self).seq()) && final(self).ended() == old(self).ended(),
                ReadOutcome::Interrupted => r && final(self).fed() == old(self).fed()
                    && final(self).seq() == old(self).seq() && final(self).ended() == old(self).ended(),
                _ => !r && final(self).fed() == old(self).fed() && final(self).seq() == old(self).seq()
                    && final(self).ended(),
            },
    {
        match outcome {
            ReadOutcome::Data(bytes) => {
                self.feed(bytes.as_slice());
                true
            },
            ReadOutcome::Interrupted => true,
            _ => {
                self.exited = true;
                false
            },
        }
    }

    /// Resizes the screen (the agent is told separately).
    pub fn resize(&mut self, rows: u16, cols: u16)
        requires
            rows > 0,
            cols > 0,
        ensures
            final(self).fed() == old(self).fed(),
            final(self).seq() == old(self).seq(),
            final(self).ended() == old(self).ended(),
    {
        vt100_set_size(&mut self.parser, rows, cols);
    }

    /// Whether the agent's output has ended.
    pub fn has_exited(&self) -> (r: bool)
        ensures
            r == self.ended(),
    {
        self.exited
    }

    /// How many chunks of output the screen has taken (it grows with new
    /// output, so a redraw can be skipped when it has not changed).
    pub fn output_seq(&self) -> (r: u64)
        ensures
            r == self.seq(),
    {
        self.output_seq
    }

    /// Reads the screen as far as `max_rows` by `max_cols` from the top left.
    pub fn view(&self, max_rows: u16, max_cols: u16) -> (r: ScreenView)
        ensures
            r.rows > 0 && r.cols > 0,
            r.cells@.len() == min16(r.rows, max_rows),
            forall|y: int| 0 <= y < r.cells@.len() ==> #[trigger] r.cells@[y]@.len() == min16(r.cols, max_cols),
    {
        let screen = vt100_screen(&self.parser);
        let (rows, cols) = screen_size(screen);
        let nr = min_u16(rows, max_rows);
        let nc = min_u16(cols, max_cols);
        let mut cells: Vec<Vec<Option<CellView>>> = Vec::new();
        let mut y: u16 = 0;
        while y < nr
            invariant
                y <= nr,
                cells@.len() == y,
                forall|j: int| 0 <= j < y ==> #[trigger] cells@[j]@.len() == nc,
            decreases nr - y,
        {
            let mut line: Vec<Option<CellView>> = Vec::new();
            let mut x: u16 = 0;
            while x < nc
                invariant
                    x <= nc,
                    line@.len() == x,
                decreases nc - x,
            {
                let cv = match screen_cell(screen, y, x) {
                    Some(c) => Some(CellView {
                        symbol: cell_contents(c),
                        wide_continuation: cell_is_wide_continuation(c),
                        bold: cell_bold(c),
                        dim: cell_dim(c),
                        italic: cell_italic(c),
                        underline: cell_underline(c),
                        inverse: cell_inverse(c),
                        fg: cell_fgcolor(c),
                        bg: cell_bgcolor(c),
                    }),
                    None => None,
                };
                line.push(cv);
                x = x + 1;
            }
            cells.push(line);
            y = y + 1;
        }
        ScreenView { rows, cols, cells, cursor: screen_cursor(screen), hide_cursor: screen_hide_cursor(screen) }
    }
}

} // verus!
