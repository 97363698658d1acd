//! Styled text: lines made of segments, each plain or in one style, with
//! their width in characters and their rendering as ANSI escape codes.

use vstd::prelude::*;
use crate::text::{push_spaces, spaces};

verus! {

/// The colours of the list.
#[derive(Clone, Copy, Debug, PartialEq, Eq)]
pub enum Color {
    Red,
    Green,
    Yellow,
    Magenta,
    Cyan,
}

impl Color {
    /// The colour's number in the ANSI palette.
    pub open spec fn spec_code(self) -> u8 {
        match self {
            Color::Red => 1,
            Color::Green => 2,
            Color::Yellow => 3,
            Color::Magenta => 5,
            Color::Cyan => 6,
        }
    }

    /// The colour's number in the ANSI palette.
    pub fn code(self) -> (c: u8)
        ensures
            c == self.spec_code(),
            c < 8,
    {
        match self {
            Color::Red => 1,
            Color::Green => 2,
            Color::Yellow => 3,
            Color::Magenta => 5,
            Color::Cyan => 6,
        }
    }
}

/// How a segment of text looks.
#[derive(Clone, Copy, Debug, PartialEq, Eq)]
pub struct Style {
    pub bold: bool,
    pub dimmed: bool,
    pub color: Option<Color>,
}

impl Style {
    /// Bold text.
    pub open spec fn spec_bold() -> Style {
        Style { bold: true, dimmed: false, color: None }
    }

    /// Secondary text.
    pub open spec fn spec_dimmed() -> Style {
        Style { bold: false, dimmed: true, color: None }
    }

    /// The worktree that the process stands in.
    pub open spec fn spec_current() -> Style {
        Style { bold: true, dimmed: false, color: Some(Color::Magenta) }
    }

    /// The primary worktree.
    pub open spec fn spec_primary() -> Style {
        Style { bold: false, dimmed: false, color: Some(Color::Cyan) }
    }

    /// A warning.
    pub open spec fn spec_warning() -> Style {
        Style { bold: false, dimmed: false, color: Some(Color::Yellow) }
    }

    /// What a warning is about.
    pub open spec fn spec_warning_bold() -> Style {
        Style { bold: true, dimmed: false, color: Some(Color::Yellow) }
    }

    /// Added lines, commits ahead.
    pub open spec fn spec_addition() -> Style {
        Style { bold: false, dimmed: false, color: Some(Color::Green) }
    }

    /// Deleted lines, commits behind.
    pub open spec fn spec_deletion() -> Style {
        Style { bold: false, dimmed: false, color: Some(Color::Red) }
    }

    /// Bold text.
    pub fn bold() -> (s: Style)
        ensures
            s == Style::spec_bold(),
    {
        Style { bold: true, dimmed: false, color: None }
    }

    /// Secondary text.
    pub fn dimmed() -> (s: Style)
        ensures
            s == Style::spec_dimmed(),
    {
        Style { bold: false, dimmed: true, color: None }
    }

    /// The worktree that the process stands in.
    pub fn current() -> (s: Style)
        ensures
            s == Style::spec_current(),
    {
        Style { bold: true, dimmed: false, color: Some(Color::Magenta) }
    }

    /// The primary worktree.
    pub fn primary() -> (s: Style)
        ensures
            s == Style::spec_primary(),
    {
        Style { bold: false, dimmed: false, color: Some(Color::Cyan) }
    }

    /// A warning.
    pub fn warning() -> (s: Style)
        ensures
            s == Style::spec_warning(),
    {
        Style { bold: false, dimmed: false, color: Some(Color::Yellow) }
    }

    /// What a warning is about.
    pub fn warning_bold() -> (s: Style)
        ensures
            s == Style::spec_warning_bold(),
    {
        Style { bold: true, dimmed: false, color: Some(Color::Yellow) }
    }

    /// Added lines, commits ahead.
    pub fn addition() -> (s: Style)
        ensures
            s == Style::spec_addition(),
    {
        Style { bold: false, dimmed: false, color: Some(Color::Green) }
    }

    /// Deleted lines, commits behind.
    pub fn deletion() -> (s: Style)
        ensures
            s == Style::spec_deletion(),
    {
        Style { bold: false, dimmed: false, color: Some(Color::Red) }
    }

    /// The colour's number in the ANSI palette, if the style has a colour.
    pub open spec fn color_code(self) -> Option<u8> {
        match self.color {
            Some(c) => Some(c.spec_code()),
            None => None,
        }
    }

    /// The escape codes that switch the style on.
    pub open spec fn start(self) -> Seq<char> {
        start_code(self.bold, self.dimmed, self.color_code())
    }

    /// The escape code that switches the style off; nothing for a style
    /// that changes nothing.
    pub open spec fn reset(self) -> Seq<char> {
        reset_code(self.bold, self.dimmed, self.color_code())
    }

    /// A text in this style, as it is written to a terminal.
    pub open spec fn wrap(self, text: Seq<char>) -> Seq<char> {
        self.start() + text + self.reset()
    }

    fn code_of(self) -> (c: Option<u8>)
        ensures
            c == self.color_code(),
            c matches Some(n) ==> n < 16,
    {
        match self.color {
            Some(c) => Some(c.code()),
            None => None,
        }
    }

    /// Append the escape codes that switch the style on.
    pub fn write_start(self, out: &mut String)
        ensures
            final(out)@ == old(out)@ + self.start(),
    {
        let start = ansi_start(self.bold, self.dimmed, self.code_of());
        out.append(start.as_str());
    }

    /// Append the escape code that switches the style off.
    pub fn write_reset(self, out: &mut String)
        ensures
            final(out)@ == old(out)@ + self.reset(),
    {
        let reset = ansi_reset(self.bold, self.dimmed, self.code_of());
        out.append(reset.as_str());
    }

    /// Append a text in this style, as it is written to a terminal.
    pub fn write(self, out: &mut String, text: &str)
        ensures
            final(out)@ == old(out)@ + self.wrap(text@),
    {
        self.write_start(out);
        out.append(text);
        self.write_reset(out);
        assert(out@ =~= old(out)@ + self.wrap(text@));
    }
}

/// The escape code `ESC [ <a> <b> m`.
pub open spec fn escape2(a: char, b: char) -> Seq<char> {
    seq!['\x1b', '[', a, b, 'm']
}

/// The escape code `ESC [ <a> m`.
pub open spec fn escape1(a: char) -> Seq<char> {
    seq!['\x1b', '[', a, 'm']
}

/// The escape codes of a style: bold, then dimmed, then the foreground
/// colour from the palette of sixteen, `3x` for the first eight and `9x` for
/// the bright ones. A number beyond the palette is no colour.
pub open spec fn start_code(bold: bool, dimmed: bool, color: Option<u8>) -> Seq<char> {
    (if bold {
        escape1('1')
    } else {
        Seq::empty()
    }) + (if dimmed {
        escape1('2')
    } else {
        Seq::empty()
    }) + (match color {
        Some(c) => if c < 8 {
            escape2('3', crate::text::digit(c as nat))
        } else if c < 16 {
            escape2('9', crate::text::digit((c - 8) as nat))
        } else {
            Seq::empty()
        },
        None => Seq::empty(),
    })
}

/// The reset code `ESC [ 0 m`, or nothing for a style without effect or
/// colour.
pub open spec fn reset_code(bold: bool, dimmed: bool, color: Option<u8>) -> Seq<char> {
    if bold || dimmed || (color matches Some(c) && c < 16) {
        escape1('0')
    } else {
        Seq::empty()
    }
}

/// `anstyle::Style::render`, for the style with the two effects and the
/// palette colour given: the codes of the effects that are set, bold before
/// dimmed, then the code of the foreground colour.
#[verifier::external_body]
fn ansi_start(bold: bool, dimmed: bool, color: Option<u8>) -> (out: String)
    ensures
        out@ == start_code(bold, dimmed, color),
{
    let effects = anstyle::Effects::new().set(anstyle::Effects::BOLD, bold).set(
        anstyle::Effects::DIMMED,
        dimmed,
    );
    let fg = color.map(anstyle::Ansi256Color).and_then(anstyle::Ansi256Color::into_ansi).map(
        anstyle::Color::Ansi,
    );
    anstyle::Style::new().effects(effects).fg_color(fg).render().to_string()
}

/// `anstyle::Style::render_reset`, for the same style: the reset code,
/// unless the style is the plain one.
#[verifier::external_body]
fn ansi_reset(bold: bool, dimmed: bool, color: Option<u8>) -> (out: String)
    ensures
        out@ == reset_code(bold, dimmed, color),
{
    let effects = anstyle::Effects::new().set(anstyle::Effects::BOLD, bold).set(
        anstyle::Effects::DIMMED,
        dimmed,
    );
    let fg = color.map(anstyle::Ansi256Color).and_then(anstyle::Ansi256Color::into_ansi).map(
        anstyle::Color::Ansi,
    );
    anstyle::Style::new().effects(effects).fg_color(fg).render_reset().to_string()
}

/// One segment of a line: a text, plain or in a style.
#[derive(Debug)]
pub struct StyledString {
    pub text: String,
    pub style: Option<Style>,
}

/// A segment as mathematical values.
pub struct Cell {
    pub text: Seq<char>,
    pub style: Option<Style>,
}

impl View for StyledString {
    type V = Cell;

    open spec fn view(&self) -> Cell {
        Cell { text: self.text@, style: self.style }
    }
}

impl Cell {
    /// The segment as it is written to a terminal.
    pub open spec fn rendered(self) -> Seq<char> {
        match self.style {
            Some(style) => style.wrap(self.text),
            None => self.text,
        }
    }
}

/// A plain segment.
pub open spec fn raw(text: Seq<char>) -> Cell {
    Cell { text, style: None }
}

/// A segment in a style.
pub open spec fn styled(text: Seq<char>, style: Style) -> Cell {
    Cell { text, style: Some(style) }
}

/// The number of characters in the segments.
pub open spec fn cells_width(cells: Seq<Cell>) -> nat
    decreases cells.len(),
{
    if cells.len() == 0 {
        0
    } else {
        cells_width(cells.drop_last()) + cells.last().text.len()
    }
}

/// The segments as they are written to a terminal, one after the other.
pub open spec fn cells_rendered(cells: Seq<Cell>) -> Seq<char>
    decreases cells.len(),
{
    if cells.len() == 0 {
        Seq::empty()
    } else {
        cells_rendered(cells.drop_last()) + cells.last().rendered()
    }
}

/// The width of two runs of segments is the sum of their widths.
pub proof fn lemma_width_of_parts(a: Seq<Cell>, b: Seq<Cell>)
    ensures
        cells_width(a + b) == cells_width(a) + cells_width(b),
    decreases b.len(),
{
    if b.len() == 0 {
        assert(a + b =~= a);
    } else {
        assert((a + b).drop_last() =~= a + b.drop_last());
        lemma_width_of_parts(a, b.drop_last());
    }
}

/// The width of one segment is the length of its text.
pub proof fn lemma_width_of_one(c: Cell)
    ensures
        cells_width(seq![c]) == c.text.len(),
{
    assert(seq![c].drop_last() =~= Seq::<Cell>::empty());
    assert(cells_width(Seq::<Cell>::empty()) == 0);
    assert(seq![c].last() == c);
}

/// A line of styled segments.
#[derive(Debug)]
pub struct StyledLine {
    pub segments: Vec<StyledString>,
}

impl View for StyledLine {
    type V = Seq<Cell>;

    open spec fn view(&self) -> Seq<Cell> {
        Seq::new(self.segments@.len(), |i: int| self.segments@[i]@)
    }
}

impl StyledLine {
    /// An empty line.
    pub fn new() -> (line: StyledLine)
        ensures
            line@ == Seq::<Cell>::empty(),
    {
        let line = StyledLine { segments: Vec::new() };
        assert(line@ =~= Seq::<Cell>::empty());
        line
    }

    /// Append a segment.
    pub fn push(&mut self, segment: StyledString)
        ensures
            final(self)@ == old(self)@.push(segment@),
    {
        self.segments.push(segment);
        assert(self@ =~= old(self)@.push(segment@));
    }

    /// Append the segments of another line.
    pub fn append(&mut self, other: StyledLine)
        ensures
            final(self)@ == old(self)@ + other@,
    {
        let ghost added = other@;
        let StyledLine { segments } = other;
        assert(self@ =~= old(self)@ + added.take(0));
        for segment in it: segments
            invariant
                it.seq() == segments@,
                added.len() == segments@.len(),
                forall|i: int| 0 <= i < added.len() ==> added[i] == (#[trigger] segments@[i])@,
                self@ == old(self)@ + added.take(it.index() as int),
        {
            let ghost n = it.index() as int;
            self.push(segment);
            assert(self@ =~= old(self)@ + added.take(n + 1));
        }
        assert(added.take(added.len() as int) =~= added);
    }

    /// Append a plain segment.
    pub fn push_raw(&mut self, text: &str)
        ensures
            final(self)@ == old(self)@.push(raw(text@)),
    {
        self.push(StyledString { text: String::from_str(text), style: None });
    }

    /// Append a segment in a style.
    pub fn push_styled(&mut self, text: &str, style: Style)
        ensures
            final(self)@ == old(self)@.push(styled(text@, style)),
    {
        self.push(StyledString { text: String::from_str(text), style: Some(style) });
    }

    /// The width of the line: the number of its characters, or the largest
    /// number there is for a line wider than that.
    pub fn width(&self) -> (w: usize)
        ensures
            w == if cells_width(self@) <= usize::MAX {
                cells_width(self@)
            } else {
                usize::MAX as nat
            },
    {
        let mut w: usize = 0;
        let mut i: usize = 0;
        assert(self@.take(0) =~= Seq::<Cell>::empty());
        while i < self.segments.len()
            invariant
                i <= self.segments.len(),
                self@.len() == self.segments.len(),
                w == if cells_width(self@.take(i as int)) <= usize::MAX {
                    cells_width(self@.take(i as int))
                } else {
                    usize::MAX as nat
                },
            decreases self.segments.len() - i,
        {
            let len = self.segments[i].text.as_str().unicode_len();
            proof {
                assert(self@.take(i + 1).drop_last() =~= self@.take(i as int));
                assert(self@.take(i + 1).last().text == self.segments@[i as int].text@);
            }
            w = if len > usize::MAX - w {
                usize::MAX
            } else {
                w + len
            };
            i += 1;
        }
        assert(self@.take(self@.len() as int) =~= self@);
        w
    }

    /// The segments of a line filled up to `width` characters: a plain run
    /// of spaces joins a shorter line, a longer one stays as it is.
    pub open spec fn padded_to(cells: Seq<Cell>, width: nat) -> Seq<Cell> {
        if cells_width(cells) < width {
            cells.push(raw(spaces((width - cells_width(cells)) as nat)))
        } else {
            cells
        }
    }

    /// Fill the line up with spaces to `width` characters.
    pub fn pad_to(&mut self, width: usize)
        ensures
            final(self)@ == StyledLine::padded_to(old(self)@, width as nat),
    {
        let current = self.width();
        if current < width {
            let mut fill = String::new();
            push_spaces(&mut fill, width - current);
            assert(fill@ =~= spaces((width - current) as nat));
            self.push(StyledString { text: fill, style: None });
        }
    }

    /// The line as it is written to a terminal.
    pub fn render(&self) -> (out: String)
        ensures
            out@ == cells_rendered(self@),
    {
        let mut out = String::new();
        let mut i: usize = 0;
        assert(self@.take(0) =~= Seq::<Cell>::empty());
        while i < self.segments.len()
            invariant
                i <= self.segments.len(),
                self@.len() == self.segments.len(),
                out@ == cells_rendered(self@.take(i as int)),
            decreases self.segments.len() - i,
        {
            let segment = &self.segments[i];
            proof {
                assert(self@.take(i + 1).drop_last() =~= self@.take(i as int));
                assert(self@.take(i + 1).last() == segment@);
            }
            match segment.style {
                Some(style) => {
                    style.write(&mut out, segment.text.as_str());
                },
                None => {
                    out.append(segment.text.as_str());
                },
            }
            i += 1;
        }
        assert(self@.take(self@.len() as int) =~= self@);
        out
    }
}

} // verus!
