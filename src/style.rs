use vstd::prelude::*;

verus! {

/// A foreground colour that the terminal output may use.
#[derive(Clone, Copy, Debug, PartialEq, Eq, Structural)]
pub enum Tint {
    Blue,
    Red,
    Yellow,
    Green,
}

/// How a piece of text is emphasised on the terminal.
#[derive(Clone, Copy, Debug, PartialEq, Eq, Structural)]
pub struct Emphasis {
    pub tint: Option<Tint>,
    pub bold: bool,
    pub dimmed: bool,
}

/// A run of text with one emphasis.
#[derive(Debug)]
pub struct Span {
    pub text: String,
    pub emphasis: Emphasis,
}

/// One line of output, as the runs of text that make it up, in order.
#[derive(Debug)]
pub struct Line {
    pub spans: Vec<Span>,
}

/// The abstract form of a line: its runs as text and emphasis.
pub type LineView = Seq<(Seq<char>, Emphasis)>;

impl View for Span {
    type V = (Seq<char>, Emphasis);

    open spec fn view(&self) -> (Seq<char>, Emphasis) {
        (self.text@, self.emphasis)
    }
}

impl View for Line {
    type V = LineView;

    open spec fn view(&self) -> LineView {
        self.spans@.map_values(|s: Span| s@)
    }
}

/// The text of a line with its emphasis left out.
pub open spec fn line_text(l: LineView) -> Seq<char>
    decreases l.len(),
{
    if l.len() == 0 {
        Seq::empty()
    } else {
        line_text(l.drop_last()) + l.last().0
    }
}

pub open spec fn plain() -> Emphasis {
    Emphasis { tint: None, bold: false, dimmed: false }
}

pub open spec fn bold() -> Emphasis {
    Emphasis { tint: None, bold: true, dimmed: false }
}

pub open spec fn tinted(t: Tint, bold: bool) -> Emphasis {
    Emphasis { tint: Some(t), bold: bold, dimmed: false }
}

pub open spec fn dimmed(bold: bool) -> Emphasis {
    Emphasis { tint: None, bold: bold, dimmed: true }
}

impl Span {
    /// A run holding a copy of `text`.
    pub fn new(text: &str, emphasis: Emphasis) -> (r: Span)
        ensures
            r@ == (text@, emphasis),
    {
        Span { text: String::from_str(text), emphasis }
    }
}

impl Line {
    /// A line without any text.
    pub fn new() -> (r: Line)
        ensures
            r@ == Seq::<(Seq<char>, Emphasis)>::empty(),
    {
        let r = Line { spans: Vec::new() };
        assert(r@ =~= Seq::<(Seq<char>, Emphasis)>::empty());
        r
    }

    /// Appends a run at the end of the line.
    pub fn push(&mut self, s: Span)
        ensures
            final(self)@ == old(self)@.push(s@),
    {
        self.spans.push(s);
        assert(self@ =~= old(self)@.push(s@));
    }
}

} // verus!
