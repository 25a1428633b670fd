//! What is drawn on the terminal: a list of texts and control commands.

use vstd::prelude::*;

use crate::text;

verus! {

/// Text attributes of the terminal.
#[derive(Clone, Copy, Debug, PartialEq, Eq, Structural)]
pub enum Attribute {
    Reset,
    Bold,
    Dim,
    NormalIntensity,
    Reverse,
}

/// Foreground colours.
#[derive(Clone, Copy, Debug, PartialEq, Eq, Structural)]
pub enum Color {
    Reset,
    DarkGrey,
    Cyan,
}

/// A terminal command that writes no text of its own.
#[derive(Clone, Copy, Debug, PartialEq, Eq, Structural)]
pub enum Control {
    ShowCursor,
    HideCursor,
    /// Column and row, from the top left corner.
    MoveTo(u16, u16),
    ClearAll,
    ClearUntilNewLine,
    SetAttribute(Attribute),
    SetForeground(Color),
    /// A colour of the 256-colour palette.
    SetBackground(u8),
    ResetColor,
}

/// One step of drawing: a piece of text, or a command. A program draws strings; the
/// terminal receives them one character at a time.
#[derive(Debug, PartialEq, Eq)]
pub enum Draw<T> {
    Text(T),
    Control(Control),
}

/// What the terminal receives: a character or a command.
pub type Mark = Draw<char>;

/// A text as the terminal receives it.
pub open spec fn written(s: Seq<char>) -> Seq<Mark> {
    s.map_values(|c: char| Mark::Text(c))
}

/// A single command as the terminal receives it.
pub open spec fn command(c: Control) -> Seq<Mark> {
    seq![Mark::Control(c)]
}

pub open spec fn marks(step: Draw<String>) -> Seq<Mark> {
    match step {
        Draw::Text(s) => written(s@),
        Draw::Control(c) => command(c),
    }
}

/// All that a list of steps draws.
pub open spec fn drawn(steps: Seq<Draw<String>>) -> Seq<Mark>
    decreases steps.len(),
{
    if steps.len() == 0 {
        Seq::empty()
    } else {
        drawn(steps.drop_last()) + marks(steps.last())
    }
}

/// The columns that are written: commands take none.
pub open spec fn mark_columns(m: Seq<Mark>) -> nat
    decreases m.len(),
{
    if m.len() == 0 {
        0
    } else {
        mark_columns(m.drop_last()) + match m.last() {
            Mark::Text(c) => text::char_columns(c),
            Mark::Control(_) => 0,
        }
    }
}

/// A drawing in the making.
pub struct Canvas {
    steps: Vec<Draw<String>>,
    tail: String,
}

impl View for Canvas {
    type V = Seq<Mark>;

    closed spec fn view(&self) -> Seq<Mark> {
        drawn(self.steps@) + written(self.tail@)
    }
}

impl Canvas {
    pub fn new() -> (canvas: Self)
        ensures
            canvas@ == Seq::<Mark>::empty(),
    {
        Canvas { steps: Vec::new(), tail: String::new() }
    }

    /// Writes one character.
    pub fn put(&mut self, c: char)
        ensures
            final(self)@ == old(self)@.push(Mark::Text(c)),
    {
        self.tail.push(c);
    }

    /// Writes a text.
    pub fn write(&mut self, s: &str)
        ensures
            final(self)@ == old(self)@ + written(s@),
    {
        self.tail.append(s);
    }

    /// Writes a character `n` times.
    pub fn repeat(&mut self, c: char, n: usize)
        ensures
            final(self)@ == old(self)@ + written(Seq::new(n as nat, |i: int| c)),
    {
        text::push_repeated(&mut self.tail, c, n);
    }

    fn flush_text(&mut self)
        ensures
            final(self)@ == old(self)@,
            final(self).tail@ == Seq::<char>::empty(),
    {
        if !self.tail.as_str().is_empty() {
            let mut done = String::new();
            std::mem::swap(&mut done, &mut self.tail);
            self.steps.push(Draw::Text(done));
            assert(self.steps@.drop_last() =~= old(self).steps@);
        }
    }

    /// Adds a command.
    pub fn control(&mut self, c: Control)
        ensures
            final(self)@ == old(self)@.push(Mark::Control(c)),
    {
        self.flush_text();
        let ghost before = self.steps@;
        self.steps.push(Draw::Control(c));
        assert(self.steps@.drop_last() =~= before);
    }

    /// The steps of the finished drawing.
    pub fn finish(self) -> (steps: Vec<Draw<String>>)
        ensures
            drawn(steps@) == self@,
    {
        let mut canvas = self;
        canvas.flush_text();
        canvas.steps
    }
}

/// A text that is written arrives whole: every character of it, in its order.
pub proof fn a_text_arrives_whole(s: Seq<char>)
    ensures
        written(s).len() == s.len(),
        forall|i: int| 0 <= i < s.len() ==> #[trigger] written(s)[i] == Mark::Text(s[i]),
{
}

/// What a list of steps draws is what its parts draw, one after the other; a text draws
/// its characters, and a command arrives as that command.
pub proof fn steps_arrive_in_order(
    a: Seq<Draw<String>>,
    b: Seq<Draw<String>>,
    s: String,
    c: Control,
)
    ensures
        drawn(Seq::empty()).len() == 0,
        drawn(a + b) == drawn(a) + drawn(b),
        drawn(seq![Draw::Text(s)]).len() == s@.len(),
        forall|i: int|
            0 <= i < s@.len() ==> #[trigger] drawn(seq![Draw::Text(s)])[i] == Mark::Text(s@[i]),
        drawn(seq![Draw::<String>::Control(c)]) == seq![Mark::Control(c)],
    decreases b.len(),
{
    let none = Seq::<Draw<String>>::empty();
    assert(drawn(none) =~= Seq::empty());
    assert(seq![Draw::Text(s)].drop_last() =~= none);
    assert(drawn(seq![Draw::Text(s)]) =~= written(s@));
    assert(seq![Draw::<String>::Control(c)].drop_last() =~= none);
    assert(drawn(seq![Draw::<String>::Control(c)]) =~= command(c));
    if b.len() == 0 {
        assert(a + b =~= a);
        assert(drawn(a) + drawn(b) =~= drawn(a));
    } else {
        steps_arrive_in_order(a, b.drop_last(), s, c);
        assert((a + b).drop_last() =~= a + b.drop_last());
        assert(drawn(a + b) =~= drawn(a) + drawn(b));
    }
}

/// A character that is written takes its own columns, and a command takes none.
pub proof fn only_characters_take_columns(c: char, command: Control)
    ensures
        mark_columns(Seq::empty()) == 0,
        mark_columns(seq![Mark::Text(c)]) == text::char_columns(c),
        mark_columns(seq![Mark::Control(command)]) == 0,
{
    let none = Seq::<Mark>::empty();
    assert(mark_columns(none) == 0);
    assert(seq![Mark::Text(c)].drop_last() =~= none);
    assert(seq![Mark::Control(command)].drop_last() =~= none);
}

pub proof fn mark_columns_concat(a: Seq<Mark>, b: Seq<Mark>)
    ensures
        mark_columns(a + b) == mark_columns(a) + mark_columns(b),
    decreases b.len(),
{
    if b.len() == 0 {
        assert(a + b =~= a);
    } else {
        assert((a + b).drop_last() =~= a + b.drop_last());
        mark_columns_concat(a, b.drop_last());
    }
}

/// A written text takes the columns of the text.
pub proof fn mark_columns_of_text(s: Seq<char>)
    ensures
        mark_columns(written(s)) == text::columns(s),
    decreases s.len(),
{
    if s.len() > 0 {
        assert(written(s).drop_last() =~= written(s.drop_last()));
        mark_columns_of_text(s.drop_last());
    }
}

} // verus!
