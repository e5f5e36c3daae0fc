//! Lines of coloured text.

use crate::text::texts;
use tui::style::{Color, Style};
use tui::text::{Span, Spans};
use vstd::prelude::*;
use vstd::string::*;

verus! {

/// The colours in which the interface writes.
#[derive(Clone, Copy, Debug, PartialEq, Eq, Structural)]
pub enum Colour {
    Cyan,
    Green,
    Red,
    White,
}

/// The colour of the row, and of the frame, that is selected.
pub const SELECTION_COLOUR: Colour = Colour::Cyan;

/// A piece of text in one colour.
#[derive(Debug)]
pub struct StyledText {
    pub text: String,
    pub colour: Colour,
}

impl View for StyledText {
    type V = (Seq<char>, Colour);

    open spec fn view(&self) -> (Seq<char>, Colour) {
        (self.text@, self.colour)
    }
}

/// `tui::text::Spans`: a line made of pieces of text, each with its own style.
#[verifier::external_type_specification]
#[verifier::external_body]
pub struct ExSpans<'a>(tui::text::Spans<'a>);

/// The pieces that a line holds, in order: the text of each and the colour it
/// is written in.
pub uninterp spec fn spans_runs(line: tui::text::Spans<'static>) -> Seq<(Seq<char>, Colour)>;

/// The pieces that each of `lines` holds.
pub open spec fn line_runs(lines: Seq<tui::text::Spans<'static>>) -> Seq<Seq<(Seq<char>, Colour)>> {
    lines.map_values(|line: tui::text::Spans<'static>| spans_runs(line))
}

/// `tui::text::Spans::from` on a vector of spans, each made by
/// `tui::text::Span::styled`: the line holds one span for each piece, in the
/// same order, with the text of the piece and a style that sets nothing but
/// the foreground, to the colour of the piece.
#[verifier::external_body]
pub(crate) fn line_of(pieces: Vec<StyledText>) -> (line: Spans<'static>)
    ensures
        spans_runs(line) == pieces@.map_values(|piece: StyledText| piece@),
{
    let styled = |piece: StyledText| {
        let colour = match piece.colour {
            Colour::Cyan => Color::Cyan,
            Colour::Green => Color::Green,
            Colour::Red => Color::Red,
            Colour::White => Color::White,
        };
        Span::styled(piece.text, Style::default().fg(colour))
    };
    Spans::from(pieces.into_iter().map(styled).collect::<Vec<Span<'static>>>())
}

/// The tips one after the other, each in square brackets and with a space
/// behind it.
pub open spec fn tips_text(tips: Seq<Seq<char>>) -> Seq<char>
    decreases tips.len(),
{
    if tips.len() == 0 {
        Seq::empty()
    } else {
        tips_text(tips.drop_last()) + "["@ + tips.last() + "] "@
    }
}

/// The line of tips at the top of the interface.
pub fn tips_line(tips: &Vec<String>) -> (r: String)
    ensures
        r@ == tips_text(texts(tips@)),
{
    let mut line = String::new();
    let mut i: usize = 0;
    while i < tips.len()
        invariant
            i <= tips.len(),
            line@ == tips_text(texts(tips@).take(i as int)),
        decreases tips.len() - i,
    {
        line.append("[");
        line.append(tips[i].as_str());
        line.append("] ");
        proof {
            let more = texts(tips@).take(i + 1);
            assert(more.drop_last() =~= texts(tips@).take(i as int));
            assert(more.last() == tips@[i as int]@);
        }
        i = i + 1;
    }
    assert(texts(tips@).take(tips@.len() as int) =~= texts(tips@));
    line
}

/// A piece of text stands for its text and its colour.
pub proof fn law_a_piece_is_its_text_and_colour(piece: StyledText)
    ensures
        piece@.0 == piece.text@,
        piece@.1 == piece.colour,
{
}

/// The pieces of several lines are those of each line, in order.
pub proof fn law_lines_are_read_one_by_one(lines: Seq<tui::text::Spans<'static>>, i: int)
    ensures
        line_runs(lines).len() == lines.len(),
        0 <= i < lines.len() ==> line_runs(lines)[i] == spans_runs(lines[i]),
{
}

/// A single tip is shown whole, between square brackets and with a space behind
/// them.
pub proof fn law_a_tip_stands_in_brackets(tip: Seq<char>)
    ensures
        tips_text(seq![tip]).len() == tip.len() + 3,
        tips_text(seq![tip])[0] == '[',
        tips_text(seq![tip]).subrange(1, tip.len() as int + 1) == tip,
        tips_text(seq![tip])[tip.len() as int + 1] == ']',
        tips_text(seq![tip])[tip.len() as int + 2] == ' ',
{
    reveal_strlit("[");
    reveal_strlit("] ");
    reveal_with_fuel(tips_text, 2);
    let one = seq![tip];
    assert(one.drop_last() =~= Seq::<Seq<char>>::empty());
    assert(tips_text(one) =~= "["@ + tip + "] "@);
    assert(tips_text(one).subrange(1, tip.len() as int + 1) =~= tip);
}

/// The tips of two lists follow each other in the line of both.
pub proof fn law_tips_follow_each_other(first: Seq<Seq<char>>, second: Seq<Seq<char>>)
    ensures
        tips_text(first + second) == tips_text(first) + tips_text(second),
        tips_text(Seq::empty()) == Seq::<char>::empty(),
    decreases second.len(),
{
    if second.len() == 0 {
        assert(first + second =~= first);
        assert(tips_text(first) + tips_text(second) =~= tips_text(first));
    } else {
        law_tips_follow_each_other(first, second.drop_last());
        assert((first + second).drop_last() =~= first + second.drop_last());
        assert(tips_text(first + second) =~= tips_text(first) + tips_text(second));
    }
}

/// What is selected is shown in cyan.
pub proof fn law_the_selection_is_cyan()
    ensures
        SELECTION_COLOUR == Colour::Cyan,
{
}

} // verus!
