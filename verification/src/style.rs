//! Styled text: spans of one style, and lines of spans.

use vstd::prelude::*;

verus! {

/// The colour of text.
#[derive(Clone, Copy, Debug, PartialEq, Eq, Structural)]
pub enum TextColor {
    Black,
    Red,
    Green,
    Yellow,
    Blue,
    Magenta,
    Cyan,
    Gray,
}

/// The modifier bit of bold text.
pub const BOLD: u16 = 1;

/// The modifier bit of dim text.
pub const DIM: u16 = 2;

/// The modifier bit of italic text.
pub const ITALIC: u16 = 4;

/// How text looks: its colour, where it has one of its own, and its modifiers,
/// one bit for each.
#[derive(Clone, Copy, Debug, PartialEq, Eq, Structural)]
pub struct TextStyle {
    pub color: Option<TextColor>,
    pub modifiers: u16,
}

/// Text without any style.
pub open spec fn plain() -> TextStyle {
    TextStyle { color: None, modifiers: 0 }
}

impl TextStyle {
    /// No colour and no modifier.
    pub fn plain() -> (r: TextStyle)
        ensures
            r == plain(),
    {
        TextStyle { color: None, modifiers: 0 }
    }

    /// This style in cyan.
    pub open spec fn in_cyan(self) -> TextStyle {
        TextStyle { color: Some(TextColor::Cyan), ..self }
    }

    /// This style with the modifiers of `bits` as well.
    pub open spec fn with(self, bits: u16) -> TextStyle {
        TextStyle { modifiers: self.modifiers | bits, ..self }
    }

    /// This style in cyan.
    pub fn cyan(self) -> (r: TextStyle)
        ensures
            r == self.in_cyan(),
    {
        TextStyle { color: Some(TextColor::Cyan), modifiers: self.modifiers }
    }

    /// This style with the modifiers of `bits` as well.
    pub fn modified(self, bits: u16) -> (r: TextStyle)
        ensures
            r == self.with(bits),
    {
        TextStyle { color: self.color, modifiers: self.modifiers | bits }
    }
}

/// Text of one style.
#[derive(Debug, PartialEq, Eq)]
pub struct StyledSpan {
    pub text: String,
    pub style: TextStyle,
}

/// Text of one style, as contracts speak of it.
pub struct SpanView {
    pub text: Seq<char>,
    pub style: TextStyle,
}

impl View for StyledSpan {
    type V = SpanView;

    open spec fn view(&self) -> SpanView {
        SpanView { text: self.text@, style: self.style }
    }
}

impl StyledSpan {
    /// `text` in `style`.
    pub fn new(text: &str, style: TextStyle) -> (r: StyledSpan)
        ensures
            r@ == (SpanView { text: text@, style }),
    {
        StyledSpan { text: text.to_owned(), style }
    }

    /// A copy of the span.
    pub fn copy(&self) -> (r: StyledSpan)
        ensures
            r@ == self@,
    {
        StyledSpan { text: self.text.clone(), style: self.style }
    }
}

/// The views of some spans.
pub open spec fn span_views(spans: Seq<StyledSpan>) -> Seq<SpanView> {
    spans.map_values(|span: StyledSpan| span@)
}

/// A line of text.
#[derive(Debug, PartialEq, Eq)]
pub struct StyledLine {
    pub spans: Vec<StyledSpan>,
}

impl View for StyledLine {
    type V = Seq<SpanView>;

    open spec fn view(&self) -> Seq<SpanView> {
        span_views(self.spans@)
    }
}

/// The characters of some spans, without their styles.
pub open spec fn line_text(spans: Seq<SpanView>) -> Seq<char>
    decreases spans.len(),
{
    if spans.len() == 0 {
        Seq::empty()
    } else {
        line_text(spans.drop_last()) + spans.last().text
    }
}

/// The text of two runs of spans is the text of the one and then of the other.
pub proof fn lemma_line_text_concat(a: Seq<SpanView>, b: Seq<SpanView>)
    ensures
        line_text(a + b) == line_text(a) + line_text(b),
    decreases b.len(),
{
    if b.len() == 0 {
        assert(a + b == a);
        assert(line_text(a) + line_text(b) == line_text(a));
    } else {
        assert((a + b).drop_last() == a + b.drop_last());
        lemma_line_text_concat(a, b.drop_last());
        assert(line_text(a + b) == line_text(a) + line_text(b));
    }
}

/// The text of one span.
pub proof fn lemma_line_text_one(span: SpanView)
    ensures
        line_text(seq![span]) == span.text,
{
    assert(seq![span].drop_last() == Seq::<SpanView>::empty());
    reveal_with_fuel(line_text, 2);
    assert(line_text(seq![span]) == span.text);
}

/// A style has the bits that were added to it and those that it had, and no other
/// ones, and adding bits leaves its colour alone; making it cyan leaves its bits
/// alone. The bits are one each for bold, dim and italic text, from the lowest on.
pub proof fn law_styles(style: TextStyle, bits: u16, bit: u16)
    requires
        bit < 16,
    ensures
        plain().color is None,
        plain().modifiers == 0,
        style.in_cyan().color == Some(TextColor::Cyan),
        style.in_cyan().modifiers == style.modifiers,
        style.with(bits).color == style.color,
        (style.with(bits).modifiers >> bit) & 1 == 1 <==> (style.modifiers >> bit) & 1 == 1 || (bits
            >> bit) & 1 == 1,
        BOLD == 1u16 << 0,
        DIM == 1u16 << 1,
        ITALIC == 1u16 << 2,
{
    let m = style.modifiers;
    assert(((m | bits) >> bit) & 1 == 1 <==> (m >> bit) & 1 == 1 || (bits >> bit) & 1 == 1)
        by (bit_vector);
    assert(1u16 << 0 == 1 && 1u16 << 1 == 2 && 1u16 << 2 == 4) by (bit_vector);
}

/// A span is known by its whole text and its style, and a line by its spans, each
/// in its place.
pub proof fn law_lines_are_their_spans(line: StyledLine, i: int)
    ensures
        line@.len() == line.spans@.len(),
        line@ == span_views(line.spans@),
        0 <= i < line.spans@.len() ==> line@[i].text == line.spans@[i].text@,
        0 <= i < line.spans@.len() ==> line@[i].style == line.spans@[i].style,
        line_text(Seq::empty()) == Seq::<char>::empty(),
{
}

} // verus!
