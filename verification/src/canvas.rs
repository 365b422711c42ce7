//! The grid of cells that a terminal shows, which `ratatui` draws on.

use ratatui::buffer::Buffer;
use ratatui::layout::Rect;
use ratatui::style::{Color, Modifier, Style};
use ratatui::text::{Line, Span};
use ratatui::widgets::Widget;
use vstd::prelude::*;

use crate::area::Area;
use crate::style::{SpanView, StyledLine, TextColor};
use crate::text::texts;

verus! {

/// A cell: the characters in it, the names of its colours, and its modifiers.
pub struct CellView {
    pub symbol: Seq<char>,
    pub foreground: Seq<char>,
    pub background: Seq<char>,
    pub modifiers: u16,
}

/// `ratatui::buffer::Buffer`, a grid of cells.
#[verifier::external_type_specification]
#[verifier::external_body]
pub struct ExBuffer(Buffer);

/// The rectangle that a buffer stands for.
pub uninterp spec fn buffer_area(buf: Buffer) -> Area;

/// The cells of a buffer, row by row.
pub uninterp spec fn buffer_cells(buf: Buffer) -> Seq<CellView>;

/// The cells of a buffer that stands for `frame`, after a line was drawn in an
/// area of it.
pub uninterp spec fn painted(
    frame: Area,
    cells: Seq<CellView>,
    area: Area,
    line: Seq<SpanView>,
) -> Seq<CellView>;

/// Whether a buffer has all the cells of its rectangle, and ends before the last
/// column that a `u16` counts. Every line can be drawn on such a buffer.
pub open spec fn is_sound(buf: Buffer) -> bool {
    let frame = buffer_area(buf);
    &&& buffer_cells(buf).len() >= frame.width * frame.height
    &&& frame.x + frame.width < u16::MAX
}

/// A bound on the characters in a row that may join. A cluster is made of such
/// characters, at most two runs of them around one that stands alone, and a
/// cluster within the bound takes fewer columns than a `u16` counts.
pub const MAX_JOINED_CHARS: usize = 0x4000;

/// Whether a character is known to join no other one of its kind: it is ASCII, or
/// a letter in one of the blocks for Latin, Greek, Cyrillic, Hebrew, Arabic, kana,
/// unified CJK ideographs and Hangul syllables.
pub open spec fn stands_alone(c: char) -> bool {
    let n = c as u32;
    ||| n < 0x80
    ||| 0xc0 <= n <= 0x2ff
    ||| 0x370 <= n <= 0x482
    ||| 0x48a <= n <= 0x52f
    ||| 0x5d0 <= n <= 0x5ea
    ||| 0x620 <= n <= 0x64a
    ||| 0x3041 <= n <= 0x3096
    ||| 0x30a1 <= n <= 0x30fa
    ||| 0x3400 <= n <= 0x4dbf
    ||| 0x4e00 <= n <= 0x9fff
    ||| 0xac00 <= n <= 0xd7a3
}

/// Whether one of some characters stands alone.
pub open spec fn has_lone_char(text: Seq<char>) -> bool {
    exists|i: int| 0 <= i < text.len() && stands_alone(#[trigger] text[i])
}

/// Whether a text is within the bound: no run of its characters that may join
/// reaches it.
pub open spec fn is_drawable_text(text: Seq<char>) -> bool {
    forall|i: int|
        0 <= i <= text.len() - MAX_JOINED_CHARS ==> has_lone_char(
            #[trigger] text.subrange(i, i + MAX_JOINED_CHARS),
        )
}

/// Whether every span of a line is within the bound.
pub open spec fn is_drawable(line: Seq<SpanView>) -> bool {
    forall|i: int| 0 <= i < line.len() ==> is_drawable_text((#[trigger] line[i]).text)
}

fn char_stands_alone(c: char) -> (r: bool)
    ensures
        r == stands_alone(c),
{
    let n: u32 = c as u32;
    n < 0x80 || (0xc0 <= n && n <= 0x2ff) || (0x370 <= n && n <= 0x482) || (0x48a <= n && n
        <= 0x52f) || (0x5d0 <= n && n <= 0x5ea) || (0x620 <= n && n <= 0x64a) || (0x3041 <= n && n
        <= 0x3096) || (0x30a1 <= n && n <= 0x30fa) || (0x3400 <= n && n <= 0x4dbf) || (0x4e00 <= n
        && n <= 0x9fff) || (0xac00 <= n && n <= 0xd7a3)
}

/// Whether a text is within the bound.
pub fn text_is_drawable(text: &str) -> (r: bool)
    ensures
        r == is_drawable_text(text@),
{
    let len: usize = text.unicode_len();
    let mut run: usize = 0;
    let mut i: usize = 0;
    while i < len
        invariant
            i <= len,
            len == text@.len(),
            run <= i,
            run < MAX_JOINED_CHARS,
            forall|k: int| i - run <= k < i ==> !stands_alone(#[trigger] text@[k]),
            run < i ==> stands_alone(text@[i - run - 1]),
            forall|k: int|
                0 <= k <= i - MAX_JOINED_CHARS ==> has_lone_char(
                    #[trigger] text@.subrange(k, k + MAX_JOINED_CHARS),
                ),
        decreases len - i,
    {
        if char_stands_alone(text.get_char(i)) {
            run = 0;
        } else {
            run = run + 1;
        }
        let ghost start = i + 1 - MAX_JOINED_CHARS;
        let ghost last = text@.subrange(start, i + 1);
        if run == MAX_JOINED_CHARS {
            proof {
                assert forall|k: int| 0 <= k < last.len() implies !stands_alone(
                    #[trigger] last[k],
                ) by {
                    assert(last[k] == text@[start + k]);
                }
                assert(!has_lone_char(text@.subrange(start, start + MAX_JOINED_CHARS)));
            }
            return false;
        }
        proof {
            if 0 <= start {
                assert(last[i - run - start] == text@[i - run]);
                assert(has_lone_char(last));
            }
        }
        i = i + 1;
    }
    true
}

/// The cell of a buffer at a position of its rectangle, where the buffer has it.
pub open spec fn cell_at(buf: Buffer, x: int, y: int) -> Option<CellView> {
    let frame = buffer_area(buf);
    let i = (y - frame.y) * frame.width + (x - frame.x);
    if 0 <= i < buffer_cells(buf).len() {
        Some(buffer_cells(buf)[i])
    } else {
        None
    }
}

/// Whether two buffers have the same rectangle and as many cells, and agree on
/// those that are not part of the rectangle.
pub open spec fn same_shape(before: Buffer, after: Buffer) -> bool {
    let frame = buffer_area(before);
    &&& buffer_area(after) == frame
    &&& buffer_cells(after).len() == buffer_cells(before).len()
    &&& forall|i: int|
        frame.width * frame.height <= i < buffer_cells(before).len() ==> #[trigger] buffer_cells(
            after,
        )[i] == buffer_cells(before)[i]
}

/// How many columns `ratatui::text::Span::width` counts in a text.
pub uninterp spec fn text_width(text: Seq<char>) -> nat;

/// The clusters of a text that `ratatui::text::Span::styled_graphemes` lists.
pub uninterp spec fn clusters(text: Seq<char>) -> Seq<Seq<char>>;

/// The columns of each cluster of a text.
pub open spec fn cluster_widths(text: Seq<char>) -> Seq<nat> {
    clusters(text).map_values(|cluster: Seq<char>| text_width(cluster))
}

/// Where a side that begins at `start` ends, as far as a `u16` counts.
pub open spec fn end_of(start: u16, extent: u16) -> int {
    if start + extent > u16::MAX {
        u16::MAX as int
    } else {
        start + extent
    }
}

/// The first row that an area and a buffer that stands for `frame` have in
/// common, where they have one.
pub open spec fn shared_row(frame: Area, area: Area) -> Option<Area> {
    let left = if area.x < frame.x {
        frame.x
    } else {
        area.x
    };
    let top = if area.y < frame.y {
        frame.y
    } else {
        area.y
    };
    if left < end_of(area.x, area.width) && left < end_of(frame.x, frame.width) && top < end_of(
        area.y,
        area.height,
    ) && top < end_of(frame.y, frame.height) {
        let right = if end_of(area.x, area.width) < end_of(frame.x, frame.width) {
            end_of(area.x, area.width)
        } else {
            end_of(frame.x, frame.width)
        };
        Some(Area { x: left, y: top, width: (right - left) as u16, height: 1 })
    } else {
        None
    }
}

/// Whether a line takes any column.
pub open spec fn has_columns(line: Seq<SpanView>) -> bool {
    exists|i: int| 0 <= i < line.len() && text_width((#[trigger] line[i]).text) > 0
}

/// Whether clusters of some widths, drawn from column `x` on, leave the last
/// column that a `u16` counts to the last of them.
pub open spec fn stops_short(widths: Seq<nat>, x: int) -> bool
    decreases widths.len(),
{
    widths.len() <= 1 || (x + widths[0] < u16::MAX && stops_short(
        widths.drop_first(),
        x + widths[0],
    ))
}

/// Whether the spans of a line, drawn from column `x` on, do so too, as far as
/// they are drawn.
pub open spec fn spans_stop_short(line: Seq<SpanView>, x: int) -> bool
    decreases line.len(),
{
    line.len() == 0 || x >= u16::MAX || {
        let width = text_width(line[0].text);
        &&& width == 0 || stops_short(cluster_widths(line[0].text), x)
        &&& spans_stop_short(line.drop_first(), x + width)
    }
}

/// Whether a line can be drawn in an area of a buffer that stands for `frame` and
/// has `count` cells: the buffer has the cells of the row that is drawn on, and a
/// row that ends in the last column that a `u16` counts is not overrun.
pub open spec fn can_paint(frame: Area, count: nat, area: Area, line: Seq<SpanView>) -> bool {
    match shared_row(frame, area) {
        None => true,
        Some(row) => has_columns(line) ==> {
            &&& (row.y - frame.y) * frame.width + (row.x + row.width - 1 - frame.x) < count
            &&& row.x + row.width < u16::MAX || spans_stop_short(line, row.x as int)
        },
    }
}

/// Every line can be drawn on a sound buffer.
pub proof fn lemma_sound_can_paint(buf: Buffer, area: Area, line: Seq<SpanView>)
    requires
        is_sound(buf),
    ensures
        can_paint(buffer_area(buf), buffer_cells(buf).len(), area, line),
{
    let frame = buffer_area(buf);
    if let Some(row) = shared_row(frame, area) {
        let w = frame.width as int;
        let h = frame.height as int;
        let dy = row.y - frame.y;
        assert(dy * w + w <= w * h) by (nonlinear_arith)
            requires
                0 <= dy <= h - 1,
                0 <= w,
        ;
    }
}

/// Calls `ratatui::text::Span::width`.
///
/// Trusted of it: how many columns a text takes depends on the text alone.
#[verifier::external_body]
fn width_of(text: &str) -> (r: usize)
    ensures
        r == text_width(text@),
{
    Span::raw(text).width()
}

/// Calls `ratatui::text::Span::styled_graphemes`.
///
/// Trusted of it: which clusters it lists depends on the text alone.
#[verifier::external_body]
fn clusters_of(text: &str) -> (r: Vec<String>)
    ensures
        texts(r@) == clusters(text@),
{
    let span = Span::raw(text);
    span.styled_graphemes(Style::default()).map(|cluster| cluster.symbol.to_owned()).collect()
}

/// Calls `ratatui::buffer::Buffer::area`.
///
/// Trusted of it: it returns the rectangle that the buffer stands for.
#[verifier::external_body]
fn frame_of(buf: &Buffer) -> (r: Area)
    ensures
        r == buffer_area(*buf),
{
    let Rect { x, y, width, height } = *buf.area();
    Area { x, y, width, height }
}

/// Calls `ratatui::buffer::Buffer::content`.
///
/// Trusted of it: the slice has one element for each cell.
#[verifier::external_body]
fn cell_count(buf: &Buffer) -> (r: usize)
    ensures
        r == buffer_cells(*buf).len(),
{
    buf.content().len()
}

/// Calls `ratatui::text::Line::render`.
///
/// Trusted of it: what is drawn depends on the buffer, the area and the line
/// alone; the buffer keeps its rectangle and its number of cells; and no cell
/// changes outside the first row that the area and the buffer have in common.
#[verifier::external_body]
pub(crate) fn paint_line(area: Area, buf: &mut Buffer, line: &StyledLine)
    requires
        is_drawable(line@),
        can_paint(buffer_area(*old(buf)), buffer_cells(*old(buf)).len(), area, line@),
    ensures
        same_shape(*old(buf), *final(buf)),
        buffer_cells(*final(buf)) == painted(
            buffer_area(*old(buf)),
            buffer_cells(*old(buf)),
            area,
            line@,
        ),
        forall|x: int, y: int|
            buffer_area(*old(buf)).covers(x, y) && !(shared_row(
                buffer_area(*old(buf)),
                area,
            ) matches Some(row) && row.covers(x, y)) ==> #[trigger] cell_at(*final(buf), x, y)
                == cell_at(*old(buf), x, y),
{
    let Area { x, y, width, height } = area;
    let spans: Vec<Span> = line.spans.iter().map(|span| {
        let fg = span.style.color.map(|color| match color {
            TextColor::Black => Color::Black, TextColor::Red => Color::Red,
            TextColor::Green => Color::Green, TextColor::Yellow => Color::Yellow,
            TextColor::Blue => Color::Blue, TextColor::Magenta => Color::Magenta,
            TextColor::Cyan => Color::Cyan, TextColor::Gray => Color::Gray,
        });
        let add_modifier = Modifier::from_bits_truncate(span.style.modifiers);
        Span::styled(span.text.as_str(), Style { fg, add_modifier, ..Style::default() })
    }).collect();
    Line::from(spans).render(Rect { x, y, width, height }, buf);
}

/// Whether a buffer has all the cells of its rectangle, and ends before the last
/// column that a `u16` counts.
pub fn buffer_is_sound(buf: &Buffer) -> (r: bool)
    ensures
        r == is_sound(*buf),
{
    let frame = frame_of(buf);
    let count: u64 = cell_count(buf) as u64;
    assert(0 <= frame.width * frame.height <= 0xffff * 0xffff) by (nonlinear_arith)
        requires
            0 <= frame.width <= 0xffff,
            0 <= frame.height <= 0xffff,
    ;
    let size: u64 = frame.width as u64 * frame.height as u64;
    let right: u32 = frame.x as u32 + frame.width as u32;
    count >= size && right < 0xffff
}

fn first_shared_row(frame: Area, area: Area) -> (r: Option<Area>)
    ensures
        r == shared_row(frame, area),
{
    let left: u16 = if area.x < frame.x {
        frame.x
    } else {
        area.x
    };
    let top: u16 = if area.y < frame.y {
        frame.y
    } else {
        area.y
    };
    let area_right: u16 = area.x.saturating_add(area.width);
    let frame_right: u16 = frame.x.saturating_add(frame.width);
    let right: u16 = if area_right < frame_right {
        area_right
    } else {
        frame_right
    };
    if left < right && top < area.y.saturating_add(area.height) && top < frame.y.saturating_add(
        frame.height,
    ) {
        Some(Area { x: left, y: top, width: right - left, height: 1 })
    } else {
        None
    }
}

fn line_has_columns(line: &StyledLine) -> (r: bool)
    ensures
        r == has_columns(line@),
{
    let mut i: usize = 0;
    while i < line.spans.len()
        invariant
            i <= line.spans@.len(),
            forall|j: int| 0 <= j < i ==> text_width((#[trigger] line@[j]).text) == 0,
        decreases line.spans.len() - i,
    {
        assert(line@[i as int] == line.spans@[i as int]@);
        if width_of(line.spans[i].text.as_str()) > 0 {
            return true;
        }
        i = i + 1;
    }
    false
}

fn text_stops_short(text: &str, start: u16) -> (r: bool)
    ensures
        r == stops_short(cluster_widths(text@), start as int),
{
    let parts = clusters_of(text);
    let ghost widths = cluster_widths(text@);
    assert(widths.len() == parts@.len());
    assert(widths.skip(0) == widths);
    let mut x: usize = start as usize;
    let mut i: usize = 0;
    while i < parts.len() && parts.len() - i > 1
        invariant
            i <= parts@.len(),
            x <= 0xffff,
            texts(parts@) == clusters(text@),
            widths == cluster_widths(text@),
            widths.len() == parts@.len(),
            stops_short(widths, start as int) == stops_short(widths.skip(i as int), x as int),
        decreases parts.len() - i,
    {
        assert(texts(parts@)[i as int] == parts@[i as int]@);
        let width: usize = width_of(parts[i].as_str());
        assert(widths.skip(i as int)[0] == width);
        assert(widths.skip(i as int).drop_first() == widths.skip(i + 1));
        if width >= 0xffff - x {
            return false;
        }
        x = x + width;
        i = i + 1;
    }
    true
}

fn line_stops_short(line: &StyledLine, start: u16) -> (r: bool)
    ensures
        r == spans_stop_short(line@, start as int),
{
    assert(line@.skip(0) == line@);
    let mut x: u16 = start;
    let mut i: usize = 0;
    while i < line.spans.len() && x < 0xffff
        invariant
            i <= line.spans@.len(),
            spans_stop_short(line@, start as int) == spans_stop_short(
                line@.skip(i as int),
                x as int,
            ),
        decreases line.spans.len() - i,
    {
        let text = line.spans[i].text.as_str();
        let width: usize = width_of(text);
        proof {
            assert(line@[i as int] == line.spans@[i as int]@);
            assert(line@.skip(i as int)[0] == line@[i as int]);
            assert(line@.skip(i as int).drop_first() == line@.skip(i + 1));
        }
        if width > 0 && !text_stops_short(text, x) {
            return false;
        }
        if width >= (0xffff - x) as usize {
            assert(spans_stop_short(line@.skip(i + 1), x + width));
            return true;
        }
        x = x + width as u16;
        i = i + 1;
    }
    true
}

/// Whether a line can be drawn in an area of a buffer.
pub(crate) fn line_can_be_painted(buf: &Buffer, area: Area, line: &StyledLine) -> (r: bool)
    ensures
        r == can_paint(buffer_area(*buf), buffer_cells(*buf).len(), area, line@),
{
    let frame = frame_of(buf);
    match first_shared_row(frame, area) {
        None => true,
        Some(row) => {
            if !line_has_columns(line) {
                return true;
            }
            let dy: u64 = (row.y - frame.y) as u64;
            let w: u64 = frame.width as u64;
            assert(0 <= dy * w <= 0xffff * 0xffff) by (nonlinear_arith)
                requires
                    0 <= dy <= 0xffff,
                    0 <= w <= 0xffff,
            ;
            let last: u64 = dy * w + (row.width - 1) as u64 + (row.x - frame.x) as u64;
            last < cell_count(buf) as u64 && (row.width < 0xffff - row.x || line_stops_short(
                line,
                row.x,
            ))
        },
    }
}

/// The row that is drawn on is the first one that the area and the buffer have in
/// common, with all the columns that they have in common, as far as a `u16` counts
/// the rows and columns; there is none where they have nothing in common.
pub proof fn law_shared_row(frame: Area, area: Area, x: int, y: int)
    ensures
        shared_row(frame, area) is None ==> !(area.covers(x, y) && frame.covers(x, y) && x
            < u16::MAX && y < u16::MAX),
        shared_row(frame, area) matches Some(row) ==> {
            &&& row.height == 1
            &&& row.width > 0
            &&& row.y == area.y || row.y == frame.y
            &&& row.y >= area.y && row.y >= frame.y
            &&& area.covers(row.x as int, row.y as int) && frame.covers(row.x as int, row.y as int)
            &&& row.covers(x, y) <==> y == row.y && x < u16::MAX && area.covers(x, y)
                && frame.covers(x, y)
        },
{
}

/// The cells of a rectangle are counted row by row, from its upper left corner on,
/// and beyond its last row none is found where the buffer has no more of them.
pub proof fn law_cells_are_counted_by_rows(buf: Buffer, x: int, y: int)
    requires
        buffer_area(buf).covers(x, y),
    ensures
        ({
            let frame = buffer_area(buf);
            let cells = buffer_cells(buf);
            &&& cells.len() > 0 ==> cell_at(buf, frame.x as int, frame.y as int) == Some(cells[0])
            &&& ((y - frame.y) * frame.width + (x - frame.x) < cells.len() ==> cell_at(buf, x, y)
                == Some(cells[(y - frame.y) * frame.width + (x - frame.x)]))
            &&& ((y - frame.y) * frame.width + (x - frame.x) >= cells.len() ==> cell_at(
                buf,
                x,
                y,
            ) is None)
        }),
{
    let frame = buffer_area(buf);
    assert((y - frame.y) * frame.width >= 0) by (nonlinear_arith)
        requires
            y - frame.y >= 0,
            frame.width >= 0,
    ;
    assert(0 * frame.width == 0);
}

/// Buffers of the same shape stand for the same rectangle, have as many cells, and
/// agree on those past the ones of the rectangle.
pub proof fn law_same_shape(before: Buffer, after: Buffer, i: int)
    requires
        same_shape(before, after),
    ensures
        buffer_area(after) == buffer_area(before),
        buffer_cells(after).len() == buffer_cells(before).len(),
        buffer_area(before).width * buffer_area(before).height <= i < buffer_cells(before).len()
            ==> buffer_cells(after)[i] == buffer_cells(before)[i],
{
}

/// A buffer is sound if and only if it lacks none of the cells of its rectangle and
/// its right side is left of column 65535.
pub proof fn law_sound_buffers(buf: Buffer)
    ensures
        is_sound(buf) <==> buffer_cells(buf).len() >= buffer_area(buf).width * buffer_area(
            buf,
        ).height && buffer_area(buf).x + buffer_area(buf).width < 65535,
{
}

/// A single cluster can be drawn from any column on; before any others, the first
/// cluster must end left of column 65535, and the others be such that they can be
/// drawn from there on.
pub proof fn law_clusters_stop_short(first: nat, others: Seq<nat>, x: int)
    ensures
        stops_short(Seq::empty(), x),
        stops_short(seq![first], x),
        others.len() > 0 ==> (stops_short(seq![first] + others, x) <==> x + first < 65535
            && stops_short(others, x + first)),
{
    assert((seq![first] + others).drop_first() == others);
}

/// Spans are drawn one behind the other, up to column 65535: each that takes columns
/// must be such that its clusters can be drawn from where it begins.
pub proof fn law_spans_stop_short(first: SpanView, others: Seq<SpanView>, x: int)
    ensures
        spans_stop_short(Seq::empty(), x),
        x >= 65535 ==> spans_stop_short(seq![first] + others, x),
        x < 65535 ==> (spans_stop_short(seq![first] + others, x) <==> (text_width(first.text) > 0
            ==> stops_short(
            clusters(first.text).map_values(|cluster: Seq<char>| text_width(cluster)),
            x,
        )) && spans_stop_short(others, x + text_width(first.text))),
{
    assert((seq![first] + others).drop_first() == others);
    assert(clusters(first.text).map_values(|cluster: Seq<char>| text_width(cluster))
        =~= cluster_widths(first.text));
}

/// A line cannot be drawn in an area of a buffer if and only if it takes columns, the
/// two have a row in common, and the buffer lacks the last cell of that row, or the
/// row ends at column 65535 and the line would overrun it.
pub proof fn law_when_a_line_cannot_be_drawn(
    frame: Area,
    count: nat,
    area: Area,
    line: Seq<SpanView>,
)
    ensures
        !can_paint(frame, count, area, line) <==> (shared_row(frame, area) matches Some(row)
            && (exists|i: int| 0 <= i < line.len() && text_width((#[trigger] line[i]).text) > 0) && (
        count <= (row.y - frame.y) * frame.width + (row.x + row.width - 1 - frame.x) || (row.x
            + row.width == 65535 && !spans_stop_short(line, row.x as int)))),
{
}

/// A text is within the bound if and only if any 16384 of its characters in a row hold
/// one that stands alone; so every text that is shorter is. Where a text is not, `run`
/// tells where so many characters begin that may join.
pub proof fn law_drawable_texts(text: Seq<char>, from: int) -> (run: int)
    ensures
        text.len() < 16384 ==> is_drawable_text(text),
        is_drawable_text(text) && 0 <= from <= text.len() - 16384 ==> exists|i: int|
            from <= i < from + 16384 && stands_alone(#[trigger] text[i]),
        !is_drawable_text(text) ==> 0 <= run <= text.len() - 16384 && forall|i: int|
            run <= i < run + 16384 ==> !stands_alone(#[trigger] text[i]),
{
    if is_drawable_text(text) {
        if 0 <= from <= text.len() - 16384 {
            let part = text.subrange(from, from + MAX_JOINED_CHARS);
            assert(has_lone_char(part));
            let i = choose|i: int| 0 <= i < part.len() && stands_alone(#[trigger] part[i]);
            assert(stands_alone(text[from + i]));
        }
        0
    } else {
        let run = choose|i: int|
            0 <= i <= text.len() - MAX_JOINED_CHARS && !has_lone_char(
                #[trigger] text.subrange(i, i + MAX_JOINED_CHARS),
            );
        let part = text.subrange(run, run + MAX_JOINED_CHARS);
        assert forall|i: int| run <= i < run + 16384 implies !stands_alone(#[trigger] text[i]) by {
            assert(part[i - run] == text[i]);
        }
        run
    }
}

/// Hangul letters and marks that combine may join, and so may signs of any kind
/// outside the blocks of letters that are known not to.
pub proof fn law_characters_that_may_join(c: char)
    ensures
        stands_alone(c) <==> {
            let n = c as u32;
            ||| n < 0x80
            ||| 0xc0 <= n < 0x300
            ||| 0x370 <= n < 0x483
            ||| 0x48a <= n < 0x530
            ||| 0x5d0 <= n < 0x5eb
            ||| 0x620 <= n < 0x64b
            ||| 0x3041 <= n < 0x3097
            ||| 0x30a1 <= n < 0x30fb
            ||| 0x3400 <= n < 0x4dc0
            ||| 0x4e00 <= n < 0xa000
            ||| 0xac00 <= n < 0xd7a4
        },
{
}

/// A line is within the bound if and only if the text of each of its spans is.
pub proof fn law_drawable_lines(line: Seq<SpanView>, span: SpanView)
    ensures
        is_drawable(Seq::empty()),
        is_drawable(line.push(span)) <==> is_drawable(line) && is_drawable_text(span.text),
{
    let all = line.push(span);
    if is_drawable(all) {
        assert(is_drawable_text(all[line.len() as int].text));
        assert forall|i: int| 0 <= i < line.len() implies is_drawable_text(
            (#[trigger] line[i]).text,
        ) by {
            assert(all[i] == line[i]);
        }
    }
}

} // verus!
