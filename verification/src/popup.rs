//! The mention popup: which rows it shows, where, and what is drawn for them.

use ratatui::buffer::Buffer;
use vstd::prelude::*;

use crate::area::Area;
use crate::canvas::{
    buffer_area, buffer_cells, buffer_is_sound, can_paint, cell_at, is_drawable, is_drawable_text,
    is_sound, lemma_sound_can_paint, line_can_be_painted, paint_line, painted, same_shape,
    CellView,
};
use crate::mention::{build_line, line_view, SearchResult};
use crate::style::{plain, SpanView, StyledLine, StyledSpan, TextStyle, ITALIC};

verus! {

/// The most rows that a popup shows.
pub const MAX_POPUP_ROWS: usize = 8;

/// How many columns the popup keeps free on its left.
pub const LEFT_INSET: u16 = 2;

/// Which row of a list is selected, and which one is at the top.
pub struct ScrollState {
    pub selected_idx: Option<usize>,
    pub scroll_top: usize,
}

/// The part of a list that is shown: its first row, and how many rows there is
/// room for.
#[derive(Clone, Copy, Debug, PartialEq, Eq, Structural)]
pub struct Window {
    pub first: usize,
    pub room: usize,
}

/// The smaller of two numbers.
pub open spec fn least(a: int, b: int) -> int {
    if a <= b {
        a
    } else {
        b
    }
}

/// How many of `rows` rows there is room for in an area of height `height`.
pub open spec fn room_for(rows: int, height: int) -> int {
    least(
        least(MAX_POPUP_ROWS as int, rows),
        if height == 0 {
            1
        } else {
            height
        },
    )
}

/// The first row that is shown: the one at the top, moved just as far as it takes
/// to show the selected one.
pub open spec fn first_shown(rows: int, room: int, state: ScrollState) -> int {
    let top = least(state.scroll_top as int, rows - 1);
    match state.selected_idx {
        None => top,
        Some(selected) => if selected < top {
            selected as int
        } else if selected >= top + room {
            selected + 1 - room
        } else {
            top
        },
    }
}

/// The part that is shown of a list of `rows` rows.
pub open spec fn window_of(rows: int, height: int, state: ScrollState) -> Window {
    let room = room_for(rows, height);
    Window { first: first_shown(rows, room, state) as usize, room: room as usize }
}

/// How many rows of a list of `rows` rows a window shows.
pub open spec fn shown_count(rows: int, window: Window) -> int {
    if window.first >= rows {
        0
    } else {
        least(window.room as int, rows - window.first)
    }
}

/// How many lines are drawn in an area for a list of `rows` rows: none in an area
/// without height, one for the message where there are no rows, and else one for
/// each row that is shown.
pub open spec fn lines_drawn(area: Area, rows: nat, state: ScrollState) -> int {
    if area.height == 0 {
        0
    } else if rows == 0 {
        1
    } else {
        shown_count(rows as int, window_of(rows as int, area.height as int, state))
    }
}

/// The part that is shown of a list of `rows` rows.
pub fn visible_window(rows: usize, height: u16, state: &ScrollState) -> (r: Window)
    requires
        rows > 0,
    ensures
        r == window_of(rows as int, height as int, *state),
        r.first == first_shown(rows as int, r.room as int, *state),
        r.room == room_for(rows as int, height as int),
        r.room > 0,
{
    let mut room: usize = if rows < MAX_POPUP_ROWS {
        rows
    } else {
        MAX_POPUP_ROWS
    };
    let tall: usize = if height == 0 {
        1
    } else {
        height as usize
    };
    if tall < room {
        room = tall;
    }
    let mut first: usize = if state.scroll_top < rows - 1 {
        state.scroll_top
    } else {
        rows - 1
    };
    match state.selected_idx {
        None => {},
        Some(selected) => {
            if selected < first {
                first = selected;
            } else if selected - first >= room {
                first = selected - (room - 1);
            }
        },
    }
    Window { first, room }
}

/// How many lines are drawn in an area for a list of `rows` rows.
pub fn line_count(area: Area, rows: usize, state: &ScrollState) -> (r: usize)
    ensures
        r == lines_drawn(area, rows as nat, *state),
{
    if area.height == 0 {
        0
    } else if rows == 0 {
        1
    } else {
        let window = visible_window(rows, area.height, state);
        if window.first >= rows {
            0
        } else if rows - window.first < window.room {
            rows - window.first
        } else {
            window.room
        }
    }
}

/// The selected row is one of those that are shown.
pub proof fn law_selected_row_is_shown(rows: int, height: int, state: ScrollState, selected: usize)
    requires
        0 < rows <= usize::MAX,
        0 <= height,
        state.selected_idx == Some(selected),
        selected < rows,
    ensures
        ({
            let window = window_of(rows, height, state);
            window.first <= selected < window.first + shown_count(rows, window)
        }),
{
}

/// As long as the selected row is in view, or there is none, the list stays where
/// it was scrolled to.
pub proof fn law_list_stays_put(rows: int, height: int, state: ScrollState)
    requires
        0 < rows <= usize::MAX,
        0 <= height,
        state.scroll_top < rows,
        state.selected_idx matches Some(selected) ==> state.scroll_top <= selected
            < state.scroll_top + room_for(rows, height),
    ensures
        window_of(rows, height, state).first == state.scroll_top,
{
}

/// A line that is drawn in an area.
pub struct Placed {
    pub area: Area,
    pub line: Seq<SpanView>,
}

/// The cells of a buffer after some lines were drawn, one after the other.
pub open spec fn paint_all(
    frame: Area,
    cells: Seq<CellView>,
    drawn: Seq<Placed>,
) -> Seq<CellView>
    decreases drawn.len(),
{
    if drawn.len() == 0 {
        cells
    } else {
        painted(
            frame,
            paint_all(frame, cells, drawn.drop_last()),
            drawn.last().area,
            drawn.last().line,
        )
    }
}

/// The area of the `k`-th row that is shown.
pub open spec fn row_area(area: Area, k: int) -> Area {
    Area { x: area.x, y: (area.y + k) as u16, width: area.width, height: 1 }
}

/// The area of the `k`-th line that is drawn for `rows` rows: the message has all
/// of it.
pub open spec fn place(area: Area, rows: nat, k: int) -> Area {
    if rows == 0 {
        area
    } else {
        row_area(area, k)
    }
}

/// The line of the `k`-th row that is shown in an area of height `height`.
pub open spec fn shown_line(
    rows: Seq<SearchResult>,
    height: u16,
    state: ScrollState,
    k: int,
) -> Seq<SpanView> {
    let idx = window_of(rows.len() as int, height as int, state).first + k;
    line_view(rows[idx], state.selected_idx == Some(idx as usize))
}

/// Whether `line` is what `truncate` makes of a whole line for `width` columns.
pub open spec fn is_cut_line<F: Fn(StyledLine, usize) -> StyledLine>(
    truncate: F,
    whole: Seq<SpanView>,
    width: u16,
    line: Seq<SpanView>,
) -> bool {
    exists|built: StyledLine, cut: StyledLine|
        built@ == whole && #[trigger] call_ensures(truncate, (built, width as usize), cut) && cut@
            == line
}

/// The line of the message.
pub open spec fn message_line(empty_message: Seq<char>) -> Seq<SpanView> {
    seq![SpanView { text: empty_message, style: plain().with(ITALIC) }]
}

/// Whether `drawn` is what is drawn for some rows in an area: nothing in an area
/// without height, the message where there are no rows, and else the rows that
/// are shown, one below the other.
pub open spec fn draws_rows<F: Fn(StyledLine, usize) -> StyledLine>(
    drawn: Seq<Placed>,
    area: Area,
    rows: Seq<SearchResult>,
    state: ScrollState,
    empty_message: Seq<char>,
    truncate: F,
) -> bool {
    &&& drawn.len() == lines_drawn(area, rows.len(), state)
    &&& forall|k: int|
        0 <= k < drawn.len() ==> if rows.len() == 0 {
            #[trigger] drawn[k] == (Placed { area, line: message_line(empty_message) })
        } else {
            &&& drawn[k].area == row_area(area, k)
            &&& is_cut_line(
                truncate,
                shown_line(rows, area.height, state, k),
                area.width,
                drawn[k].line,
            )
        }
}

/// Whether two buffers agree outside an area.
pub open spec fn same_outside(before: Buffer, after: Buffer, area: Area) -> bool {
    &&& same_shape(before, after)
    &&& forall|x: int, y: int|
        buffer_area(before).covers(x, y) && !area.covers(x, y) ==> #[trigger] cell_at(after, x, y)
            == cell_at(before, x, y)
}

/// Whether drawing `lines` lines for `rows` rows in an area of a buffer that stands
/// for `frame` may change the cell at a position: it lies on one of the topmost
/// lines of the area, as many as are drawn. The message is on the first line that
/// the area and the buffer have in common.
pub open spec fn may_change(frame: Area, area: Area, rows: nat, lines: int, x: int, y: int) -> bool {
    &&& area.covers(x, y)
    &&& if rows == 0 {
        y == area.y || y == frame.y
    } else {
        y < area.y + lines
    }
}

/// Whether two buffers agree wherever drawing `lines` lines for `rows` rows in an
/// area changes nothing.
pub open spec fn keeps_the_rest(
    before: Buffer,
    after: Buffer,
    area: Area,
    rows: nat,
    lines: int,
) -> bool {
    &&& same_shape(before, after)
    &&& forall|x: int, y: int|
        buffer_area(before).covers(x, y) && !may_change(
            buffer_area(before),
            area,
            rows,
            lines,
            x,
            y,
        ) ==> #[trigger] cell_at(after, x, y) == cell_at(before, x, y)
}

/// Whether `after` is `before` with some rows drawn in an area.
pub open spec fn rows_rendered<F: Fn(StyledLine, usize) -> StyledLine>(
    before: Buffer,
    after: Buffer,
    area: Area,
    rows: Seq<SearchResult>,
    state: ScrollState,
    empty_message: Seq<char>,
    truncate: F,
) -> bool {
    &&& exists|drawn: Seq<Placed>|
        draws_rows(drawn, area, rows, state, empty_message, truncate) && buffer_cells(after)
            == #[trigger] paint_all(buffer_area(before), buffer_cells(before), drawn)
    &&& keeps_the_rest(before, after, area, rows.len(), lines_drawn(area, rows.len(), state))
    &&& lines_drawn(area, rows.len(), state) == 0 ==> after == before
}

/// Whether a function can be used to cut the lines that are shown of some rows in
/// an area: it takes each of them, and what it makes of it can be drawn.
pub open spec fn cuts_shown<F: Fn(StyledLine, usize) -> StyledLine>(
    truncate: F,
    area: Area,
    rows: Seq<SearchResult>,
    state: ScrollState,
) -> bool {
    &&& forall|k: int, built: StyledLine|
        0 <= k < lines_drawn(area, rows.len(), state) && built@ == #[trigger] shown_line(
            rows,
            area.height,
            state,
            k,
        ) ==> #[trigger] call_requires(truncate, (built, area.width as usize))
    &&& forall|k: int, built: StyledLine, cut: StyledLine|
        0 <= k < lines_drawn(area, rows.len(), state) && built@ == #[trigger] shown_line(
            rows,
            area.height,
            state,
            k,
        ) && #[trigger] call_ensures(truncate, (built, area.width as usize), cut) ==> is_drawable(
            cut@,
        )
}

/// Whether what is to be drawn for some rows in an area can be: where nothing is,
/// nothing is asked; else the message where there are no rows, and the rows that
/// are shown where there are some.
pub open spec fn can_draw<F: Fn(StyledLine, usize) -> StyledLine>(
    area: Area,
    rows: Seq<SearchResult>,
    state: ScrollState,
    empty_message: Seq<char>,
    truncate: F,
) -> bool {
    lines_drawn(area, rows.len(), state) > 0 ==> if rows.len() == 0 {
        is_drawable_text(empty_message)
    } else {
        &&& area.y + area.height <= u16::MAX
        &&& cuts_shown(truncate, area, rows, state)
    }
}

/// Whether all of some lines can be drawn on a buffer that stands for `frame` and
/// has `count` cells.
pub open spec fn can_paint_all(frame: Area, count: nat, drawn: Seq<Placed>) -> bool {
    forall|k: int|
        0 <= k < drawn.len() ==> can_paint(frame, count, (#[trigger] drawn[k]).area, drawn[k].line)
}

/// Whether whatever is drawn for some rows in an area can be drawn on a buffer
/// that stands for `frame` and has `count` cells.
pub open spec fn has_room<F: Fn(StyledLine, usize) -> StyledLine>(
    frame: Area,
    count: nat,
    area: Area,
    rows: Seq<SearchResult>,
    state: ScrollState,
    empty_message: Seq<char>,
    truncate: F,
) -> bool {
    forall|drawn: Seq<Placed>|
        #[trigger] draws_rows(drawn, area, rows, state, empty_message, truncate) ==> can_paint_all(
            frame,
            count,
            drawn,
        )
}

/// Some lines, each in its place.
pub open spec fn placed(area: Area, rows: nat, lines: Seq<StyledLine>) -> Seq<Placed> {
    Seq::new(lines.len(), |k: int| Placed { area: place(area, rows, k), line: lines[k]@ })
}

/// Whether every one of some lines is within the bound of what can be drawn.
pub open spec fn all_drawable(lines: Seq<StyledLine>) -> bool {
    forall|k: int| 0 <= k < lines.len() ==> is_drawable((#[trigger] lines[k])@)
}

/// The lines that are drawn for some rows in an area, each cut to its width.
fn list_lines<F: Fn(StyledLine, usize) -> StyledLine>(
    area: Area,
    rows: &[SearchResult],
    state: &ScrollState,
    empty_message: &str,
    truncate: &F,
) -> (r: Vec<StyledLine>)
    requires
        can_draw(area, rows@, *state, empty_message@, *truncate),
    ensures
        draws_rows(
            placed(area, rows@.len(), r@),
            area,
            rows@,
            *state,
            empty_message@,
            *truncate,
        ),
        all_drawable(r@),
{
    let mut lines: Vec<StyledLine> = Vec::new();
    if area.height == 0 {
        return lines;
    }
    if rows.len() == 0 {
        let mut spans: Vec<StyledSpan> = Vec::new();
        spans.push(StyledSpan::new(empty_message, TextStyle::plain().modified(ITALIC)));
        let line = StyledLine { spans };
        assert(line@ =~= message_line(empty_message@));
        lines.push(line);
        return lines;
    }
    let window = visible_window(rows.len(), area.height, state);
    let mut k: usize = 0;
    while k < window.room && window.first < rows.len() && k < rows.len() - window.first
        invariant
            window == window_of(rows@.len() as int, area.height as int, *state),
            rows@.len() > 0,
            area.height > 0,
            k <= window.room,
            k <= lines_drawn(area, rows@.len(), *state),
            can_draw(area, rows@, *state, empty_message@, *truncate),
            lines@.len() == k,
            all_drawable(lines@),
            forall|j: int|
                0 <= j < k ==> is_cut_line(
                    *truncate,
                    shown_line(rows@, area.height, *state, j),
                    area.width,
                    (#[trigger] lines@[j])@,
                ),
        decreases window.room - k,
    {
        let idx: usize = window.first + k;
        let selected = match state.selected_idx {
            Some(s) => s == idx,
            None => false,
        };
        let built = build_line(&rows[idx], selected);
        assert(built@ == shown_line(rows@, area.height, *state, k as int));
        let line = truncate(built, area.width as usize);
        assert(is_cut_line(
            *truncate,
            shown_line(rows@, area.height, *state, k as int),
            area.width,
            line@,
        ));
        lines.push(line);
        k = k + 1;
    }
    lines
}

/// Whether all of the lines that are drawn for `rows` rows can be drawn on a
/// buffer.
fn lines_can_be_painted(
    area: Area,
    buf: &Buffer,
    rows: usize,
    lines: &Vec<StyledLine>,
) -> (r: bool)
    requires
        area.y + lines@.len() <= u16::MAX || rows == 0,
    ensures
        r == can_paint_all(
            buffer_area(*buf),
            buffer_cells(*buf).len(),
            placed(area, rows as nat, lines@),
        ),
{
    let ghost drawn = placed(area, rows as nat, lines@);
    let mut k: usize = 0;
    while k < lines.len()
        invariant
            k <= lines@.len(),
            area.y + lines@.len() <= u16::MAX || rows == 0,
            drawn == placed(area, rows as nat, lines@),
            forall|j: int|
                0 <= j < k ==> can_paint(
                    buffer_area(*buf),
                    buffer_cells(*buf).len(),
                    (#[trigger] drawn[j]).area,
                    drawn[j].line,
                ),
        decreases lines.len() - k,
    {
        let spot = if rows == 0 {
            area
        } else {
            Area { x: area.x, y: area.y + k as u16, width: area.width, height: 1 }
        };
        assert(drawn[k as int] == (Placed { area: spot, line: lines@[k as int]@ }));
        if !line_can_be_painted(buf, spot, &lines[k]) {
            return false;
        }
        k = k + 1;
    }
    true
}

/// Draws the lines for `rows` rows, each in its place.
fn draw_lines(area: Area, buf: &mut Buffer, rows: usize, lines: &Vec<StyledLine>)
    requires
        rows == 0 ==> lines@.len() <= 1,
        rows > 0 ==> area.y + lines@.len() <= u16::MAX && lines@.len() <= area.height,
        all_drawable(lines@),
        can_paint_all(
            buffer_area(*old(buf)),
            buffer_cells(*old(buf)).len(),
            placed(area, rows as nat, lines@),
        ),
    ensures
        buffer_cells(*final(buf)) == paint_all(
            buffer_area(*old(buf)),
            buffer_cells(*old(buf)),
            placed(area, rows as nat, lines@),
        ),
        keeps_the_rest(*old(buf), *final(buf), area, rows as nat, lines@.len() as int),
        lines@.len() == 0 ==> *final(buf) == *old(buf),
{
    let ghost frame = buffer_area(*buf);
    let ghost cells = buffer_cells(*buf);
    let ghost drawn = placed(area, rows as nat, lines@);
    let mut k: usize = 0;
    assert(paint_all(frame, cells, drawn.take(0)) == cells);
    while k < lines.len()
        invariant
            k <= lines@.len(),
            rows == 0 ==> lines@.len() <= 1,
            rows > 0 ==> area.y + lines@.len() <= u16::MAX && lines@.len() <= area.height,
            all_drawable(lines@),
            frame == buffer_area(*old(buf)),
            cells == buffer_cells(*old(buf)),
            drawn == placed(area, rows as nat, lines@),
            can_paint_all(frame, cells.len(), drawn),
            buffer_cells(*buf) == paint_all(frame, cells, drawn.take(k as int)),
            keeps_the_rest(*old(buf), *buf, area, rows as nat, lines@.len() as int),
            k == 0 ==> *buf == *old(buf),
        decreases lines.len() - k,
    {
        let spot = if rows == 0 {
            area
        } else {
            Area { x: area.x, y: area.y + k as u16, width: area.width, height: 1 }
        };
        proof {
            assert(drawn[k as int] == (Placed { area: spot, line: lines@[k as int]@ }));
            assert(drawn.take(k + 1).drop_last() == drawn.take(k as int));
            assert(drawn.take(k + 1).last() == drawn[k as int]);
        }
        paint_line(spot, buf, &lines[k]);
        k = k + 1;
    }
    assert(drawn.take(k as int) == drawn);
}

/// Draws the rows that are shown of a list, each cut to the width of the area.
pub fn render_rows<F: Fn(StyledLine, usize) -> StyledLine>(
    area: Area,
    buf: &mut Buffer,
    rows: &[SearchResult],
    state: &ScrollState,
    empty_message: &str,
    truncate: &F,
)
    requires
        can_draw(area, rows@, *state, empty_message@, *truncate),
        is_sound(*old(buf)) || has_room(
            buffer_area(*old(buf)),
            buffer_cells(*old(buf)).len(),
            area,
            rows@,
            *state,
            empty_message@,
            *truncate,
        ),
    ensures
        rows_rendered(
            *old(buf),
            *final(buf),
            area,
            rows@,
            *state,
            empty_message@,
            *truncate,
        ),
        area.height == 0 ==> *final(buf) == *old(buf),
{
    let lines = list_lines(area, rows, state, empty_message, truncate);
    proof {
        lemma_sound_has_room(*buf, area, rows@, *state, empty_message@, *truncate);
        assert(placed(area, rows@.len(), lines@).len() == lines@.len());
    }
    draw_lines(area, buf, rows.len(), &lines);
}

/// A sound buffer has room for whatever is drawn.
pub proof fn lemma_sound_has_room<F: Fn(StyledLine, usize) -> StyledLine>(
    buf: Buffer,
    area: Area,
    rows: Seq<SearchResult>,
    state: ScrollState,
    empty_message: Seq<char>,
    truncate: F,
)
    ensures
        is_sound(buf) ==> has_room(
            buffer_area(buf),
            buffer_cells(buf).len(),
            area,
            rows,
            state,
            empty_message,
            truncate,
        ),
{
    if is_sound(buf) {
        assert forall|drawn: Seq<Placed>| #[trigger]
            draws_rows(drawn, area, rows, state, empty_message, truncate) implies can_paint_all(
            buffer_area(buf),
            buffer_cells(buf).len(),
            drawn,
        ) by {
            assert forall|k: int| 0 <= k < drawn.len() implies can_paint(
                buffer_area(buf),
                buffer_cells(buf).len(),
                (#[trigger] drawn[k]).area,
                drawn[k].line,
            ) by {
                lemma_sound_can_paint(buf, drawn[k].area, drawn[k].line);
            }
        }
    }
}

/// The part of a popup that its rows take: all of it, without the left inset,
/// and where it is high enough without the two lowest rows.
pub open spec fn list_part(area: Area) -> Area {
    if area.height > 2 {
        (Area { height: (area.height - 2) as u16, ..area }).inset_left(LEFT_INSET)
    } else {
        area.inset_left(LEFT_INSET)
    }
}

/// The part of a popup that its footer takes: the lowest row without the left
/// inset, where the popup is high enough.
pub open spec fn hint_part(area: Area) -> Option<Area> {
    if area.height > 2 {
        Some(
            Area {
                x: (area.x + LEFT_INSET) as u16,
                y: (area.y + area.height - 1) as u16,
                width: if area.width < LEFT_INSET {
                    0
                } else {
                    (area.width - LEFT_INSET) as u16
                },
                height: 1,
            },
        )
    } else {
        None
    }
}

/// Whether the positions of a popup's footer are within the numbers that count
/// them.
pub open spec fn fits(area: Area) -> bool {
    area.height > 2 ==> area.x + LEFT_INSET <= u16::MAX && area.y + area.height <= u16::MAX
}

/// The part of a popup that its rows take.
pub fn list_area_of(area: Area) -> (r: Area)
    ensures
        r == list_part(area),
{
    let list_area = if area.height > 2 {
        Area { x: area.x, y: area.y, width: area.width, height: area.height - 2 }
    } else {
        area
    };
    list_area.inset(LEFT_INSET)
}

/// The part of a popup that its footer takes.
pub fn hint_area_of(area: Area) -> (r: Option<Area>)
    requires
        fits(area),
    ensures
        r == hint_part(area),
{
    if area.height > 2 {
        Some(
            Area {
                x: area.x + LEFT_INSET,
                y: area.y + (area.height - 1),
                width: area.width.saturating_sub(LEFT_INSET),
                height: 1,
            },
        )
    } else {
        None
    }
}

/// Draws the popup's rows, and returns where its footer goes, if there is room
/// for one.
pub fn render_popup<F: Fn(StyledLine, usize) -> StyledLine>(
    area: Area,
    buf: &mut Buffer,
    rows: &[SearchResult],
    state: &ScrollState,
    empty_message: &str,
    truncate: &F,
) -> (r: Option<Area>)
    requires
        fits(area),
        can_draw(list_part(area), rows@, *state, empty_message@, *truncate),
        is_sound(*old(buf)) || has_room(
            buffer_area(*old(buf)),
            buffer_cells(*old(buf)).len(),
            list_part(area),
            rows@,
            *state,
            empty_message@,
            *truncate,
        ),
    ensures
        r == hint_part(area),
        rows_rendered(
            *old(buf),
            *final(buf),
            list_part(area),
            rows@,
            *state,
            empty_message@,
            *truncate,
        ),
        area.height == 0 ==> *final(buf) == *old(buf),
{
    render_rows(list_area_of(area), buf, rows, state, empty_message, truncate);
    hint_area_of(area)
}

/// What came of drawing a popup on a buffer that may not take it.
#[derive(Clone, Copy, Debug, PartialEq, Eq, Structural)]
pub enum Drawn {
    /// The popup was drawn; its footer goes here, if there is room for one.
    Popup(Option<Area>),
    /// Nothing was drawn, as one of the lines cannot be: the buffer lacks cells of
    /// its row, or it would overrun the last column that a `u16` counts.
    Impossible,
}

/// Draws the popup's rows where all of them can be drawn on the buffer.
pub fn try_render_popup<F: Fn(StyledLine, usize) -> StyledLine>(
    area: Area,
    buf: &mut Buffer,
    rows: &[SearchResult],
    state: &ScrollState,
    empty_message: &str,
    truncate: &F,
) -> (r: Drawn)
    requires
        fits(area),
        can_draw(list_part(area), rows@, *state, empty_message@, *truncate),
    ensures
        exists|drawn: Seq<Placed>|
            {
                &&& #[trigger] draws_rows(
                    drawn,
                    list_part(area),
                    rows@,
                    *state,
                    empty_message@,
                    *truncate,
                )
                &&& r != Drawn::Impossible <==> can_paint_all(
                    buffer_area(*old(buf)),
                    buffer_cells(*old(buf)).len(),
                    drawn,
                )
                &&& r != Drawn::Impossible ==> buffer_cells(*final(buf)) == paint_all(
                    buffer_area(*old(buf)),
                    buffer_cells(*old(buf)),
                    drawn,
                )
            },
        r == Drawn::Impossible ==> *final(buf) == *old(buf),
        r matches Drawn::Popup(hint) ==> {
            &&& hint == hint_part(area)
            &&& rows_rendered(
                *old(buf),
                *final(buf),
                list_part(area),
                rows@,
                *state,
                empty_message@,
                *truncate,
            )
        },
        is_sound(*old(buf)) ==> r == Drawn::Popup(hint_part(area)),
{
    let list = list_area_of(area);
    if buffer_is_sound(buf) {
        proof {
            lemma_sound_has_room(*buf, list, rows@, *state, empty_message@, *truncate);
        }
        return Drawn::Popup(render_popup(area, buf, rows, state, empty_message, truncate));
    }
    let lines = list_lines(list, rows, state, empty_message, truncate);
    let ghost drawn = placed(list, rows@.len(), lines@);
    assert(drawn.len() == lines@.len());
    if lines_can_be_painted(list, buf, rows.len(), &lines) {
        draw_lines(list, buf, rows.len(), &lines);
        Drawn::Popup(hint_area_of(area))
    } else {
        Drawn::Impossible
    }
}

/// The rows and the footer stay in the popup, off its left inset, and a free row
/// lies between them.
pub proof fn law_parts_of_popup(area: Area, x: int, y: int)
    requires
        fits(area),
        area.x + LEFT_INSET <= u16::MAX || area.width <= LEFT_INSET || area.height == 0,
    ensures
        list_part(area).covers(x, y) ==> area.covers(x, y) && x >= area.x + LEFT_INSET,
        hint_part(area) matches Some(hint) ==> {
            &&& hint.covers(x, y) ==> area.covers(x, y) && x >= area.x + LEFT_INSET
            &&& hint.covers(x, y) ==> y == area.y + area.height - 1
            &&& list_part(area).covers(x, y) ==> y < area.y + area.height - 2
        },
{
}

/// A footer that is drawn in its part, whatever it shows, changes nothing that was
/// drawn for the rows, and the popup's surroundings, its left inset and the free
/// row above the footer stay as they were before either was drawn.
pub proof fn law_footer_changes_nothing_else<F: Fn(StyledLine, usize) -> StyledLine>(
    before: Buffer,
    listed: Buffer,
    after: Buffer,
    area: Area,
    hint: Area,
    rows: Seq<SearchResult>,
    state: ScrollState,
    empty_message: Seq<char>,
    truncate: F,
    x: int,
    y: int,
)
    requires
        fits(area),
        hint_part(area) == Some(hint),
        rows_rendered(before, listed, list_part(area), rows, state, empty_message, truncate),
        same_outside(listed, after, hint),
        buffer_area(before).covers(x, y),
    ensures
        !hint.covers(x, y) ==> cell_at(after, x, y) == cell_at(listed, x, y),
        !area.covers(x, y) || x < area.x + LEFT_INSET || y == area.y + area.height - 2 ==> cell_at(
            after,
            x,
            y,
        ) == cell_at(before, x, y),
{
    law_parts_of_popup(area, x, y);
    assert(!hint.covers(x, y) ==> cell_at(after, x, y) == cell_at(listed, x, y));
    assert(!list_part(area).covers(x, y) ==> cell_at(listed, x, y) == cell_at(before, x, y));
}

/// Whether `after` is `listed` with a footer drawn in its part of a popup, where
/// there is room for one.
pub open spec fn footer_drawn(listed: Buffer, after: Buffer, area: Area) -> bool {
    match hint_part(area) {
        Some(hint) => same_outside(listed, after, hint),
        None => after == listed,
    }
}

/// Whether `after` is `before` with a popup drawn: its rows, and then its footer.
pub open spec fn popup_drawn<F: Fn(StyledLine, usize) -> StyledLine>(
    before: Buffer,
    after: Buffer,
    area: Area,
    rows: Seq<SearchResult>,
    state: ScrollState,
    empty_message: Seq<char>,
    truncate: F,
) -> bool {
    exists|listed: Buffer|
        rows_rendered(before, listed, list_part(area), rows, state, empty_message, truncate)
            && #[trigger] footer_drawn(listed, after, area)
}

/// Two popups that differ in nothing but what their footers show differ in nothing
/// but the line of the footer, and not at all where there is no room for one, as
/// long as equal lines are cut to equal lines.
pub proof fn law_footers_differ_on_their_line_only<F: Fn(StyledLine, usize) -> StyledLine>(
    before: Buffer,
    after: Buffer,
    other: Buffer,
    area: Area,
    rows: Seq<SearchResult>,
    state: ScrollState,
    empty_message: Seq<char>,
    truncate: F,
    x: int,
    y: int,
)
    requires
        fits(area),
        cuts_alike(truncate, list_part(area).width),
        popup_drawn(before, after, area, rows, state, empty_message, truncate),
        popup_drawn(before, other, area, rows, state, empty_message, truncate),
        buffer_area(before).covers(x, y),
    ensures
        buffer_area(after) == buffer_area(other),
        y != area.y + area.height - 1 ==> cell_at(after, x, y) == cell_at(other, x, y),
        area.height <= 2 ==> buffer_cells(after) == buffer_cells(other),
{
    let one = choose|listed: Buffer|
        rows_rendered(before, listed, list_part(area), rows, state, empty_message, truncate)
            && #[trigger] footer_drawn(listed, after, area);
    let two = choose|listed: Buffer|
        rows_rendered(before, listed, list_part(area), rows, state, empty_message, truncate)
            && #[trigger] footer_drawn(listed, other, area);
    law_drawing_is_repeatable(
        before,
        one,
        two,
        list_part(area),
        rows,
        state,
        empty_message,
        truncate,
    );
    assert(cell_at(one, x, y) == cell_at(two, x, y));
    if let Some(hint) = hint_part(area) {
        if y != area.y + area.height - 1 {
            assert(!hint.covers(x, y));
            assert(cell_at(after, x, y) == cell_at(one, x, y));
            assert(cell_at(other, x, y) == cell_at(two, x, y));
        }
    }
}

/// The rows that are drawn lie in the area of the list, each below the one
/// before.
pub proof fn law_rows_stay_in_area<F: Fn(StyledLine, usize) -> StyledLine>(
    drawn: Seq<Placed>,
    area: Area,
    rows: Seq<SearchResult>,
    state: ScrollState,
    empty_message: Seq<char>,
    truncate: F,
    k: int,
)
    requires
        draws_rows(drawn, area, rows, state, empty_message, truncate),
        0 < rows.len() <= usize::MAX,
        area.y + area.height <= u16::MAX,
        0 <= k < drawn.len(),
    ensures
        area.encloses(drawn[k].area),
        drawn[k].area.y == area.y + k,
        drawn[k].area.height == 1,
        drawn[k].area.width == area.width,
{
}

/// The selected row is drawn on one line, as selected, and every other line shows
/// another row as one that is not.
pub proof fn law_selected_row_is_drawn_once<F: Fn(StyledLine, usize) -> StyledLine>(
    drawn: Seq<Placed>,
    area: Area,
    rows: Seq<SearchResult>,
    state: ScrollState,
    empty_message: Seq<char>,
    truncate: F,
    selected: usize,
) -> (at: int)
    requires
        draws_rows(drawn, area, rows, state, empty_message, truncate),
        area.height > 0,
        rows.len() <= usize::MAX,
        state.selected_idx == Some(selected),
        selected < rows.len(),
    ensures
        0 <= at < drawn.len(),
        is_cut_line(
            truncate,
            line_view(rows[selected as int], true),
            area.width,
            drawn[at].line,
        ),
        forall|k: int|
            0 <= k < drawn.len() && k != at ==> {
                let idx = selected + k - at;
                &&& 0 <= idx < rows.len()
                &&& is_cut_line(
                    truncate,
                    line_view(rows[idx], false),
                    area.width,
                    (#[trigger] drawn[k]).line,
                )
            },
{
    let window = window_of(rows.len() as int, area.height as int, state);
    law_selected_row_is_shown(rows.len() as int, area.height as int, state, selected);
    let at = selected - window.first;
    assert(drawn[at].area == row_area(area, at));
    assert forall|k: int| 0 <= k < drawn.len() && k != at implies {
        let idx = selected + k - at;
        &&& 0 <= idx < rows.len()
        &&& is_cut_line(
            truncate,
            line_view(rows[idx], false),
            area.width,
            (#[trigger] drawn[k]).line,
        )
    } by {
        assert(drawn[k].area == row_area(area, k));
    }
    at
}

/// Drawing rows changes at most as many lines as there is room for, the topmost
/// ones of the area, and nothing outside the area.
pub proof fn law_only_topmost_lines_change<F: Fn(StyledLine, usize) -> StyledLine>(
    before: Buffer,
    after: Buffer,
    area: Area,
    rows: Seq<SearchResult>,
    state: ScrollState,
    empty_message: Seq<char>,
    truncate: F,
    x: int,
    y: int,
)
    requires
        rows_rendered(before, after, area, rows, state, empty_message, truncate),
        0 < rows.len() <= usize::MAX,
        buffer_area(before).covers(x, y),
    ensures
        lines_drawn(area, rows.len(), state) <= least(
            least(MAX_POPUP_ROWS as int, rows.len() as int),
            area.height as int,
        ),
        !area.covers(x, y) || y >= area.y + lines_drawn(area, rows.len(), state) ==> cell_at(
            after,
            x,
            y,
        ) == cell_at(before, x, y),
{
}

/// Without rows only the first line of the area changes, or where the buffer
/// begins below it the first line of the buffer, and how the list was scrolled,
/// what was selected and how lines are cut has no influence.
pub proof fn law_message_is_on_the_first_line<
    F: Fn(StyledLine, usize) -> StyledLine,
    G: Fn(StyledLine, usize) -> StyledLine,
>(
    before: Buffer,
    after: Buffer,
    other: Buffer,
    area: Area,
    state: ScrollState,
    other_state: ScrollState,
    empty_message: Seq<char>,
    truncate: F,
    other_truncate: G,
    x: int,
    y: int,
)
    requires
        area.height > 0,
        rows_rendered(before, after, area, Seq::empty(), state, empty_message, truncate),
        rows_rendered(
            before,
            other,
            area,
            Seq::empty(),
            other_state,
            empty_message,
            other_truncate,
        ),
        buffer_area(before).covers(x, y),
    ensures
        buffer_area(after) == buffer_area(before),
        buffer_cells(after) == painted(
            buffer_area(before),
            buffer_cells(before),
            area,
            message_line(empty_message),
        ),
        buffer_area(other) == buffer_area(after),
        buffer_cells(other) == buffer_cells(after),
        buffer_area(before).y <= area.y && y != area.y ==> cell_at(after, x, y) == cell_at(
            before,
            x,
            y,
        ),
        buffer_area(before).y > area.y && y != buffer_area(before).y ==> cell_at(after, x, y)
            == cell_at(before, x, y),
{
    lemma_message_painted(before, after, area, state, empty_message, truncate);
    lemma_message_painted(before, other, area, other_state, empty_message, other_truncate);
    assert(!may_change(buffer_area(before), area, 0, 1, x, y) ==> cell_at(after, x, y)
        == cell_at(before, x, y));
}

proof fn lemma_message_painted<F: Fn(StyledLine, usize) -> StyledLine>(
    before: Buffer,
    after: Buffer,
    area: Area,
    state: ScrollState,
    empty_message: Seq<char>,
    truncate: F,
)
    requires
        area.height > 0,
        rows_rendered(before, after, area, Seq::empty(), state, empty_message, truncate),
    ensures
        buffer_cells(after) == painted(
            buffer_area(before),
            buffer_cells(before),
            area,
            message_line(empty_message),
        ),
{
    let frame = buffer_area(before);
    let cells = buffer_cells(before);
    let drawn = choose|drawn: Seq<Placed>|
        draws_rows(drawn, area, Seq::empty(), state, empty_message, truncate) && buffer_cells(after)
            == #[trigger] paint_all(frame, cells, drawn);
    assert(drawn[0] == (Placed { area, line: message_line(empty_message) }));
    assert(drawn.drop_last() =~= Seq::<Placed>::empty());
    assert(paint_all(frame, cells, drawn.drop_last()) == cells);
}

/// Whether a function cuts equal lines to equal lines, for `width` columns.
pub open spec fn cuts_alike<F: Fn(StyledLine, usize) -> StyledLine>(
    truncate: F,
    width: u16,
) -> bool {
    forall|a: StyledLine, b: StyledLine, cut_a: StyledLine, cut_b: StyledLine|
        a@ == b@ && #[trigger] call_ensures(truncate, (a, width as usize), cut_a)
            && #[trigger] call_ensures(truncate, (b, width as usize), cut_b) ==> cut_a@ == cut_b@
}

/// Where equal lines are cut to equal lines, what is drawn is fixed by what is to
/// be drawn.
pub proof fn law_drawn_is_fixed<F: Fn(StyledLine, usize) -> StyledLine>(
    drawn: Seq<Placed>,
    other: Seq<Placed>,
    area: Area,
    rows: Seq<SearchResult>,
    state: ScrollState,
    empty_message: Seq<char>,
    truncate: F,
)
    requires
        draws_rows(drawn, area, rows, state, empty_message, truncate),
        draws_rows(other, area, rows, state, empty_message, truncate),
        cuts_alike(truncate, area.width),
    ensures
        drawn == other,
{
    assert forall|k: int| 0 <= k < drawn.len() implies drawn[k] == other[k] by {
        if rows.len() > 0 {
            assert(drawn[k].area == other[k].area);
            assert(drawn[k].line == other[k].line);
        }
    }
    assert(drawn =~= other);
}

/// Where equal lines are cut to equal lines, drawing the same rows on the same
/// buffer gives the same cells.
pub proof fn law_drawing_is_repeatable<F: Fn(StyledLine, usize) -> StyledLine>(
    before: Buffer,
    after: Buffer,
    other: Buffer,
    area: Area,
    rows: Seq<SearchResult>,
    state: ScrollState,
    empty_message: Seq<char>,
    truncate: F,
)
    requires
        rows_rendered(before, after, area, rows, state, empty_message, truncate),
        rows_rendered(before, other, area, rows, state, empty_message, truncate),
        cuts_alike(truncate, area.width),
    ensures
        buffer_area(after) == buffer_area(other),
        buffer_cells(after) == buffer_cells(other),
{
    let frame = buffer_area(before);
    let cells = buffer_cells(before);
    let one = choose|drawn: Seq<Placed>|
        draws_rows(drawn, area, rows, state, empty_message, truncate) && buffer_cells(after)
            == #[trigger] paint_all(frame, cells, drawn);
    let two = choose|drawn: Seq<Placed>|
        draws_rows(drawn, area, rows, state, empty_message, truncate) && buffer_cells(other)
            == #[trigger] paint_all(frame, cells, drawn);
    law_drawn_is_fixed(one, two, area, rows, state, empty_message, truncate);
}

/// A popup that is more than two rows high has a footer: its lowest row, without its
/// two leftmost columns. A lower popup has none.
pub proof fn law_high_popups_have_a_footer(area: Area)
    requires
        area.height > 2 ==> area.x + 2 <= u16::MAX && area.y + area.height <= u16::MAX,
    ensures
        fits(area),
        area.height <= 2 ==> hint_part(area) is None,
        area.height > 2 ==> (hint_part(area) matches Some(hint) && {
            &&& hint.x == area.x + 2
            &&& hint.y == area.y + area.height - 1
            &&& hint.height == 1
            &&& area.width >= 2 ==> hint.width == area.width - 2
            &&& area.width < 2 ==> hint.width == 0
        }),
{
}

/// A popup does not fit if and only if it has a footer whose positions are beyond
/// the numbers that count them.
pub proof fn law_popups_that_do_not_fit(area: Area)
    ensures
        !fits(area) <==> area.height > 2 && (area.x + 2 > 65535 || area.y + area.height > 65535),
{
}

/// The list takes all of a popup but its two leftmost columns, and but its two lowest
/// rows where the popup is more than two rows high.
pub proof fn law_list_fills_the_popup(area: Area, x: int, y: int)
    ensures
        area.x + 2 <= 65535 ==> list_part(area).x == area.x + 2,
        area.x + 2 > 65535 ==> list_part(area).x == 65535,
        list_part(area).y == area.y,
        area.width >= 2 ==> list_part(area).width == area.width - 2,
        area.width < 2 ==> list_part(area).width == 0,
        area.height > 2 ==> list_part(area).height == area.height - 2,
        area.height <= 2 ==> list_part(area).height == area.height,
        area.x + 2 <= 65535 ==> (list_part(area).covers(x, y) <==> {
            &&& area.covers(x, y)
            &&& x >= area.x + 2
            &&& area.height > 2 ==> y < area.y + area.height - 2
        }),
{
}

/// A list shows as many rows as it has, as its area is high and as eight, whichever is
/// the least, and one in an area without height. It shows them from the row on that it
/// is scrolled to, or its last row where it is scrolled beyond it; it is moved for a
/// selected row that would not be shown, up until that is the first one shown, or down
/// until it is the last one.
pub proof fn law_window(rows: int, height: int, state: ScrollState)
    requires
        0 < rows <= usize::MAX,
        0 <= height,
    ensures
        ({
            let window = window_of(rows, height, state);
            let high = if height > 0 {
                height
            } else {
                1
            };
            let room = window.room as int;
            let first = window.first as int;
            let top = if state.scroll_top < rows {
                state.scroll_top as int
            } else {
                rows - 1
            };
            &&& room <= 8 && room <= rows && room <= high
            &&& room == 8 || room == rows || room == high
            &&& state.selected_idx is None ==> first == top
            &&& state.selected_idx matches Some(s) ==> {
                &&& s < top ==> first == s
                &&& top <= s <= top + room - 1 ==> first == top
                &&& s > top + room - 1 ==> first + room - 1 == s
            }
        }),
{
}

/// An area without height shows nothing, a list without rows the message, and any other
/// list as many rows as there is room for from the first one shown on, as far as there
/// are so many.
pub proof fn law_lines_drawn(area: Area, rows: nat, state: ScrollState)
    requires
        rows <= usize::MAX,
    ensures
        area.height == 0 ==> lines_drawn(area, rows, state) == 0,
        area.height > 0 && rows == 0 ==> lines_drawn(area, rows, state) == 1,
        area.height > 0 && rows > 0 ==> {
            let window = window_of(rows as int, area.height as int, state);
            let shown = lines_drawn(area, rows, state);
            &&& window.first >= rows ==> shown == 0
            &&& window.first < rows && window.first + window.room <= rows ==> shown == window.room
            &&& window.first < rows && window.first + window.room > rows ==> window.first + shown
                == rows
        },
{
}

/// What is drawn for a list: for each row that is shown, from the first one on, what
/// the given function makes of its line for the width of the area, with the row
/// selected if it is the selected one; each on a line of its own, from the upper side
/// of the area on, over its whole width.
pub proof fn law_rows_are_drawn_line_by_line<F: Fn(StyledLine, usize) -> StyledLine>(
    drawn: Seq<Placed>,
    area: Area,
    rows: Seq<SearchResult>,
    state: ScrollState,
    empty_message: Seq<char>,
    truncate: F,
    k: int,
)
    requires
        draws_rows(drawn, area, rows, state, empty_message, truncate),
        0 < rows.len() <= usize::MAX,
        area.height > 0,
        area.y + area.height <= u16::MAX,
    ensures
        drawn.len() == lines_drawn(area, rows.len(), state),
        0 <= k < drawn.len() ==> {
            let idx = window_of(rows.len() as int, area.height as int, state).first + k;
            &&& 0 <= idx < rows.len()
            &&& drawn[k].area.x == area.x
            &&& drawn[k].area.y == area.y + k
            &&& drawn[k].area.width == area.width
            &&& drawn[k].area.height == 1
            &&& exists|built: StyledLine, cut: StyledLine|
                #[trigger] call_ensures(truncate, (built, area.width as usize), cut) && cut@
                    == drawn[k].line && built@ == line_view(
                    rows[idx],
                    state.selected_idx == Some(idx as usize),
                )
        },
{
    if 0 <= k < drawn.len() {
        assert(drawn[k].area == row_area(area, k));
    }
}

/// What is drawn without rows: the message, in italics, in the area as a whole; and
/// nothing in an area without height.
pub proof fn law_message_is_drawn<F: Fn(StyledLine, usize) -> StyledLine>(
    drawn: Seq<Placed>,
    area: Area,
    rows: Seq<SearchResult>,
    state: ScrollState,
    empty_message: Seq<char>,
    truncate: F,
)
    requires
        draws_rows(drawn, area, rows, state, empty_message, truncate),
    ensures
        area.height == 0 ==> drawn.len() == 0,
        area.height > 0 && rows.len() == 0 ==> {
            &&& drawn.len() == 1
            &&& drawn[0].area == area
            &&& drawn[0].line.len() == 1
            &&& drawn[0].line[0].text == empty_message
            &&& drawn[0].line[0].style == (TextStyle { color: None, modifiers: 4 })
        },
{
    assert(0u16 | 4 == 4) by (bit_vector);
    if area.height > 0 && rows.len() == 0 {
        assert(drawn[0] == (Placed { area, line: message_line(empty_message) }));
    }
}

/// Lines are drawn one after the other, each on what the ones before have left.
pub proof fn law_lines_are_drawn_in_order(
    frame: Area,
    cells: Seq<CellView>,
    drawn: Seq<Placed>,
    next: Placed,
)
    ensures
        paint_all(frame, cells, Seq::empty()) == cells,
        paint_all(frame, cells, drawn.push(next)) == painted(
            frame,
            paint_all(frame, cells, drawn),
            next.area,
            next.line,
        ),
{
    assert(drawn.push(next).drop_last() == drawn);
}

/// A list that was drawn on a buffer has left the cells that its lines leave when they
/// are drawn one after the other, has kept the buffer's rectangle and its number of
/// cells, and has changed nothing outside its area, nothing below its lines, and
/// nothing at all where it has none.
pub proof fn law_rendering<F: Fn(StyledLine, usize) -> StyledLine>(
    before: Buffer,
    after: Buffer,
    area: Area,
    rows: Seq<SearchResult>,
    state: ScrollState,
    empty_message: Seq<char>,
    truncate: F,
    x: int,
    y: int,
) -> (drawn: Seq<Placed>)
    requires
        rows_rendered(before, after, area, rows, state, empty_message, truncate),
    ensures
        draws_rows(drawn, area, rows, state, empty_message, truncate),
        buffer_cells(after) == paint_all(buffer_area(before), buffer_cells(before), drawn),
        buffer_area(after) == buffer_area(before),
        buffer_cells(after).len() == buffer_cells(before).len(),
        drawn.len() == 0 ==> after == before,
        buffer_area(before).covers(x, y) && !area.covers(x, y) ==> cell_at(after, x, y) == cell_at(
            before,
            x,
            y,
        ),
        buffer_area(before).covers(x, y) && rows.len() > 0 && y >= area.y + drawn.len() ==> cell_at(
            after,
            x,
            y,
        ) == cell_at(before, x, y),
        buffer_area(before).covers(x, y) && rows.len() == 0 && buffer_area(before).y <= area.y && y
            != area.y ==> cell_at(after, x, y) == cell_at(before, x, y),
{
    choose|drawn: Seq<Placed>|
        draws_rows(drawn, area, rows, state, empty_message, truncate) && buffer_cells(after)
            == #[trigger] paint_all(buffer_area(before), buffer_cells(before), drawn)
}

/// Nothing is asked of what is not drawn. Of a message that is drawn it is asked to be
/// within the bound, and of a list that is drawn that its area ends before row 65536 and
/// that the given function takes each line that is shown and makes of it one within the
/// bound.
pub proof fn law_what_can_be_drawn<F: Fn(StyledLine, usize) -> StyledLine>(
    area: Area,
    rows: Seq<SearchResult>,
    state: ScrollState,
    empty_message: Seq<char>,
    truncate: F,
)
    requires
        rows.len() <= usize::MAX,
    ensures
        lines_drawn(area, rows.len(), state) == 0 ==> can_draw(
            area,
            rows,
            state,
            empty_message,
            truncate,
        ),
        area.height > 0 && rows.len() == 0 ==> (can_draw(area, rows, state, empty_message, truncate)
            <==> is_drawable_text(empty_message)),
        rows.len() > 0 && area.y + area.height <= 65535 && (forall|i: int, selected: bool, built:
            StyledLine|
            0 <= i < rows.len() && built@ == #[trigger] line_view(rows[i], selected)
                ==> #[trigger] call_requires(truncate, (built, area.width as usize))) && (forall|
            i: int,
            selected: bool,
            built: StyledLine,
            cut: StyledLine,
        |
            0 <= i < rows.len() && built@ == #[trigger] line_view(rows[i], selected)
                && #[trigger] call_ensures(truncate, (built, area.width as usize), cut)
                ==> is_drawable(cut@)) ==> can_draw(area, rows, state, empty_message, truncate),
{
}

/// Some lines can all be drawn on a buffer if and only if each of them can be, in its
/// place.
pub proof fn law_all_lines_can_be_drawn(
    frame: Area,
    count: nat,
    drawn: Seq<Placed>,
    next: Placed,
)
    ensures
        can_paint_all(frame, count, Seq::empty()),
        can_paint_all(frame, count, drawn.push(next)) <==> can_paint_all(frame, count, drawn)
            && can_paint(frame, count, next.area, next.line),
{
    let all = drawn.push(next);
    if can_paint_all(frame, count, all) {
        assert(all[drawn.len() as int] == next);
        assert forall|k: int| 0 <= k < drawn.len() implies can_paint(
            frame,
            count,
            (#[trigger] drawn[k]).area,
            drawn[k].line,
        ) by {
            assert(all[k] == drawn[k]);
        }
    }
}

/// A buffer has room for a list if and only if, whatever may be drawn for it, all lines
/// of that can be drawn.
pub proof fn law_room_for_a_list<F: Fn(StyledLine, usize) -> StyledLine>(
    frame: Area,
    count: nat,
    area: Area,
    rows: Seq<SearchResult>,
    state: ScrollState,
    empty_message: Seq<char>,
    truncate: F,
)
    ensures
        has_room(frame, count, area, rows, state, empty_message, truncate) <==> forall|
            drawn: Seq<Placed>,
        |
            #[trigger] draws_rows(drawn, area, rows, state, empty_message, truncate)
                ==> can_paint_all(frame, count, drawn),
{
}

} // verus!
