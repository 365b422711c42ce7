//! The candidates of the mention popup, and the lines that show them.

use vstd::prelude::*;

use crate::style::{
    lemma_line_text_concat, lemma_line_text_one, line_text, plain, span_views, SpanView,
    StyledLine, StyledSpan, TextColor, TextStyle, BOLD, DIM,
};

verus! {

/// What kind of thing a candidate is.
#[derive(Clone, Copy, Debug, PartialEq, Eq, Structural)]
pub enum MentionType {
    File,
    Other,
}

/// What is inserted where a candidate is chosen.
pub enum Selection {
    File(String),
    Tool { insert_text: String },
}

/// How the kind of a candidate is shown, in an ordinary row and in the selected
/// one.
pub struct TypeLabel {
    pub ordinary: StyledSpan,
    pub selected: StyledSpan,
}

/// A candidate.
pub struct SearchResult {
    pub display_name: String,
    pub description: Option<String>,
    pub mention_type: MentionType,
    pub label: TypeLabel,
    pub selection: Selection,
    /// The positions of the characters of the name that match the search.
    pub match_indices: Option<Vec<usize>>,
}

/// Whether a character parts the names in a path.
pub open spec fn is_separator(c: char) -> bool {
    c == '/' || c == '\\'
}

/// Whether a candidate is shown as a path.
pub open spec fn shows_path(row: SearchResult) -> bool {
    row.selection is File && row.mention_type == MentionType::File
}

/// How many characters a path takes up to and with its last separator.
pub open spec fn after_last_separator(path: Seq<char>) -> nat
    decreases path.len(),
{
    if path.len() == 0 || is_separator(path.last()) {
        path.len()
    } else {
        after_last_separator(path.drop_last())
    }
}

/// Where the file name of a path begins; a candidate that is no path has none,
/// and it begins past every character.
pub open spec fn name_start(row: SearchResult) -> int {
    if shows_path(row) {
        after_last_separator(row.display_name@) as int
    } else {
        usize::MAX as int
    }
}

/// The position in `row.display_name` at which its file name begins.
pub fn file_name_start(row: &SearchResult) -> (r: usize)
    ensures
        r == name_start(*row),
{
    match &row.selection {
        Selection::File(_) => {
            if row.mention_type == MentionType::File {
                let name = row.display_name.as_str();
                let mut n: usize = name.unicode_len();
                assert(name@.take(n as int) == name@);
                while n > 0 && !(name.get_char(n - 1) == '/' || name.get_char(n - 1) == '\\')
                    invariant
                        n <= name@.len(),
                        after_last_separator(name@) == after_last_separator(name@.take(n as int)),
                    decreases n,
                {
                    assert(name@.take(n as int).drop_last() == name@.take(n - 1));
                    n = n - 1;
                }
                n
            } else {
                usize::MAX
            }
        },
        Selection::Tool { .. } => usize::MAX,
    }
}

/// What the start of the file name is: nothing after it parts names, and it is
/// at the beginning or behind a separator.
pub proof fn law_file_name_start(path: Seq<char>)
    ensures
        after_last_separator(path) <= path.len(),
        forall|i: int| after_last_separator(path) <= i < path.len() ==> !is_separator(path[i]),
        after_last_separator(path) > 0 ==> is_separator(path[after_last_separator(path) - 1]),
    decreases path.len(),
{
    if path.len() > 0 && !is_separator(path.last()) {
        law_file_name_start(path.drop_last());
        assert forall|i: int| after_last_separator(path) <= i < path.len() implies !is_separator(
            path[i],
        ) by {
            if i < path.len() - 1 {
                assert(path.drop_last()[i] == path[i]);
            }
        }
    }
}

/// How many of the match positions lie behind after `n` characters. They are
/// taken in their order, each where its character comes.
pub open spec fn matches_taken(indices: Seq<usize>, n: nat) -> nat
    decreases n,
{
    if n == 0 {
        0
    } else {
        let before = matches_taken(indices, (n - 1) as nat);
        if before < indices.len() && indices[before as int] == n - 1 {
            before + 1
        } else {
            before
        }
    }
}

/// Whether character `i` is shown as a match: whether its position is the next
/// one when it comes.
pub open spec fn is_match(indices: Seq<usize>, i: int) -> bool {
    let taken = matches_taken(indices, i as nat);
    taken < indices.len() && indices[taken as int] == i
}

/// The style of character `i` of a name whose file name begins at `start`.
pub open spec fn char_style(
    base_style: TextStyle,
    start: int,
    indices: Seq<usize>,
    i: int,
) -> TextStyle {
    let colored = if i >= start {
        base_style.in_cyan()
    } else {
        base_style
    };
    if is_match(indices, i) {
        colored.with(BOLD)
    } else {
        colored
    }
}

/// The spans of a name.
pub open spec fn name_view(row: SearchResult, base_style: TextStyle) -> Seq<SpanView> {
    let name = row.display_name@;
    let start = name_start(row);
    match row.match_indices {
        Some(indices) => Seq::new(
            name.len(),
            |i: int|
                SpanView {
                    text: seq![name[i]],
                    style: char_style(base_style, start, indices@, i),
                },
        ),
        None => if start == 0 {
            seq![SpanView { text: name, style: base_style.in_cyan() }]
        } else if start != usize::MAX {
            seq![
                SpanView { text: name.take(start), style: base_style },
                SpanView { text: name.skip(start), style: base_style.in_cyan() },
            ]
        } else {
            seq![SpanView { text: name, style: base_style }]
        },
    }
}

/// The spans of a name: its file name in cyan, and the characters that match the
/// search in bold.
pub fn name_spans(row: &SearchResult, base_style: TextStyle) -> (r: Vec<StyledSpan>)
    ensures
        span_views(r@) == name_view(*row, base_style),
{
    let mut spans: Vec<StyledSpan> = Vec::new();
    let start: usize = file_name_start(row);
    let name = row.display_name.as_str();
    let len: usize = name.unicode_len();
    match &row.match_indices {
        Some(indices) => {
            let mut taken: usize = 0;
            let mut i: usize = 0;
            while i < len
                invariant
                    i <= len,
                    len == name@.len(),
                    taken == matches_taken(indices@, i as nat),
                    taken <= indices@.len(),
                    spans@.len() == i,
                    forall|j: int|
                        0 <= j < i ==> (#[trigger] spans@[j])@ == (SpanView {
                            text: seq![name@[j]],
                            style: char_style(base_style, start as int, indices@, j),
                        }),
                decreases len - i,
            {
                let mut style = base_style;
                if i >= start {
                    style = style.cyan();
                }
                if taken < indices.len() && indices[taken] == i {
                    taken = taken + 1;
                    style = style.modified(BOLD);
                }
                let ch = name.substring_char(i, i + 1);
                assert(ch@ == seq![name@[i as int]]);
                spans.push(StyledSpan::new(ch, style));
                i = i + 1;
            }
            assert(span_views(spans@) =~= name_view(*row, base_style));
        },
        None => {
            if start == 0 {
                spans.push(StyledSpan::new(name, base_style.cyan()));
            } else if start != usize::MAX {
                proof {
                    law_file_name_start(name@);
                    assert(name@.subrange(0, start as int) == name@.take(start as int));
                    assert(name@.subrange(start as int, len as int) == name@.skip(start as int));
                }
                spans.push(StyledSpan::new(name.substring_char(0, start), base_style));
                spans.push(StyledSpan::new(name.substring_char(start, len), base_style.cyan()));
            } else {
                spans.push(StyledSpan::new(name, base_style));
            }
            assert(span_views(spans@) =~= name_view(*row, base_style));
        },
    }
    spans
}

/// The style of a row's name: bold in the selected row.
pub open spec fn base_style(selected: bool) -> TextStyle {
    if selected {
        plain().with(BOLD)
    } else {
        plain()
    }
}

/// The style of what goes with the name: dim, but bold in the selected row.
pub open spec fn side_style(selected: bool) -> TextStyle {
    if selected {
        plain().with(BOLD)
    } else {
        plain().with(DIM)
    }
}

/// The label of a row's kind.
pub open spec fn label_view(row: SearchResult, selected: bool) -> SpanView {
    if selected {
        row.label.selected@
    } else {
        row.label.ordinary@
    }
}

/// What follows the name: a description, unless it is empty.
pub open spec fn description_view(row: SearchResult, selected: bool) -> Seq<SpanView> {
    match row.description {
        Some(description) => if description@.len() > 0 {
            seq![
                SpanView { text: "  "@, style: side_style(selected) },
                SpanView { text: description@, style: side_style(selected) },
            ]
        } else {
            seq![]
        },
        None => seq![],
    }
}

/// The line of a row: the label of its kind, its name, and its description.
pub open spec fn line_view(row: SearchResult, selected: bool) -> Seq<SpanView> {
    seq![label_view(row, selected), SpanView { text: "  "@, style: side_style(selected) }]
        + name_view(row, base_style(selected)) + description_view(row, selected)
}

/// The line of a row.
pub fn build_line(row: &SearchResult, selected: bool) -> (r: StyledLine)
    ensures
        r@ == line_view(*row, selected),
{
    let base_style: TextStyle = if selected {
        TextStyle::plain().modified(BOLD)
    } else {
        TextStyle::plain()
    };
    let dim_style: TextStyle = if selected {
        TextStyle::plain().modified(BOLD)
    } else {
        TextStyle::plain().modified(DIM)
    };
    let mut spans: Vec<StyledSpan> = Vec::new();
    spans.push(
        if selected {
            row.label.selected.copy()
        } else {
            row.label.ordinary.copy()
        },
    );
    spans.push(StyledSpan::new("  ", dim_style));
    let mut name = name_spans(row, base_style);
    spans.append(&mut name);
    match &row.description {
        Some(description) => {
            if !description.as_str().is_empty() {
                spans.push(StyledSpan::new("  ", dim_style));
                spans.push(StyledSpan::new(description.as_str(), dim_style));
            }
        },
        None => {},
    }
    let r = StyledLine { spans };
    assert(r@ =~= line_view(*row, selected));
    r
}

/// Whether match positions are in ascending order, without repetition.
pub open spec fn ascending(indices: Seq<usize>) -> bool {
    forall|i: int, j: int| 0 <= i < j < indices.len() ==> indices[i] < indices[j]
}

proof fn lemma_matches_taken(indices: Seq<usize>, n: nat)
    requires
        ascending(indices),
    ensures
        matches_taken(indices, n) <= indices.len(),
        forall|k: int| 0 <= k < matches_taken(indices, n) ==> indices[k] < n,
        forall|k: int| matches_taken(indices, n) <= k < indices.len() ==> indices[k] >= n,
    decreases n,
{
    if n > 0 {
        let before = matches_taken(indices, (n - 1) as nat);
        lemma_matches_taken(indices, (n - 1) as nat);
        assert forall|k: int| matches_taken(indices, n) <= k < indices.len() implies indices[k]
            >= n by {
            if before < k {
                assert(indices[before as int] < indices[k]);
            }
        }
    }
}

/// Where the match positions ascend, a character is shown as a match if and only
/// if its position is one of them.
pub proof fn law_ascending_matches_are_shown(indices: Seq<usize>, i: usize)
    requires
        ascending(indices),
    ensures
        is_match(indices, i as int) <==> indices.contains(i),
{
    lemma_matches_taken(indices, i as nat);
    let taken = matches_taken(indices, i as nat) as int;
    if indices.contains(i) {
        let k = choose|k: int| 0 <= k < indices.len() && indices[k] == i;
        assert(taken <= k);
        if taken < k {
            assert(indices[taken] < indices[k]);
        }
    }
}

/// The spans of a name spell the name.
pub proof fn law_name_is_spelled_out(row: SearchResult, base_style: TextStyle)
    ensures
        line_text(name_view(row, base_style)) == row.display_name@,
{
    let name = row.display_name@;
    let spans = name_view(row, base_style);
    match row.match_indices {
        Some(indices) => {
            lemma_single_chars(name, spans, name.len());
            assert(spans.take(name.len() as int) == spans);
            assert(name.take(name.len() as int) == name);
        },
        None => {
            let start = name_start(row);
            if start == 0 || start == usize::MAX {
                lemma_line_text_one(spans[0]);
                assert(spans == seq![spans[0]]);
            } else {
                law_file_name_start(name);
                lemma_line_text_one(spans[0]);
                lemma_line_text_one(spans[1]);
                lemma_line_text_concat(seq![spans[0]], seq![spans[1]]);
                assert(spans == seq![spans[0]] + seq![spans[1]]);
                assert(name.take(start) + name.skip(start) == name);
            }
        },
    }
}

proof fn lemma_single_chars(name: Seq<char>, spans: Seq<SpanView>, n: nat)
    requires
        spans.len() == name.len(),
        forall|i: int| 0 <= i < name.len() ==> (#[trigger] spans[i]).text == seq![name[i]],
        n <= name.len(),
    ensures
        line_text(spans.take(n as int)) == name.take(n as int),
    decreases n,
{
    if n > 0 {
        lemma_single_chars(name, spans, (n - 1) as nat);
        assert(spans.take(n as int).drop_last() == spans.take(n - 1));
        assert(spans.take(n as int).last() == spans[n - 1]);
        assert(name.take(n - 1) + seq![name[n - 1]] == name.take(n as int));
    }
}

/// A row reads: the label of its kind, its name, and its description where it has
/// one that is not empty, two spaces apart. Whether it is selected makes no
/// difference to that beyond the label.
pub proof fn law_line_reads(row: SearchResult, selected: bool)
    ensures
        line_text(line_view(row, selected)) == label_view(row, selected).text + "  "@
            + row.display_name@ + match row.description {
            Some(description) => if description@.len() > 0 {
                "  "@ + description@
            } else {
                Seq::empty()
            },
            None => Seq::empty(),
        },
{
    let head = seq![label_view(row, selected)];
    let gap = seq![SpanView { text: "  "@, style: side_style(selected) }];
    let name = name_view(row, base_style(selected));
    let tail = description_view(row, selected);
    assert(line_view(row, selected) == head + gap + name + tail);
    lemma_line_text_concat(head, gap);
    lemma_line_text_concat(head + gap, name);
    lemma_line_text_concat(head + gap + name, tail);
    lemma_line_text_one(head[0]);
    lemma_line_text_one(gap[0]);
    law_name_is_spelled_out(row, base_style(selected));
    if tail.len() > 0 {
        lemma_line_text_one(tail[0]);
        lemma_line_text_one(tail[1]);
        lemma_line_text_concat(seq![tail[0]], seq![tail[1]]);
        assert(tail == seq![tail[0]] + seq![tail[1]]);
    }
}

proof fn lemma_matches_taken_in_order(indices: Seq<usize>, n: nat)
    ensures
        matches_taken(indices, n) <= indices.len(),
        forall|a: int, b: int|
            0 <= a < b < matches_taken(indices, n) ==> indices[a] < indices[b],
        forall|a: int| 0 <= a < matches_taken(indices, n) ==> indices[a] < n,
        ({
            let t = matches_taken(indices, n) as int;
            t < indices.len() ==> indices[t] >= n || (t > 0 && indices[t] <= indices[t - 1])
        }),
    decreases n,
{
    if n > 0 {
        lemma_matches_taken_in_order(indices, (n - 1) as nat);
    }
}

/// Whatever the match positions are, a character is shown as a match if and only if
/// its position is one of them and the positions up to that one ascend.
pub proof fn law_matches_are_taken_in_order(indices: Seq<usize>, i: int)
    requires
        0 <= i,
    ensures
        is_match(indices, i) <==> exists|k: int|
            0 <= k < indices.len() && #[trigger] indices[k] == i && forall|a: int, b: int|
                0 <= a < b <= k ==> indices[a] < indices[b],
{
    lemma_matches_taken_in_order(indices, i as nat);
    let t = matches_taken(indices, i as nat) as int;
    if is_match(indices, i) {
        assert(indices[t] == i);
    }
    if exists|k: int|
        0 <= k < indices.len() && #[trigger] indices[k] == i && forall|a: int, b: int|
            0 <= a < b <= k ==> indices[a] < indices[b] {
        let k = choose|k: int|
            0 <= k < indices.len() && #[trigger] indices[k] == i && forall|a: int, b: int|
                0 <= a < b <= k ==> indices[a] < indices[b];
        if t < k {
            assert(indices[t] < indices[k]);
            if t > 0 {
                assert(indices[t - 1] < indices[t]);
            }
        }
    }
}

/// The file name of a path begins behind its last slash or backslash, and at the
/// beginning where it has none.
pub proof fn law_file_name_follows_the_last_slash(row: SearchResult, n: int)
    requires
        0 <= n <= row.display_name@.len() < usize::MAX,
        n > 0 ==> row.display_name@[n - 1] == '/' || row.display_name@[n - 1] == '\\',
        forall|i: int|
            n <= i < row.display_name@.len() ==> row.display_name@[i] != '/'
                && row.display_name@[i] != '\\',
    ensures
        row.selection is File && row.mention_type == MentionType::File ==> name_start(row) == n,
        !(row.selection is File && row.mention_type == MentionType::File) ==> name_start(row)
            == usize::MAX,
{
    law_file_name_start(row.display_name@);
    let start = after_last_separator(row.display_name@) as int;
    if start < n {
        assert(!is_separator(row.display_name@[n - 1]));
    }
    if n < start {
        assert(is_separator(row.display_name@[start - 1]));
    }
}

/// In a name with match positions every character has a span of its own. It is cyan
/// if it belongs to the file name of a path: if the candidate is a file and neither
/// a slash nor a backslash is at or behind the character. Its bits are those of the
/// style of the name, and the lowest one, which makes it bold, as well if it is
/// shown as a match: if its position is one of those given and the positions up to
/// that one ascend.
pub proof fn law_styles_of_matched_names(
    row: SearchResult,
    base_style: TextStyle,
    spans: Seq<StyledSpan>,
    indices: Vec<usize>,
    i: int,
)
    requires
        span_views(spans) == name_view(row, base_style),
        row.match_indices == Some(indices),
        0 <= i < row.display_name@.len() < usize::MAX,
    ensures
        spans.len() == row.display_name@.len(),
        spans[i].text@ == seq![row.display_name@[i]],
        spans[i].style.color == if row.selection is File && row.mention_type == MentionType::File
            && (forall|j: int|
            i <= j < row.display_name@.len() ==> row.display_name@[j] != '/'
                && row.display_name@[j] != '\\') {
            Some(TextColor::Cyan)
        } else {
            base_style.color
        },
        spans[i].style.modifiers == if exists|k: int|
            0 <= k < indices@.len() && #[trigger] indices@[k] == i && forall|a: int, b: int|
                0 <= a < b <= k ==> indices@[a] < indices@[b] {
            base_style.modifiers | 1
        } else {
            base_style.modifiers
        },
{
    let name = row.display_name@;
    assert(span_views(spans).len() == spans.len());
    assert(span_views(spans)[i] == spans[i]@);
    law_file_name_start(name);
    law_matches_are_taken_in_order(indices@, i);
    let start = after_last_separator(name) as int;
    if i < start {
        assert(is_separator(name[start - 1]));
        assert(i <= start - 1 < name.len());
        assert(name[start - 1] == '/' || name[start - 1] == '\\');
    } else {
        assert forall|j: int| i <= j < name.len() implies name[j] != '/' && name[j] != '\\' by {
            assert(!is_separator(name[j]));
        }
    }
}

/// Where the match positions ascend, a character of the name is bold if and only if
/// its position is one of them or all of the name is bold.
pub proof fn law_matches_are_bold(
    row: SearchResult,
    base_style: TextStyle,
    spans: Seq<StyledSpan>,
    indices: Vec<usize>,
    i: int,
)
    requires
        span_views(spans) == name_view(row, base_style),
        row.match_indices == Some(indices),
        forall|a: int, b: int| 0 <= a < b < indices@.len() ==> indices@[a] < indices@[b],
        0 <= i < row.display_name@.len() < usize::MAX,
    ensures
        spans[i].style.modifiers & 1 == 1 <==> indices@.contains(i as usize)
            || base_style.modifiers & 1 == 1,
{
    law_styles_of_matched_names(row, base_style, spans, indices, i);
    let m = base_style.modifiers;
    assert((m | 1) & 1 == 1) by (bit_vector);
    if indices@.contains(i as usize) {
        let k = choose|k: int| 0 <= k < indices@.len() && indices@[k] == i as usize;
        assert(indices@[k] == i);
    }
}

/// A name without match positions is one span where it is no path, in the style of
/// the name, and one in cyan where it is a path without a directory; else it is two,
/// the first up to the last slash or backslash and the second, in cyan, from there
/// on.
pub proof fn law_styles_of_plain_names(
    row: SearchResult,
    base_style: TextStyle,
    spans: Seq<StyledSpan>,
    n: int,
)
    requires
        span_views(spans) == name_view(row, base_style),
        row.match_indices is None,
        0 <= n <= row.display_name@.len() < usize::MAX,
        n > 0 ==> row.display_name@[n - 1] == '/' || row.display_name@[n - 1] == '\\',
        forall|i: int|
            n <= i < row.display_name@.len() ==> row.display_name@[i] != '/'
                && row.display_name@[i] != '\\',
    ensures
        !(row.selection is File && row.mention_type == MentionType::File) ==> spans.len() == 1
            && spans[0].text@ == row.display_name@ && spans[0].style == base_style,
        row.selection is File && row.mention_type == MentionType::File && n == 0 ==> {
            &&& spans.len() == 1
            &&& spans[0].text@ == row.display_name@
            &&& spans[0].style.color == Some(TextColor::Cyan)
            &&& spans[0].style.modifiers == base_style.modifiers
        },
        row.selection is File && row.mention_type == MentionType::File && n > 0 ==> {
            &&& spans.len() == 2
            &&& spans[0].text@ == row.display_name@.take(n)
            &&& spans[0].style == base_style
            &&& spans[1].text@ == row.display_name@.skip(n)
            &&& spans[1].style.color == Some(TextColor::Cyan)
            &&& spans[1].style.modifiers == base_style.modifiers
        },
{
    law_file_name_follows_the_last_slash(row, n);
    assert(span_views(spans).len() == spans.len());
    assert(span_views(spans)[0] == spans[0]@);
    if spans.len() > 1 {
        assert(span_views(spans)[1] == spans[1]@);
    }
}

/// The line of a row begins with the label of its kind, for a selected row or for
/// another one, and two spaces. Then comes its name, bold in the selected row. Where
/// it has a description that is not empty, two more spaces and the description
/// follow, and nothing else does. What is not the label or the name is bold in the
/// selected row and dim in another one.
pub proof fn law_line_of_a_row(row: SearchResult, selected: bool, line: Seq<StyledSpan>)
    requires
        span_views(line) == line_view(row, selected),
    ensures
        ({
            let side = TextStyle {
                color: None,
                modifiers: if selected {
                    1
                } else {
                    2
                },
            };
            let name = name_view(
                row,
                TextStyle {
                    color: None,
                    modifiers: if selected {
                        1
                    } else {
                        0
                    },
                },
            );
            let n = name.len() as int;
            let described = row.description matches Some(d) && d@.len() > 0;
            &&& line.len() == 2 + n + if described {
                2int
            } else {
                0
            }
            &&& selected ==> line[0].text@ == row.label.selected.text@ && line[0].style
                == row.label.selected.style
            &&& !selected ==> line[0].text@ == row.label.ordinary.text@ && line[0].style
                == row.label.ordinary.style
            &&& line[1].text@ == "  "@ && line[1].style == side
            &&& span_views(line.subrange(2, 2 + n)) == name
            &&& described ==> line[2 + n].text@ == "  "@ && line[2 + n].style == side && line[3
                + n].text@ == row.description->Some_0@ && line[3 + n].style == side
        }),
{
    let view = span_views(line);
    assert(0u16 | 1 == 1 && 0u16 | 2 == 2) by (bit_vector);
    let name = name_view(row, base_style(selected));
    let n = name.len() as int;
    assert(view.len() == line.len());
    assert(view[0] == line[0]@);
    assert(view[1] == line[1]@);
    assert(span_views(line.subrange(2, 2 + n)) =~= name) by {
        assert forall|k: int| 0 <= k < n implies line.subrange(2, 2 + n)[k]@ == name[k] by {
            assert(view[2 + k] == line[2 + k]@);
        }
    }
    if row.description matches Some(d) && d@.len() > 0 {
        assert(view[2 + n] == line[2 + n]@);
        assert(view[3 + n] == line[3 + n]@);
    }
}

} // verus!
