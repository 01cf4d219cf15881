//! The pure frame renderer: given a terminal size, a set of logs, and the
//! active input channel, it produces one full terminal frame and a cursor
//! placement.  It never blocks and touches no terminal itself.

use vstd::prelude::*;

verus! {

use crate::input::{Input, InputModel};
use crate::log::Log;
use crate::style;
use crate::text;

/// One fully rendered terminal screen: the text to write from the top-left
/// corner, and where to put the cursor (or to hide it).
pub struct Frame {
    /// The frame's text, row by row; content rows are exactly as wide as the
    /// terminal and wrap without separators.
    pub text: String,
    /// `Some((column, row))` to show the cursor there, `None` to hide it.
    pub cursor: Option<(usize, usize)>,
}

/// The column width of log `i` out of `count` in a terminal `columns` wide:
/// an even share, with the leftmost logs taking the remainder columns.
pub open spec fn width_at(count: int, columns: int, i: int) -> int {
    columns / count + if i < columns % count {
        1int
    } else {
        0int
    }
}

/// One boxed content cell: the slot text fitted to the cell's interior.
pub open spec fn framed_line(s: Seq<char>, width: int) -> Seq<char> {
    ("│ "@ + style::pad_of(s, width - 4, ' ')) + " │"@
}

/// The concatenation of a row's cells, left to right.
pub open spec fn cells_text(cells: Seq<Seq<char>>) -> Seq<char>
    decreases cells.len(),
{
    if cells.len() == 0 {
        Seq::empty()
    } else {
        cells[0] + cells_text(cells.drop_first())
    }
}

/// Appending a cell appends its text.
pub proof fn lemma_cells_text_push(cells: Seq<Seq<char>>, cell: Seq<char>)
    ensures
        cells_text(cells.push(cell)) == cells_text(cells) + cell,
    decreases cells.len(),
{
    if cells.len() == 0 {
        assert(cells.push(cell)[0] == cell);
        assert(cells.push(cell).drop_first() =~= Seq::<Seq<char>>::empty());
        assert(cells_text(cells.push(cell)) =~= cell + cells_text(Seq::<Seq<char>>::empty()));
        assert(cells_text(cells.push(cell)) =~= cells_text(cells) + cell);
    } else {
        assert(cells.push(cell).drop_first() =~= cells.drop_first().push(cell));
        lemma_cells_text_push(cells.drop_first(), cell);
        assert(cells.push(cell)[0] == cells[0]);
        assert(cells_text(cells.push(cell)) =~= cells_text(cells) + cell);
    }
}

/// A row of line-break-free cells concatenates to a line-break-free row.
pub proof fn lemma_cells_text_no_newline(cells: Seq<Seq<char>>)
    requires
        forall|j: int| 0 <= j < cells.len() ==> text::no_newline(#[trigger] cells[j]),
    ensures
        text::no_newline(cells_text(cells)),
    decreases cells.len(),
{
    if cells.len() > 0 {
        assert forall|j: int| 0 <= j < cells.drop_first().len() implies text::no_newline(
            #[trigger] cells.drop_first()[j],
        ) by {
            assert(cells.drop_first()[j] == cells[j + 1]);
        }
        lemma_cells_text_no_newline(cells.drop_first());
        text::lemma_no_newline_concat(cells[0], cells_text(cells.drop_first()));
    }
}

/// One content row of the frame: for each log its boxed cell, holding the
/// slot whose entries read oldest at the top of the pane.
pub open spec fn row_line(logs: Seq<&Log>, nrows: int, columns: int, row: int) -> Seq<char> {
    cells_text(
        Seq::new(
            logs.len(),
            |j: int|
                framed_line(logs[j].slots()[nrows - 1 - row], width_at(
                    logs.len() as int,
                    columns,
                    j,
                )),
        ),
    )
}

/// The frame's content rows from `row` down, concatenated without
/// separators: each row is exactly as wide as the terminal and wraps.
pub open spec fn content_text(logs: Seq<&Log>, nrows: int, columns: int, row: int) -> Seq<char>
    decreases nrows - row,
{
    if row < 0 || row >= nrows {
        Seq::empty()
    } else {
        row_line(logs, nrows, columns, row) + content_text(logs, nrows, columns, row + 1)
    }
}

/// Content made of line-break-free rows is line-break-free.
pub proof fn lemma_content_text_no_newline(logs: Seq<&Log>, nrows: int, columns: int, row: int)
    requires
        forall|rr: int|
            row <= rr < nrows ==> text::no_newline(#[trigger] row_line(logs, nrows, columns, rr)),
    ensures
        text::no_newline(content_text(logs, nrows, columns, row)),
    decreases nrows - row,
{
    if 0 <= row < nrows {
        lemma_content_text_no_newline(logs, nrows, columns, row + 1);
        text::lemma_no_newline_concat(
            row_line(logs, nrows, columns, row),
            content_text(logs, nrows, columns, row + 1),
        );
    }
}

/// One header cell: a top border around the log's bold-styled title tag,
/// adding no line break of its own.
pub open spec fn is_header_cell(cell: Seq<char>, title: Seq<char>, width: int) -> bool {
    exists|styled: Seq<char>|
        {
            &&& text::embeds_inline(styled, (" "@ + title) + " Log "@)
            &&& cell == ("╭"@ + style::pad_of(styled, width - 3, '─')) + "─╮"@
            &&& (text::no_newline(title) ==> text::no_newline(cell))
        }
}

/// The whole header row: one header cell per log, then a newline.
pub open spec fn is_header_row(r: Seq<char>, logs: Seq<&Log>, columns: int) -> bool {
    exists|cells: Seq<Seq<char>>|
        {
            &&& cells.len() == logs.len()
            &&& (forall|j: int|
                0 <= j < logs.len() ==> is_header_cell(
                    #[trigger] cells[j],
                    logs[j].title_text(),
                    width_at(logs.len() as int, columns, j),
                ))
            &&& r == cells_text(cells) + "\n"@
            &&& ((forall|j: int|
                0 <= j < logs.len() ==> text::no_newline(#[trigger] logs[j].title_text()))
                ==> text::no_newline(cells_text(cells)))
        }
}

/// One footer cell: a plain bottom border of the cell's width.
pub open spec fn footer_cell(width: int) -> Seq<char> {
    ("╰"@ + text::repeated('─', (width - 2) as nat)) + "╯"@
}

/// The whole footer row: one footer cell per log, then a newline.
pub open spec fn footer_row(count: int, columns: int) -> Seq<char> {
    cells_text(Seq::new(count as nat, |j: int| footer_cell(width_at(count, columns, j)))) + "\n"@
}

/// The footer cells hold no line break.
pub proof fn lemma_footer_cells_no_newline(count: int, columns: int)
    requires
        count >= 0,
    ensures
        text::no_newline(
            cells_text(Seq::new(count as nat, |j: int| footer_cell(width_at(count, columns, j)))),
        ),
{
    let cells = Seq::new(count as nat, |j: int| footer_cell(width_at(count, columns, j)));
    assert forall|j: int| 0 <= j < cells.len() implies text::no_newline(#[trigger] cells[j]) by {
        reveal_strlit("╰");
        reveal_strlit("╯");
        let w = width_at(count, columns, j);
        text::lemma_no_newline_concat("╰"@, text::repeated('─', (w - 2) as nat));
        text::lemma_no_newline_concat("╰"@ + text::repeated('─', (w - 2) as nat), "╯"@);
    }
    lemma_cells_text_no_newline(cells);
}

/// Five texts laid out as the frame's newline-separated rows: header,
/// content plus footer, and the input box's three rows.
pub open spec fn five_rows_shape(
    l1: Seq<char>,
    l2: Seq<char>,
    l3: Seq<char>,
    l4: Seq<char>,
    l5: Seq<char>,
) -> Seq<char> {
    let a1 = l1 + "\n"@;
    let a2 = a1 + l2;
    let a3 = a2 + "\n"@;
    let a4 = a3 + l3;
    let a5 = a4 + "\n"@;
    let a6 = a5 + l4;
    let a7 = a6 + "\n"@;
    a7 + l5
}

/// Is `t` exactly five rows — four line breaks — with no break inside any
/// row?
pub open spec fn frame_rows(t: Seq<char>) -> bool {
    exists|l1: Seq<char>, l2: Seq<char>, l3: Seq<char>, l4: Seq<char>, l5: Seq<char>|
        {
            &&& t == #[trigger] five_rows_shape(l1, l2, l3, l4, l5)
            &&& text::no_newline(l1)
            &&& text::no_newline(l2)
            &&& text::no_newline(l3)
            &&& text::no_newline(l4)
            &&& text::no_newline(l5)
        }
}

/// The input box title: the requester's identity while a request is active,
/// a neutral placeholder otherwise.
pub open spec fn input_title_text(m: InputModel) -> Seq<char> {
    if m.inputting {
        (" Input ("@ + m.requester) + ") "@
    } else {
        " Input "@
    }
}

/// The input box text assembled from a styled title and an interior line.
pub open spec fn input_box_shape(st: Seq<char>, inner: Seq<char>, columns: int) -> Seq<char> {
    let a1 = "╭"@ + style::pad_of(st, columns - 3, '─');
    let a2 = a1 + "─╮"@;
    let a3 = a2 + "\n"@;
    let a4 = a3 + "│ "@;
    let a5 = a4 + inner;
    let a6 = a5 + " │"@;
    let a7 = a6 + "\n"@;
    let a8 = a7 + "╰"@;
    let a9 = a8 + text::repeated('─', (columns - 2) as nat);
    a9 + "╯"@
}

/// Three texts laid out as newline-separated rows.
pub open spec fn three_rows_shape(r1: Seq<char>, r2: Seq<char>, r3: Seq<char>) -> Seq<char> {
    let a1 = r1 + "\n"@;
    let a2 = a1 + r2;
    let a3 = a2 + "\n"@;
    a3 + r3
}

/// Is `t` exactly three rows, each free of further line breaks?
pub open spec fn three_rows(t: Seq<char>) -> bool {
    exists|r1: Seq<char>, r2: Seq<char>, r3: Seq<char>|
        {
            &&& t == #[trigger] three_rows_shape(r1, r2, r3)
            &&& text::no_newline(r1)
            &&& text::no_newline(r2)
            &&& text::no_newline(r3)
        }
}

/// The three-line input box beneath the logs: a bold title in the top
/// border, then the prompt and buffer (or a dimmed filler when idle) fitted
/// to the full width, then a bottom border.
pub open spec fn is_input_box(r: Seq<char>, m: InputModel, columns: int) -> bool {
    exists|st: Seq<char>, inner: Seq<char>|
        {
            &&& r == #[trigger] input_box_shape(st, inner, columns)
            &&& text::embeds_inline(st, input_title_text(m))
            &&& (if m.inputting {
                exists|sp: Seq<char>|
                    text::embeds_inline(sp, m.prompt) && inner == style::pad_of(
                        sp + m.buffer,
                        columns - 4,
                        ' ',
                    )
            } else {
                text::embeds_inline(inner, text::repeated('/', (columns - 4) as nat))
            })
            &&& ((m.inputting ==> text::no_newline(m.requester) && text::no_newline(m.prompt)
                && text::no_newline(m.buffer)) ==> three_rows(r))
        }
}

/// How many content rows a terminal with `rows` rows shows: everything but
/// the five border and input rows, capped at the ring capacity.
pub open spec fn content_rows(rows: int) -> int {
    if rows - 5 <= 256 {
        rows - 5
    } else {
        256
    }
}

/// The stateless renderer.
pub struct Renderer;

impl Renderer {
    /// Partition `columns` across `count` logs: every log gets an even
    /// share, and the leftmost logs one extra column each until the
    /// remainder is spent.
    pub fn log_widths(&self, count: usize, columns: usize) -> (r: Vec<usize>)
        requires
            count >= 1,
        ensures
            r@.len() == count,
            forall|i: int| 0 <= i < count ==> r@[i] == width_at(count as int, columns as int, i),
    {
        let width_equal: usize = columns / count;
        let mut width_remainder: usize = columns % count;
        let mut widths: Vec<usize> = Vec::new();
        let mut i: usize = 0;
        while i < count
            invariant
                count >= 1,
                i <= count,
                width_equal == columns as int / count as int,
                width_remainder == if columns as int % count as int - i >= 0 {
                    columns as int % count as int - i
                } else {
                    0
                },
                widths@.len() == i,
                forall|j: int|
                    0 <= j < i ==> widths@[j] == width_at(count as int, columns as int, j),
            decreases count - i,
        {
            let mut log_size = width_equal;
            if width_remainder > 0 {
                proof {
                    let c = columns as int;
                    let k = count as int;
                    assert(k >= 2) by (nonlinear_arith)
                        requires
                            k >= 1,
                            c % k > 0,
                    ;
                    assert(c / k < c || c / k == 0) by (nonlinear_arith)
                        requires
                            k >= 2,
                            c >= 0,
                    ;
                }
                log_size = log_size + 1;
                width_remainder = width_remainder - 1;
            }
            widths.push(log_size);
            i = i + 1;
        }
        widths
    }

    /// The `rows` most recent entries of `log`, reading oldest at the top
    /// and most recent at the bottom, each boxed and fitted to a cell
    /// `columns` wide.
    pub fn log_lines(&self, log: &Log, rows: usize, columns: usize) -> (r: Vec<String>)
        requires
            log.wf(),
            rows <= 256,
            columns >= 4,
        ensures
            r@.len() == rows,
            forall|i: int|
                0 <= i < rows ==> #[trigger] r@[i]@ == framed_line(
                    log.slots()[rows - 1 - i],
                    columns as int,
                ),
            forall|i: int|
                0 <= i < rows && text::no_newline(log.slots()[rows - 1 - i]) ==> text::no_newline(
                    #[trigger] r@[i]@,
                ),
    {
        let peeked = log.recent_lines(rows);
        let mut r: Vec<String> = Vec::new();
        let mut i: usize = 0;
        while i < rows
            invariant
                i <= rows,
                rows <= 256,
                columns >= 4,
                peeked@.len() == rows,
                forall|k: int| 0 <= k < rows ==> #[trigger] peeked@[k]@ == log.slots()[k],
                r@.len() == i,
                forall|k: int|
                    0 <= k < i ==> #[trigger] r@[k]@ == framed_line(
                        log.slots()[rows - 1 - k],
                        columns as int,
                    ),
                forall|k: int|
                    0 <= k < i && text::no_newline(log.slots()[rows - 1 - k])
                        ==> text::no_newline(#[trigger] r@[k]@),
            decreases rows - i,
        {
            let padded = style::string_to_len(peeked[rows - 1 - i].as_str(), columns - 4, ' ');
            let mut v: Vec<char> = text::chars_of("│ ");
            text::push_str_chars(&mut v, padded.as_str());
            text::push_str_chars(&mut v, " │");
            let line = text::string_from_chars(&v);
            proof {
                assert(line@ == framed_line(log.slots()[rows - 1 - i], columns as int));
                if text::no_newline(log.slots()[rows - 1 - i]) {
                    reveal_strlit("│ ");
                    reveal_strlit(" │");
                    text::lemma_no_newline_concat("│ "@, padded@);
                    text::lemma_no_newline_concat("│ "@ + padded@, " │"@);
                    assert(text::no_newline(line@));
                }
            }
            r.push(line);
            i = i + 1;
        }
        r
    }

    /// All content rows: row `r` concatenates, left to right, each log's
    /// boxed cell for that row, the most recent entries at the bottom.
    pub fn all_log_lines(&self, logs: &Vec<&Log>, rows: usize, columns: usize) -> (r: Vec<String>)
        requires
            logs@.len() >= 1,
            forall|j: int| 0 <= j < logs@.len() ==> (#[trigger] logs@[j]).wf(),
            rows <= 256,
            columns as int / logs@.len() as int >= 4,
        ensures
            r@.len() == rows,
            forall|row: int|
                0 <= row < rows ==> #[trigger] r@[row]@ == row_line(
                    logs@,
                    rows as int,
                    columns as int,
                    row,
                ),
            (forall|j: int, k: int|
                0 <= j < logs@.len() && 0 <= k < rows ==> text::no_newline(
                    #[trigger] logs@[j].slots()[k],
                )) ==> (forall|row: int|
                0 <= row < rows ==> text::no_newline(#[trigger] r@[row]@)),
    {
        let ghost slots_ok = forall|j: int, k: int|
            0 <= j < logs@.len() && 0 <= k < rows ==> text::no_newline(
                #[trigger] logs@[j].slots()[k],
            );
        let count = logs.len();
        let widths = self.log_widths(count, columns);
        let mut r: Vec<String> = Vec::new();
        let mut row: usize = 0;
        while row < rows
            invariant
                row <= rows,
                rows <= 256,
                count == logs@.len() >= 1,
                columns as int / count as int >= 4,
                forall|j: int| 0 <= j < count ==> (#[trigger] logs@[j]).wf(),
                widths@.len() == count,
                forall|j: int|
                    0 <= j < count ==> widths@[j] == width_at(count as int, columns as int, j),
                r@.len() == row,
                forall|rr: int|
                    0 <= rr < row ==> #[trigger] r@[rr]@ == row_line(
                        logs@,
                        rows as int,
                        columns as int,
                        rr,
                    ),
                slots_ok == (forall|j: int, k: int|
                    0 <= j < logs@.len() && 0 <= k < rows ==> text::no_newline(
                        #[trigger] logs@[j].slots()[k],
                    )),
                slots_ok ==> (forall|rr: int|
                    0 <= rr < row ==> text::no_newline(#[trigger] r@[rr]@)),
            decreases rows - row,
        {
            let ghost cell_of = |j: int|
                framed_line(logs@[j].slots()[rows - 1 - row], width_at(
                    count as int,
                    columns as int,
                    j,
                ));
            let mut v: Vec<char> = Vec::new();
            let mut j: usize = 0;
            proof {
                assert(v@ =~= cells_text(Seq::new(0, cell_of)));
            }
            while j < count
                invariant
                    j <= count,
                    row < rows <= 256,
                    count == logs@.len() >= 1,
                    columns as int / count as int >= 4,
                    forall|k: int| 0 <= k < count ==> (#[trigger] logs@[k]).wf(),
                    widths@.len() == count,
                    forall|k: int|
                        0 <= k < count ==> widths@[k] == width_at(count as int, columns as int, k),
                    cell_of == (|k: int|
                        framed_line(logs@[k].slots()[rows - 1 - row], width_at(
                            count as int,
                            columns as int,
                            k,
                        ))),
                    v@ == cells_text(Seq::new(j as nat, cell_of)),
                    slots_ok == (forall|jj: int, k: int|
                        0 <= jj < logs@.len() && 0 <= k < rows ==> text::no_newline(
                            #[trigger] logs@[jj].slots()[k],
                        )),
                    slots_ok ==> text::no_newline(v@),
                decreases count - j,
            {
                let peeked = logs[j].recent_lines(rows);
                let padded = style::string_to_len(
                    peeked[rows - 1 - row].as_str(),
                    widths[j] - 4,
                    ' ',
                );
                text::push_str_chars(&mut v, "│ ");
                text::push_str_chars(&mut v, padded.as_str());
                text::push_str_chars(&mut v, " │");
                proof {
                    let cells = Seq::new(j as nat, cell_of);
                    lemma_cells_text_push(cells, cell_of(j as int));
                    assert(Seq::new((j + 1) as nat, cell_of) =~= cells.push(cell_of(j as int)));
                    assert(v@ =~= cells_text(Seq::new((j + 1) as nat, cell_of)));
                    if slots_ok {
                        let pre = cells_text(cells);
                        assert(text::no_newline(logs@[j as int].slots()[rows - 1 - row]));
                        assert(text::no_newline(padded@));
                        reveal_strlit("\u{2502} ");
                        reveal_strlit(" \u{2502}");
                        text::lemma_no_newline_concat(pre, "\u{2502} "@);
                        text::lemma_no_newline_concat(pre + "\u{2502} "@, padded@);
                        text::lemma_no_newline_concat((pre + "\u{2502} "@) + padded@, " \u{2502}"@);
                        assert(text::no_newline(v@));
                    }
                }
                j = j + 1;
            }
            let line = text::string_from_chars(&v);
            proof {
                assert(Seq::new(count as nat, cell_of) =~= Seq::new(
                    logs@.len(),
                    |k: int|
                        framed_line(logs@[k].slots()[rows - 1 - row], width_at(
                            logs@.len() as int,
                            columns as int,
                            k,
                        )),
                ));
                assert(line@ == row_line(logs@, rows as int, columns as int, row as int));
            }
            r.push(line);
            row = row + 1;
        }
        r
    }

    /// The header row: a boxed, bold title tag per log, then a newline.
    pub fn log_header(&self, logs: &Vec<&Log>, columns: usize) -> (r: String)
        requires
            logs@.len() >= 1,
            columns as int / logs@.len() as int >= 4,
        ensures
            is_header_row(r@, logs@, columns as int),
    {
        let count = logs.len();
        let widths = self.log_widths(count, columns);
        let mut v: Vec<char> = Vec::new();
        let ghost mut cells = Seq::<Seq<char>>::empty();
        let mut j: usize = 0;
        proof {
            assert(v@ =~= cells_text(cells));
        }
        while j < count
            invariant
                j <= count,
                count == logs@.len() >= 1,
                columns as int / count as int >= 4,
                widths@.len() == count,
                forall|k: int|
                    0 <= k < count ==> widths@[k] == width_at(count as int, columns as int, k),
                cells.len() == j,
                forall|k: int|
                    0 <= k < j ==> is_header_cell(
                        #[trigger] cells[k],
                        logs@[k].title_text(),
                        width_at(count as int, columns as int, k),
                    ),
                v@ == cells_text(cells),
            decreases count - j,
        {
            let title = logs[j].name();
            let mut tag: Vec<char> = text::chars_of(" ");
            text::push_str_chars(&mut tag, title.as_str());
            text::push_str_chars(&mut tag, " Log ");
            let tag_str = text::string_from_chars(&tag);
            let styled = style::style_bold(tag_str.as_str());
            let padded = style::string_to_len(styled.as_str(), widths[j] - 3, '─');
            let ghost pre = v@;
            text::push_str_chars(&mut v, "╭");
            text::push_str_chars(&mut v, padded.as_str());
            text::push_str_chars(&mut v, "─╮");
            proof {
                let title_view = logs@[j as int].title_text();
                let tag_view = (" "@ + title_view) + " Log "@;
                let cell_direct = ("╭"@ + style::pad_of(styled@, widths@[j as int] - 3, '─'))
                    + "─╮"@;
                assert(v@ =~= pre + cell_direct);
                assert(text::embeds_inline(styled@, tag_view));
                if text::no_newline(title_view) {
                    reveal_strlit(" ");
                    reveal_strlit(" Log ");
                    reveal_strlit("╭");
                    reveal_strlit("─╮");
                    text::lemma_no_newline_concat(" "@, title_view);
                    text::lemma_no_newline_concat(" "@ + title_view, " Log "@);
                    text::lemma_embeds_inline_no_newline(styled@, tag_view);
                    assert(text::no_newline(padded@));
                    text::lemma_no_newline_concat("╭"@, style::pad_of(
                        styled@,
                        widths@[j as int] - 3,
                        '─',
                    ));
                    text::lemma_no_newline_concat(
                        "╭"@ + style::pad_of(styled@, widths@[j as int] - 3, '─'),
                        "─╮"@,
                    );
                    assert(text::no_newline(cell_direct));
                }
                assert(is_header_cell(
                    cell_direct,
                    title_view,
                    width_at(count as int, columns as int, j as int),
                ));
                lemma_cells_text_push(cells, cell_direct);
                cells = cells.push(cell_direct);
            }
            j = j + 1;
        }
        text::push_str_chars(&mut v, "\n");
        let r = text::string_from_chars(&v);
        proof {
            assert(r@ == cells_text(cells) + "\n"@);
            if forall|k: int| 0 <= k < logs@.len() ==> text::no_newline(
                (#[trigger] logs@[k]).title_text(),
            ) {
                assert forall|k: int| 0 <= k < cells.len() implies text::no_newline(
                    #[trigger] cells[k],
                ) by {
                    assert(is_header_cell(
                        cells[k],
                        logs@[k].title_text(),
                        width_at(count as int, columns as int, k),
                    ));
                }
                lemma_cells_text_no_newline(cells);
            }
            assert(is_header_row(r@, logs@, columns as int));
        }
        r
    }

    /// The footer row: a plain bottom border per log, then a newline.
    pub fn log_footer(&self, count: usize, columns: usize) -> (r: String)
        requires
            count >= 1,
            columns as int / count as int >= 4,
        ensures
            r@ == footer_row(count as int, columns as int),
    {
        let widths = self.log_widths(count, columns);
        let ghost cell_of = |k: int| footer_cell(width_at(count as int, columns as int, k));
        let mut v: Vec<char> = Vec::new();
        let mut j: usize = 0;
        proof {
            assert(v@ =~= cells_text(Seq::new(0, cell_of)));
            reveal_strlit("");
            assert(""@ =~= Seq::<char>::empty());
        }
        while j < count
            invariant
                j <= count,
                count >= 1,
                columns as int / count as int >= 4,
                widths@.len() == count,
                forall|k: int|
                    0 <= k < count ==> widths@[k] == width_at(count as int, columns as int, k),
                cell_of == (|k: int| footer_cell(width_at(count as int, columns as int, k))),
                ""@ == Seq::<char>::empty(),
                v@ == cells_text(Seq::new(j as nat, cell_of)),
            decreases count - j,
        {
            let padded = style::string_to_len("", widths[j] - 2, '─');
            text::push_str_chars(&mut v, "╰");
            text::push_str_chars(&mut v, padded.as_str());
            text::push_str_chars(&mut v, "╯");
            proof {
                let cells = Seq::new(j as nat, cell_of);
                assert(padded@ =~= text::repeated('─', (widths@[j as int] - 2) as nat));
                lemma_cells_text_push(cells, cell_of(j as int));
                assert(Seq::new((j + 1) as nat, cell_of) =~= cells.push(cell_of(j as int)));
                assert(v@ =~= cells_text(Seq::new((j + 1) as nat, cell_of)));
            }
            j = j + 1;
        }
        text::push_str_chars(&mut v, "\n");
        let r = text::string_from_chars(&v);
        proof {
            assert(Seq::new(count as nat, cell_of) =~= Seq::new(
                count as nat,
                |k: int| footer_cell(width_at(count as int, columns as int, k)),
            ));
            assert(r@ =~= footer_row(count as int, columns as int));
        }
        r
    }

    /// The input box: requester-titled and showing prompt plus buffer while
    /// a request is active, neutral and dim-filled otherwise.
    pub fn input_box(&self, input: &Input, columns: usize) -> (r: String)
        requires
            columns >= 4,
        ensures
            is_input_box(r@, input.model(), columns as int),
    {
        let ghost m = input.model();
        let inputting = input.is_inputting();
        let mut tagv: Vec<char>;
        if inputting {
            let requester = text::string_from_chars(input.requester_chars());
            tagv = text::chars_of(" Input (");
            text::push_str_chars(&mut tagv, requester.as_str());
            text::push_str_chars(&mut tagv, ") ");
        } else {
            tagv = text::chars_of(" Input ");
        }
        let tag = text::string_from_chars(&tagv);
        proof {
            assert(tag@ == input_title_text(m));
            reveal_strlit(" Input (");
            reveal_strlit(") ");
            reveal_strlit(" Input ");
            if !m.inputting || text::no_newline(m.requester) {
                if m.inputting {
                    text::lemma_no_newline_concat(" Input ("@, m.requester);
                    text::lemma_no_newline_concat(" Input ("@ + m.requester, ") "@);
                }
                assert(text::no_newline(tag@));
            }
        }
        let styled_title = style::style_bold(tag.as_str());
        let padded_title = style::string_to_len(styled_title.as_str(), columns - 3, '─');
        proof {
            if !m.inputting || text::no_newline(m.requester) {
                text::lemma_embeds_inline_no_newline(styled_title@, tag@);
                assert(text::no_newline(padded_title@));
            }
        }
        let inner: String;
        if inputting {
            let prompt = text::string_from_chars(input.prompt_chars());
            let styled_prompt = style::style_bold(prompt.as_str());
            let mut body: Vec<char> = text::chars_of(styled_prompt.as_str());
            let buffer = text::string_from_chars(input.buffer_chars());
            text::push_str_chars(&mut body, buffer.as_str());
            let body_str = text::string_from_chars(&body);
            inner = style::string_to_len(body_str.as_str(), columns - 4, ' ');
            proof {
                assert(inner@ == style::pad_of(styled_prompt@ + m.buffer, columns - 4, ' '));
                if text::no_newline(m.prompt) && text::no_newline(m.buffer) {
                    text::lemma_embeds_inline_no_newline(styled_prompt@, m.prompt);
                    text::lemma_no_newline_concat(styled_prompt@, m.buffer);
                    assert(text::no_newline(inner@));
                }
            }
        } else {
            let filler: String;
            if columns == 4 {
                // Padding an empty text to width zero hands the text back
                // unchanged, so the call is spared.
                filler = String::new();
            } else {
                filler = style::string_to_len("", columns - 4, '/');
            }
            proof {
                reveal_strlit("");
                assert(""@ =~= Seq::<char>::empty());
                assert(filler@ =~= text::repeated('/', (columns - 4) as nat));
            }
            inner = style::style_dim(filler.as_str());
            proof {
                assert(text::embeds_inline(inner@, text::repeated('/', (columns - 4) as nat)));
                assert(text::no_newline(text::repeated('/', (columns - 4) as nat)));
                text::lemma_embeds_inline_no_newline(
                    inner@,
                    text::repeated('/', (columns - 4) as nat),
                );
            }
        }
        let footer_pad = style::string_to_len("", columns - 2, '─');
        proof {
            reveal_strlit("");
            assert(""@ =~= Seq::<char>::empty());
            assert(footer_pad@ =~= text::repeated('─', (columns - 2) as nat));
        }
        let mut v: Vec<char> = text::chars_of("╭");
        text::push_str_chars(&mut v, padded_title.as_str());
        text::push_str_chars(&mut v, "─╮");
        text::push_str_chars(&mut v, "\n");
        text::push_str_chars(&mut v, "│ ");
        text::push_str_chars(&mut v, inner.as_str());
        text::push_str_chars(&mut v, " │");
        text::push_str_chars(&mut v, "\n");
        text::push_str_chars(&mut v, "╰");
        text::push_str_chars(&mut v, footer_pad.as_str());
        text::push_str_chars(&mut v, "╯");
        let r = text::string_from_chars(&v);
        proof {
            assert(r@ == input_box_shape(styled_title@, inner@, columns as int));
            if !m.inputting || (text::no_newline(m.requester) && text::no_newline(m.prompt)
                && text::no_newline(m.buffer)) {
                reveal_strlit("╭");
                reveal_strlit("─╮");
                reveal_strlit("│ ");
                reveal_strlit(" │");
                reveal_strlit("╰");
                reveal_strlit("╯");
                let row1 = ("╭"@ + style::pad_of(styled_title@, columns - 3, '─')) + "─╮"@;
                let row2 = ("│ "@ + inner@) + " │"@;
                let row3 = ("╰"@ + text::repeated('─', (columns - 2) as nat)) + "╯"@;
                text::lemma_no_newline_concat("╭"@, style::pad_of(
                    styled_title@,
                    columns - 3,
                    '─',
                ));
                text::lemma_no_newline_concat(
                    "╭"@ + style::pad_of(styled_title@, columns - 3, '─'),
                    "─╮"@,
                );
                text::lemma_no_newline_concat("│ "@, inner@);
                text::lemma_no_newline_concat("│ "@ + inner@, " │"@);
                text::lemma_no_newline_concat("╰"@, text::repeated('─', (columns - 2) as nat));
                text::lemma_no_newline_concat(
                    "╰"@ + text::repeated('─', (columns - 2) as nat),
                    "╯"@,
                );
                assert(text::no_newline(row1));
                assert(text::no_newline(row2));
                assert(text::no_newline(row3));
                assert(r@ =~= three_rows_shape(row1, row2, row3));
                assert(three_rows(r@));
            }
            assert(is_input_box(r@, m, columns as int));
        }
        r
    }

    #[verifier::rlimit(60)]
    /// Render one full frame for a `rows` by `columns` terminal: the header
    /// row, the content rows (most recent entries at the bottom), the footer
    /// row, and the input box; the cursor is placed after the typed text of
    /// an active request, and hidden otherwise.
    pub fn render(&self, rows: usize, columns: usize, logs: &Vec<&Log>, input: &Input) -> (frame:
        Frame)
        requires
            logs@.len() >= 1,
            forall|j: int| 0 <= j < logs@.len() ==> (#[trigger] logs@[j]).wf(),
            rows >= 5,
            columns as int / logs@.len() as int >= 4,
            input.model().pos + 2 + input.model().prompt.len() <= usize::MAX,
        ensures
            input.model().inputting ==> frame.cursor == Some(
                (
                    (input.model().pos + 2 + input.model().prompt.len()) as usize,
                    (rows - 2) as usize,
                ),
            ),
            !input.model().inputting ==> frame.cursor is None,
            exists|hdr: Seq<char>, ibox: Seq<char>|
                {
                    &&& is_header_row(hdr, logs@, columns as int)
                    &&& is_input_box(ibox, input.model(), columns as int)
                    &&& frame.text@ == ((hdr + content_text(
                        logs@,
                        content_rows(rows as int),
                        columns as int,
                        0,
                    )) + footer_row(logs@.len() as int, columns as int)) + ibox
                },
            ({
                &&& (forall|j: int|
                    0 <= j < logs@.len() ==> text::no_newline(
                        (#[trigger] logs@[j]).title_text(),
                    ))
                &&& (forall|j: int, k: int|
                    0 <= j < logs@.len() && 0 <= k < content_rows(rows as int)
                        ==> text::no_newline(#[trigger] logs@[j].slots()[k]))
                &&& (input.model().inputting ==> text::no_newline(input.model().requester)
                    && text::no_newline(input.model().prompt) && text::no_newline(
                    input.model().buffer,
                ))
            }) ==> frame_rows(frame.text@),
    {
        let crows: usize = if rows - 5 > 256 {
            256
        } else {
            rows - 5
        };
        let header = self.log_header(logs, columns);
        let lines = self.all_log_lines(logs, crows, columns);
        let footer = self.log_footer(logs.len(), columns);
        let ibox = self.input_box(input, columns);
        let ghost n = crows as int;
        let mut v: Vec<char> = text::chars_of(header.as_str());
        let mut i: usize = 0;
        proof {
            assert(content_text(logs@, n, columns as int, n) =~= Seq::<char>::empty());
            assert(v@ =~= header@);
        }
        while i < crows
            invariant
                i <= crows,
                n == crows as int,
                lines@.len() == crows,
                forall|row: int|
                    0 <= row < crows ==> #[trigger] lines@[row]@ == row_line(
                        logs@,
                        n,
                        columns as int,
                        row,
                    ),
                v@ + content_text(logs@, n, columns as int, i as int) == header@ + content_text(
                    logs@,
                    n,
                    columns as int,
                    0,
                ),
            decreases crows - i,
        {
            text::push_str_chars(&mut v, lines[i].as_str());
            proof {
                assert(content_text(logs@, n, columns as int, i as int) == row_line(
                    logs@,
                    n,
                    columns as int,
                    i as int,
                ) + content_text(logs@, n, columns as int, i + 1));
                assert(v@ + content_text(logs@, n, columns as int, i + 1) =~= header@
                    + content_text(logs@, n, columns as int, 0));
            }
            i = i + 1;
        }
        proof {
            assert(content_text(logs@, n, columns as int, n) =~= Seq::<char>::empty());
            assert(v@ =~= header@ + content_text(logs@, n, columns as int, 0));
        }
        text::push_str_chars(&mut v, footer.as_str());
        text::push_str_chars(&mut v, ibox.as_str());
        let textbuf = text::string_from_chars(&v);
        proof {
            assert(n == content_rows(rows as int));
            assert(is_header_row(header@, logs@, columns as int));
            assert(is_input_box(ibox@, input.model(), columns as int));
            assert(textbuf@ == ((header@ + content_text(
                logs@,
                content_rows(rows as int),
                columns as int,
                0,
            )) + footer_row(logs@.len() as int, columns as int)) + ibox@);
            let m = input.model();
            if (forall|j: int|
                0 <= j < logs@.len() ==> text::no_newline((#[trigger] logs@[j]).title_text()))
                && (forall|j: int, k: int|
                0 <= j < logs@.len() && 0 <= k < n ==> text::no_newline(
                    #[trigger] logs@[j].slots()[k],
                )) && (m.inputting ==> text::no_newline(m.requester) && text::no_newline(
                m.prompt,
            ) && text::no_newline(m.buffer)) {
                let hcells = choose|cells: Seq<Seq<char>>|
                    {
                        &&& cells.len() == logs@.len()
                        &&& (forall|j: int|
                            0 <= j < logs@.len() ==> is_header_cell(
                                #[trigger] cells[j],
                                logs@[j].title_text(),
                                width_at(logs@.len() as int, columns as int, j),
                            ))
                        &&& header@ == cells_text(cells) + "\n"@
                        &&& ((forall|j: int|
                            0 <= j < logs@.len() ==> text::no_newline(
                                #[trigger] logs@[j].title_text(),
                            )) ==> text::no_newline(cells_text(cells)))
                    };
                let hline = cells_text(hcells);
                assert(text::no_newline(hline));
                assert forall|rr: int| 0 <= rr < n implies text::no_newline(
                    #[trigger] row_line(logs@, n, columns as int, rr),
                ) by {
                    assert(lines@[rr]@ == row_line(logs@, n, columns as int, rr));
                    assert(text::no_newline(lines@[rr]@));
                }
                lemma_content_text_no_newline(logs@, n, columns as int, 0);
                let content = content_text(logs@, n, columns as int, 0);
                let fcells = Seq::new(
                    logs@.len(),
                    |j: int| footer_cell(width_at(logs@.len() as int, columns as int, j)),
                );
                lemma_footer_cells_no_newline(logs@.len() as int, columns as int);
                let fline = cells_text(fcells);
                assert(three_rows(ibox@));
                let (b1, b2, b3) = choose|b1: Seq<char>, b2: Seq<char>, b3: Seq<char>|
                    {
                        &&& ibox@ == #[trigger] three_rows_shape(b1, b2, b3)
                        &&& text::no_newline(b1)
                        &&& text::no_newline(b2)
                        &&& text::no_newline(b3)
                    };
                text::lemma_no_newline_concat(content, fline);
                assert(textbuf@ =~= five_rows_shape(hline, content + fline, b1, b2, b3));
                assert(frame_rows(textbuf@));
            }
        }
        let cursor: Option<(usize, usize)> = if input.is_inputting() {
            let col = input.cursor_pos() + 2 + input.prompt_chars().len();
            Some((col, rows - 2))
        } else {
            None
        };
        Frame { text: textbuf, cursor }
    }
}

} // verus!
