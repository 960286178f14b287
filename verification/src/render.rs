//! The result renderer: a pure function from a column set and materialized
//! rows to display markup — one header row fragment and one body fragment.

use crate::text::{dec_str, push_char, push_dec};
use crate::value::{StructuredValue, StructuredValueModel};
use vstd::prelude::*;
use vstd::string::{StrSliceExecFns, StringExecFns};

verus! {

/// The markup-safe form of one character: the four characters with meaning
/// in markup are replaced by their entities, every other character stands
/// for itself.
pub open spec fn escape_char(c: char) -> Seq<char> {
    if c == '&' {
        seq!['&', 'a', 'm', 'p', ';']
    } else if c == '<' {
        seq!['&', 'l', 't', ';']
    } else if c == '>' {
        seq!['&', 'g', 't', ';']
    } else if c == '"' {
        seq!['&', 'q', 'u', 'o', 't', ';']
    } else {
        seq![c]
    }
}

/// The markup-safe form of a string.
pub open spec fn escaped(s: Seq<char>) -> Seq<char>
    decreases s.len(),
{
    if s.len() == 0 {
        Seq::empty()
    } else {
        escape_char(s[0]) + escaped(s.skip(1))
    }
}

proof fn lemma_escaped_push(s: Seq<char>, c: char)
    ensures
        escaped(s.push(c)) == escaped(s) + escape_char(c),
    decreases s.len(),
{
    if s.len() == 0 {
        assert(s.push(c)[0] == c);
        assert(s.push(c).skip(1) =~= Seq::<char>::empty());
        assert(escaped(Seq::<char>::empty()) == Seq::<char>::empty());
        assert(escaped(s.push(c)) == escape_char(c) + escaped(Seq::<char>::empty()));
        assert(escaped(s.push(c)) =~= escaped(s) + escape_char(c));
    } else {
        assert(s.push(c)[0] == s[0]);
        assert(s.push(c).skip(1) =~= s.skip(1).push(c));
        lemma_escaped_push(s.skip(1), c);
        assert(escaped(s.push(c)) == escape_char(s[0]) + (escaped(s.skip(1)) + escape_char(c)));
        assert(escaped(s) == escape_char(s[0]) + escaped(s.skip(1)));
        assert(escaped(s.push(c)) =~= escaped(s) + escape_char(c));
    }
}

/// Appends the markup-safe form of `t` to `out`.
fn push_escaped(out: &mut String, t: &str)
    ensures
        final(out)@ == old(out)@ + escaped(t@),
{
    let n = t.unicode_len();
    let mut i: usize = 0;
    proof {
        assert(t@.take(0) =~= Seq::<char>::empty());
    }
    while i < n
        invariant
            i <= n,
            n == t@.len(),
            out@ == old(out)@ + escaped(t@.take(i as int)),
        decreases n - i,
    {
        let c = t.get_char(i);
        proof {
            assert(t@.take(i + 1) =~= t@.take(i as int).push(t@[i as int]));
            lemma_escaped_push(t@.take(i as int), t@[i as int]);
        }
        if c == '&' {
            push_char(out, '&');
            push_char(out, 'a');
            push_char(out, 'm');
            push_char(out, 'p');
            push_char(out, ';');
        } else if c == '<' {
            push_char(out, '&');
            push_char(out, 'l');
            push_char(out, 't');
            push_char(out, ';');
        } else if c == '>' {
            push_char(out, '&');
            push_char(out, 'g');
            push_char(out, 't');
            push_char(out, ';');
        } else if c == '"' {
            push_char(out, '&');
            push_char(out, 'q');
            push_char(out, 'u');
            push_char(out, 'o');
            push_char(out, 't');
            push_char(out, ';');
        } else {
            push_char(out, c);
        }
        proof {
            assert(out@ =~= old(out)@ + escaped(t@.take(i + 1)));
        }
        i = i + 1;
    }
    proof {
        assert(t@.take(n as int) =~= t@);
    }
}

/// The display text of one cell: `NULL` for NULL, decimal renderings for
/// numbers, the carried text for floating, character and binary kinds.
pub open spec fn cell_text(v: StructuredValueModel) -> Seq<char> {
    match v {
        StructuredValueModel::Null => seq!['N', 'U', 'L', 'L'],
        StructuredValueModel::Bool(b) => if b {
            seq!['t', 'r', 'u', 'e']
        } else {
            seq!['f', 'a', 'l', 's', 'e']
        },
        StructuredValueModel::Int(i) => if i < 0 {
            seq!['-'] + dec_str((-(i as int)) as nat)
        } else {
            dec_str(i as nat)
        },
        StructuredValueModel::UInt(u) => dec_str(u as nat),
        StructuredValueModel::Float { bits, text } => text,
        StructuredValueModel::Text(s) => s,
        StructuredValueModel::Bytes(s) => s,
    }
}

/// Appends the display text of `v` to `out`.
fn push_cell_text(out: &mut String, v: &StructuredValue)
    ensures
        final(out)@ == old(out)@ + cell_text(v@),
{
    match v {
        StructuredValue::Null => {
            push_char(out, 'N');
            push_char(out, 'U');
            push_char(out, 'L');
            push_char(out, 'L');
            proof {
                assert(final(out)@ =~= old(out)@ + cell_text(v@));
            }
        },
        StructuredValue::Bool(b) => {
            if *b {
                push_char(out, 't');
                push_char(out, 'r');
                push_char(out, 'u');
                push_char(out, 'e');
            } else {
                push_char(out, 'f');
                push_char(out, 'a');
                push_char(out, 'l');
                push_char(out, 's');
                push_char(out, 'e');
            }
            proof {
                assert(final(out)@ =~= old(out)@ + cell_text(v@));
            }
        },
        StructuredValue::Int(i) => {
            if *i < 0 {
                push_char(out, '-');
                let mag: u64 = if *i == i64::MIN {
                    9223372036854775808u64
                } else {
                    (-*i) as u64
                };
                push_dec(out, mag);
            } else {
                push_dec(out, *i as u64);
            }
            proof {
                assert(final(out)@ =~= old(out)@ + cell_text(v@));
            }
        },
        StructuredValue::UInt(u) => {
            push_dec(out, *u);
        },
        StructuredValue::Float { bits, text } => {
            out.append(text.as_str());
        },
        StructuredValue::Text(s) => {
            out.append(s.as_str());
        },
        StructuredValue::Bytes(s) => {
            out.append(s.as_str());
        },
    }
}

/// The header cells of the column names, each escaped and wrapped in a
/// header-cell tag.
pub open spec fn th_cells(cols: Seq<Seq<char>>) -> Seq<char>
    decreases cols.len(),
{
    if cols.len() == 0 {
        Seq::empty()
    } else {
        seq!['<', 't', 'h', '>'] + escaped(cols[0]) + seq!['<', '/', 't', 'h', '>'] + th_cells(
            cols.skip(1),
        )
    }
}

proof fn lemma_th_cells_push(cols: Seq<Seq<char>>, c: Seq<char>)
    ensures
        th_cells(cols.push(c)) == th_cells(cols) + seq!['<', 't', 'h', '>'] + escaped(c)
            + seq!['<', '/', 't', 'h', '>'],
    decreases cols.len(),
{
    if cols.len() == 0 {
        assert(cols.push(c)[0] == c);
        assert(cols.push(c).skip(1) =~= Seq::<Seq<char>>::empty());
        assert(th_cells(Seq::<Seq<char>>::empty()) == Seq::<char>::empty());
        assert(th_cells(cols.push(c)) == seq!['<', 't', 'h', '>'] + escaped(c)
            + seq!['<', '/', 't', 'h', '>'] + th_cells(Seq::<Seq<char>>::empty()));
        assert(th_cells(cols.push(c)) =~= th_cells(cols) + seq!['<', 't', 'h', '>'] + escaped(c)
            + seq!['<', '/', 't', 'h', '>']);
    } else {
        assert(cols.push(c)[0] == cols[0]);
        assert(cols.push(c).skip(1) =~= cols.skip(1).push(c));
        lemma_th_cells_push(cols.skip(1), c);
        assert(th_cells(cols.push(c)) == seq!['<', 't', 'h', '>'] + escaped(cols[0])
            + seq!['<', '/', 't', 'h', '>'] + (th_cells(cols.skip(1)) + seq!['<', 't', 'h', '>']
            + escaped(c) + seq!['<', '/', 't', 'h', '>']));
        assert(th_cells(cols) == seq!['<', 't', 'h', '>'] + escaped(cols[0])
            + seq!['<', '/', 't', 'h', '>'] + th_cells(cols.skip(1)));
        assert(th_cells(cols.push(c)) =~= th_cells(cols) + seq!['<', 't', 'h', '>'] + escaped(c)
            + seq!['<', '/', 't', 'h', '>']);
    }
}

/// The header fragment: one table row of header cells.
pub open spec fn spec_head_html(cols: Seq<Seq<char>>) -> Seq<char> {
    seq!['<', 't', 'r', '>'] + th_cells(cols) + seq!['<', '/', 't', 'r', '>']
}

/// The data cells of one row, each cell's display text escaped and wrapped
/// in a data-cell tag.
pub open spec fn td_cells(row: Seq<StructuredValueModel>) -> Seq<char>
    decreases row.len(),
{
    if row.len() == 0 {
        Seq::empty()
    } else {
        seq!['<', 't', 'd', '>'] + escaped(cell_text(row[0])) + seq!['<', '/', 't', 'd', '>']
            + td_cells(row.skip(1))
    }
}

proof fn lemma_td_cells_push(row: Seq<StructuredValueModel>, v: StructuredValueModel)
    ensures
        td_cells(row.push(v)) == td_cells(row) + seq!['<', 't', 'd', '>'] + escaped(cell_text(v))
            + seq!['<', '/', 't', 'd', '>'],
    decreases row.len(),
{
    if row.len() == 0 {
        assert(row.push(v)[0] == v);
        assert(row.push(v).skip(1) =~= Seq::<StructuredValueModel>::empty());
        assert(td_cells(Seq::<StructuredValueModel>::empty()) == Seq::<char>::empty());
        assert(td_cells(row.push(v)) == seq!['<', 't', 'd', '>'] + escaped(cell_text(v))
            + seq!['<', '/', 't', 'd', '>'] + td_cells(Seq::<StructuredValueModel>::empty()));
        assert(td_cells(row.push(v)) =~= td_cells(row) + seq!['<', 't', 'd', '>'] + escaped(
            cell_text(v),
        ) + seq!['<', '/', 't', 'd', '>']);
    } else {
        assert(row.push(v)[0] == row[0]);
        assert(row.push(v).skip(1) =~= row.skip(1).push(v));
        lemma_td_cells_push(row.skip(1), v);
        assert(td_cells(row.push(v)) == seq!['<', 't', 'd', '>'] + escaped(cell_text(row[0]))
            + seq!['<', '/', 't', 'd', '>'] + (td_cells(row.skip(1)) + seq!['<', 't', 'd', '>']
            + escaped(cell_text(v)) + seq!['<', '/', 't', 'd', '>']));
        assert(td_cells(row) == seq!['<', 't', 'd', '>'] + escaped(cell_text(row[0]))
            + seq!['<', '/', 't', 'd', '>'] + td_cells(row.skip(1)));
        assert(td_cells(row.push(v)) =~= td_cells(row) + seq!['<', 't', 'd', '>'] + escaped(
            cell_text(v),
        ) + seq!['<', '/', 't', 'd', '>']);
    }
}

/// The body rows: each row's data cells wrapped in a table-row tag.
pub open spec fn tr_rows(rows: Seq<Seq<StructuredValueModel>>) -> Seq<char>
    decreases rows.len(),
{
    if rows.len() == 0 {
        Seq::empty()
    } else {
        seq!['<', 't', 'r', '>'] + td_cells(rows[0]) + seq!['<', '/', 't', 'r', '>'] + tr_rows(
            rows.skip(1),
        )
    }
}

proof fn lemma_tr_rows_push(rows: Seq<Seq<StructuredValueModel>>, row: Seq<StructuredValueModel>)
    ensures
        tr_rows(rows.push(row)) == tr_rows(rows) + seq!['<', 't', 'r', '>'] + td_cells(row)
            + seq!['<', '/', 't', 'r', '>'],
    decreases rows.len(),
{
    if rows.len() == 0 {
        assert(rows.push(row)[0] == row);
        assert(rows.push(row).skip(1) =~= Seq::<Seq<StructuredValueModel>>::empty());
        assert(tr_rows(Seq::<Seq<StructuredValueModel>>::empty()) == Seq::<char>::empty());
        assert(tr_rows(rows.push(row)) == seq!['<', 't', 'r', '>'] + td_cells(row)
            + seq!['<', '/', 't', 'r', '>'] + tr_rows(Seq::<Seq<StructuredValueModel>>::empty()));
        assert(tr_rows(rows.push(row)) =~= tr_rows(rows) + seq!['<', 't', 'r', '>'] + td_cells(row)
            + seq!['<', '/', 't', 'r', '>']);
    } else {
        assert(rows.push(row)[0] == rows[0]);
        assert(rows.push(row).skip(1) =~= rows.skip(1).push(row));
        lemma_tr_rows_push(rows.skip(1), row);
        assert(tr_rows(rows.push(row)) == seq!['<', 't', 'r', '>'] + td_cells(rows[0])
            + seq!['<', '/', 't', 'r', '>'] + (tr_rows(rows.skip(1)) + seq!['<', 't', 'r', '>']
            + td_cells(row) + seq!['<', '/', 't', 'r', '>']));
        assert(tr_rows(rows) == seq!['<', 't', 'r', '>'] + td_cells(rows[0])
            + seq!['<', '/', 't', 'r', '>'] + tr_rows(rows.skip(1)));
        assert(tr_rows(rows.push(row)) =~= tr_rows(rows) + seq!['<', 't', 'r', '>'] + td_cells(row)
            + seq!['<', '/', 't', 'r', '>']);
    }
}

/// The body fragment: every row rendered in order.
pub open spec fn spec_body_html(rows: Seq<Seq<StructuredValueModel>>) -> Seq<char> {
    tr_rows(rows)
}

/// Renders a result set as display markup: the header fragment from the
/// column names and the body fragment from the rows, both determined by the
/// inputs alone.
pub fn render_table_html(columns: &Vec<String>, rows: &Vec<Vec<StructuredValue>>) -> (r: (
    String,
    String,
))
    ensures
        r.0@ == spec_head_html(columns.deep_view()),
        r.1@ == spec_body_html(rows.deep_view()),
{
    let mut head = String::new();
    push_char(&mut head, '<');
    push_char(&mut head, 't');
    push_char(&mut head, 'r');
    push_char(&mut head, '>');
    let mut i: usize = 0;
    proof {
        assert(columns.deep_view().take(0) =~= Seq::<Seq<char>>::empty());
    }
    while i < columns.len()
        invariant
            i <= columns@.len(),
            head@ == seq!['<', 't', 'r', '>'] + th_cells(columns.deep_view().take(i as int)),
        decreases columns@.len() - i,
    {
        proof {
            assert(columns.deep_view().take(i + 1) =~= columns.deep_view().take(i as int).push(
                columns@[i as int]@,
            ));
            lemma_th_cells_push(columns.deep_view().take(i as int), columns@[i as int]@);
        }
        push_char(&mut head, '<');
        push_char(&mut head, 't');
        push_char(&mut head, 'h');
        push_char(&mut head, '>');
        push_escaped(&mut head, columns[i].as_str());
        push_char(&mut head, '<');
        push_char(&mut head, '/');
        push_char(&mut head, 't');
        push_char(&mut head, 'h');
        push_char(&mut head, '>');
        proof {
            assert(head@ =~= seq!['<', 't', 'r', '>'] + th_cells(
                columns.deep_view().take(i + 1),
            ));
        }
        i = i + 1;
    }
    push_char(&mut head, '<');
    push_char(&mut head, '/');
    push_char(&mut head, 't');
    push_char(&mut head, 'r');
    push_char(&mut head, '>');
    proof {
        assert(columns.deep_view().take(columns@.len() as int) =~= columns.deep_view());
        assert(head@ =~= spec_head_html(columns.deep_view()));
    }

    let mut body = String::new();
    let mut j: usize = 0;
    proof {
        assert(rows.deep_view().take(0) =~= Seq::<Seq<StructuredValueModel>>::empty());
    }
    while j < rows.len()
        invariant
            j <= rows@.len(),
            body@ == tr_rows(rows.deep_view().take(j as int)),
        decreases rows@.len() - j,
    {
        proof {
            assert(rows.deep_view().take(j + 1) =~= rows.deep_view().take(j as int).push(
                rows@[j as int].deep_view(),
            ));
            lemma_tr_rows_push(rows.deep_view().take(j as int), rows@[j as int].deep_view());
        }
        push_char(&mut body, '<');
        push_char(&mut body, 't');
        push_char(&mut body, 'r');
        push_char(&mut body, '>');
        let row = &rows[j];
        let mut k: usize = 0;
        proof {
            assert(row.deep_view().take(0) =~= Seq::<StructuredValueModel>::empty());
        }
        let ghost body_at_row_start = body@;
        while k < row.len()
            invariant
                k <= row@.len(),
                body@ == body_at_row_start + td_cells(row.deep_view().take(k as int)),
            decreases row@.len() - k,
        {
            proof {
                assert(row.deep_view().take(k + 1) =~= row.deep_view().take(k as int).push(
                    row@[k as int]@,
                ));
                lemma_td_cells_push(row.deep_view().take(k as int), row@[k as int]@);
            }
            push_char(&mut body, '<');
            push_char(&mut body, 't');
            push_char(&mut body, 'd');
            push_char(&mut body, '>');
            let mut cell = String::new();
            push_cell_text(&mut cell, &row[k]);
            push_escaped(&mut body, cell.as_str());
            push_char(&mut body, '<');
            push_char(&mut body, '/');
            push_char(&mut body, 't');
            push_char(&mut body, 'd');
            push_char(&mut body, '>');
            proof {
                assert(body@ =~= body_at_row_start + td_cells(row.deep_view().take(k + 1)));
            }
            k = k + 1;
        }
        push_char(&mut body, '<');
        push_char(&mut body, '/');
        push_char(&mut body, 't');
        push_char(&mut body, 'r');
        push_char(&mut body, '>');
        proof {
            assert(row.deep_view().take(row@.len() as int) =~= row.deep_view());
            assert(body@ =~= tr_rows(rows.deep_view().take(j + 1)));
        }
        j = j + 1;
    }
    proof {
        assert(rows.deep_view().take(rows@.len() as int) =~= rows.deep_view());
    }

    (head, body)
}

/// Law: rendering is pure — two renderings of identical inputs are the
/// identical markup, character for character.
pub proof fn lemma_render_deterministic(
    cols1: Seq<Seq<char>>,
    rows1: Seq<Seq<StructuredValueModel>>,
    cols2: Seq<Seq<char>>,
    rows2: Seq<Seq<StructuredValueModel>>,
)
    requires
        cols1 == cols2,
        rows1 == rows2,
    ensures
        spec_head_html(cols1) == spec_head_html(cols2),
        spec_body_html(rows1) == spec_body_html(rows2),
{
}

} // verus!
