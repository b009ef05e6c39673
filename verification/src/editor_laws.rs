//! What holds of every sequence of edits, stated over the editor's model.
use crate::action::Direction;
use crate::editor::{
    char_widths, clamp_u16, column_target, columns_walked, cursor_position_of, edited,
    lemma_column_target, lemma_line_end, lemma_line_start, line_end_at, line_start_at, newlines,
    valid_model, Edit, EditorModel,
};
use crate::width::{char_columns, str_columns};
use vstd::prelude::*;

verus! {

/// Every edit keeps the cursor within the text.
pub proof fn law_edit_keeps_cursor_in_text(m: EditorModel, e: Edit)
    requires
        valid_model(m),
    ensures
        valid_model(edited(m, e)),
{
    let s = m.text;
    let k = m.cursor as int;
    lemma_line_start(s, k);
    lemma_line_end(s, k);
    match e {
        Edit::Move(Direction::Down) => {
            let ce = line_end_at(s, k);
            if ce < s.len() {
                lemma_line_end(s, ce + 1);
                lemma_column_target(
                    s,
                    ce + 1,
                    line_end_at(s, ce + 1),
                    str_columns(s.subrange(line_start_at(s, k), k)) as int,
                );
            }
        },
        Edit::Move(Direction::Up) => {
            let cs = line_start_at(s, k);
            if cs > 0 {
                lemma_line_start(s, cs - 1);
                lemma_column_target(
                    s,
                    line_start_at(s, cs - 1),
                    cs - 1,
                    str_columns(s.subrange(cs, k)) as int,
                );
            }
        },
        _ => {},
    }
}

/// Moving the cursor, to any side or to either end of the line, never changes the text.
pub proof fn law_moves_keep_text(m: EditorModel, d: Direction)
    ensures
        edited(m, Edit::Move(d)).text == m.text,
        edited(m, Edit::Home).text == m.text,
        edited(m, Edit::End).text == m.text,
{
}

/// Backspace right after inserting a char takes it away again: text and cursor are as before.
pub proof fn law_backspace_undoes_insert(m: EditorModel, c: char)
    requires
        valid_model(m),
    ensures
        edited(edited(m, Edit::Insert(c)), Edit::Backspace) == m,
{
    let k = m.cursor as int;
    assert(m.text.insert(k, c).remove(k) =~= m.text);
}

/// Inserting a char, stepping back over it and deleting it leaves the editor as before.
pub proof fn law_delete_undoes_insert(m: EditorModel, c: char)
    requires
        valid_model(m),
    ensures
        edited(edited(edited(m, Edit::Insert(c)), Edit::Move(Direction::Left)), Edit::Delete)
            == m,
{
    let k = m.cursor as int;
    assert(m.text.insert(k, c).remove(k) =~= m.text);
}

/// A step left and a step right undo each other, where the first step can be made.
pub proof fn law_left_right_undo(m: EditorModel)
    requires
        valid_model(m),
    ensures
        m.cursor > 0 ==> edited(
            edited(m, Edit::Move(Direction::Left)),
            Edit::Move(Direction::Right),
        ) == m,
        m.cursor < m.text.len() ==> edited(
            edited(m, Edit::Move(Direction::Right)),
            Edit::Move(Direction::Left),
        ) == m,
{
}

/// Home puts the cursor at the start of its line: at the text's start or right
/// after a newline, with no newline between it and the old cursor; End puts it
/// on the newline that ends the line, or at the text's end, with no newline
/// between.
pub proof fn law_home_end_stay_on_the_line(m: EditorModel)
    requires
        valid_model(m),
    ensures
        ({
            let h = edited(m, Edit::Home).cursor as int;
            &&& h <= m.cursor
            &&& (h == 0 || m.text[h - 1] == '\n')
            &&& forall|j: int| h <= j < m.cursor ==> m.text[j] != '\n'
        }),
        ({
            let e = edited(m, Edit::End).cursor as int;
            &&& m.cursor <= e <= m.text.len()
            &&& (e == m.text.len() || m.text[e] == '\n')
            &&& forall|j: int| m.cursor <= j < e ==> m.text[j] != '\n'
        }),
{
    lemma_line_start(m.text, m.cursor as int);
    lemma_line_end(m.text, m.cursor as int);
}

/// No newline between a position and its line start.
proof fn lemma_line_start_same_line(s: Seq<char>, k: int, j: int)
    requires
        0 <= j <= k <= s.len(),
        forall|i: int| j <= i < k ==> s[i] != '\n',
    ensures
        line_start_at(s, j) == line_start_at(s, k),
    decreases k - j,
{
    if j < k {
        lemma_line_start_same_line(s, k - 1, j);
    }
}

/// No newline between a position and its line end.
proof fn lemma_line_end_same_line(s: Seq<char>, j: int, k: int)
    requires
        0 <= j <= k <= s.len(),
        forall|i: int| j <= i < k ==> s[i] != '\n',
    ensures
        line_end_at(s, j) == line_end_at(s, k),
    decreases k - j,
{
    if j < k {
        lemma_line_end_same_line(s, j + 1, k);
    }
}

/// Home and End each stay put when repeated, and either one followed by the
/// other lands where that other alone would: both only move within the line.
pub proof fn law_home_end_idempotent(m: EditorModel)
    requires
        valid_model(m),
    ensures
        edited(edited(m, Edit::Home), Edit::Home) == edited(m, Edit::Home),
        edited(edited(m, Edit::End), Edit::End) == edited(m, Edit::End),
        edited(edited(m, Edit::Home), Edit::End) == edited(m, Edit::End),
        edited(edited(m, Edit::End), Edit::Home) == edited(m, Edit::Home),
{
    let s = m.text;
    let k = m.cursor as int;
    lemma_line_start(s, k);
    lemma_line_end(s, k);
    let h = line_start_at(s, k);
    let e = line_end_at(s, k);
    lemma_line_start(s, h);
    lemma_line_end(s, e);
    lemma_line_end_same_line(s, h, k);
    lemma_line_start_same_line(s, e, k);
}

/// A move down from a line that is not the last lands on the next line; a
/// move up from a line that is not the first lands on the line above;
/// otherwise the editor stays as it is. The text never changes.
pub proof fn law_vertical_moves_reach_the_adjacent_line(m: EditorModel)
    requires
        valid_model(m),
    ensures
        ({
            let s = m.text;
            let k = m.cursor as int;
            let below = edited(m, Edit::Move(Direction::Down));
            let next_start = line_end_at(s, k) + 1;
            &&& below.text == s
            &&& if line_end_at(s, k) < s.len() {
                next_start <= below.cursor <= line_end_at(s, next_start)
            } else {
                below == m
            }
        }),
        ({
            let s = m.text;
            let k = m.cursor as int;
            let above = edited(m, Edit::Move(Direction::Up));
            let previous_end = line_start_at(s, k) - 1;
            &&& above.text == s
            &&& if line_start_at(s, k) > 0 {
                line_start_at(s, previous_end) <= above.cursor <= previous_end
            } else {
                above == m
            }
        }),
{
    let s = m.text;
    let k = m.cursor as int;
    lemma_line_start(s, k);
    lemma_line_end(s, k);
    let cs = line_start_at(s, k);
    let ce = line_end_at(s, k);
    let column = str_columns(s.subrange(cs, k)) as int;
    if ce < s.len() {
        lemma_line_end(s, ce + 1);
        lemma_column_target(s, ce + 1, line_end_at(s, ce + 1), column);
    }
    if cs > 0 {
        lemma_line_start(s, cs - 1);
        lemma_column_target(s, line_start_at(s, cs - 1), cs - 1, column);
    }
}

/// Whether a char is a newline.
pub open spec fn is_newline(c: char) -> bool {
    c == '\n'
}

/// `newlines` counts exactly the `'\n'` chars.
proof fn lemma_newlines_filter(s: Seq<char>)
    ensures
        newlines(s) == s.filter(|c: char| is_newline(c)).len(),
    decreases s.len(),
{
    reveal(Seq::filter);
    if s.len() > 0 {
        lemma_newlines_filter(s.drop_last());
    }
}

/// The line the cursor shows on is the number of `'\n'` chars before it
/// (capped at `u16::MAX`).
pub proof fn law_cursor_line_counts_newlines(m: EditorModel)
    ensures
        cursor_position_of(m).1 == clamp_u16(
            m.text.take(m.cursor as int).filter(|c: char| is_newline(c)).len() as int,
        ),
{
    lemma_newlines_filter(m.text.take(m.cursor as int));
}

/// Inserting a char moves the cursor down one line exactly when the char is
/// a newline (below the `u16::MAX` cap), and keeps it on its line otherwise.
pub proof fn law_inserted_newline_adds_a_line(m: EditorModel, c: char)
    requires
        valid_model(m),
        cursor_position_of(m).1 < u16::MAX,
    ensures
        cursor_position_of(edited(m, Edit::Insert(c))).1 == cursor_position_of(m).1 + if c
            == '\n' {
            1int
        } else {
            0int
        },
{
    let k = m.cursor as int;
    let t = m.text.insert(k, c);
    assert(t.take(k + 1) =~= m.text.take(k).push(c));
    assert(t.take(k + 1).drop_last() =~= m.text.take(k));
    law_cursor_line_counts_newlines(m);
    law_cursor_line_counts_newlines(edited(m, Edit::Insert(c)));
    lemma_newlines_filter(m.text.take(k));
    lemma_newlines_filter(t.take(k + 1));
}

/// A step right never moves the cursor backwards nor changes the text: it
/// passes one char, and at the end of the text leaves the editor as it is.
pub proof fn law_right_moves_forward_one_char(m: EditorModel)
    requires
        valid_model(m),
    ensures
        ({
            let r = edited(m, Edit::Move(Direction::Right));
            &&& r.text == m.text
            &&& m.cursor <= r.cursor <= m.cursor + 1
            &&& r.cursor <= m.text.len()
            &&& (m.cursor < m.text.len() ==> r.cursor == m.cursor + 1)
            &&& (m.cursor == m.text.len() ==> r == m)
        }),
{
}

/// A step left never moves the cursor forwards nor changes the text: it
/// passes one char back, and at the start of the text leaves the editor as it
/// is.
pub proof fn law_left_moves_back_one_char(m: EditorModel)
    requires
        valid_model(m),
    ensures
        ({
            let l = edited(m, Edit::Move(Direction::Left));
            &&& l.text == m.text
            &&& l.cursor <= m.cursor <= l.cursor + 1
            &&& (m.cursor > 0 ==> l.cursor + 1 == m.cursor)
            &&& (m.cursor == 0 ==> l == m)
        }),
{
}

/// The display columns that the chars of `t` take one by one, as the cursor
/// counts them when it walks along a line: each char's width, none for a
/// control char.
pub open spec fn line_columns(t: Seq<char>) -> int
    decreases t.len(),
{
    if t.len() == 0 {
        0
    } else {
        (match char_columns(t[0]) {
            Some(w) => w as int,
            None => 0int,
        }) + line_columns(t.drop_first())
    }
}

/// The columns of a prefix are those of its first char and of the rest.
proof fn lemma_line_columns_shift(t: Seq<char>, i: int)
    requires
        1 <= i <= t.len(),
    ensures
        line_columns(t.take(i)) == (match char_columns(t[0]) {
            Some(w) => w as int,
            None => 0int,
        }) + line_columns(t.drop_first().take(i - 1)),
{
    assert(t.take(i).drop_first() =~= t.drop_first().take(i - 1));
}

/// Column widths never go below zero.
proof fn lemma_line_columns_nonneg(t: Seq<char>)
    ensures
        line_columns(t) >= 0,
    decreases t.len(),
{
    if t.len() > 0 {
        lemma_line_columns_nonneg(t.drop_first());
    }
}

/// What a walk over `budget` columns along `t` stops at: every char it passes
/// starts before the budget is used up and ends within it, and it stops at
/// the end, or once the budget is used up, or before a char that would pass it.
proof fn lemma_walk_stops_at_the_column(t: Seq<char>, budget: int)
    ensures
        ({
            let n = columns_walked(char_widths(t), budget) as int;
            &&& 0 <= n <= t.len()
            &&& forall|i: int|
                0 <= i < n ==> line_columns(#[trigger] t.take(i)) < budget && line_columns(
                    t.take(i + 1),
                ) <= budget
            &&& (n == t.len() || line_columns(t.take(n)) >= budget || line_columns(t.take(n + 1))
                > budget)
        }),
    decreases t.len(),
{
    let ws = char_widths(t);
    assert(t.take(0) =~= Seq::<char>::empty());
    if t.len() > 0 {
        let rest = t.drop_first();
        assert(ws.drop_first() =~= char_widths(rest));
        assert(ws[0] == char_columns(t[0]));
        let c0 = match char_columns(t[0]) {
            Some(w) => w as int,
            None => 0int,
        };
        assert(t.take(1).drop_first() =~= Seq::<char>::empty());
        assert(line_columns(Seq::<char>::empty()) == 0);
        assert(t.take(1)[0] == t[0]);
        assert(line_columns(t.take(1)) == c0);
        lemma_line_columns_nonneg(t.take(0));
        if budget > 0 && c0 <= budget {
            lemma_walk_stops_at_the_column(rest, budget - c0);
            let n = columns_walked(ws, budget) as int;
            assert(n == 1 + columns_walked(char_widths(rest), budget - c0));
            assert forall|i: int| 0 <= i < n implies line_columns(#[trigger] t.take(i)) < budget
                && line_columns(t.take(i + 1)) <= budget by {
                lemma_line_columns_shift(t, i + 1);
                if i > 0 {
                    lemma_line_columns_shift(t, i);
                    assert(line_columns(rest.take(i - 1)) < budget - c0);
                }
            }
            if n < t.len() {
                lemma_line_columns_shift(t, n);
                lemma_line_columns_shift(t, n + 1);
            }
        }
    }
}

/// `column_target` read on the chars of the line `start..end`.
proof fn lemma_column_target_stops_at_the_column(s: Seq<char>, start: int, end: int, column: int)
    requires
        0 <= start <= end <= s.len(),
    ensures
        ({
            let c = column_target(s, start, end, column);
            &&& start <= c <= end
            &&& forall|j: int|
                start <= j < c ==> line_columns(#[trigger] s.subrange(start, j)) < column
                    && line_columns(s.subrange(start, j + 1)) <= column
            &&& (c == end || line_columns(s.subrange(start, c)) >= column || line_columns(
                s.subrange(start, c + 1),
            ) > column)
            &&& line_columns(s.subrange(start, c)) <= column || c == start
            &&& (c == end ==> line_columns(s.subrange(start, end)) <= column || end == start)
        }),
{
    let t = s.subrange(start, end);
    lemma_walk_stops_at_the_column(t, column);
    let c = column_target(s, start, end, column);
    let n = c - start;
    assert forall|j: int| start <= j <= end implies #[trigger] s.subrange(start, j) =~= t.take(
        j - start,
    ) by {}
    assert forall|j: int| start <= j < c implies line_columns(#[trigger] s.subrange(start, j))
        < column && line_columns(s.subrange(start, j + 1)) <= column by {
        assert(s.subrange(start, j) =~= t.take(j - start));
        assert(s.subrange(start, j + 1) =~= t.take(j - start + 1));
        assert(line_columns(t.take(j - start)) < column);
    }
    assert(s.subrange(start, c) =~= t.take(n));
    if c < end {
        assert(s.subrange(start, c + 1) =~= t.take(n + 1));
    }
    if c > start {
        assert(line_columns(t.take(n - 1)) < column);
        assert(s.subrange(start, c - 1 + 1) =~= t.take(n));
    }
    assert(t.take(t.len() as int) =~= t);
}

/// A vertical move keeps the display column: the cursor lands on the
/// adjacent line after exactly the chars that fit within the columns before
/// the old cursor on its line. Every char it passes starts before that column
/// and ends at or before it; it stops at the line's end, or on reaching the
/// column, or before a char that would pass it. So it reaches the line's end
/// only when the line is no wider than the old column.
pub proof fn law_vertical_move_keeps_the_column(m: EditorModel)
    requires
        valid_model(m),
    ensures
        ({
            let s = m.text;
            let k = m.cursor as int;
            let column = str_columns(s.subrange(line_start_at(s, k), k)) as int;
            let start = line_end_at(s, k) + 1;
            let end = line_end_at(s, start);
            let c = edited(m, Edit::Move(Direction::Down)).cursor as int;
            line_end_at(s, k) < s.len() ==> {
                &&& start <= c <= end
                &&& forall|j: int|
                    start <= j < c ==> line_columns(#[trigger] s.subrange(start, j)) < column
                        && line_columns(s.subrange(start, j + 1)) <= column
                &&& (c == end || line_columns(s.subrange(start, c)) >= column || line_columns(
                    s.subrange(start, c + 1),
                ) > column)
                &&& (c == end ==> line_columns(s.subrange(start, end)) <= column || end == start)
            }
        }),
        ({
            let s = m.text;
            let k = m.cursor as int;
            let column = str_columns(s.subrange(line_start_at(s, k), k)) as int;
            let end = line_start_at(s, k) - 1;
            let start = line_start_at(s, end);
            let c = edited(m, Edit::Move(Direction::Up)).cursor as int;
            line_start_at(s, k) > 0 ==> {
                &&& start <= c <= end
                &&& forall|j: int|
                    start <= j < c ==> line_columns(#[trigger] s.subrange(start, j)) < column
                        && line_columns(s.subrange(start, j + 1)) <= column
                &&& (c == end || line_columns(s.subrange(start, c)) >= column || line_columns(
                    s.subrange(start, c + 1),
                ) > column)
                &&& (c == end ==> line_columns(s.subrange(start, end)) <= column || end == start)
            }
        }),
{
    let s = m.text;
    let k = m.cursor as int;
    lemma_line_start(s, k);
    lemma_line_end(s, k);
    let cs = line_start_at(s, k);
    let ce = line_end_at(s, k);
    let column = str_columns(s.subrange(cs, k)) as int;
    if ce < s.len() {
        lemma_line_end(s, ce + 1);
        lemma_column_target_stops_at_the_column(s, ce + 1, line_end_at(s, ce + 1), column);
    }
    if cs > 0 {
        lemma_line_start(s, cs - 1);
        lemma_column_target_stops_at_the_column(s, line_start_at(s, cs - 1), cs - 1, column);
    }
}

/// Inserting a char puts it right before the new cursor, where the old cursor
/// stood: the chars before and after it stay as they were, and the cursor
/// ends up just after it.
pub proof fn law_insert_at_the_cursor(m: EditorModel, c: char)
    requires
        valid_model(m),
    ensures
        ({
            let k = m.cursor as int;
            let n = edited(m, Edit::Insert(c));
            &&& n.text.len() == m.text.len() + 1
            &&& n.text.take(k) == m.text.take(k)
            &&& n.text[k] == c
            &&& n.text.skip(k + 1) == m.text.skip(k)
            &&& n.cursor == m.cursor + 1
        }),
{
    let k = m.cursor as int;
    let n = edited(m, Edit::Insert(c));
    assert(n.text.take(k) =~= m.text.take(k));
    assert(n.text.skip(k + 1) =~= m.text.skip(k));
}

/// Backspace erases the char before the cursor and the cursor steps back over
/// it; Delete erases the char at the cursor and the cursor stays. Where there
/// is no such char, nothing changes.
pub proof fn law_erase_next_to_the_cursor(m: EditorModel)
    requires
        valid_model(m),
    ensures
        ({
            let k = m.cursor as int;
            let b = edited(m, Edit::Backspace);
            if k > 0 {
                &&& b.text == m.text.take(k - 1) + m.text.skip(k)
                &&& b.cursor + 1 == m.cursor
            } else {
                b == m
            }
        }),
        ({
            let k = m.cursor as int;
            let d = edited(m, Edit::Delete);
            if k < m.text.len() {
                &&& d.text == m.text.take(k) + m.text.skip(k + 1)
                &&& d.cursor == m.cursor
            } else {
                d == m
            }
        }),
{
    let k = m.cursor as int;
    if k > 0 {
        assert(m.text.remove(k - 1) =~= m.text.take(k - 1) + m.text.skip(k));
    }
    if k < m.text.len() {
        assert(m.text.remove(k) =~= m.text.take(k) + m.text.skip(k + 1));
    }
}

/// The column the cursor shows at is the display width of the chars between
/// the start of its line (the text's start, or just after the last newline
/// before the cursor) and the cursor, capped at `u16::MAX`.
pub proof fn law_cursor_column_is_the_line_width(m: EditorModel, j: int)
    requires
        valid_model(m),
        0 <= j <= m.cursor,
        j == 0 || m.text[j - 1] == '\n',
        forall|i: int| j <= i < m.cursor ==> m.text[i] != '\n',
    ensures
        cursor_position_of(m).0 == clamp_u16(str_columns(m.text.subrange(j, m.cursor as int)) as int),
{
    let s = m.text;
    let k = m.cursor as int;
    lemma_line_start(s, k);
    let ls = line_start_at(s, k);
    if j < ls {
        assert(s[ls - 1] != '\n');
    } else if j > ls {
        assert(s[j - 1] != '\n');
    }
}

} // verus!
