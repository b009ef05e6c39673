//! A single- or multi-line text field with a cursor, edited key by key.
//!
//! The model of an editor is its text, a `Seq<char>`, and the cursor as a char
//! index into it (`0..=len`). The implementation keeps the cursor as a byte
//! offset into the UTF-8 text, always on a char boundary.
use crate::action::Direction;
use crate::utf8_text::{
    byte_len, index_of_offset, is_char_offset, lemma_byte_len_concat, lemma_byte_len_push,
    lemma_index_of_offset, lemma_len_le_byte_len, lemma_offset_bounded, lemma_offset_ends,
    lemma_offset_increasing, lemma_offset_step, lemma_utf8_width_bounds, offset_of, string_drain,
    string_insert, utf8_len, utf8_width,
};
use crate::width::{char_columns, char_width, str_columns, str_width};
use vstd::prelude::*;
use vstd::string::StrSliceExecFns;

verus! {

/// One editing step.
#[derive(Debug, Clone, Copy)]
pub enum Edit {
    Insert(char),
    Backspace,
    Delete,
    Move(Direction),
    Home,
    End,
}

/// A text and a cursor in it.
#[derive(Debug, Clone)]
pub struct TextEditor {
    text: String,
    cursor: usize,
}

/// What an editor holds: its chars, and the index of the char before which
/// the cursor stands.
pub struct EditorModel {
    pub text: Seq<char>,
    pub cursor: nat,
}

/// A model whose cursor lies within its text.
pub open spec fn valid_model(m: EditorModel) -> bool {
    m.cursor <= m.text.len()
}

/// Index of the first char of the line that holds position `k`: just after
/// the last `'\n'` before `k`, or 0.
pub open spec fn line_start_at(s: Seq<char>, k: int) -> int
    decreases k,
{
    if k <= 0 {
        0
    } else if s[k - 1] == '\n' {
        k
    } else {
        line_start_at(s, k - 1)
    }
}

/// Index of the `'\n'` that ends the line holding position `k`, or the text's
/// length on the last line.
pub open spec fn line_end_at(s: Seq<char>, k: int) -> int
    decreases s.len() - k,
{
    if k >= s.len() {
        s.len() as int
    } else if s[k] == '\n' {
        k
    } else {
        line_end_at(s, k + 1)
    }
}

/// The columns a char of the given width counts for when the cursor walks
/// along a line: a control char (no width) counts for none.
pub open spec fn cells_of(width: Option<usize>) -> int {
    match width {
        Some(w) => w as int,
        None => 0,
    }
}

/// How many of the chars, of widths `widths`, the cursor passes when it walks
/// over `budget` columns: it stops when no column is left, or before a char
/// wider than what is left, or after the last char.
pub open spec fn columns_walked(widths: Seq<Option<usize>>, budget: int) -> nat
    decreases widths.len(),
{
    if widths.len() == 0 {
        0
    } else if budget <= 0 {
        0
    } else if cells_of(widths[0]) > budget {
        0
    } else {
        1 + columns_walked(widths.drop_first(), budget - cells_of(widths[0]))
    }
}

/// The widths of the chars of `s`.
pub open spec fn char_widths(s: Seq<char>) -> Seq<Option<usize>> {
    s.map_values(|c: char| char_columns(c))
}

/// The position reached by walking from `start` towards `end` over `budget`
/// display columns (see `columns_walked`).
pub open spec fn column_target(s: Seq<char>, start: int, end: int, budget: int) -> int {
    start + columns_walked(char_widths(s.subrange(start, end)), budget)
}

/// The model after a move to the line below (`down`) or above: the cursor
/// goes to the same display column there, or to the line's end if it is
/// shorter; on the last (first) line nothing changes.
pub open spec fn moved_vertically(m: EditorModel, down: bool) -> EditorModel {
    let s = m.text;
    let k = m.cursor as int;
    let current_start = line_start_at(s, k);
    let current_end = line_end_at(s, k);
    let column = str_columns(s.subrange(current_start, k)) as int;
    if down {
        if current_end == s.len() {
            m
        } else {
            let start = current_end + 1;
            EditorModel {
                text: s,
                cursor: column_target(s, start, line_end_at(s, start), column) as nat,
            }
        }
    } else {
        if current_start == 0 {
            m
        } else {
            let end = current_start - 1;
            EditorModel {
                text: s,
                cursor: column_target(s, line_start_at(s, end), end, column) as nat,
            }
        }
    }
}

/// The model after one edit.
pub open spec fn edited(m: EditorModel, edit: Edit) -> EditorModel {
    let s = m.text;
    let k = m.cursor as int;
    match edit {
        Edit::Insert(c) => EditorModel { text: s.insert(k, c), cursor: m.cursor + 1 },
        Edit::Backspace => if k > 0 {
            EditorModel { text: s.remove(k - 1), cursor: (k - 1) as nat }
        } else {
            m
        },
        Edit::Delete => if k < s.len() {
            EditorModel { text: s.remove(k), cursor: m.cursor }
        } else {
            m
        },
        Edit::Move(Direction::Left) => if k > 0 {
            EditorModel { text: s, cursor: (k - 1) as nat }
        } else {
            m
        },
        Edit::Move(Direction::Right) => if k < s.len() {
            EditorModel { text: s, cursor: m.cursor + 1 }
        } else {
            m
        },
        Edit::Move(Direction::Up) => moved_vertically(m, false),
        Edit::Move(Direction::Down) => moved_vertically(m, true),
        Edit::Home => EditorModel { text: s, cursor: line_start_at(s, k) as nat },
        Edit::End => EditorModel { text: s, cursor: line_end_at(s, k) as nat },
    }
}

/// Number of `'\n'` in `s`.
pub open spec fn newlines(s: Seq<char>) -> nat
    decreases s.len(),
{
    if s.len() == 0 {
        0
    } else {
        newlines(s.drop_last()) + if s.last() == '\n' {
            1nat
        } else {
            0nat
        }
    }
}

/// `n`, or `u16::MAX` where `n` is larger.
pub open spec fn clamp_u16(n: int) -> u16 {
    if n > u16::MAX {
        u16::MAX
    } else {
        n as u16
    }
}

/// Where the cursor shows on a terminal: the display width of its line up to
/// the cursor, and the number of lines above it, each capped at `u16::MAX`.
pub open spec fn cursor_position_of(m: EditorModel) -> (u16, u16) {
    let s = m.text;
    let k = m.cursor as int;
    (
        clamp_u16(str_columns(s.subrange(line_start_at(s, k), k)) as int),
        clamp_u16(newlines(s.take(k)) as int),
    )
}

/// The line start of position `k` lies in `0..=k`, right after a `'\n'` when positive.
pub proof fn lemma_line_start(s: Seq<char>, k: int)
    requires
        0 <= k <= s.len(),
    ensures
        0 <= line_start_at(s, k) <= k,
        line_start_at(s, k) > 0 ==> s[line_start_at(s, k) - 1] == '\n',
        forall|j: int| line_start_at(s, k) <= j < k ==> s[j] != '\n',
    decreases k,
{
    if k > 0 && s[k - 1] != '\n' {
        lemma_line_start(s, k - 1);
    }
}

/// The line end of position `k` lies in `k..=s.len()`, on a `'\n'` when
/// before the end.
pub proof fn lemma_line_end(s: Seq<char>, k: int)
    requires
        0 <= k <= s.len(),
    ensures
        k <= line_end_at(s, k) <= s.len(),
        line_end_at(s, k) < s.len() ==> s[line_end_at(s, k)] == '\n',
        forall|j: int| k <= j < line_end_at(s, k) ==> s[j] != '\n',
    decreases s.len() - k,
{
    if k < s.len() && s[k] != '\n' {
        lemma_line_end(s, k + 1);
    }
}

/// A walk passes at most all the chars.
pub proof fn lemma_columns_walked(widths: Seq<Option<usize>>, budget: int)
    ensures
        columns_walked(widths, budget) <= widths.len(),
    decreases widths.len(),
{
    if widths.len() > 0 && budget > 0 && cells_of(widths[0]) <= budget {
        lemma_columns_walked(widths.drop_first(), budget - cells_of(widths[0]));
    }
}

/// A walk along a line stays between its start and its end.
pub proof fn lemma_column_target(s: Seq<char>, start: int, end: int, budget: int)
    requires
        0 <= start <= end <= s.len(),
    ensures
        start <= column_target(s, start, end, budget) <= end,
{
    lemma_columns_walked(char_widths(s.subrange(start, end)), budget);
}

/// The number of chars, of widths `widths` (as `UnicodeWidthChar::width`
/// reports them), that the cursor passes when it walks over `target` columns.
pub fn walk_columns(widths: &[Option<usize>], target: usize) -> (passed: usize)
    ensures
        passed == columns_walked(widths@, target as int),
{
    let mut i: usize = 0;
    let mut budget = target;
    proof {
        assert(widths@.skip(0) =~= widths@);
    }
    while i < widths.len()
        invariant
            i <= widths@.len(),
            columns_walked(widths@, target as int) == i + columns_walked(
                widths@.skip(i as int),
                budget as int,
            ),
        decreases widths@.len() - i,
    {
        proof {
            assert(widths@.skip(i as int).drop_first() =~= widths@.skip(i + 1));
        }
        if budget == 0 {
            return i;
        }
        let cells = match widths[i] {
            Some(w) => w,
            None => 0,
        };
        if cells > budget {
            return i;
        }
        budget = budget - cells;
        i = i + 1;
    }
    proof {
        assert(widths@.skip(i as int).len() == 0);
    }
    i
}

impl View for TextEditor {
    type V = EditorModel;

    closed spec fn view(&self) -> EditorModel {
        EditorModel {
            text: self.text@,
            cursor: index_of_offset(self.text@, self.cursor as int) as nat,
        }
    }
}

impl TextEditor {
    /// The editor's own invariant: the text fits in memory and the cursor is
    /// a char boundary of it.
    pub closed spec fn wf(&self) -> bool {
        &&& byte_len(self.text@) <= usize::MAX
        &&& is_char_offset(self.text@, self.cursor as int)
    }

    proof fn lemma_view(&self)
        requires
            self.wf(),
        ensures
            0 <= self@.cursor <= self.text@.len(),
            offset_of(self.text@, self@.cursor as int) == self.cursor,
            self@.text == self.text@,
    {
    }

    /// The cursor of a well-formed editor lies within its text.
    pub proof fn lemma_valid(&self)
        requires
            self.wf(),
        ensures
            valid_model(self@),
    {
    }

    /// The char index of the char boundary at byte offset `offset`.
    fn char_index(&self, offset: usize) -> (k: usize)
        requires
            self.wf(),
            is_char_offset(self.text@, offset as int),
        ensures
            k <= self.text@.len(),
            offset_of(self.text@, k as int) == offset,
            index_of_offset(self.text@, offset as int) == k,
    {
        let text = self.text.as_str();
        let ghost s = self.text@;
        let ghost target = index_of_offset(s, offset as int);
        let mut i: usize = 0;
        let mut b: usize = 0;
        proof {
            lemma_offset_ends(s);
        }
        while b < offset
            invariant
                text@ == s,
                0 <= target <= s.len(),
                offset_of(s, target) == offset,
                i <= target,
                i <= b,
                b == offset_of(s, i as int),
            decreases target - i,
        {
            proof {
                lemma_offset_step(s, i as int);
                if i + 1 < target {
                    lemma_offset_increasing(s, i + 1, target);
                }
            }
            let c = text.get_char(i);
            b = b + utf8_len(c);
            i = i + 1;
        }
        proof {
            if i < target {
                lemma_offset_increasing(s, i as int, target);
            }
            lemma_index_of_offset(s, i as int);
        }
        i
    }

    /// The byte offset of char index `k`.
    fn offset_at(&self, k: usize) -> (offset: usize)
        requires
            self.wf(),
            k <= self.text@.len(),
        ensures
            offset == offset_of(self.text@, k as int),
    {
        let text = self.text.as_str();
        let ghost s = self.text@;
        let mut i: usize = 0;
        let mut b: usize = 0;
        proof {
            lemma_offset_ends(s);
        }
        while i < k
            invariant
                text@ == s,
                k <= s.len(),
                byte_len(s) <= usize::MAX,
                i <= k,
                b == offset_of(s, i as int),
            decreases k - i,
        {
            proof {
                lemma_offset_step(s, i as int);
                lemma_offset_bounded(s, i + 1);
            }
            let c = text.get_char(i);
            b = b + utf8_len(c);
            i = i + 1;
        }
        b
    }

    /// `line_start_at` on char indices.
    fn line_start_index(&self, k: usize) -> (start: usize)
        requires
            k <= self.text@.len(),
        ensures
            start == line_start_at(self.text@, k as int),
    {
        let text = self.text.as_str();
        let mut j = k;
        while j > 0 && text.get_char(j - 1) != '\n'
            invariant
                text@ == self.text@,
                j <= k <= text@.len(),
                line_start_at(text@, j as int) == line_start_at(text@, k as int),
            decreases j,
        {
            j = j - 1;
        }
        j
    }

    /// `line_end_at` on char indices.
    fn line_end_index(&self, k: usize) -> (end: usize)
        requires
            k <= self.text@.len(),
        ensures
            end == line_end_at(self.text@, k as int),
    {
        let text = self.text.as_str();
        let n = text.unicode_len();
        let mut j = k;
        while j < n && text.get_char(j) != '\n'
            invariant
                text@ == self.text@,
                n == text@.len(),
                k <= j <= n,
                line_end_at(text@, j as int) == line_end_at(text@, k as int),
            decreases n - j,
        {
            j = j + 1;
        }
        j
    }

    /// `column_target` on char indices.
    fn column_index(&self, start: usize, end: usize, target: usize) -> (index: usize)
        requires
            start <= end <= self.text@.len(),
        ensures
            index == column_target(self.text@, start as int, end as int, target as int),
    {
        let text = self.text.as_str();
        let mut widths: Vec<Option<usize>> = Vec::new();
        let mut j = start;
        while j < end
            invariant
                text@ == self.text@,
                start <= j <= end <= text@.len(),
                widths@ =~= char_widths(text@.subrange(start as int, j as int)),
            decreases end - j,
        {
            widths.push(char_width(text.get_char(j)));
            j = j + 1;
        }
        let passed = walk_columns(widths.as_slice(), target);
        proof {
            lemma_columns_walked(widths@, target as int);
        }
        start + passed
    }

    /// The byte offset of the char before the cursor, if any.
    fn previous_boundary(&self) -> (previous: Option<usize>)
        requires
            self.wf(),
        ensures
            previous == (if self@.cursor > 0 {
                Some(offset_of(self@.text, self@.cursor - 1) as usize)
            } else {
                None::<usize>
            }),
    {
        proof {
            self.lemma_view();
            lemma_offset_ends(self.text@);
            if self@.cursor > 0 {
                lemma_offset_increasing(self.text@, 0, self@.cursor as int);
            }
        }
        if self.cursor == 0 {
            None
        } else {
            let k = self.char_index(self.cursor);
            Some(self.offset_at(k - 1))
        }
    }

    /// The byte offset of the char after the one at the cursor (the text's
    /// byte length after its last char), if the cursor is not at the end.
    fn next_boundary(&self) -> (next: Option<usize>)
        requires
            self.wf(),
        ensures
            next == (if self@.cursor < self@.text.len() {
                Some(offset_of(self@.text, self@.cursor + 1int) as usize)
            } else {
                None::<usize>
            }),
    {
        proof {
            self.lemma_view();
            lemma_offset_ends(self.text@);
            lemma_len_le_byte_len(self.text@);
            if self@.cursor < self.text@.len() {
                lemma_offset_increasing(self.text@, self@.cursor as int, self.text@.len() as int);
            }
        }
        if self.cursor < self.text.as_str().len() {
            let k = self.char_index(self.cursor);
            Some(self.offset_at(k + 1))
        } else {
            None
        }
    }

    /// The byte offset of the start of the line that holds byte offset `cursor`.
    fn line_start(&self, cursor: usize) -> (start: usize)
        requires
            self.wf(),
            is_char_offset(self.text@, cursor as int),
        ensures
            start == offset_of(
                self.text@,
                line_start_at(self.text@, index_of_offset(self.text@, cursor as int)),
            ),
    {
        let k = self.char_index(cursor);
        proof {
            lemma_line_start(self.text@, k as int);
        }
        self.offset_at(self.line_start_index(k))
    }

    /// The byte offset of the end of the line that holds byte offset `cursor`.
    fn line_end(&self, cursor: usize) -> (end: usize)
        requires
            self.wf(),
            is_char_offset(self.text@, cursor as int),
        ensures
            end == offset_of(
                self.text@,
                line_end_at(self.text@, index_of_offset(self.text@, cursor as int)),
            ),
    {
        let k = self.char_index(cursor);
        proof {
            lemma_line_end(self.text@, k as int);
        }
        self.offset_at(self.line_end_index(k))
    }

    /// The byte offset reached by walking from byte offset `start` towards
    /// `end` over `target` display columns (see `column_target`).
    fn byte_at_column(&self, start: usize, end: usize, target: usize) -> (offset: usize)
        requires
            self.wf(),
            is_char_offset(self.text@, start as int),
            is_char_offset(self.text@, end as int),
            start <= end,
        ensures
            offset == offset_of(
                self.text@,
                column_target(
                    self.text@,
                    index_of_offset(self.text@, start as int),
                    index_of_offset(self.text@, end as int),
                    target as int,
                ),
            ),
    {
        let i = self.char_index(start);
        let j = self.char_index(end);
        proof {
            if j < i {
                lemma_offset_increasing(self.text@, j as int, i as int);
            }
            lemma_column_target(self.text@, i as int, j as int, target as int);
        }
        self.offset_at(self.column_index(i, j, target))
    }

    /// Moves the cursor to the same display column on the line below (`down`)
    /// or above; see `moved_vertically`.
    fn move_vertically(&mut self, down: bool)
        requires
            old(self).wf(),
        ensures
            final(self).wf(),
            final(self)@ == moved_vertically(old(self)@, down),
    {
        let ghost s = self.text@;
        let ghost k = self@.cursor as int;
        proof {
            self.lemma_view();
            lemma_line_start(s, k);
            lemma_line_end(s, k);
            lemma_offset_ends(s);
            lemma_index_of_offset(s, line_start_at(s, k));
            lemma_index_of_offset(s, line_end_at(s, k));
        }
        let current_start = self.line_start(self.cursor);
        let current_end = self.line_end(self.cursor);
        let cursor_index = self.char_index(self.cursor);
        let start_index = self.char_index(current_start);
        let column = str_width(self.text.as_str().substring_char(start_index, cursor_index));
        let ghost cs = line_start_at(s, k);
        let ghost ce = line_end_at(s, k);
        let (target_start, target_end) = if down {
            proof {
                if ce < s.len() {
                    lemma_offset_increasing(s, ce, s.len() as int);
                }
            }
            if current_end == self.text.as_str().len() {
                return ;
            }
            proof {
                lemma_offset_step(s, ce);
                assert(utf8_width('\n') == 1);
                lemma_offset_bounded(s, ce + 1);
                lemma_index_of_offset(s, ce + 1);
                lemma_line_end(s, ce + 1);
                lemma_index_of_offset(s, line_end_at(s, ce + 1));
                if ce + 1 < line_end_at(s, ce + 1) {
                    lemma_offset_increasing(s, ce + 1, line_end_at(s, ce + 1));
                }
            }
            let start = current_end + 1;
            (start, self.line_end(start))
        } else {
            proof {
                if cs > 0 {
                    lemma_offset_increasing(s, 0, cs);
                }
            }
            if current_start == 0 {
                return ;
            }
            proof {
                lemma_offset_step(s, cs - 1);
                assert(utf8_width('\n') == 1);
                lemma_index_of_offset(s, cs - 1);
                lemma_line_start(s, cs - 1);
                lemma_index_of_offset(s, line_start_at(s, cs - 1));
                if line_start_at(s, cs - 1) < cs - 1 {
                    lemma_offset_increasing(s, line_start_at(s, cs - 1), cs - 1);
                }
            }
            let end = current_start - 1;
            (self.line_start(end), end)
        };
        let new_cursor = self.byte_at_column(target_start, target_end, column);
        proof {
            let ts = index_of_offset(s, target_start as int);
            let te = index_of_offset(s, target_end as int);
            lemma_column_target(s, ts, te, column as int);
            lemma_index_of_offset(s, column_target(s, ts, te, column as int));
            lemma_offset_bounded(s, column_target(s, ts, te, column as int));
        }
        self.cursor = new_cursor;
    }

    /// Inserts `character` at the cursor and steps over it.
    fn insert_char(&mut self, character: char)
        requires
            old(self).wf(),
            byte_len(old(self)@.text) + utf8_width(character) <= isize::MAX,
        ensures
            final(self).wf(),
            final(self)@ == edited(old(self)@, Edit::Insert(character)),
    {
        let ghost s = self.text@;
        let ghost k = self@.cursor as int;
        proof {
            self.lemma_view();
            assert(s =~= s.take(k) + s.skip(k));
            lemma_byte_len_concat(s.take(k), s.skip(k));
            let t = s.insert(k, character);
            assert(t =~= s.take(k).push(character) + s.skip(k));
            assert(t.take(k + 1) =~= s.take(k).push(character));
            lemma_byte_len_push(s.take(k), character);
            lemma_byte_len_concat(s.take(k).push(character), s.skip(k));
            lemma_index_of_offset(t, k + 1);
            lemma_utf8_width_bounds(character);
        }
        let width = utf8_len(character);
        string_insert(&mut self.text, self.cursor, character);
        self.cursor = self.cursor + width;
    }

    /// Where the cursor shows: the display width of its line up to the
    /// cursor, and the number of lines above it (see `cursor_position_of`).
    pub fn cursor_position(&self) -> (position: (u16, u16))
        requires
            self.wf(),
        ensures
            position == cursor_position_of(self@),
    {
        proof {
            self.lemma_view();
        }
        let text = self.text.as_str();
        let k = self.char_index(self.cursor);
        let start = self.line_start_index(k);
        proof {
            lemma_line_start(self.text@, k as int);
        }
        let line = text.substring_char(start, k);
        let width = str_width(line);
        let x: u16 = if width > u16::MAX as usize {
            u16::MAX
        } else {
            width as u16
        };
        let mut lines: usize = 0;
        let mut i: usize = 0;
        while i < k
            invariant
                text@ == self.text@,
                k <= text@.len(),
                i <= k,
                lines <= i,
                lines == newlines(text@.take(i as int)),
            decreases k - i,
        {
            proof {
                assert(text@.take(i + 1).drop_last() =~= text@.take(i as int));
            }
            if text.get_char(i) == '\n' {
                lines = lines + 1;
            }
            i = i + 1;
        }
        let y: u16 = if lines > u16::MAX as usize {
            u16::MAX
        } else {
            lines as u16
        };
        (x, y)
    }

    /// Applies one edit at the cursor; see `edited` for what each does.
    pub fn edit(&mut self, edit: Edit)
        requires
            old(self).wf(),
            edit matches Edit::Insert(c) ==> byte_len(old(self)@.text) + utf8_width(c)
                <= isize::MAX,
        ensures
            final(self).wf(),
            final(self)@ == edited(old(self)@, edit),
    {
        let ghost s = self.text@;
        let ghost k = self@.cursor as int;
        proof {
            self.lemma_view();
            lemma_offset_ends(s);
            assert(s =~= s.take(k) + s.skip(k));
            lemma_byte_len_concat(s.take(k), s.skip(k));
        }
        match edit {
            Edit::Insert(character) => self.insert_char(character),
            Edit::Backspace => {
                if let Some(previous) = self.previous_boundary() {
                    proof {
                        let t = s.take(k - 1) + s.skip(k);
                        assert(t =~= s.remove(k - 1));
                        assert(t.take(k - 1) =~= s.take(k - 1));
                        lemma_index_of_offset(s, k - 1);
                        lemma_index_of_offset(t, k - 1);
                        lemma_byte_len_concat(s.take(k - 1), s.skip(k));
                        lemma_offset_bounded(s, k - 1);
                        lemma_offset_increasing(s, k - 1, k);
                    }
                    string_drain(&mut self.text, previous, self.cursor);
                    self.cursor = previous;
                }
            },
            Edit::Delete => {
                if let Some(next) = self.next_boundary() {
                    proof {
                        let t = s.take(k) + s.skip(k + 1);
                        assert(t =~= s.remove(k));
                        assert(t.take(k) =~= s.take(k));
                        lemma_index_of_offset(s, k + 1);
                        lemma_index_of_offset(s, k);
                        lemma_index_of_offset(t, k);
                        lemma_byte_len_concat(s.take(k), s.skip(k + 1));
                        assert(s =~= s.take(k + 1) + s.skip(k + 1));
                        lemma_byte_len_concat(s.take(k + 1), s.skip(k + 1));
                        lemma_offset_increasing(s, k, k + 1);
                        lemma_offset_bounded(s, k + 1);
                    }
                    string_drain(&mut self.text, self.cursor, next);
                }
            },
            Edit::Move(Direction::Left) => {
                if let Some(previous) = self.previous_boundary() {
                    proof {
                        lemma_index_of_offset(s, k - 1);
                        lemma_offset_bounded(s, k - 1);
                    }
                    self.cursor = previous;
                }
            },
            Edit::Move(Direction::Right) => {
                if let Some(next) = self.next_boundary() {
                    proof {
                        lemma_index_of_offset(s, k + 1);
                        lemma_offset_bounded(s, k + 1);
                    }
                    self.cursor = next;
                }
            },
            Edit::Move(Direction::Up) => self.move_vertically(false),
            Edit::Move(Direction::Down) => self.move_vertically(true),
            Edit::Home => {
                proof {
                    lemma_line_start(s, k);
                    lemma_index_of_offset(s, line_start_at(s, k));
                }
                self.cursor = self.line_start(self.cursor);
            },
            Edit::End => {
                proof {
                    lemma_line_end(s, k);
                    lemma_index_of_offset(s, line_end_at(s, k));
                }
                self.cursor = self.line_end(self.cursor);
            },
        }
    }

    /// An editor holding `text`, with the cursor at its end.
    pub fn new(text: &str) -> (editor: Self)
        ensures
            editor.wf(),
            editor@ == (EditorModel { text: text@, cursor: text@.len() }),
    {
        // A slice's length fits in `usize`: so does the text's byte length.
        let byte_count = text.as_bytes().len();
        let text = text.to_owned();
        let cursor = text.as_str().len();
        proof {
            assert(byte_len(text@) == byte_count);
            lemma_offset_ends(text@);
            lemma_index_of_offset(text@, text@.len() as int);
        }
        TextEditor { text, cursor }
    }

    /// The text being edited.
    pub fn text(&self) -> (text: &str)
        ensures
            text@ == self@.text,
    {
        self.text.as_str()
    }

    /// Whether the cursor stands before the first char.
    pub fn is_at_start(&self) -> (at_start: bool)
        requires
            self.wf(),
        ensures
            at_start == (self@.cursor == 0),
    {
        proof {
            self.lemma_view();
            lemma_offset_ends(self.text@);
            if self@.cursor > 0 {
                lemma_offset_increasing(self.text@, 0, self@.cursor as int);
            }
        }
        self.cursor == 0
    }

    /// Whether the cursor stands after the last char.
    pub fn is_at_end(&self) -> (at_end: bool)
        requires
            self.wf(),
        ensures
            at_end == (self@.cursor == self@.text.len()),
    {
        proof {
            self.lemma_view();
            lemma_offset_ends(self.text@);
            if self@.cursor < self.text@.len() {
                lemma_offset_increasing(self.text@, self@.cursor as int, self.text@.len() as int);
            }
        }
        self.cursor == self.text.as_str().len()
    }
}

impl Default for TextEditor {
    /// An empty editor.
    fn default() -> (editor: Self)
        ensures
            editor.wf(),
            editor@ == (EditorModel { text: Seq::<char>::empty(), cursor: 0 }),
    {
        let text = String::new();
        proof {
            lemma_offset_ends(text@);
            lemma_index_of_offset(text@, 0);
        }
        TextEditor { text, cursor: 0 }
    }
}

} // verus!
