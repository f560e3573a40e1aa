//! The multi-line document buffer.
//!
//! A `File` is a non-empty ordered sequence of text lines plus a cursor
//! `(column, row)` in codepoint units and a viewport offset `(column, row)`
//! naming the top-left visible cell. The stored cursor column may exceed the
//! current line's length (vertical cursor memory); it is clamped only where a
//! valid index is needed: at edit operations and at render-position
//! computation.

use crate::unicode::UnicodeString;
use crate::unicode::lemma_len_le_encoded;
use vstd::prelude::*;
use vstd::string::StringExecFns;

verus! {

/// Where a one-dimensional viewport offset lands after the minimal-distance
/// scroll that brings the cursor into a window of `size` cells: an offset
/// above the cursor is pulled back to it, an offset trailing by more than
/// `size - 1` cells is pushed forward by exactly the overflow, and any other
/// offset is kept.
pub open spec fn adjusted_offset(cursor: int, off: int, size: int) -> int {
    if cursor < off {
        cursor
    } else if cursor - off > size - 1 {
        cursor - (size - 1)
    } else {
        off
    }
}

/// The lines of a buffer joined by a single newline separator, with no
/// trailing metadata.
pub open spec fn join_lines(lines: Seq<Seq<char>>) -> Seq<char>
    decreases lines.len(),
{
    if lines.len() == 0 {
        Seq::empty()
    } else if lines.len() == 1 {
        lines[0]
    } else {
        lines[0].push('\n') + join_lines(lines.drop_first())
    }
}

/// The line has no embedded newline separator.
pub open spec fn has_no_newline(line: Seq<char>) -> bool {
    forall|i: int| 0 <= i < line.len() ==> line[i] != '\n'
}

/// Splitting serialized text back into lines on the newline separator: the
/// empty text is one empty line, a leading separator opens a new empty line,
/// and any other character extends the first line of the rest's split.
pub open spec fn split_lines(s: Seq<char>) -> Seq<Seq<char>>
    decreases s.len(),
{
    if s.len() == 0 {
        seq![Seq::<char>::empty()]
    } else if s[0] == '\n' {
        seq![Seq::<char>::empty()] + split_lines(s.drop_first())
    } else {
        let rest = split_lines(s.drop_first());
        seq![seq![s[0]] + rest[0]] + rest.drop_first()
    }
}

/// A single line without embedded separators splits into itself alone.
proof fn lemma_split_single(l: Seq<char>)
    requires
        has_no_newline(l),
    ensures
        split_lines(l) == seq![l],
    decreases l.len(),
{
    if l.len() == 0 {
        assert(split_lines(l) =~~= seq![l]);
    } else {
        lemma_split_single(l.drop_first());
        let rest = split_lines(l.drop_first());
        assert(rest.drop_first() =~~= Seq::<Seq<char>>::empty());
        assert(seq![l[0]] + l.drop_first() =~= l);
        assert(split_lines(l) =~~= seq![l]);
    }
}

/// Splitting text that begins with a separator-free line, a separator and a
/// tail yields that line followed by the tail's split.
proof fn lemma_split_step(l: Seq<char>, t: Seq<char>)
    requires
        has_no_newline(l),
    ensures
        split_lines(l + seq!['\n'] + t) == seq![l] + split_lines(t),
    decreases l.len(),
{
    let s = l + seq!['\n'] + t;
    if l.len() == 0 {
        assert(s[0] == '\n');
        assert(s.drop_first() =~= t);
        assert(seq![Seq::<char>::empty()] + split_lines(t) =~~= seq![l] + split_lines(t));
    } else {
        assert(s[0] == l[0]);
        assert(s.drop_first() =~= l.drop_first() + seq!['\n'] + t);
        lemma_split_step(l.drop_first(), t);
        let rest = split_lines(s.drop_first());
        assert(rest[0] == l.drop_first());
        assert(seq![s[0]] + rest[0] =~= l);
        assert(rest.drop_first() =~~= split_lines(t));
        assert(seq![l] + split_lines(t) =~~= split_lines(s));
    }
}

/// Round trip: joining a non-empty sequence of separator-free lines and
/// re-splitting on the separator reproduces the lines exactly.
pub proof fn lemma_serialize_round_trip(lines: Seq<Seq<char>>)
    requires
        lines.len() >= 1,
        forall|i: int| 0 <= i < lines.len() ==> has_no_newline(#[trigger] lines[i]),
    ensures
        split_lines(join_lines(lines)) == lines,
    decreases lines.len(),
{
    if lines.len() == 1 {
        lemma_split_single(lines[0]);
        assert(split_lines(join_lines(lines)) =~~= lines);
    } else {
        lemma_serialize_round_trip(lines.drop_first());
        assert(join_lines(lines) =~= lines[0] + seq!['\n'] + join_lines(lines.drop_first()));
        lemma_split_step(lines[0], join_lines(lines.drop_first()));
        assert(seq![lines[0]] + lines.drop_first() =~~= lines);
    }
}

/// The visible portion of one line: its suffix from the column offset, or
/// nothing when the whole line lies left of the viewport.
pub open spec fn visible_line(line: Seq<char>, col_off: int) -> Seq<char> {
    if col_off <= line.len() {
        line.skip(col_off)
    } else {
        Seq::empty()
    }
}

pub struct File {
    pub path: UnicodeString,
    pub lines: Vec<UnicodeString>,
    pub local_cursor: (usize, usize),
    pub viewport_offset: (usize, usize),
}

impl File {
    /// The buffer's lines, as character sequences.
    pub open spec fn contents(&self) -> Seq<Seq<char>> {
        self.lines@.map(|i: int, l: UnicodeString| l@)
    }

    /// Cursor column, in codepoints; may exceed the current line's length.
    pub open spec fn col(&self) -> usize {
        self.local_cursor.0
    }

    /// Cursor row.
    pub open spec fn row(&self) -> usize {
        self.local_cursor.1
    }

    /// First visible column.
    pub open spec fn col_offset(&self) -> usize {
        self.viewport_offset.0
    }

    /// First visible row.
    pub open spec fn row_offset(&self) -> usize {
        self.viewport_offset.1
    }

    /// Each stored line is a well-formed text run.
    pub open spec fn lines_wf(&self) -> bool {
        forall|i: int| 0 <= i < self.lines@.len() ==> (#[trigger] self.lines@[i]).wf()
    }

    /// Well-formedness: the path is well formed, at least one line always
    /// exists, every line is well formed, and the cursor row addresses a
    /// line.
    pub open spec fn wf(&self) -> bool {
        &&& self.path.wf()
        &&& self.lines_wf()
        &&& 1 <= self.contents().len()
        &&& (self.row() as int) < self.contents().len()
    }

    /// The line under the cursor.
    pub open spec fn cur_line(&self) -> Seq<char> {
        self.contents()[self.row() as int]
    }

    /// The cursor column clamped to the current line's length.
    pub open spec fn clamped_col(&self) -> int {
        if self.col() > self.cur_line().len() {
            self.cur_line().len() as int
        } else {
            self.col() as int
        }
    }

    /// A buffer holding a single empty line, cursor and viewport at the
    /// origin, with an empty path.
    pub fn new() -> (r: Self)
        ensures
            r.wf(),
            r.contents() =~= seq![Seq::<char>::empty()],
            r.col() == 0 && r.row() == 0,
            r.col_offset() == 0 && r.row_offset() == 0,
            r.path@ == Seq::<char>::empty(),
    {
        let mut lines: Vec<UnicodeString> = Vec::new();
        lines.push(UnicodeString::new());
        File { path: UnicodeString::new(), lines, local_cursor: (0, 0), viewport_offset: (0, 0) }
    }

    /// Move the cursor one row up, stopping at the first row. The column is
    /// not reclamped, preserving the intended column across shorter lines.
    pub fn move_cursor_up(&mut self)
        requires
            old(self).wf(),
        ensures
            final(self).wf(),
            moved_up_rel(*old(self), *final(self)),
    {
        if self.local_cursor.1 > 0 {
            self.local_cursor.1 = self.local_cursor.1 - 1;
        }
    }

    /// Move the cursor one row down, stopping at the last line. The column
    /// is not reclamped.
    pub fn move_cursor_down(&mut self)
        requires
            old(self).wf(),
        ensures
            final(self).wf(),
            moved_down_rel(*old(self), *final(self)),
    {
        if self.local_cursor.1 < self.lines.len() - 1 {
            self.local_cursor.1 = self.local_cursor.1 + 1;
        }
    }

    /// Clamp the column to the current line, then move one column left,
    /// stopping at column zero.
    pub fn move_cursor_left(&mut self)
        requires
            old(self).wf(),
        ensures
            final(self).wf(),
            moved_left_rel(*old(self), *final(self)),
    {
        self.clamp_cursor();
        if self.local_cursor.0 > 0 {
            self.local_cursor.0 = self.local_cursor.0 - 1;
        }
    }

    /// Clamp the column to the current line, then move one column right,
    /// stopping at the end of the line.
    pub fn move_cursor_right(&mut self)
        requires
            old(self).wf(),
        ensures
            final(self).wf(),
            moved_right_rel(*old(self), *final(self)),
    {
        self.clamp_cursor();
        if self.local_cursor.0 < self.lines[self.local_cursor.1].length() {
            self.local_cursor.0 = self.local_cursor.0 + 1;
        }
    }

    /// Jump the cursor to the start of the current line.
    pub fn move_cursor_line_start(&mut self)
        requires
            old(self).wf(),
        ensures
            final(self).wf(),
            moved_line_start_rel(*old(self), *final(self)),
    {
        self.local_cursor.0 = 0;
    }

    /// Jump the cursor to the end of the current line.
    pub fn move_cursor_line_end(&mut self)
        requires
            old(self).wf(),
        ensures
            final(self).wf(),
            moved_line_end_rel(*old(self), *final(self)),
    {
        self.local_cursor.0 = self.lines[self.local_cursor.1].length();
    }

    /// Replace the stored column with the clamped one.
    fn clamp_cursor(&mut self)
        requires
            old(self).wf(),
        ensures
            final(self).wf(),
            final(self).lines == old(self).lines,
            final(self).contents() == old(self).contents(),
            final(self).path == old(self).path,
            final(self).row() == old(self).row(),
            final(self).col() == old(self).clamped_col(),
            final(self).viewport_offset == old(self).viewport_offset,
            final(self).col_offset() == old(self).col_offset(),
            final(self).row_offset() == old(self).row_offset(),
    {
        let len = self.lines[self.local_cursor.1].length();
        if self.local_cursor.0 > len {
            self.local_cursor.0 = len;
        }
    }

    /// Minimal-distance scroll of both viewport axes so that the stored
    /// cursor lies within the `width` by `height` window; offsets already in
    /// range are kept.
    pub fn adjust_viewport(&mut self, width: usize, height: usize)
        requires
            old(self).wf(),
            width >= 1,
            height >= 1,
        ensures
            final(self).wf(),
            final(self).contents() == old(self).contents(),
            final(self).path == old(self).path,
            final(self).col() == old(self).col(),
            final(self).row() == old(self).row(),
            final(self).col_offset() == adjusted_offset(
                old(self).col() as int,
                old(self).col_offset() as int,
                width as int,
            ),
            final(self).row_offset() == adjusted_offset(
                old(self).row() as int,
                old(self).row_offset() as int,
                height as int,
            ),
            final(self).col_offset() <= final(self).col() < final(self).col_offset() + width,
            final(self).row_offset() <= final(self).row() < final(self).row_offset() + height,
    {
        if self.local_cursor.0 < self.viewport_offset.0 {
            let diff = self.viewport_offset.0 - self.local_cursor.0;
            self.viewport_offset.0 = self.viewport_offset.0 - diff;
        } else if self.local_cursor.0 - self.viewport_offset.0 > width - 1 {
            let diff = (self.local_cursor.0 - self.viewport_offset.0) - (width - 1);
            self.viewport_offset.0 = self.viewport_offset.0 + diff;
        }
        if self.local_cursor.1 < self.viewport_offset.1 {
            let diff = self.viewport_offset.1 - self.local_cursor.1;
            self.viewport_offset.1 = self.viewport_offset.1 - diff;
        } else if self.local_cursor.1 - self.viewport_offset.1 > height - 1 {
            let diff = (self.local_cursor.1 - self.viewport_offset.1) - (height - 1);
            self.viewport_offset.1 = self.viewport_offset.1 + diff;
        }
    }

    /// Cursor position on screen: the origin plus the cursor's distance from
    /// the viewport offset, with the column clamped to the current line so
    /// the drawn cursor never lies past the end of a shorter line.
    pub fn global_cursor(&self, x: u16, y: u16) -> (r: (u16, u16))
        requires
            self.wf(),
            self.col_offset() <= self.clamped_col(),
            self.row_offset() <= self.row(),
            x + self.clamped_col() - self.col_offset() <= u16::MAX,
            y + self.row() - self.row_offset() <= u16::MAX,
        ensures
            r.0 == x + self.clamped_col() - self.col_offset(),
            r.1 == y + self.row() - self.row_offset(),
    {
        let len = self.lines[self.local_cursor.1].length();
        let ccol = if self.local_cursor.0 > len {
            len
        } else {
            self.local_cursor.0
        };
        ((ccol - self.viewport_offset.0) as u16 + x, (self.local_cursor.1 - self.viewport_offset.1)
            as u16 + y)
    }

    /// Clamp the column, insert the character there, and advance the column
    /// past it.
    pub fn write_character(&mut self, ch: char)
        requires
            old(self).wf(),
        ensures
            final(self).wf(),
            write_character_rel(*old(self), *final(self), ch),
    {
        self.clamp_cursor();
        let idx = self.local_cursor.0;
        let row = self.local_cursor.1;
        proof {
            assert(self.lines@[row as int].wf());
        }
        let line = &mut self.lines[row];
        line.insert(idx, ch);
        proof {
            lemma_len_le_encoded(self.lines@[row as int]@);
            assert(self.contents() =~= old(self).contents().update(
                row as int,
                old(self).contents()[row as int].insert(old(self).clamped_col(), ch),
            ));
        }
        self.local_cursor.0 = idx + 1;
    }

    /// Clamp the column. Remove the codepoint before the cursor, or join the
    /// current line onto the previous one when the cursor sits at the start
    /// of a line that is not the first; at the top-left corner, do nothing.
    pub fn remove_character_before(&mut self)
        requires
            old(self).wf(),
        ensures
            final(self).wf(),
            removed_before_rel(*old(self), *final(self)),
    {
        self.clamp_cursor();
        if self.local_cursor.0 > 0 {
            let idx = self.local_cursor.0 - 1;
            let row = self.local_cursor.1;
            proof {
                assert(self.lines@[row as int].wf());
            }
            let line = &mut self.lines[row];
            line.remove(idx);
            self.local_cursor.0 = idx;
            proof {
                assert(self.contents() =~= old(self).contents().update(
                    row as int,
                    old(self).contents()[row as int].remove(old(self).clamped_col() - 1),
                ));
            }
        } else if self.local_cursor.1 > 0 {
            let row = self.local_cursor.1;
            let curr = self.lines.remove(row);
            self.local_cursor.1 = row - 1;
            let prev_len = self.lines[row - 1].length();
            proof {
                assert(old(self).lines@[row as int].wf());
                assert(old(self).lines@[row as int - 1].wf());
                assert(self.lines@[row as int - 1] == old(self).lines@[row as int - 1]);
            }
            let text = curr.as_str();
            let prev = &mut self.lines[row - 1];
            prev.push_str(text);
            self.local_cursor.0 = prev_len;
            proof {
                assert(self.contents() =~= old(self).contents().update(
                    row as int - 1,
                    old(self).contents()[row as int - 1] + old(self).contents()[row as int],
                ).remove(row as int));
            }
        }
    }

    /// Clamp the column. Remove the codepoint under the cursor, or join the
    /// next line onto the current one when the cursor sits at the end of a
    /// line that is not the last; at the very end of the buffer, do nothing.
    pub fn remove_character_after(&mut self)
        requires
            old(self).wf(),
        ensures
            final(self).wf(),
            removed_after_rel(*old(self), *final(self)),
    {
        self.clamp_cursor();
        let row = self.local_cursor.1;
        proof {
            assert(self.lines@[row as int].wf());
        }
        if self.local_cursor.0 < self.lines[row].length() {
            let idx = self.local_cursor.0;
            let line = &mut self.lines[row];
            line.remove(idx);
            proof {
                assert(self.contents() =~= old(self).contents().update(
                    row as int,
                    old(self).contents()[row as int].remove(old(self).clamped_col()),
                ));
            }
        } else if row < self.lines.len() - 1 {
            let next = self.lines.remove(row + 1);
            proof {
                assert(old(self).lines@[row as int + 1].wf());
                assert(self.lines@[row as int] == old(self).lines@[row as int]);
            }
            let text = next.as_str();
            let curr = &mut self.lines[row];
            curr.push_str(text);
            proof {
                assert(self.contents() =~= old(self).contents().update(
                    row as int,
                    old(self).contents()[row as int] + old(self).contents()[row as int + 1],
                ).remove(row as int + 1));
            }
        }
    }

    /// Clamp the column, split the current line there, and place the suffix
    /// on a new line directly below, with the cursor at that line's start.
    pub fn break_line(&mut self)
        requires
            old(self).wf(),
        ensures
            final(self).wf(),
            broke_line_rel(*old(self), *final(self)),
    {
        self.clamp_cursor();
        let idx = self.local_cursor.0;
        let row = self.local_cursor.1;
        proof {
            assert(self.lines@[row as int].wf());
        }
        let line = &mut self.lines[row];
        let line_len = line.length();
        let suffix = line.drain(idx, line_len);
        let new_line = UnicodeString::from(suffix.as_str());
        proof {
            assert(vstd::std_specs::vec::spec_vec_len(&self.lines) == self.lines@.len());
        }
        self.lines.insert(row + 1, new_line);
        self.local_cursor.0 = 0;
        self.local_cursor.1 = row + 1;
        proof {
            let c = old(self).clamped_col();
            let cur = old(self).contents()[row as int];
            assert(cur.take(c) + cur.skip(cur.len() as int) =~= cur.take(c));
            assert(cur.subrange(c, cur.len() as int) =~= cur.skip(c));
            assert(self.contents() =~= old(self).contents().update(row as int, cur.take(c)).insert(
                row as int + 1,
                cur.skip(c),
            ));
        }
    }

    /// All lines joined by a single newline separator.
    pub fn to_string(&self) -> (r: String)
        requires
            self.wf(),
        ensures
            r@ == join_lines(self.contents()),
    {
        let ghost s = self.contents();
        let mut output = String::new();
        let mut i: usize = 0;
        proof {
            assert(s.skip(0) =~= s);
            assert(Seq::<char>::empty() + join_lines(s) =~= join_lines(s));
        }
        while i < self.lines.len()
            invariant
                i <= s.len(),
                join_lines(s) == output@ + join_lines(s.skip(i as int)),
            decreases s.len() - i,
        {
            proof {
                assert(self.lines@[i as int].wf());
                assert(s.skip(i as int)[0] == s[i as int]);
                assert(s.skip(i as int).drop_first() =~= s.skip(i as int + 1));
            }
            let ghost before = output@;
            output.append(self.lines[i].as_str());
            if i < self.lines.len() - 1 {
                output.append("\n");
                proof {
                    reveal_strlit("\n");
                    assert("\n"@ =~= seq!['\n']);
                    assert(output@ =~= before + s[i as int].push('\n'));
                    assert(before + (s[i as int].push('\n') + join_lines(s.skip(i as int + 1)))
                        =~= (before + s[i as int].push('\n')) + join_lines(s.skip(i as int + 1)));
                }
            } else {
                proof {
                    assert(s.skip(i as int).len() == 1);
                    assert(s.skip(i as int + 1) =~= Seq::<Seq<char>>::empty());
                    assert(before + s[i as int] + Seq::<char>::empty() =~= before + s[i as int]);
                }
            }
            i = i + 1;
        }
        proof {
            assert(s.skip(s.len() as int) =~= Seq::<Seq<char>>::empty());
            assert(output@ + Seq::<char>::empty() =~= output@);
        }
        output
    }

    /// The viewport-sliced text spans to draw: one entry per visible row,
    /// each holding that line's suffix from the column offset.
    pub fn visible_lines(&self, height: usize) -> (r: Vec<String>)
        requires
            self.wf(),
            self.row_offset() <= self.contents().len(),
        ensures
            r@.len() == if self.row_offset() + height <= self.contents().len() {
                height as int
            } else {
                self.contents().len() - self.row_offset()
            },
            forall|k: int|
                0 <= k < r@.len() ==> (#[trigger] r@[k])@ == visible_line(
                    self.contents()[self.row_offset() + k],
                    self.col_offset() as int,
                ),
    {
        let first = self.viewport_offset.1;
        let last = if height > self.lines.len() - first {
            self.lines.len()
        } else {
            first + height
        };
        let mut r: Vec<String> = Vec::new();
        let mut i: usize = first;
        while i < last
            invariant
                first <= i <= last <= self.contents().len(),
                r@.len() == i - first,
                forall|k: int|
                    0 <= k < r@.len() ==> (#[trigger] r@[k])@ == visible_line(
                        self.contents()[first + k],
                        self.col_offset() as int,
                    ),
            decreases last - i,
        {
            proof {
                assert(self.lines@[i as int].wf());
            }
            let line_len = self.lines[i].length();
            if self.viewport_offset.0 <= line_len {
                let span = self.lines[i].suffix_from(self.viewport_offset.0);
                r.push(span.to_owned());
            } else {
                r.push(String::new());
            }
            i = i + 1;
        }
        r
    }
}

/// Effect of `move_cursor_up`: the row steps up, stopping at the first row;
/// the stored column and everything else are unchanged.
pub open spec fn moved_up_rel(pre: File, post: File) -> bool {
    &&& post.contents() == pre.contents()
    &&& post.path == pre.path
    &&& post.col() == pre.col()
    &&& post.row() == if pre.row() > 0 {
        pre.row() - 1
    } else {
        0int
    }
    &&& post.col_offset() == pre.col_offset()
    &&& post.row_offset() == pre.row_offset()
}

/// Effect of `move_cursor_down`: the row steps down, stopping at the last
/// line; the stored column and everything else are unchanged.
pub open spec fn moved_down_rel(pre: File, post: File) -> bool {
    &&& post.contents() == pre.contents()
    &&& post.path == pre.path
    &&& post.col() == pre.col()
    &&& post.row() == if (pre.row() as int) < pre.contents().len() - 1 {
        pre.row() + 1
    } else {
        pre.row() as int
    }
    &&& post.col_offset() == pre.col_offset()
    &&& post.row_offset() == pre.row_offset()
}

/// Effect of `move_cursor_left`: the column is clamped, then steps left,
/// stopping at zero; everything else is unchanged.
pub open spec fn moved_left_rel(pre: File, post: File) -> bool {
    &&& post.contents() == pre.contents()
    &&& post.path == pre.path
    &&& post.row() == pre.row()
    &&& post.col() == if pre.clamped_col() > 0 {
        pre.clamped_col() - 1
    } else {
        0int
    }
    &&& post.col_offset() == pre.col_offset()
    &&& post.row_offset() == pre.row_offset()
}

/// Effect of `move_cursor_right`: the column is clamped, then steps right,
/// stopping at the end of the line; everything else is unchanged.
pub open spec fn moved_right_rel(pre: File, post: File) -> bool {
    &&& post.contents() == pre.contents()
    &&& post.path == pre.path
    &&& post.row() == pre.row()
    &&& post.col() == if pre.clamped_col() < pre.cur_line().len() {
        pre.clamped_col() + 1
    } else {
        pre.clamped_col()
    }
    &&& post.col_offset() == pre.col_offset()
    &&& post.row_offset() == pre.row_offset()
}

/// Effect of `move_cursor_line_start`: the column jumps to zero; everything
/// else is unchanged.
pub open spec fn moved_line_start_rel(pre: File, post: File) -> bool {
    &&& post.contents() == pre.contents()
    &&& post.path == pre.path
    &&& post.row() == pre.row()
    &&& post.col() == 0
    &&& post.col_offset() == pre.col_offset()
    &&& post.row_offset() == pre.row_offset()
}

/// Effect of `move_cursor_line_end`: the column jumps to the current line's
/// length; everything else is unchanged.
pub open spec fn moved_line_end_rel(pre: File, post: File) -> bool {
    &&& post.contents() == pre.contents()
    &&& post.path == pre.path
    &&& post.row() == pre.row()
    &&& post.col() == pre.cur_line().len()
    &&& post.col_offset() == pre.col_offset()
    &&& post.row_offset() == pre.row_offset()
}

/// Effect of `write_character`: the character is inserted at the clamped
/// column of the current line and the cursor advances past it; everything
/// else is unchanged.
pub open spec fn write_character_rel(pre: File, post: File, ch: char) -> bool {
    let r = pre.row() as int;
    let c = pre.clamped_col();
    &&& post.contents() == pre.contents().update(r, pre.contents()[r].insert(c, ch))
    &&& post.col() == c + 1
    &&& post.row() == pre.row()
    &&& post.col_offset() == pre.col_offset()
    &&& post.row_offset() == pre.row_offset()
    &&& post.path == pre.path
}

/// Effect of `remove_character_before`: with the column clamped, either the
/// codepoint left of the cursor is removed, or at the start of a non-first
/// line that line is joined onto the previous one with the cursor at the
/// former boundary, or nothing changes at the top-left corner.
pub open spec fn removed_before_rel(pre: File, post: File) -> bool {
    let r = pre.row() as int;
    let c = pre.clamped_col();
    &&& if c > 0 {
        &&& post.contents() == pre.contents().update(r, pre.contents()[r].remove(c - 1))
        &&& post.col() == c - 1
        &&& post.row() == pre.row()
    } else if r > 0 {
        &&& post.contents() == pre.contents().update(
            r - 1,
            pre.contents()[r - 1] + pre.contents()[r],
        ).remove(r)
        &&& post.col() == pre.contents()[r - 1].len()
        &&& post.row() == r - 1
    } else {
        &&& post.contents() == pre.contents()
        &&& post.col() == c
        &&& post.row() == pre.row()
    }
    &&& post.col_offset() == pre.col_offset()
    &&& post.row_offset() == pre.row_offset()
    &&& post.path == pre.path
}

/// Effect of `remove_character_after`: with the column clamped, either the
/// codepoint under the cursor is removed, or at the end of a non-last line
/// the next line is joined onto the current one, or nothing changes at the
/// very end of the buffer; the cursor only takes the clamp.
pub open spec fn removed_after_rel(pre: File, post: File) -> bool {
    let r = pre.row() as int;
    let c = pre.clamped_col();
    &&& if c < pre.contents()[r].len() {
        post.contents() == pre.contents().update(r, pre.contents()[r].remove(c))
    } else if r < pre.contents().len() - 1 {
        post.contents() == pre.contents().update(
            r,
            pre.contents()[r] + pre.contents()[r + 1],
        ).remove(r + 1)
    } else {
        post.contents() == pre.contents()
    }
    &&& post.col() == c
    &&& post.row() == pre.row()
    &&& post.col_offset() == pre.col_offset()
    &&& post.row_offset() == pre.row_offset()
    &&& post.path == pre.path
}

/// Effect of `break_line`: with the column clamped, the current line keeps
/// the prefix before the cursor, the suffix becomes a new line directly
/// below, and the cursor moves to that line's start.
pub open spec fn broke_line_rel(pre: File, post: File) -> bool {
    let r = pre.row() as int;
    let c = pre.clamped_col();
    &&& post.contents() == pre.contents().update(r, pre.contents()[r].take(c)).insert(
        r + 1,
        pre.contents()[r].skip(c),
    )
    &&& post.col() == 0
    &&& post.row() == r + 1
    &&& post.col_offset() == pre.col_offset()
    &&& post.row_offset() == pre.row_offset()
    &&& post.path == pre.path
}

} // verus!
