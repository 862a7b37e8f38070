//! The multi-line editor of the interactive mode: what each key does to the
//! buffer, and the text that the buffer hands over when it is submitted.
//!
//! Each line is held as its characters; the cursor column counts UTF-8 bytes,
//! as an index into a `String` does.
use vstd::prelude::*;
use vstd::pervasive::VecAdditionalExecFns;
use crate::text::{trimmed, chars_trim_bounds, chars_eq};

verus! {

/// The number of bytes that `c` takes in UTF-8.
pub open spec fn char_width(c: char) -> nat {
    let v = c as u32;
    if v < 0x80 {
        1
    } else if v < 0x800 {
        2
    } else if v < 0x10000 {
        3
    } else {
        4
    }
}

/// The number of bytes that `s` takes in UTF-8.
pub open spec fn byte_len(s: Seq<char>) -> nat
    decreases s.len(),
{
    if s.len() == 0 {
        0
    } else {
        byte_len(s.drop_last()) + char_width(s.last())
    }
}

/// The character at index `k` of `s` starts at byte offset `b` (`k` may be
/// `s.len()`, the end of `s`).
pub open spec fn starts_at(s: Seq<char>, b: int, k: int) -> bool {
    0 <= k <= s.len() && byte_len(s.take(k)) == b
}

/// Byte offset `b` lies on a character boundary of `s`.
pub open spec fn on_boundary(s: Seq<char>, b: int) -> bool {
    exists|k: int| starts_at(s, b, k)
}

/// The index of the character that starts at byte offset `b` of `s`.
pub open spec fn index_at(s: Seq<char>, b: int) -> int {
    choose|k: int| starts_at(s, b, k)
}

proof fn lemma_take_step(s: Seq<char>, k: int)
    requires
        0 <= k < s.len(),
    ensures
        byte_len(s.take(k + 1)) == byte_len(s.take(k)) + char_width(s[k]),
{
    assert(s.take(k + 1).drop_last() =~= s.take(k));
}

proof fn lemma_take_mono(s: Seq<char>, j: int, k: int)
    requires
        0 <= j < k <= s.len(),
    ensures
        byte_len(s.take(j)) < byte_len(s.take(k)),
    decreases k - j,
{
    lemma_take_step(s, k - 1);
    if j < k - 1 {
        lemma_take_mono(s, j, k - 1);
    }
}

proof fn lemma_take_all(s: Seq<char>)
    ensures
        byte_len(s.take(s.len() as int)) == byte_len(s),
{
    assert(s.take(s.len() as int) =~= s);
}

/// The boundary index is unique: the index found is the one named.
proof fn lemma_index_at(s: Seq<char>, b: int, k: int)
    requires
        starts_at(s, b, k),
    ensures
        on_boundary(s, b),
        index_at(s, b) == k,
{
    let j = index_at(s, b);
    assert(starts_at(s, b, j));
    if j < k {
        lemma_take_mono(s, j, k);
    } else if k < j {
        lemma_take_mono(s, k, j);
    }
}

proof fn lemma_concat(a: Seq<char>, b: Seq<char>)
    ensures
        byte_len(a + b) == byte_len(a) + byte_len(b),
    decreases b.len(),
{
    if b.len() == 0 {
        assert(a + b =~= a);
    } else {
        assert((a + b).drop_last() =~= a + b.drop_last());
        lemma_concat(a, b.drop_last());
    }
}

/// The byte offsets of `s` that lie inside it are those of its characters
/// before the end.
proof fn lemma_boundary_bounds(s: Seq<char>, b: int)
    requires
        on_boundary(s, b),
    ensures
        0 <= index_at(s, b) <= s.len(),
        byte_len(s.take(index_at(s, b))) == b,
        0 <= b <= byte_len(s),
        b < byte_len(s) ==> index_at(s, b) < s.len(),
        b == byte_len(s) ==> index_at(s, b) == s.len(),
{
    let k = choose|k: int| starts_at(s, b, k);
    lemma_index_at(s, b, k);
    lemma_take_all(s);
    if k < s.len() {
        lemma_take_mono(s, k, s.len() as int);
    }
    if k == 0 {
        assert(s.take(0) =~= Seq::<char>::empty());
    } else {
        lemma_take_mono(s, 0, k);
    }
}

proof fn lemma_single(c: char)
    ensures
        byte_len(seq![c]) == char_width(c),
{
    assert(seq![c].drop_last() =~= Seq::<char>::empty());
    assert(byte_len(Seq::<char>::empty()) == 0);
}

/// Inserting `c` at index `k` adds its width, and the character after it
/// starts where `k` started plus that width.
proof fn lemma_insert(s: Seq<char>, k: int, c: char)
    requires
        0 <= k <= s.len(),
    ensures
        byte_len(s.insert(k, c)) == byte_len(s) + char_width(c),
        byte_len(s.insert(k, c).take(k + 1)) == byte_len(s.take(k)) + char_width(c),
{
    assert(s.insert(k, c) =~= (s.take(k) + seq![c]) + s.skip(k));
    assert(s.insert(k, c).take(k + 1) =~= s.take(k) + seq![c]);
    assert(s =~= s.take(k) + s.skip(k));
    lemma_single(c);
    lemma_concat(s.take(k), seq![c]);
    lemma_concat(s.take(k) + seq![c], s.skip(k));
    lemma_concat(s.take(k), s.skip(k));
}

/// Removing the character at index `k` takes away its width and leaves the
/// characters before it in place.
proof fn lemma_remove(s: Seq<char>, k: int)
    requires
        0 <= k < s.len(),
    ensures
        byte_len(s.remove(k)) + char_width(s[k]) == byte_len(s),
        byte_len(s.remove(k).take(k)) == byte_len(s.take(k)),
{
    assert(s.remove(k) =~= s.take(k) + s.skip(k + 1));
    assert(s.remove(k).take(k) =~= s.take(k));
    assert(s =~= (s.take(k) + seq![s[k]]) + s.skip(k + 1));
    lemma_single(s[k]);
    lemma_concat(s.take(k), seq![s[k]]);
    lemma_concat(s.take(k) + seq![s[k]], s.skip(k + 1));
    lemma_concat(s.take(k), s.skip(k + 1));
}

/// Splitting at index `k` parts the bytes between the two pieces.
proof fn lemma_split(s: Seq<char>, k: int)
    requires
        0 <= k <= s.len(),
    ensures
        byte_len(s.take(k)) + byte_len(s.skip(k)) == byte_len(s),
{
    assert(s =~= s.take(k) + s.skip(k));
    lemma_concat(s.take(k), s.skip(k));
}

/// A prefix takes no more bytes than the whole.
proof fn lemma_take_le(s: Seq<char>, k: int)
    requires
        0 <= k <= s.len(),
    ensures
        byte_len(s.take(k)) <= byte_len(s),
{
    lemma_take_all(s);
    if k < s.len() {
        lemma_take_mono(s, k, s.len() as int);
    }
}

/// The number of bytes that `c` takes in UTF-8.
pub fn width(c: char) -> (w: usize)
    ensures
        w == char_width(c),
        1 <= w <= 4,
{
    let v = c as u32;
    if v < 0x80 {
        1
    } else if v < 0x800 {
        2
    } else if v < 0x10000 {
        3
    } else {
        4
    }
}

/// The number of bytes that `s` takes in UTF-8.
pub fn bytes_of(s: &[char]) -> (n: usize)
    requires
        byte_len(s@) <= usize::MAX,
    ensures
        n == byte_len(s@),
{
    let mut acc: usize = 0;
    let mut i: usize = 0;
    while i < s.len()
        invariant
            i <= s@.len(),
            byte_len(s@) <= usize::MAX,
            acc == byte_len(s@.take(i as int)),
        decreases s@.len() - i,
    {
        proof {
            lemma_take_step(s@, i as int);
            lemma_take_all(s@);
            if i + 1 < s@.len() {
                lemma_take_mono(s@, i as int + 1, s@.len() as int);
            }
        }
        acc = acc + width(s[i]);
        i = i + 1;
    }
    proof {
        lemma_take_all(s@);
    }
    acc
}

/// The index of the character of `s` that starts at byte offset `b`, or
/// `None` where `b` does not lie on a character boundary.
pub fn index_of_byte(s: &[char], b: usize) -> (r: Option<usize>)
    requires
        byte_len(s@) <= usize::MAX,
    ensures
        match r {
            Some(k) => starts_at(s@, b as int, k as int) && index_at(s@, b as int) == k,
            None => !on_boundary(s@, b as int),
        },
{
    let mut acc: usize = 0;
    let mut i: usize = 0;
    while i < s.len()
        invariant
            i <= s@.len(),
            byte_len(s@) <= usize::MAX,
            acc == byte_len(s@.take(i as int)),
            forall|j: int| 0 <= j < i ==> byte_len(#[trigger] s@.take(j)) < b,
        decreases s@.len() - i,
    {
        if acc == b {
            proof {
                lemma_index_at(s@, b as int, i as int);
            }
            return Some(i);
        }
        if acc > b {
            proof {
                assert forall|k: int| !starts_at(s@, b as int, k) by {
                    if 0 <= k <= s@.len() {
                        if k < i {
                            assert(byte_len(s@.take(k)) < b);
                        } else if k > i {
                            lemma_take_mono(s@, i as int, k);
                        }
                    }
                }
            }
            return None;
        }
        proof {
            lemma_take_step(s@, i as int);
            lemma_take_all(s@);
            if i + 1 < s@.len() {
                lemma_take_mono(s@, i as int + 1, s@.len() as int);
            }
        }
        acc = acc + width(s[i]);
        i = i + 1;
    }
    if acc == b {
        proof {
            lemma_index_at(s@, b as int, i as int);
        }
        Some(i)
    } else {
        proof {
            assert forall|k: int| !starts_at(s@, b as int, k) by {
                if 0 <= k <= s@.len() {
                    if k < i {
                        assert(byte_len(s@.take(k)) < b);
                    }
                }
            }
        }
        None
    }
}

/// A key as the editor reads it.
#[derive(Clone, Copy, Debug, PartialEq, Eq, Structural)]
pub enum EditKey {
    /// A character key.
    Char(char),
    Tab,
    Enter,
    Backspace,
    Delete,
    Left,
    Right,
    Up,
    Down,
    Home,
    End,
    /// Any other key: it changes nothing.
    Other,
}

/// A key event: the key, whether Control was held, and whether the key was
/// released (a release is ignored).
#[derive(Clone, Copy, Debug, PartialEq, Eq, Structural)]
pub struct KeyInput {
    pub code: EditKey,
    pub ctrl: bool,
    pub release: bool,
}

/// What the reader does after a key.
#[derive(Clone, Copy, Debug, PartialEq, Eq, Structural)]
pub enum EditAction {
    /// Nothing: wait for the next key.
    Ignore,
    /// Draw the buffer again and wait for the next key.
    Redraw,
    /// Control-C: leave the program.
    Quit,
    /// Control-D on an empty buffer: there is no more input.
    EndOfInput,
    /// Enter on a line that starts with `!`: hand the buffer over.
    Submit,
}

/// The buffer as a value: its lines, the cursor's line and the cursor's byte
/// column in that line.
pub struct EditorModel {
    pub lines: Seq<Seq<char>>,
    pub row: int,
    pub col: int,
}

/// The line under the cursor.
pub open spec fn cur(m: EditorModel) -> Seq<char> {
    m.lines[m.row]
}

/// A buffer that the editor can hold: at least one line, the cursor on a line
/// and within it, each line short enough to count its bytes in a `usize`.
pub open spec fn well_formed(m: EditorModel) -> bool {
    &&& m.lines.len() >= 1
    &&& 0 <= m.row < m.lines.len()
    &&& 0 <= m.col <= byte_len(cur(m))
    &&& forall|i: int| 0 <= i < m.lines.len() ==> byte_len(#[trigger] m.lines[i]) <= usize::MAX
}

/// `m` with the cursor moved to `row` and `col`.
pub open spec fn moved(m: EditorModel, row: int, col: int) -> EditorModel {
    EditorModel { lines: m.lines, row, col }
}

/// `m` with the cursor's line replaced by `l` and the cursor at column `col`.
pub open spec fn with_line(m: EditorModel, l: Seq<char>, col: int) -> EditorModel {
    EditorModel { lines: m.lines.update(m.row, l), row: m.row, col }
}

/// A line that Enter submits: one that starts with `!` once trimmed.
pub open spec fn submit_line(l: Seq<char>) -> bool {
    trimmed(l).len() > 0 && trimmed(l)[0] == '!'
}

/// Control together with the character `c`.
pub open spec fn ctrl_is(k: KeyInput, c: char) -> bool {
    k.ctrl && k.code == EditKey::Char(c)
}

/// The four spaces that Tab inserts.
pub open spec fn tab_text() -> Seq<char> {
    seq![' ', ' ', ' ', ' ']
}

/// The buffer after Enter on a line that is not submitted: the line is split
/// at the cursor and the cursor goes to the start of the new line.
pub open spec fn split_line(m: EditorModel) -> EditorModel {
    let l = cur(m);
    let k = index_at(l, m.col);
    EditorModel {
        lines: m.lines.update(m.row, l.take(k)).insert(m.row + 1, l.skip(k)),
        row: m.row + 1,
        col: 0,
    }
}

/// The buffer after Backspace at the start of a line that is not the first:
/// the line is joined to the one above, where the cursor goes.
pub open spec fn join_up(m: EditorModel) -> EditorModel {
    let prev = m.lines[m.row - 1];
    EditorModel {
        lines: m.lines.update(m.row - 1, prev + cur(m)).remove(m.row),
        row: m.row - 1,
        col: byte_len(prev) as int,
    }
}

/// The buffer after Delete at the end of a line that is not the last: the
/// next line is joined to it.
pub open spec fn join_down(m: EditorModel) -> EditorModel {
    EditorModel {
        lines: m.lines.update(m.row, cur(m) + m.lines[m.row + 1]).remove(m.row + 1),
        row: m.row,
        col: m.col,
    }
}

/// The smaller of `a` and `b`.
pub open spec fn min_int(a: int, b: int) -> int {
    if a <= b {
        a
    } else {
        b
    }
}

/// The buffer after key `k`.
pub open spec fn next_model(m: EditorModel, k: KeyInput) -> EditorModel {
    let l = cur(m);
    let n = m.lines.len();
    if k.release || ctrl_is(k, 'c') || ctrl_is(k, 'd') {
        m
    } else if ctrl_is(k, 'a') {
        moved(m, m.row, 0)
    } else if ctrl_is(k, 'e') {
        moved(m, m.row, byte_len(l) as int)
    } else {
        match k.code {
            EditKey::Char(ch) => with_line(m, l.insert(index_at(l, m.col), ch), m.col + 1),
            EditKey::Tab => {
                let i = index_at(l, m.col);
                with_line(m, l.take(i) + tab_text() + l.skip(i), m.col + 4)
            },
            EditKey::Enter => if submit_line(l) {
                if trimmed(l) == "!exec"@ {
                    with_line(m, Seq::empty(), m.col)
                } else {
                    m
                }
            } else {
                split_line(m)
            },
            EditKey::Backspace => if m.col > 0 {
                with_line(m, l.remove(index_at(l, m.col - 1)), m.col - 1)
            } else if m.row > 0 {
                join_up(m)
            } else {
                m
            },
            EditKey::Delete => if m.col < byte_len(l) {
                with_line(m, l.remove(index_at(l, m.col)), m.col)
            } else if m.row + 1 < n {
                join_down(m)
            } else {
                m
            },
            EditKey::Left => if m.col > 0 {
                moved(m, m.row, m.col - 1)
            } else if m.row > 0 {
                moved(m, m.row - 1, byte_len(m.lines[m.row - 1]) as int)
            } else {
                m
            },
            EditKey::Right => if m.col < byte_len(l) {
                moved(m, m.row, m.col + 1)
            } else if m.row + 1 < n {
                moved(m, m.row + 1, 0)
            } else {
                m
            },
            EditKey::Up => if m.row > 0 {
                moved(m, m.row - 1, min_int(m.col, byte_len(m.lines[m.row - 1]) as int))
            } else {
                m
            },
            EditKey::Down => if m.row + 1 < n {
                moved(m, m.row + 1, min_int(m.col, byte_len(m.lines[m.row + 1]) as int))
            } else {
                m
            },
            EditKey::Home => moved(m, m.row, 0),
            EditKey::End => moved(m, m.row, byte_len(l) as int),
            EditKey::Other => m,
        }
    }
}

/// What the reader does after key `k`.
pub open spec fn key_action(m: EditorModel, k: KeyInput) -> EditAction {
    if k.release {
        EditAction::Ignore
    } else if ctrl_is(k, 'c') {
        EditAction::Quit
    } else if ctrl_is(k, 'd') && m.lines.len() == 1 && m.lines[0].len() == 0 {
        EditAction::EndOfInput
    } else if k.code == EditKey::Enter && submit_line(cur(m)) {
        EditAction::Submit
    } else {
        EditAction::Redraw
    }
}

/// Key `k` can be applied to `m`: each edit at the cursor's byte column needs
/// that column on a character boundary, and a line that grows must still have
/// its length counted in a `usize`.
pub open spec fn key_ok(m: EditorModel, k: KeyInput) -> bool {
    let l = cur(m);
    let n = m.lines.len();
    if k.release || ctrl_is(k, 'c') || ctrl_is(k, 'd') || ctrl_is(k, 'a') || ctrl_is(k, 'e') {
        true
    } else {
        match k.code {
            EditKey::Char(_) => on_boundary(l, m.col) && byte_len(l) + 4 <= usize::MAX,
            EditKey::Tab => on_boundary(l, m.col) && byte_len(l) + 4 <= usize::MAX,
            EditKey::Enter => submit_line(l) || on_boundary(l, m.col),
            EditKey::Backspace => if m.col > 0 {
                on_boundary(l, m.col - 1)
            } else {
                m.row > 0 ==> byte_len(m.lines[m.row - 1]) + byte_len(l) <= usize::MAX
            },
            EditKey::Delete => if m.col < byte_len(l) {
                on_boundary(l, m.col)
            } else {
                m.row + 1 < n ==> byte_len(l) + byte_len(m.lines[m.row + 1]) <= usize::MAX
            },
            _ => true,
        }
    }
}

/// The buffer of the line editor.
pub struct LineEditor {
    lines: Vec<Vec<char>>,
    row: usize,
    col: usize,
}

impl View for LineEditor {
    type V = EditorModel;

    closed spec fn view(&self) -> EditorModel {
        EditorModel {
            lines: Seq::new(self.lines@.len(), |i: int| self.lines@[i]@),
            row: self.row as int,
            col: self.col as int,
        }
    }
}

impl LineEditor {
    /// An empty buffer: one empty line, the cursor at its start.
    pub fn new() -> (e: LineEditor)
        ensures
            e@.lines == seq![Seq::<char>::empty()],
            e@.row == 0,
            e@.col == 0,
            well_formed(e@),
    {
        let mut lines: Vec<Vec<char>> = Vec::new();
        lines.push(Vec::new());
        let e = LineEditor { lines, row: 0, col: 0 };
        assert(e@.lines =~= seq![Seq::<char>::empty()]);
        e
    }

    /// The number of lines.
    pub fn line_count(&self) -> (n: usize)
        ensures
            n == self@.lines.len(),
    {
        self.lines.len()
    }

    /// The characters of line `i`.
    pub fn line(&self, i: usize) -> (l: &Vec<char>)
        requires
            i < self@.lines.len(),
        ensures
            l@ == self@.lines[i as int],
    {
        &self.lines[i]
    }

    /// The cursor's line.
    pub fn row(&self) -> (r: usize)
        ensures
            r == self@.row,
    {
        self.row
    }

    /// The cursor's byte column in its line.
    pub fn col(&self) -> (c: usize)
        ensures
            c == self@.col,
    {
        self.col
    }

    /// Replaces the cursor's line with `l` and puts the cursor at `col`.
    fn put_line(&mut self, l: Vec<char>, col: usize)
        requires
            old(self).row < old(self).lines@.len(),
        ensures
            final(self)@ == with_line(old(self)@, l@, col as int),
            final(self).lines@.len() == old(self).lines@.len(),
    {
        let r = self.row;
        self.lines.set(r, l);
        self.col = col;
        assert(self@.lines =~= old(self)@.lines.update(r as int, l@));
    }

    /// Putting a line where one was taken out is replacing it.
    proof fn lemma_retake(m: EditorModel, l: Seq<char>, c0: int, c: int)
        requires
            0 <= m.row < m.lines.len(),
        ensures
            with_line(with_line(m, Seq::empty(), c0), l, c) == with_line(m, l, c),
    {
        assert(with_line(with_line(m, Seq::empty(), c0), l, c).lines =~= with_line(m, l, c).lines);
    }
}

impl LineEditor {
    /// Takes the cursor's line out, leaving an empty line in its place.
    fn take_line(&mut self) -> (l: Vec<char>)
        requires
            old(self).row < old(self).lines@.len(),
        ensures
            l@ == cur(old(self)@),
            final(self)@ == with_line(old(self)@, Seq::empty(), old(self)@.col),
            final(self).lines@.len() == old(self).lines@.len(),
            final(self).row == old(self).row,
    {
        let mut l: Vec<char> = Vec::new();
        let r = self.row;
        self.lines.set_and_swap(r, &mut l);
        assert(self@.lines =~= old(self)@.lines.update(r as int, Seq::empty()));
        l
    }

    /// Inserts `ch` at the cursor, which moves one byte to the right.
    fn insert_char(&mut self, ch: char)
        requires
            well_formed(old(self)@),
            on_boundary(cur(old(self)@), old(self)@.col),
            byte_len(cur(old(self)@)) + 4 <= usize::MAX,
        ensures
            final(self)@ == with_line(
                old(self)@,
                cur(old(self)@).insert(index_at(cur(old(self)@), old(self)@.col), ch),
                old(self)@.col + 1,
            ),
            well_formed(final(self)@),
    {
        let ghost m = self@;
        let ghost l0 = cur(m);
        let col = self.col;
        let mut l = self.take_line();
        proof {
            lemma_boundary_bounds(l0, m.col);
        }
        let k = match index_of_byte(l.as_slice(), col) {
            Some(k) => k,
            None => {
                assert(false);
                0
            },
        };
        l.insert(k, ch);
        proof {
            lemma_insert(l0, k as int, ch);
            lemma_take_le(l@, k as int + 1);
            Self::lemma_retake(m, l@, m.col, m.col + 1);
        }
        self.put_line(l, col + 1);
    }

    /// Inserts four spaces at the cursor, which moves four bytes to the right.
    fn insert_tab(&mut self)
        requires
            well_formed(old(self)@),
            on_boundary(cur(old(self)@), old(self)@.col),
            byte_len(cur(old(self)@)) + 4 <= usize::MAX,
        ensures
            final(self)@ == with_line(
                old(self)@,
                cur(old(self)@).take(index_at(cur(old(self)@), old(self)@.col)) + tab_text()
                    + cur(old(self)@).skip(index_at(cur(old(self)@), old(self)@.col)),
                old(self)@.col + 4,
            ),
            well_formed(final(self)@),
    {
        let ghost m = self@;
        let ghost l0 = cur(m);
        let col = self.col;
        let mut l = self.take_line();
        proof {
            lemma_boundary_bounds(l0, m.col);
        }
        let k = match index_of_byte(l.as_slice(), col) {
            Some(k) => k,
            None => {
                assert(false);
                0
            },
        };
        l.insert(k, ' ');
        l.insert(k, ' ');
        l.insert(k, ' ');
        l.insert(k, ' ');
        proof {
            let spaced = l0.take(k as int) + tab_text() + l0.skip(k as int);
            assert(l@ =~= spaced);
            assert(spaced.take(k as int + 4) =~= l0.take(k as int) + tab_text());
            assert(spaced =~= (l0.take(k as int) + tab_text()) + l0.skip(k as int));
            assert(tab_text().drop_last().drop_last().drop_last().drop_last() =~= Seq::<char>::empty());
            assert(byte_len(tab_text()) == 4) by {
                reveal_with_fuel(byte_len, 5);
            }
            lemma_concat(l0.take(k as int), tab_text());
            lemma_concat(l0.take(k as int) + tab_text(), l0.skip(k as int));
            lemma_split(l0, k as int);
            lemma_take_le(spaced, k as int + 4);
            Self::lemma_retake(m, l@, m.col, m.col + 4);
        }
        self.put_line(l, col + 4);
    }
}

impl LineEditor {
    /// Removes the character that starts at byte `b` of the cursor's line and
    /// puts the cursor at `b`.
    fn remove_at(&mut self, b: usize)
        requires
            well_formed(old(self)@),
            b < byte_len(cur(old(self)@)),
            on_boundary(cur(old(self)@), b as int),
        ensures
            final(self)@ == with_line(
                old(self)@,
                cur(old(self)@).remove(index_at(cur(old(self)@), b as int)),
                b as int,
            ),
            well_formed(final(self)@),
    {
        let ghost m = self@;
        let ghost l0 = cur(m);
        let mut l = self.take_line();
        proof {
            lemma_boundary_bounds(l0, b as int);
        }
        let k = match index_of_byte(l.as_slice(), b) {
            Some(k) => k,
            None => {
                assert(false);
                0
            },
        };
        l.remove(k);
        proof {
            lemma_remove(l0, k as int);
            lemma_take_le(l@, k as int);
            Self::lemma_retake(m, l@, m.col, b as int);
        }
        self.put_line(l, b);
    }

    /// Splits the cursor's line at the cursor; the cursor goes to the start of
    /// the new line below.
    fn split_at_cursor(&mut self)
        requires
            well_formed(old(self)@),
            on_boundary(cur(old(self)@), old(self)@.col),
        ensures
            final(self)@ == split_line(old(self)@),
            well_formed(final(self)@),
    {
        let ghost m = self@;
        let ghost l0 = cur(m);
        let r = self.row;
        let col = self.col;
        let mut l = self.take_line();
        proof {
            lemma_boundary_bounds(l0, m.col);
        }
        let k = match index_of_byte(l.as_slice(), col) {
            Some(k) => k,
            None => {
                assert(false);
                0
            },
        };
        let rest = l.split_off(k);
        proof {
            lemma_split(l0, k as int);
            assert(l@ =~= l0.take(k as int));
            assert(rest@ =~= l0.skip(k as int));
        }
        let n = self.lines.len();
        assert(r < n);
        let ghost mid = *self;
        self.lines.set(r, l);
        self.lines.insert(r + 1, rest);
        self.row = r + 1;
        self.col = 0;
        proof {
            let want = split_line(m);
            assert forall|i: int| 0 <= i < want.lines.len() implies self@.lines[i] == want.lines[i] by {
                if i < r {
                    assert(self.lines@[i] == mid.lines@[i]);
                    assert(mid@.lines[i] == m.lines[i]);
                } else if i > r + 1 {
                    assert(self.lines@[i] == mid.lines@[i - 1]);
                    assert(mid@.lines[i - 1] == m.lines[i - 1]);
                }
            }
            assert(self@.lines =~= want.lines);
            assert forall|i: int| 0 <= i < self@.lines.len() implies byte_len(
                #[trigger] self@.lines[i],
            ) <= usize::MAX by {
                if i < r {
                    assert(self@.lines[i] == m.lines[i]);
                } else if i > r + 1 {
                    assert(self@.lines[i] == m.lines[i - 1]);
                }
            }
        }
    }

    /// Joins the cursor's line to the one above; the cursor goes where the
    /// line above ended.
    fn join_with_previous(&mut self)
        requires
            well_formed(old(self)@),
            old(self)@.row > 0,
            byte_len(old(self)@.lines[old(self)@.row - 1]) + byte_len(cur(old(self)@)) <= usize::MAX,
        ensures
            final(self)@ == join_up(old(self)@),
            well_formed(final(self)@),
    {
        let ghost m = self@;
        let r = self.row;
        let mut curr = self.lines.remove(r);
        let mut prev: Vec<char> = Vec::new();
        self.lines.set_and_swap(r - 1, &mut prev);
        assert(prev@ == m.lines[r - 1]);
        let c = bytes_of(prev.as_slice());
        prev.append(&mut curr);
        self.lines.set(r - 1, prev);
        self.row = r - 1;
        self.col = c;
        proof {
            lemma_concat(m.lines[r - 1], m.lines[r as int]);
            let want = join_up(m);
            assert(self@.lines =~= want.lines);
            assert forall|i: int| 0 <= i < self@.lines.len() implies byte_len(
                #[trigger] self@.lines[i],
            ) <= usize::MAX by {
                if i < r - 1 {
                    assert(self@.lines[i] == m.lines[i]);
                } else if i > r - 1 {
                    assert(self@.lines[i] == m.lines[i + 1]);
                }
            }
        }
    }

    /// Joins the line below to the cursor's line; the cursor stays.
    fn join_with_next(&mut self)
        requires
            well_formed(old(self)@),
            old(self)@.row + 1 < old(self)@.lines.len(),
            byte_len(cur(old(self)@)) + byte_len(old(self)@.lines[old(self)@.row + 1]) <= usize::MAX,
        ensures
            final(self)@ == join_down(old(self)@),
            well_formed(final(self)@),
    {
        let ghost m = self@;
        let r = self.row;
        let n = self.lines.len();
        assert(r + 1 < n);
        let mut next = self.lines.remove(r + 1);
        let mut l: Vec<char> = Vec::new();
        self.lines.set_and_swap(r, &mut l);
        assert(l@ == m.lines[r as int]);
        l.append(&mut next);
        self.lines.set(r, l);
        proof {
            lemma_concat(m.lines[r as int], m.lines[r + 1]);
            let want = join_down(m);
            assert(self@.lines =~= want.lines);
            assert forall|i: int| 0 <= i < self@.lines.len() implies byte_len(
                #[trigger] self@.lines[i],
            ) <= usize::MAX by {
                if i < r {
                    assert(self@.lines[i] == m.lines[i]);
                } else if i > r {
                    assert(self@.lines[i] == m.lines[i + 1]);
                }
            }
        }
    }
}

impl LineEditor {
    /// The number of bytes in the cursor's line.
    fn cur_bytes(&self) -> (n: usize)
        requires
            well_formed(self@),
        ensures
            n == byte_len(cur(self@)),
    {
        let r = self.row;
        assert(self.lines@[r as int]@ == cur(self@));
        bytes_of(self.lines[r].as_slice())
    }

    /// The number of bytes in line `i`.
    fn bytes_at(&self, i: usize) -> (n: usize)
        requires
            well_formed(self@),
            i < self@.lines.len(),
        ensures
            n == byte_len(self@.lines[i as int]),
    {
        assert(self.lines@[i as int]@ == self@.lines[i as int]);
        bytes_of(self.lines[i].as_slice())
    }

    /// Whether the cursor's line starts with `!` once trimmed, and whether
    /// it is exactly `!exec` once trimmed.
    fn command_line(&self) -> (r: (bool, bool))
        requires
            well_formed(self@),
        ensures
            r.0 == submit_line(cur(self@)),
            r.1 == (trimmed(cur(self@)) == "!exec"@),
    {
        let l = &self.lines[self.row];
        assert(l@ == cur(self@));
        let (a, b) = chars_trim_bounds(l.as_slice());
        let bang = a < b && l[a] == '!';
        let exec = chars_eq(l.as_slice(), a, b, "!exec");
        (bang, exec)
    }

    /// Whether key `k` can be applied to this buffer (see `key_ok`).
    pub fn accepts(&self, k: KeyInput) -> (b: bool)
        requires
            well_formed(self@),
        ensures
            b == key_ok(self@, k),
    {
        if k.release || (k.ctrl && (k.code == EditKey::Char('c') || k.code == EditKey::Char('d')
            || k.code == EditKey::Char('a') || k.code == EditKey::Char('e'))) {
            return true;
        }
        let ghost m = self@;
        let n = self.lines.len();
        let r = self.row;
        let col = self.col;
        let len = self.cur_bytes();
        assert(self.lines@[r as int]@ == cur(m));
        match k.code {
            EditKey::Char(_) | EditKey::Tab => {
                index_of_byte(self.lines[r].as_slice(), col).is_some() && len <= usize::MAX - 4
            },
            EditKey::Enter => {
                let (bang, _) = self.command_line();
                bang || index_of_byte(self.lines[r].as_slice(), col).is_some()
            },
            EditKey::Backspace => {
                if col > 0 {
                    index_of_byte(self.lines[r].as_slice(), col - 1).is_some()
                } else if r > 0 {
                    self.bytes_at(r - 1) <= usize::MAX - len
                } else {
                    true
                }
            },
            EditKey::Delete => {
                if col < len {
                    index_of_byte(self.lines[r].as_slice(), col).is_some()
                } else if r + 1 < n {
                    self.bytes_at(r + 1) <= usize::MAX - len
                } else {
                    true
                }
            },
            _ => true,
        }
    }

    /// Applies key `k` to the buffer and says what the reader does next.
    pub fn step(&mut self, k: KeyInput) -> (a: EditAction)
        requires
            well_formed(old(self)@),
            key_ok(old(self)@, k),
        ensures
            a == key_action(old(self)@, k),
            final(self)@ == next_model(old(self)@, k),
            a != EditAction::Submit ==> well_formed(final(self)@),
    {
        let ghost m = self@;
        if k.release {
            return EditAction::Ignore;
        }
        if k.ctrl && k.code == EditKey::Char('c') {
            return EditAction::Quit;
        }
        if k.ctrl && k.code == EditKey::Char('d') {
            if self.lines.len() == 1 && self.lines[0].len() == 0 {
                assert(self.lines@[0]@ == m.lines[0]);
                return EditAction::EndOfInput;
            }
            assert(self.lines@[0]@ == m.lines[0]);
            return EditAction::Redraw;
        }
        if k.ctrl && k.code == EditKey::Char('a') {
            self.col = 0;
            return EditAction::Redraw;
        }
        if k.ctrl && k.code == EditKey::Char('e') {
            self.col = self.cur_bytes();
            return EditAction::Redraw;
        }
        let n = self.lines.len();
        let r = self.row;
        let col = self.col;
        match k.code {
            EditKey::Char(ch) => {
                self.insert_char(ch);
            },
            EditKey::Tab => {
                self.insert_tab();
            },
            EditKey::Enter => {
                let (bang, exec) = self.command_line();
                if bang {
                    if exec {
                        let _ = self.take_line();
                    }
                    return EditAction::Submit;
                }
                self.split_at_cursor();
            },
            EditKey::Backspace => {
                if col > 0 {
                    proof {
                        lemma_boundary_bounds(cur(m), col - 1);
                    }
                    self.remove_at(col - 1);
                } else if r > 0 {
                    self.join_with_previous();
                }
            },
            EditKey::Delete => {
                let len = self.cur_bytes();
                if col < len {
                    self.remove_at(col);
                } else if r + 1 < n {
                    self.join_with_next();
                }
            },
            EditKey::Left => {
                if col > 0 {
                    self.col = col - 1;
                } else if r > 0 {
                    let c = self.bytes_at(r - 1);
                    self.row = r - 1;
                    self.col = c;
                }
            },
            EditKey::Right => {
                let len = self.cur_bytes();
                if col < len {
                    self.col = col + 1;
                } else if r + 1 < n {
                    self.row = r + 1;
                    self.col = 0;
                }
            },
            EditKey::Up => {
                if r > 0 {
                    let len = self.bytes_at(r - 1);
                    self.row = r - 1;
                    self.col = if col < len { col } else { len };
                }
            },
            EditKey::Down => {
                if r + 1 < n {
                    let len = self.bytes_at(r + 1);
                    self.row = r + 1;
                    self.col = if col < len { col } else { len };
                }
            },
            EditKey::Home => {
                self.col = 0;
            },
            EditKey::End => {
                self.col = self.cur_bytes();
            },
            EditKey::Other => {},
        }
        EditAction::Redraw
    }
}

/// The lines joined by line breaks.
pub open spec fn joined(ls: Seq<Seq<char>>) -> Seq<char>
    decreases ls.len(),
{
    if ls.len() == 0 {
        Seq::empty()
    } else if ls.len() == 1 {
        ls[0]
    } else {
        joined(ls.drop_last()) + seq!['\n'] + ls.last()
    }
}

/// The number of lines of `ls` before `j` that remain once the blank lines
/// (white space only) at the end are dropped.
pub open spec fn kept_lines(ls: Seq<Seq<char>>, j: int) -> int
    decreases j,
{
    if j > 0 && trimmed(ls[j - 1]).len() == 0 {
        kept_lines(ls, j - 1)
    } else {
        j
    }
}

/// The text that a submitted buffer hands over: a single line that starts
/// with `!` as it is; otherwise the lines without the blank ones at the end,
/// joined by line breaks.
pub open spec fn submitted(ls: Seq<Seq<char>>) -> Seq<char> {
    if ls.len() == 1 && submit_line(ls[0]) {
        ls[0]
    } else {
        joined(ls.take(kept_lines(ls, ls.len() as int)))
    }
}

proof fn lemma_kept_lines(ls: Seq<Seq<char>>, j: int)
    requires
        0 <= j <= ls.len(),
    ensures
        0 <= kept_lines(ls, j) <= j,
    decreases j,
{
    if j > 0 && trimmed(ls[j - 1]).len() == 0 {
        lemma_kept_lines(ls, j - 1);
    }
}

/// Appends `c` to `s` (`String::push`): the text of `s` grows by `c` at its
/// end, as the documentation of `String::push` says.
#[verifier::external_body]
fn push_char(s: &mut String, c: char)
    ensures
        final(s)@ == old(s)@.push(c),
{
    s.push(c);
}

/// Appends the characters of `l` to `s`.
fn push_chars(s: &mut String, l: &[char])
    ensures
        final(s)@ == old(s)@ + l@,
{
    let mut i: usize = 0;
    while i < l.len()
        invariant
            i <= l@.len(),
            s@ == old(s)@ + l@.take(i as int),
        decreases l@.len() - i,
    {
        push_char(s, l[i]);
        assert(l@.take(i + 1) =~= l@.take(i as int).push(l@[i as int]));
        assert(old(s)@ + l@.take(i + 1) =~= (old(s)@ + l@.take(i as int)).push(l@[i as int]));
        i = i + 1;
    }
    assert(l@.take(l@.len() as int) =~= l@);
}

impl LineEditor {
    /// The text that the buffer hands over once it is submitted.
    pub fn text(&self) -> (t: String)
        ensures
            t@ == submitted(self@.lines),
    {
        let ghost ls = self@.lines;
        let n = self.lines.len();
        let mut t = String::new();
        if n == 1 {
            let l = &self.lines[0];
            assert(l@ == ls[0]);
            let (a, b) = chars_trim_bounds(l.as_slice());
            if a < b && l[a] == '!' {
                push_chars(&mut t, l.as_slice());
                assert(t@ =~= ls[0]);
                return t;
            }
            assert(!submit_line(ls[0])) by {
                if a < b {
                    assert(trimmed(ls[0])[0] == l@[a as int]);
                }
            }
        }
        let mut e: usize = n;
        while e > 0
            invariant
                n == ls.len(),
                e <= n,
                ls == self@.lines,
                kept_lines(ls, n as int) == kept_lines(ls, e as int),
            ensures
                e <= n,
                kept_lines(ls, n as int) == e,
            decreases e,
        {
            let l = &self.lines[e - 1];
            assert(l@ == ls[e - 1]);
            let (a, b) = chars_trim_bounds(l.as_slice());
            if a < b {
                assert(trimmed(ls[e - 1]).len() > 0);
                break;
            }
            e = e - 1;
        }
        let mut i: usize = 0;
        while i < e
            invariant
                n == ls.len(),
                e <= n,
                i <= e,
                ls == self@.lines,
                t@ == joined(ls.take(i as int)),
            decreases e - i,
        {
            if i > 0 {
                push_char(&mut t, '\n');
            }
            let l = &self.lines[i];
            assert(l@ == ls[i as int]);
            push_chars(&mut t, l.as_slice());
            proof {
                assert(ls.take(i + 1).drop_last() =~= ls.take(i as int));
                if i == 0 {
                    assert(t@ =~= ls[0]);
                }
            }
            i = i + 1;
        }
        proof {
            lemma_kept_lines(ls, n as int);
        }
        t
    }
}

/// A plain key press: no Control, not a release.
pub open spec fn press(code: EditKey) -> KeyInput {
    KeyInput { code, ctrl: false, release: false }
}

/// Backspace takes back a typed character: typing `ch` and then Backspace
/// gives back the buffer and the cursor as they were.
pub proof fn law_backspace_undoes_char(m: EditorModel, ch: char)
    requires
        well_formed(m),
        key_ok(m, press(EditKey::Char(ch))),
    ensures
        key_ok(next_model(m, press(EditKey::Char(ch))), press(EditKey::Backspace)),
        next_model(next_model(m, press(EditKey::Char(ch))), press(EditKey::Backspace)) == m,
{
    let l = cur(m);
    let i = index_at(l, m.col);
    lemma_boundary_bounds(l, m.col);
    let l1 = l.insert(i, ch);
    let m1 = next_model(m, press(EditKey::Char(ch)));
    assert(m1 == with_line(m, l1, m.col + 1));
    assert(cur(m1) == l1);
    assert(l1.take(i) =~= l.take(i));
    assert(starts_at(l1, m.col, i));
    lemma_index_at(l1, m.col, i);
    assert(l1.remove(i) =~= l);
    let m2 = next_model(m1, press(EditKey::Backspace));
    assert(m2 == with_line(m1, l, m.col));
    assert(m2.lines =~= m.lines);
}

/// Backspace at the start of a line takes back a line break: Enter on a line
/// that is not submitted, then Backspace, gives back the buffer and the
/// cursor as they were.
pub proof fn law_backspace_undoes_enter(m: EditorModel)
    requires
        well_formed(m),
        !submit_line(cur(m)),
        key_ok(m, press(EditKey::Enter)),
    ensures
        key_ok(next_model(m, press(EditKey::Enter)), press(EditKey::Backspace)),
        next_model(next_model(m, press(EditKey::Enter)), press(EditKey::Backspace)) == m,
{
    let l = cur(m);
    let k = index_at(l, m.col);
    lemma_boundary_bounds(l, m.col);
    lemma_split(l, k);
    let m1 = next_model(m, press(EditKey::Enter));
    assert(m1 == split_line(m));
    assert(m1.lines[m1.row - 1] == l.take(k));
    assert(cur(m1) == l.skip(k));
    let m2 = next_model(m1, press(EditKey::Backspace));
    assert(m2 == join_up(m1));
    assert(l.take(k) + l.skip(k) =~= l);
    assert(m2.lines =~= m.lines);
}

} // verus!
