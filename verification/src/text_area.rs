//! The text areas of the editor's forms and the list of the selector pane:
//! what a text area holds, where its cursor stands, the edits that the forms
//! make to it, and the selected row of a list.

use vstd::prelude::*;
use tui_textarea::Key as K;
use crate::work::{TextInput, TextKey};

verus! {

/// A text area of a form (`tui_textarea::TextArea`), held opaque: what the
/// forms read of it are its lines, its cursor and whether a selection is
/// being made, named below.
#[verifier::external_body]
pub struct TextField {
    pub area: tui_textarea::TextArea<'static>,
}

#[verifier::external_type_specification]
#[verifier::external_body]
pub struct ExListState(ratatui::widgets::ListState);

/// The lines that a text area holds.
pub uninterp spec fn textarea_lines(t: TextField) -> Seq<Seq<char>>;

/// The row and the column (in characters) of a text area's cursor.
pub uninterp spec fn textarea_cursor(t: TextField) -> (nat, nat);

/// Whether a selection is being made in a text area.
pub uninterp spec fn textarea_selecting(t: TextField) -> bool;

/// The selected row of a list.
pub uninterp spec fn list_selection(s: ratatui::widgets::ListState) -> Option<usize>;

/// The cursor stands on one of the lines, at most at its end.
pub open spec fn cursor_in_text(lines: Seq<Seq<char>>, cursor: (nat, nat)) -> bool {
    cursor.0 < lines.len() && cursor.1 <= lines[cursor.0 as int].len()
}

/// A text area's cursor stands in its text and no selection is being made.
pub open spec fn textarea_plain(t: TextField) -> bool {
    cursor_in_text(textarea_lines(t), textarea_cursor(t)) && !textarea_selecting(t)
}

/// The lines and the cursor after deleting from the head of the cursor's
/// line to the cursor; at the head of a line, the newline before it goes
/// (on the first line nothing changes).
pub open spec fn deleted_to_head(lines: Seq<Seq<char>>, cursor: (nat, nat)) -> (Seq<Seq<char>>, (nat, nat)) {
    let r = cursor.0 as int;
    if cursor.1 > 0 {
        (lines.update(r, lines[r].skip(cursor.1 as int)), (cursor.0, 0))
    } else if r == 0 {
        (lines, cursor)
    } else {
        (
            lines.take(r - 1) + seq![lines[r - 1] + lines[r]] + lines.skip(r + 1),
            ((r - 1) as nat, lines[r - 1].len()),
        )
    }
}

/// The parts of `s` between its newlines, in order; at least one.
pub open spec fn split_newlines(s: Seq<char>) -> Seq<Seq<char>>
    decreases s.len(),
{
    if s.len() == 0 {
        seq![Seq::empty()]
    } else {
        let rest = split_newlines(s.drop_last());
        if s.last() == '\n' {
            rest.push(Seq::empty())
        } else {
            rest.update(rest.len() - 1, rest.last().push(s.last()))
        }
    }
}

/// `p` without one carriage return at its end.
pub open spec fn strip_cr(p: Seq<char>) -> Seq<char> {
    if p.len() > 0 && p.last() == '\r' {
        p.drop_last()
    } else {
        p
    }
}

/// The lines of `s`: `\n` and `\r\n` both end a line.
pub open spec fn text_pieces(s: Seq<char>) -> Seq<Seq<char>> {
    split_newlines(s).map_values(|p: Seq<char>| strip_cr(p))
}

/// The lines, the cursor and whether anything changed, after inserting `s`
/// at the cursor: the cursor ends after the inserted text.
pub open spec fn inserted(lines: Seq<Seq<char>>, cursor: (nat, nat), s: Seq<char>) -> (
    Seq<Seq<char>>,
    (nat, nat),
    bool,
) {
    let r = cursor.0 as int;
    let c = cursor.1 as int;
    let line = lines[r];
    let ps = text_pieces(s);
    let n = ps.len() as int;
    if n == 1 {
        if ps[0].len() == 0 {
            (lines, cursor, false)
        } else {
            (lines.update(r, line.take(c) + ps[0] + line.skip(c)), (cursor.0, cursor.1 + ps[0].len()), true)
        }
    } else {
        (
            lines.take(r) + seq![line.take(c) + ps[0]] + ps.subrange(1, n - 1) + seq![ps[n - 1] + line.skip(c)]
                + lines.skip(r + 1),
            ((r + n - 1) as nat, ps[n - 1].len()),
            true,
        )
    }
}

/// `TextArea::default`: one empty line, the cursor at its head.
#[verifier::external_body]
pub(crate) fn new_textarea() -> (t: TextField)
    ensures
        textarea_lines(t) == seq![Seq::<char>::empty()],
        textarea_cursor(t) == (0nat, 0nat),
        !textarea_selecting(t),
{
    TextField { area: tui_textarea::TextArea::default() }
}

/// `TextArea::lines`: the lines of the text area.
#[verifier::external_body]
pub(crate) fn textarea_text(t: &TextField) -> (r: Vec<String>)
    ensures
        r@.map_values(|s: String| s@) == textarea_lines(*t),
{
    t.area.lines().to_vec()
}

/// `TextArea::delete_line_by_head`: deletes from the head of the cursor's
/// line to the cursor, or the newline before the cursor at the head of a
/// line. Where a selection is being made, the selection is deleted instead;
/// what it leaves is not stated.
#[verifier::external_body]
pub(crate) fn textarea_delete_line_by_head(t: &mut TextField) -> (changed: bool)
    ensures
        textarea_plain(*old(t)) ==> ({
            let (lines, cursor) = deleted_to_head(textarea_lines(*old(t)), textarea_cursor(*old(t)));
            &&& textarea_lines(*final(t)) == lines
            &&& textarea_cursor(*final(t)) == cursor
            &&& !textarea_selecting(*final(t))
            &&& changed == (textarea_cursor(*old(t)).1 > 0 || textarea_cursor(*old(t)).0 > 0)
        }),
{
    t.area.delete_line_by_head()
}

/// `TextArea::insert_str`: inserts `s` at the cursor, `\n` and `\r\n`
/// ending lines, and moves the cursor after it. Where a selection is being
/// made, the selection is deleted first; what that leaves is not stated.
#[verifier::external_body]
pub(crate) fn textarea_insert_str(t: &mut TextField, s: &str) -> (changed: bool)
    ensures
        textarea_plain(*old(t)) ==> ({
            let (lines, cursor, ins) = inserted(textarea_lines(*old(t)), textarea_cursor(*old(t)), s@);
            &&& textarea_lines(*final(t)) == lines
            &&& textarea_cursor(*final(t)) == cursor
            &&& !textarea_selecting(*final(t))
            &&& changed == ins
        }),
{
    t.area.insert_str(s)
}

/// The lines and the cursor after typing `ch` at the cursor.
pub open spec fn typed(lines: Seq<Seq<char>>, cursor: (nat, nat), ch: char) -> (Seq<Seq<char>>, (nat, nat)) {
    let r = cursor.0 as int;
    let c = cursor.1 as int;
    (lines.update(r, lines[r].take(c) + seq![ch] + lines[r].skip(c)), (cursor.0, cursor.1 + 1))
}

/// The lines and the cursor after deleting the character before the
/// cursor; at the head of a line, the newline before it goes (on the first
/// line nothing changes).
pub open spec fn deleted_back(lines: Seq<Seq<char>>, cursor: (nat, nat)) -> (Seq<Seq<char>>, (nat, nat)) {
    let r = cursor.0 as int;
    let c = cursor.1 as int;
    if c > 0 {
        (lines.update(r, lines[r].take(c - 1) + lines[r].skip(c)), (cursor.0, (c - 1) as nat))
    } else if r == 0 {
        (lines, cursor)
    } else {
        (
            lines.take(r - 1) + seq![lines[r - 1] + lines[r]] + lines.skip(r + 1),
            ((r - 1) as nat, lines[r - 1].len()),
        )
    }
}

/// What a key does to a text area `before`, leaving `after` and saying
/// whether the text changed: a character other than a line break, typed
/// without control or alt, goes in at the cursor; Backspace without
/// control or alt deletes before the cursor. Other keys are not described.
pub open spec fn text_input_done(before: TextField, after: TextField, input: TextInput, changed: bool) -> bool {
    let lines = textarea_lines(before);
    let cursor = textarea_cursor(before);
    let plain_key = !input.ctrl && !input.alt && textarea_plain(before);
    &&& plain_key && input.key is Char && input.key->Char_0 != '\n' && input.key->Char_0 != '\r' ==> {
        &&& (textarea_lines(after), textarea_cursor(after)) == typed(lines, cursor, input.key->Char_0)
        &&& !textarea_selecting(after)
        &&& changed
    }
    &&& plain_key && input.key == TextKey::Backspace ==> {
        &&& (textarea_lines(after), textarea_cursor(after)) == deleted_back(lines, cursor)
        &&& !textarea_selecting(after)
        &&& changed == (cursor.1 > 0 || cursor.0 > 0)
    }
}

/// `TextArea::input`: hands the key to the text area, the library's key as
/// `tui_textarea`'s, and says whether the text changed. For a typed
/// character it calls `insert_char`, for Backspace `delete_char`; what the
/// other keys do (moving, scrolling, cutting, undoing, ...) is not stated.
#[verifier::external_body]
pub(crate) fn textarea_input(t: &mut TextField, input: TextInput) -> (changed: bool)
    ensures
        text_input_done(*old(t), *final(t), input, changed),
{
    let key = match input.key {
        TextKey::Backspace => K::Backspace, TextKey::Enter => K::Enter, TextKey::Left => K::Left,
        TextKey::Right => K::Right, TextKey::Up => K::Up, TextKey::Down => K::Down, TextKey::Home => K::Home,
        TextKey::End => K::End, TextKey::PageUp => K::PageUp, TextKey::PageDown => K::PageDown,
        TextKey::Tab => K::Tab, TextKey::Delete => K::Delete, TextKey::Char(c) => K::Char(c),
        TextKey::Esc => K::Esc, TextKey::F(n) => K::F(n), TextKey::Null => K::Null,
    };
    t.area.input(tui_textarea::Input { key, ctrl: input.ctrl, alt: input.alt, shift: input.shift })
}

/// `ListState::default`: no row selected.
#[verifier::external_body]
pub(crate) fn new_list_state() -> (s: ratatui::widgets::ListState)
    ensures
        list_selection(s) is None,
{
    ratatui::widgets::ListState::default()
}

/// `ListState::selected`: the selected row.
#[verifier::external_body]
pub(crate) fn list_selected(s: &ratatui::widgets::ListState) -> (r: Option<usize>)
    ensures
        r == list_selection(*s),
{
    s.selected()
}

/// `ListState::select`: selects the row `index`.
#[verifier::external_body]
pub(crate) fn list_select(s: &mut ratatui::widgets::ListState, index: Option<usize>)
    ensures
        list_selection(*final(s)) == index,
{
    s.select(index)
}

// ------------------------------------------------------------- text

/// The lines joined into one text, a newline between each two.
pub open spec fn joined_lines(lines: Seq<Seq<char>>) -> Seq<char>
    decreases lines.len(),
{
    if lines.len() == 0 {
        Seq::empty()
    } else if lines.len() == 1 {
        lines[0]
    } else {
        joined_lines(lines.drop_last()) + seq!['\n'] + lines.last()
    }
}

/// Joins `lines` with a newline between each two (`join("\n")`).
pub fn join_lines(lines: &Vec<String>) -> (r: String)
    ensures
        r@ == joined_lines(lines@.map_values(|s: String| s@)),
{
    let ghost ls = lines@.map_values(|s: String| s@);
    if lines.len() == 0 {
        return String::new();
    }
    let mut out = lines[0].clone();
    proof {
        reveal_strlit("\n");
        assert(ls.take(1) =~= seq![ls[0]]);
    }
    let mut i: usize = 1;
    while i < lines.len()
        invariant
            1 <= i <= lines.len(),
            ls == lines@.map_values(|s: String| s@),
            "\n"@ == seq!['\n'],
            out@ == joined_lines(ls.take(i as int)),
        decreases lines.len() - i,
    {
        out.append("\n");
        out.append(lines[i].as_str());
        assert(ls.take(i + 1).drop_last() =~= ls.take(i as int));
        i = i + 1;
    }
    assert(ls.take(lines.len() as int) =~= ls);
    out
}

/// The text of a field: its lines joined with newlines.
pub fn field_text(t: &TextField) -> (r: String)
    ensures
        r@ == joined_lines(textarea_lines(*t)),
{
    let lines = textarea_text(t);
    join_lines(&lines)
}

/// The lines and cursor of a field after `set_field_text` with `s`, where
/// no selection was being made.
pub open spec fn text_set(lines: Seq<Seq<char>>, cursor: (nat, nat), s: Seq<char>) -> (Seq<Seq<char>>, (nat, nat)) {
    let (l1, c1) = deleted_to_head(lines, cursor);
    let (l2, c2, _) = inserted(l1, c1, s);
    (l2, c2)
}

/// Deleting to the head of the line keeps the cursor in the text.
proof fn lemma_deleted_in_text(lines: Seq<Seq<char>>, cursor: (nat, nat))
    requires
        cursor_in_text(lines, cursor),
    ensures
        cursor_in_text(deleted_to_head(lines, cursor).0, deleted_to_head(lines, cursor).1),
{
}

/// Deletes from the head of the field's line to its cursor, then inserts
/// `s` there.
pub fn set_field_text(t: &mut TextField, s: &str)
    ensures
        textarea_plain(*old(t)) ==> (textarea_lines(*final(t)), textarea_cursor(*final(t))) == text_set(
            textarea_lines(*old(t)),
            textarea_cursor(*old(t)),
            s@,
        ) && !textarea_selecting(*final(t)),
{
    let ghost before = *t;
    textarea_delete_line_by_head(t);
    proof {
        if textarea_plain(before) {
            lemma_deleted_in_text(textarea_lines(before), textarea_cursor(before));
        }
    }
    textarea_insert_str(t, s);
}

/// A text has at least one line.
pub proof fn lemma_split_newlines_len(s: Seq<char>)
    ensures
        split_newlines(s).len() >= 1,
    decreases s.len(),
{
    if s.len() > 0 {
        lemma_split_newlines_len(s.drop_last());
    }
}

/// Adding a character to the last line adds it to the end of the text.
proof fn lemma_joined_extend_last(lines: Seq<Seq<char>>, x: char)
    requires
        lines.len() >= 1,
    ensures
        joined_lines(lines.update(lines.len() - 1, lines.last().push(x))) == joined_lines(lines).push(x),
{
    let u = lines.update(lines.len() - 1, lines.last().push(x));
    if lines.len() > 1 {
        assert(u.drop_last() =~= lines.drop_last());
        assert(u.last() == lines.last().push(x));
        assert(joined_lines(u) =~= joined_lines(lines).push(x));
    } else {
        assert(joined_lines(u) =~= joined_lines(lines).push(x));
    }
}

/// Joining the lines of a text gives the text back.
pub proof fn lemma_join_split(s: Seq<char>)
    ensures
        joined_lines(split_newlines(s)) == s,
    decreases s.len(),
{
    if s.len() > 0 {
        let rest = split_newlines(s.drop_last());
        lemma_join_split(s.drop_last());
        lemma_split_newlines_len(s.drop_last());
        if s.last() == '\n' {
            assert(rest.push(Seq::<char>::empty()).drop_last() =~= rest);
            assert(joined_lines(split_newlines(s)) =~= s);
        } else {
            lemma_joined_extend_last(rest, s.last());
            assert(s.drop_last().push(s.last()) =~= s);
        }
    } else {
        assert(joined_lines(split_newlines(s)) =~= s);
    }
}

/// The lines of a text without carriage returns are the parts between its
/// newlines.
proof fn lemma_pieces_without_cr(s: Seq<char>)
    requires
        !s.contains('\r'),
    ensures
        text_pieces(s) == split_newlines(s),
        forall|i: int| 0 <= i < split_newlines(s).len() ==> !(#[trigger] split_newlines(s)[i]).contains('\r'),
    decreases s.len(),
{
    if s.len() > 0 {
        let t = s.drop_last();
        assert(!t.contains('\r')) by {
            if t.contains('\r') {
                let k = choose|k: int| 0 <= k < t.len() && t[k] == '\r';
                assert(s[k] == '\r');
            }
        }
        lemma_pieces_without_cr(t);
        lemma_split_newlines_len(t);
        let rest = split_newlines(t);
        let sp = split_newlines(s);
        assert(s.last() != '\r') by {
            assert(s[s.len() - 1] == s.last());
        }
        assert forall|i: int| 0 <= i < sp.len() implies !(#[trigger] sp[i]).contains('\r') by {
            if s.last() != '\n' && i == rest.len() - 1 {
                let p = rest.last().push(s.last());
                assert(sp[i] == p);
                if p.contains('\r') {
                    let k = choose|k: int| 0 <= k < p.len() && p[k] == '\r';
                    if k < p.len() - 1 {
                        assert(rest.last()[k] == '\r');
                        assert(rest[rest.len() - 1].contains('\r'));
                    }
                }
            } else if i < rest.len() {
                assert(sp[i] == rest[i]);
            } else {
                assert(sp[i] == Seq::<char>::empty());
            }
        }
        assert forall|i: int| 0 <= i < sp.len() implies #[trigger] strip_cr(sp[i]) == sp[i] by {
            if sp[i].len() > 0 {
                assert(sp[i][sp[i].len() - 1] == sp[i].last());
            }
        }
        assert(text_pieces(s) =~= sp);
    } else {
        assert(text_pieces(s) =~= split_newlines(s));
    }
}

/// Setting the text of a fresh field (one empty line, the cursor at its
/// head) and reading it back gives the text, when it holds no carriage
/// return.
pub proof fn lemma_fresh_field_roundtrip(s: Seq<char>)
    requires
        !s.contains('\r'),
    ensures
        joined_lines(text_set(seq![Seq::<char>::empty()], (0nat, 0nat), s).0) == s,
{
    lemma_pieces_without_cr(s);
    lemma_split_newlines_len(s);
    lemma_join_split(s);
    let ps = text_pieces(s);
    let lines = text_set(seq![Seq::<char>::empty()], (0nat, 0nat), s).0;
    let e = Seq::<char>::empty();
    if ps.len() == 1 {
        assert(e.take(0) + ps[0] + e.skip(0) =~= ps[0]);
        assert(lines =~= ps);
    } else {
        let n = ps.len() as int;
        assert(e.take(0) + ps[0] =~= ps[0]);
        assert(ps[n - 1] + e.skip(0) =~= ps[n - 1]);
        assert(lines =~= ps);
    }
}

} // verus!
