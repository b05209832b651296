//! A one-line text input: a cursor that moves by grapheme cluster, a selection anchored
//! where shift was first held, and edits that replace the selection.
use unicode_segmentation::UnicodeSegmentation;
use vstd::prelude::*;
use vstd::string::StrSliceExecFns;

use crate::formatting::concat_all;
use crate::list::Key;
use crate::markup::{is_whitespace, spec_is_whitespace};
use crate::style::Color;
use crate::text::string_from_chars;
use crate::widgets::{CursorDelete, CursorMove};

verus! {

/// The extended grapheme clusters of a text, in order, as Unicode Standard Annex #29
/// divides it.
pub uninterp spec fn grapheme_clusters(s: Seq<char>) -> Seq<Seq<char>>;

/// The grapheme clusters of a text.
///
/// Calls `UnicodeSegmentation::graphemes` with extended clusters and collects them. The
/// crate documents the result as the clusters of the text, in order: they make up the
/// text, and none is empty. The division itself depends on the text alone and is named
/// `grapheme_clusters`.
#[verifier::external_body]
pub(crate) fn graphemes_of(s: &str) -> (v: Vec<&str>)
    ensures
        v@.map_values(|g: &str| g@) == grapheme_clusters(s@),
        concat_all(v@.map_values(|g: &str| g@)) == s@,
        forall|i: int| 0 <= i < v@.len() ==> #[trigger] v@[i]@.len() > 0,
{
    s.graphemes(true).collect()
}

/// The state of a text input, as plain values: the text, the cursor (a position between
/// characters) and the anchor of the selection, if any.
pub struct EditState {
    pub text: Seq<char>,
    pub cursor: int,
    pub selection: Option<int>,
}

/// A character as it is typed in: whitespace becomes a space.
pub open spec fn typed_char(c: char) -> char {
    if spec_is_whitespace(c) {
        ' '
    } else {
        c
    }
}

/// A grapheme cluster as it is typed in: one holding whitespace becomes a space.
pub open spec fn typed_cluster(g: Seq<char>) -> Seq<char> {
    if exists|i: int| 0 <= i < g.len() && spec_is_whitespace(#[trigger] g[i]) {
        seq![' ']
    } else {
        g
    }
}

/// The state after the selection anchored at `anchor` is deleted: the text between the
/// anchor and the cursor goes, and the cursor stands where it began. No anchor stays.
pub open spec fn selection_deleted(st: EditState, anchor: int) -> EditState {
    if st.cursor == anchor {
        EditState { selection: None, ..st }
    } else {
        let a = if st.cursor < anchor {
            st.cursor
        } else {
            anchor
        };
        let b = if st.cursor < anchor {
            anchor
        } else {
            st.cursor
        };
        EditState {
            text: st.text.subrange(0, a) + st.text.subrange(b, st.text.len() as int),
            cursor: a,
            selection: None,
        }
    }
}

/// The selected stretch, from its start to its end, if the anchor is away from the
/// cursor.
pub open spec fn selection_span(st: EditState) -> Option<(int, int)> {
    match st.selection {
        Some(s) => if s < st.cursor {
            Some((s, st.cursor))
        } else if s > st.cursor {
            Some((st.cursor, s))
        } else {
            None
        },
        None => None,
    }
}

/// The state before typing: a selection, if any, is deleted first.
pub open spec fn before_typing(st: EditState) -> EditState {
    match st.selection {
        Some(anchor) => selection_deleted(st, anchor),
        None => st,
    }
}

/// The number of characters of the grapheme cluster right after the cursor (none at the
/// end).
pub open spec fn cluster_after(st: EditState) -> int {
    let rest = st.text.subrange(st.cursor, st.text.len() as int);
    if rest.len() == 0 {
        0
    } else {
        grapheme_clusters(rest)[0].len() as int
    }
}

/// The number of characters of the grapheme cluster right before the cursor (none at the
/// start).
pub open spec fn cluster_before(st: EditState) -> int {
    let head = st.text.subrange(0, st.cursor);
    if head.len() == 0 {
        0
    } else {
        grapheme_clusters(head).last().len() as int
    }
}

/// The cursor after a move.
pub open spec fn moved_cursor(st: EditState, cm: CursorMove) -> int {
    match cm {
        CursorMove::Forward => st.cursor + cluster_after(st),
        CursorMove::Back => st.cursor - cluster_before(st),
        CursorMove::Up | CursorMove::Start => 0,
        CursorMove::Down | CursorMove::End => st.text.len() as int,
    }
}

/// The anchor after a move: shift keeps it or drops one at the old cursor, no shift drops
/// it, and an anchor at the new cursor goes.
pub open spec fn moved_anchor(st: EditState, cm: CursorMove, shift: bool) -> Option<int> {
    let a = if shift {
        match st.selection {
            Some(s) => Some(s),
            None => Some(st.cursor),
        }
    } else {
        None
    };
    match a {
        Some(s) => if s == moved_cursor(st, cm) {
            None
        } else {
            Some(s)
        },
        None => None,
    }
}

/// The cursor move of a key: the arrows, home and end.
pub open spec fn key_move(key: Key) -> Option<CursorMove> {
    match key {
        Key::Right => Some(CursorMove::Forward),
        Key::Left => Some(CursorMove::Back),
        Key::Up => Some(CursorMove::Up),
        Key::Down => Some(CursorMove::Down),
        Key::Home => Some(CursorMove::Start),
        Key::End => Some(CursorMove::End),
        _ => None,
    }
}

/// What a key does to a text input: arrows, home and end move the cursor (shift selects),
/// backspace and delete delete, ctrl-a selects all, ctrl-c and ctrl-v change nothing, other
/// characters are typed, and other keys change nothing; `changed` tells whether it changed.
pub open spec fn input_outcome(
    old: EditState,
    key: Key,
    ctrl: bool,
    shift: bool,
    new: EditState,
    changed: bool,
) -> bool {
    &&& key_move(key) matches Some(cm) ==> {
        &&& new == (EditState {
            text: old.text,
            cursor: moved_cursor(old, cm),
            selection: moved_anchor(old, cm, shift),
        })
        &&& changed == (new.cursor != old.cursor || new.selection != old.selection)
    }
    &&& key == Key::Backspace ==> (new, changed) == deleted(old, CursorDelete::Back)
    &&& key == Key::Delete ==> (new, changed) == deleted(old, CursorDelete::Forward)
    &&& key == Key::Char('a') && ctrl ==> new.selection == Some(0int) && new.cursor
        == old.text.len()
    &&& (key == Key::Char('c') || key == Key::Char('v')) && ctrl ==> !changed && new == old
    &&& (key matches Key::Char(c) && !(ctrl && (c == 'a' || c == 'c' || c == 'v'))) ==> changed
        && ({
        let base = before_typing(old);
        new == (EditState {
            text: base.text.insert(base.cursor, typed_char(key->Char_0)),
            cursor: base.cursor + 1,
            selection: None,
        })
    })
    &&& (key == Key::PageUp || key == Key::PageDown || key == Key::Enter || key == Key::Other) ==> !changed && new
        == old
}

/// A one-line text input.
pub struct TextInput {
    input: String,
    placeholder: &'static str,
    cursor_fg: Color,
    cursor_bg: Color,
    placeholder_fg: Color,
    cursor_index: usize,
    selection_start: Option<usize>,
}

impl TextInput {
    /// The state as plain values.
    pub closed spec fn state(&self) -> EditState {
        EditState {
            text: self.input@,
            cursor: self.cursor_index as int,
            selection: match self.selection_start {
                Some(s) => Some(s as int),
                None => None,
            },
        }
    }

    /// The cursor and the anchor lie inside the text.
    pub closed spec fn wf(&self) -> bool {
        &&& self.cursor_index <= self.input@.len()
        &&& self.selection_start matches Some(s) ==> s <= self.input@.len()
    }

    /// The text shown while the input is empty.
    pub closed spec fn placeholder_spec(&self) -> Seq<char> {
        self.placeholder@
    }

    /// The colors of the cursor's text, of its background, and of the placeholder.
    pub closed spec fn colors_spec(&self) -> (Color, Color, Color) {
        (self.cursor_fg, self.cursor_bg, self.placeholder_fg)
    }

    /// An empty input with its colors.
    pub fn new(cursor_fg: Color, cursor_bg: Color, placeholder_fg: Color) -> (t: Self)
        ensures
            t.wf(),
            t.state() == (EditState { text: Seq::<char>::empty(), cursor: 0, selection: None }),
            t.placeholder_spec() == Seq::<char>::empty(),
            t.colors_spec() == (cursor_fg, cursor_bg, placeholder_fg),
    {
        proof {
            reveal_strlit("");
        }
        TextInput {
            input: String::new(),
            placeholder: "",
            cursor_fg,
            cursor_bg,
            placeholder_fg,
            cursor_index: 0,
            selection_start: None,
        }
    }

    /// The same input with a placeholder text.
    pub fn with_placeholder(self, s: &'static str) -> (t: Self)
        ensures
            t.state() == self.state(),
            t.wf() == self.wf(),
            t.placeholder_spec() == s@,
            t.colors_spec() == self.colors_spec(),
    {
        TextInput { placeholder: s, ..self }
    }

    /// True when there is no text.
    pub fn is_empty(&self) -> (b: bool)
        ensures
            b == (self.state().text.len() == 0),
    {
        self.input.as_str().unicode_len() == 0
    }

    /// The text.
    pub fn as_str(&self) -> (s: &str)
        ensures
            s@ == self.state().text,
    {
        self.input.as_str()
    }

    /// The text shown while the input is empty.
    pub fn placeholder(&self) -> (s: &'static str)
        ensures
            s@ == self.placeholder_spec(),
    {
        self.placeholder
    }

    /// The selected stretch, from its start to its end, if any.
    pub fn selection_range(&self) -> (r: Option<(usize, usize)>)
        ensures
            match selection_span(self.state()) {
                Some((a, b)) => r matches Some((x, y)) && x == a && y == b,
                None => r is None,
            },
    {
        match self.selection_start {
            Some(s) => self.range_to(s),
            None => None,
        }
    }

    /// The stretch between the cursor and `anchor`, if they differ.
    fn range_to(&self, anchor: usize) -> (r: Option<(usize, usize)>)
        ensures
            anchor < self.cursor_index ==> r == Some((anchor, self.cursor_index)),
            anchor > self.cursor_index ==> r == Some((self.cursor_index, anchor)),
            anchor == self.cursor_index ==> r is None,
    {
        if self.cursor_index < anchor {
            Some((self.cursor_index, anchor))
        } else if self.cursor_index > anchor {
            Some((anchor, self.cursor_index))
        } else {
            None
        }
    }

    /// The selected text, if any.
    pub fn selected_text(&self) -> (r: Option<String>)
        requires
            self.wf(),
        ensures
            match selection_span(self.state()) {
                Some((a, b)) => r is Some && r.unwrap()@ == self.state().text.subrange(a, b),
                None => r is None,
            },
    {
        match self.selection_range() {
            Some((a, b)) => {
                let s = self.input.as_str().substring_char(a, b);
                Some(s.to_string())
            },
            None => None,
        }
    }

    /// Replaces the text between `a` and `b` with `middle`, and puts the cursor at `cursor`.
    fn splice(&mut self, a: usize, b: usize, middle: &str, cursor: usize)
        requires
            old(self).wf(),
            a <= b <= old(self).state().text.len(),
            cursor <= a + middle@.len(),
        ensures
            final(self).wf(),
            final(self).state() == (EditState {
                text: old(self).state().text.subrange(0, a as int) + middle@ + old(self).state().text.subrange(b as int, old(self).state().text.len() as int),
                cursor: cursor as int,
                selection: None,
            }),
            final(self).placeholder_spec() == old(self).placeholder_spec(),
    {
        let mut s = String::new();
        {
            let whole: &str = self.input.as_str();
            let n = whole.unicode_len();
            s.append(whole.substring_char(0, a));
            s.append(middle);
            s.append(whole.substring_char(b, n));
        }
        self.input = s;
        self.cursor_index = cursor;
        self.selection_start = None;
    }

    /// Deletes the stretch between the cursor and `anchor`; reports whether there was one.
    fn delete_selection(&mut self, anchor: usize) -> (deleted: bool)
        requires
            old(self).wf(),
            anchor <= old(self).state().text.len(),
        ensures
            final(self).wf(),
            final(self).state() == selection_deleted(old(self).state(), anchor as int),
            deleted == (old(self).state().cursor != anchor),
            final(self).placeholder_spec() == old(self).placeholder_spec(),
    {
        match self.range_to(anchor) {
            Some((a, b)) => {
                self.splice(a, b, "", a);
                proof {
                    reveal_strlit("");
                    assert(self.state().text =~= old(self).state().text.subrange(0, a as int)
                        + old(self).state().text.subrange(b as int, old(self).state().text.len() as int));
                }
                true
            },
            None => {
                self.selection_start = None;
                false
            },
        }
    }

    /// Deletes the selection, if any, before typing.
    fn clear_selection(&mut self)
        requires
            old(self).wf(),
        ensures
            final(self).wf(),
            final(self).state() == before_typing(old(self).state()),
            final(self).placeholder_spec() == old(self).placeholder_spec(),
    {
        match self.selection_start {
            Some(anchor) => {
                self.delete_selection(anchor);
            },
            None => {},
        }
    }

    /// Types a character at the cursor, in place of the selection; whitespace is typed as
    /// a space.
    pub fn push_char(&mut self, c: char)
        requires
            old(self).wf(),
            old(self).state().text.len() < usize::MAX,
        ensures
            final(self).wf(),
            ({
                let base = before_typing(old(self).state());
                final(self).state() == (EditState {
                    text: base.text.insert(base.cursor, typed_char(c)),
                    cursor: base.cursor + 1,
                    selection: None,
                })
            }),
    {
        self.clear_selection();
        let typed = if is_whitespace(c) {
            ' '
        } else {
            c
        };
        let ghost base = self.state();
        let mut one: Vec<char> = Vec::new();
        one.push(typed);
        let piece = string_from_chars(&one);
        let at = self.cursor_index;
        self.splice(at, at, piece.as_str(), at + 1);
        proof {
            assert(piece@ =~= seq![typed]);
            assert(self.state().text =~= base.text.insert(base.cursor, typed));
        }
    }

    /// Types a text at the cursor, in place of the selection; each grapheme cluster that
    /// holds whitespace is typed as a space.
    pub fn push_str(&mut self, s: &str)
        requires
            old(self).wf(),
            old(self).state().text.len() + s@.len() <= usize::MAX,
        ensures
            final(self).wf(),
            ({
                let base = before_typing(old(self).state());
                let typed = concat_all(grapheme_clusters(s@).map_values(|g: Seq<char>| typed_cluster(g)));
                final(self).state() == (EditState {
                    text: base.text.subrange(0, base.cursor) + typed + base.text.subrange(
                        base.cursor,
                        base.text.len() as int,
                    ),
                    cursor: base.cursor + typed.len(),
                    selection: None,
                })
            }),
            concat_all(grapheme_clusters(s@)) == s@,
    {
        self.clear_selection();
        let clusters = graphemes_of(s);
        let ghost gs = grapheme_clusters(s@);
        proof {
            assert forall|j: int| 0 <= j < gs.len() implies #[trigger] gs[j].len() > 0 by {
                assert(gs[j] == clusters@[j]@);
            }
        }
        let mut typed = String::new();
        let mut i: usize = 0;
        while i < clusters.len()
            invariant
                i <= clusters@.len(),
                clusters@.map_values(|g: &str| g@) == gs,
                typed@ == concat_all(gs.subrange(0, i as int).map_values(|g: Seq<char>| typed_cluster(g))),
                typed@.len() <= concat_all(gs.subrange(0, i as int)).len(),
                forall|j: int| 0 <= j < gs.len() ==> #[trigger] gs[j].len() > 0,
            decreases clusters@.len() - i,
        {
            let g = clusters[i];
            let chars = crate::text::chars_of(g);
            let mut has_space = false;
            let mut k: usize = 0;
            while k < chars.len()
                invariant
                    k <= chars@.len(),
                    chars@ == g@,
                    has_space == exists|j: int| 0 <= j < k && spec_is_whitespace(#[trigger] chars@[j]),
                decreases chars@.len() - k,
            {
                if is_whitespace(chars[k]) {
                    has_space = true;
                }
                k = k + 1;
            }
            proof {
                assert(gs[i as int] == g@);
                let prev = gs.subrange(0, i as int).map_values(|g: Seq<char>| typed_cluster(g));
                let next = gs.subrange(0, i + 1).map_values(|g: Seq<char>| typed_cluster(g));
                assert(next.drop_last() =~= prev);
                assert(next.last() == typed_cluster(g@));
                assert(gs.subrange(0, i + 1).drop_last() =~= gs.subrange(0, i as int));
                assert(gs.subrange(0, i + 1).last() == gs[i as int]);
                assert(gs[i as int].len() > 0);
            }
            if has_space {
                crate::text::push_char(&mut typed, ' ');
                proof {
                    assert(typed_cluster(g@) == seq![' ']);
                }
            } else {
                crate::text::push_str(&mut typed, g);
            }
            i = i + 1;
        }
        proof {
            assert(gs.subrange(0, clusters@.len() as int) =~= gs);
            assert(clusters@.len() == gs.len());
        }
        let at = self.cursor_index;
        let n = typed.as_str().unicode_len();
        let ghost base = self.state();
        self.splice(at, at, typed.as_str(), at + n);
        proof {
            assert(base.text.subrange(0, base.cursor) + typed@ + base.text.subrange(
                base.cursor,
                base.text.len() as int,
            ) == self.state().text);
        }
    }
}

/// The text of all the pieces is at least as long as the first piece.
proof fn lemma_concat_covers_first(s: Seq<Seq<char>>)
    requires
        s.len() > 0,
    ensures
        concat_all(s).len() >= s[0].len(),
    decreases s.len(),
{
    if s.len() == 1 {
        assert(s.drop_last() =~= Seq::<Seq<char>>::empty());
    } else {
        lemma_concat_covers_first(s.drop_last());
        assert(s.drop_last()[0] == s[0]);
    }
}

/// The pieces of a non-empty text are not none.
proof fn lemma_concat_nonempty(s: Seq<Seq<char>>)
    requires
        concat_all(s).len() > 0,
    ensures
        s.len() > 0,
{
    if s.len() == 0 {
        assert(concat_all(s) =~= Seq::<char>::empty());
    }
}

/// The state after a deletion.
pub open spec fn deleted(st: EditState, cd: CursorDelete) -> (EditState, bool) {
    match st.selection {
        Some(anchor) => (selection_deleted(st, anchor), st.cursor != anchor),
        None => match cd {
            CursorDelete::Forward => if cluster_after(st) > 0 {
                (
                    EditState {
                        text: st.text.subrange(0, st.cursor) + st.text.subrange(
                            st.cursor + cluster_after(st),
                            st.text.len() as int,
                        ),
                        ..st
                    },
                    true,
                )
            } else {
                (st, false)
            },
            CursorDelete::Back => if cluster_before(st) > 0 {
                (
                    EditState {
                        text: st.text.subrange(0, st.cursor - cluster_before(st)) + st.text.subrange(
                            st.cursor,
                            st.text.len() as int,
                        ),
                        cursor: st.cursor - cluster_before(st),
                        ..st
                    },
                    true,
                )
            } else {
                (st, false)
            },
            CursorDelete::_Selection => (st, false),
        },
    }
}

/// True when two optional positions are the same.
fn same_position(a: Option<usize>, b: Option<usize>) -> (r: bool)
    ensures
        r == (a == b),
{
    match (a, b) {
        (Some(x), Some(y)) => x == y,
        (None, None) => true,
        _ => false,
    }
}

impl TextInput {
    /// The number of characters of the grapheme cluster right after the cursor.
    fn cluster_after_len(&self) -> (n: usize)
        requires
            self.wf(),
        ensures
            n == cluster_after(self.state()),
            self.state().cursor + n <= self.state().text.len(),
            self.state().text.len() <= usize::MAX,
            self.state().cursor < self.state().text.len() ==> n > 0,
    {
        let whole: &str = self.input.as_str();
        let len = whole.unicode_len();
        if self.cursor_index == len {
            return 0;
        }
        let rest = whole.substring_char(self.cursor_index, len);
        let clusters = graphemes_of(rest);
        proof {
            lemma_concat_nonempty(clusters@.map_values(|g: &str| g@));
            lemma_concat_covers_first(clusters@.map_values(|g: &str| g@));
            assert(clusters@[0]@.len() > 0);
        }
        clusters[0].unicode_len()
    }

    /// The number of characters of the grapheme cluster right before the cursor.
    fn cluster_before_len(&self) -> (n: usize)
        requires
            self.wf(),
        ensures
            n == cluster_before(self.state()),
            n <= self.state().cursor,
            self.state().cursor > 0 ==> n > 0,
    {
        if self.cursor_index == 0 {
            return 0;
        }
        let whole: &str = self.input.as_str();
        let head = whole.substring_char(0, self.cursor_index);
        let clusters = graphemes_of(head);
        let ghost views = clusters@.map_values(|g: &str| g@);
        proof {
            lemma_concat_nonempty(views);
            assert(concat_all(views) == concat_all(views.drop_last()) + views.last());
            assert(clusters@[clusters@.len() - 1]@.len() > 0);
        }
        let k = clusters.len() - 1;
        clusters[k].unicode_len()
    }

    /// Moves the cursor by a grapheme cluster or to an end; with shift the selection
    /// grows from where the cursor was. Reports whether the cursor or the selection changed.
    pub fn move_cursor(&mut self, cm: CursorMove, shift: bool) -> (changed: bool)
        requires
            old(self).wf(),
        ensures
            final(self).wf(),
            final(self).state() == (EditState {
                text: old(self).state().text,
                cursor: moved_cursor(old(self).state(), cm),
                selection: moved_anchor(old(self).state(), cm, shift),
            }),
            changed == (final(self).state().cursor != old(self).state().cursor || final(self).state().selection != old(self).state().selection),
    {
        let old_cursor = self.cursor_index;
        let old_anchor = self.selection_start;
        if shift {
            if self.selection_start.is_none() {
                self.selection_start = Some(self.cursor_index);
            }
        } else {
            self.selection_start = None;
        }
        match cm {
            CursorMove::Forward => {
                let step = self.cluster_after_len();
                self.cursor_index = self.cursor_index + step;
            },
            CursorMove::Back => {
                let step = self.cluster_before_len();
                self.cursor_index = self.cursor_index - step;
            },
            CursorMove::Up | CursorMove::Start => {
                self.cursor_index = 0;
            },
            CursorMove::Down | CursorMove::End => {
                self.cursor_index = self.input.as_str().unicode_len();
            },
        }
        if same_position(self.selection_start, Some(self.cursor_index)) {
            self.selection_start = None;
        }
        self.cursor_index != old_cursor || !same_position(self.selection_start, old_anchor)
    }

    /// Selects all of the text, with the cursor at its end.
    pub fn select_all(&mut self) -> (changed: bool)
        requires
            old(self).wf(),
        ensures
            final(self).wf(),
            final(self).state() == (EditState {
                text: old(self).state().text,
                cursor: old(self).state().text.len() as int,
                selection: Some(0),
            }),
            changed == (final(self).state().cursor != old(self).state().cursor || final(self).state().selection != old(self).state().selection),
    {
        let old_cursor = self.cursor_index;
        let old_anchor = self.selection_start;
        self.cursor_index = self.input.as_str().unicode_len();
        self.selection_start = Some(0);
        self.cursor_index != old_cursor || !same_position(self.selection_start, old_anchor)
    }

    /// Deletes the selection, or else the grapheme cluster after or before the cursor.
    /// Reports whether anything was deleted.
    pub fn delete(&mut self, cd: CursorDelete) -> (changed: bool)
        requires
            old(self).wf(),
        ensures
            final(self).wf(),
            (final(self).state(), changed) == deleted(old(self).state(), cd),
    {
        match self.selection_start {
            Some(anchor) => self.delete_selection(anchor),
            None => match cd {
                CursorDelete::Forward => {
                    let step = self.cluster_after_len();
                    if step > 0 {
                        let at = self.cursor_index;
                        self.splice(at, at + step, "", at);
                        proof {
                            reveal_strlit("");
                            assert(self.state().text =~= old(self).state().text.subrange(0, at as int)
                                + old(self).state().text.subrange(at + step, old(self).state().text.len() as int));
                        }
                        true
                    } else {
                        false
                    }
                },
                CursorDelete::Back => {
                    let step = self.cluster_before_len();
                    if step > 0 {
                        let at = self.cursor_index - step;
                        self.splice(at, self.cursor_index, "", at);
                        proof {
                            reveal_strlit("");
                            assert(self.state().text =~= old(self).state().text.subrange(0, at as int)
                                + old(self).state().text.subrange(old(self).state().cursor, old(self).state().text.len() as int));
                        }
                        true
                    } else {
                        false
                    }
                },
                CursorDelete::_Selection => false,
            },
        }
    }

    /// Empties the input.
    pub fn clear(&mut self)
        ensures
            final(self).wf(),
            final(self).state() == (EditState { text: Seq::<char>::empty(), cursor: 0, selection: None }),
            final(self).placeholder_spec() == old(self).placeholder_spec(),
    {
        crate::text::string_clear(&mut self.input);
        self.cursor_index = 0;
        self.selection_start = None;
    }

    /// Reacts to a key: arrows, home and end move the cursor (shift selects), backspace and
    /// delete delete, ctrl-a selects all, and other characters are typed. Ctrl-c and
    /// ctrl-v are left to the caller, who owns the clipboard (see `selected_text` and
    /// `push_str`). Reports whether the input changed.
    pub fn input(&mut self, key: Key, ctrl: bool, shift: bool) -> (changed: bool)
        requires
            old(self).wf(),
            old(self).state().text.len() < usize::MAX,
        ensures
            final(self).wf(),
            input_outcome(old(self).state(), key, ctrl, shift, final(self).state(), changed),
    {
        match key {
            Key::Right => self.move_cursor(CursorMove::Forward, shift),
            Key::Left => self.move_cursor(CursorMove::Back, shift),
            Key::Up => self.move_cursor(CursorMove::Up, shift),
            Key::Down => self.move_cursor(CursorMove::Down, shift),
            Key::Home => self.move_cursor(CursorMove::Start, shift),
            Key::End => self.move_cursor(CursorMove::End, shift),
            Key::Backspace => self.delete(CursorDelete::Back),
            Key::Delete => self.delete(CursorDelete::Forward),
            Key::Char(c) => {
                if ctrl && c == 'a' {
                    self.select_all()
                } else if ctrl && (c == 'c' || c == 'v') {
                    false
                } else {
                    self.push_char(c);
                    true
                }
            },
            _ => false,
        }
    }
}

/// Selecting all and then deleting backwards leaves the input empty.
pub proof fn law_select_all_then_delete_empties(text: Seq<char>, cursor: int, selection: Option<int>)
    ensures
        ({
            let all = EditState { text, cursor: text.len() as int, selection: Some(0) };
            let (after, changed) = deleted(all, CursorDelete::Back);
            &&& after.text == Seq::<char>::empty()
            &&& after.cursor == 0
            &&& after.selection is None
            &&& changed == (text.len() > 0)
        }),
{
    let all = EditState { text, cursor: text.len() as int, selection: Some(0) };
    if text.len() > 0 {
        assert(text.subrange(0, 0) + text.subrange(text.len() as int, text.len() as int) =~= Seq::<char>::empty());
    }
}

/// Typing a character puts it right before the cursor, which moves past it; the text
/// around it is kept.
pub proof fn law_typed_char_before_cursor(st: EditState, c: char)
    requires
        st.selection is None,
        0 <= st.cursor <= st.text.len(),
    ensures
        ({
            let after = EditState {
                text: st.text.insert(st.cursor, typed_char(c)),
                cursor: st.cursor + 1,
                selection: None,
            };
            &&& after.text[after.cursor - 1] == typed_char(c)
            &&& after.text.subrange(0, st.cursor) == st.text.subrange(0, st.cursor)
            &&& after.text.subrange(after.cursor, after.text.len() as int) == st.text.subrange(
                st.cursor,
                st.text.len() as int,
            )
        }),
{
    let after_text = st.text.insert(st.cursor, typed_char(c));
    st.text.insert_ensures(st.cursor, typed_char(c));
    assert(after_text.subrange(0, st.cursor) =~= st.text.subrange(0, st.cursor));
    assert(after_text.subrange(st.cursor + 1, after_text.len() as int) =~= st.text.subrange(
        st.cursor,
        st.text.len() as int,
    ));
}

} // verus!
