//! Block markup: a text split into paragraphs, headings, lists, code, images, formulas,
//! comments and breaks, by the marks at the start of its lines. The parser walks the
//! text's grapheme clusters and reports each block with the bytes it spans.
use vstd::prelude::*;

use crate::formatting::{concat_all, law_utf8_len_additive};
use crate::layout::HorizontalAlignment;
use crate::markup::{spec_is_whitespace, trim, trimmed};
use crate::text::{byte_len, push_str, utf8_len};
use crate::text_input::{grapheme_clusters, graphemes_of};
use std::ops::Range;

verus! {

/// The text of the clusters from `a` up to `b`.
pub open spec fn text_of(gs: Seq<Seq<char>>, a: int, b: int) -> Seq<char> {
    concat_all(gs.subrange(a, b))
}

/// The byte at which cluster `p` starts.
pub open spec fn offset(gs: Seq<Seq<char>>, p: int) -> int {
    utf8_len(text_of(gs, 0, p))
}

/// Each cluster adds its bytes to the offset.
pub proof fn lemma_offset_step(gs: Seq<Seq<char>>, p: int)
    requires
        0 <= p < gs.len(),
    ensures
        offset(gs, p + 1) == offset(gs, p) + utf8_len(gs[p]),
{
    assert(gs.subrange(0, p + 1).drop_last() =~= gs.subrange(0, p));
    law_utf8_len_additive(text_of(gs, 0, p), gs[p]);
}

/// Offsets grow with the position.
pub proof fn lemma_offset_mono(gs: Seq<Seq<char>>, p: int, q: int)
    requires
        0 <= p <= q <= gs.len(),
    ensures
        offset(gs, p) <= offset(gs, q),
    decreases q - p,
{
    if p < q {
        lemma_offset_mono(gs, p, q - 1);
        lemma_offset_step(gs, q - 1);
    }
}

/// The grapheme clusters of a text with the byte at which each starts.
pub struct Clusters<'a> {
    gs: Vec<&'a str>,
    offsets: Vec<usize>,
}

impl<'a> Clusters<'a> {
    /// The clusters as plain values.
    pub closed spec fn views(&self) -> Seq<Seq<char>> {
        self.gs@.map_values(|g: &str| g@)
    }

    /// The offsets are those of the clusters, and there is one more at the end.
    pub closed spec fn wf(&self) -> bool {
        &&& self.offsets@.len() == self.gs@.len() + 1
        &&& forall|p: int| 0 <= p <= self.gs@.len() ==> #[trigger] self.offsets@[p] == offset(self.views(), p)
        &&& forall|p: int| 0 <= p < self.gs@.len() ==> #[trigger] self.gs@[p]@.len() > 0
    }

    /// The clusters of a text.
    pub fn new(input: &'a str) -> (c: Self)
        ensures
            c.wf(),
            c.views() == grapheme_clusters(input@),
            text_of(c.views(), 0, c.views().len() as int) == input@,
            offset(c.views(), c.views().len() as int) == utf8_len(input@),
    {
        let gs = graphemes_of(input);
        let ghost views = gs@.map_values(|g: &str| g@);
        proof {
            assert(views.subrange(0, views.len() as int) =~= views);
        }
        let total = byte_len(input);
        let mut offsets: Vec<usize> = Vec::new();
        offsets.push(0);
        proof {
            assert(text_of(views, 0, 0) =~= Seq::<char>::empty());
            assert(vstd::utf8::encode_utf8(Seq::<char>::empty()) =~= Seq::<u8>::empty());
        }
        let mut i: usize = 0;
        let mut at: usize = 0;
        while i < gs.len()
            invariant
                views == gs@.map_values(|g: &str| g@),
                i <= gs@.len(),
                offsets@.len() == i + 1,
                forall|p: int| 0 <= p <= i ==> #[trigger] offsets@[p] == offset(views, p),
                at == offset(views, i as int),
                total == utf8_len(input@),
                offset(views, gs@.len() as int) == total,
            decreases gs@.len() - i,
        {
            proof {
                lemma_offset_step(views, i as int);
                lemma_offset_mono(views, i + 1, gs@.len() as int);
            }
            let n = byte_len(gs[i]);
            at = at + n;
            offsets.push(at);
            i = i + 1;
        }
        Clusters { gs, offsets }
    }

    /// Clusters given as pieces of text, each with the byte at which it starts; `None` when a
    /// piece is empty or the pieces together do not fit in a `usize` of bytes.
    pub fn from_pieces(pieces: Vec<&'a str>) -> (r: Option<Self>)
        ensures
            match r {
                Some(c) => c.wf() && c.views() == pieces@.map_values(|g: &str| g@),
                None => (exists|i: int| 0 <= i < pieces@.len() && #[trigger] pieces@[i]@.len() == 0)
                    || offset(pieces@.map_values(|g: &str| g@), pieces@.len() as int) > usize::MAX,
            },
    {
        let ghost views = pieces@.map_values(|g: &str| g@);
        let mut offsets: Vec<usize> = Vec::new();
        offsets.push(0);
        proof {
            lemma_offset_first(views);
        }
        let mut i: usize = 0;
        let mut at: usize = 0;
        while i < pieces.len()
            invariant
                views == pieces@.map_values(|g: &str| g@),
                i <= pieces@.len(),
                offsets@.len() == i + 1,
                forall|p: int| 0 <= p <= i ==> #[trigger] offsets@[p] == offset(views, p),
                forall|p: int| 0 <= p < i ==> #[trigger] pieces@[p]@.len() > 0,
                at == offset(views, i as int),
            decreases pieces@.len() - i,
        {
            proof {
                lemma_offset_step(views, i as int);
            }
            let n = byte_len(pieces[i]);
            if pieces[i].unicode_len() == 0 {
                return None;
            }
            match at.checked_add(n) {
                Some(next) => {
                    at = next;
                },
                None => {
                    proof {
                        lemma_offset_mono(views, i + 1, pieces@.len() as int);
                    }
                    return None;
                },
            }
            offsets.push(at);
            i = i + 1;
        }
        Some(Clusters { gs: pieces, offsets })
    }

    /// The number of clusters.
    pub fn len(&self) -> (n: usize)
        ensures
            n == self.views().len(),
    {
        self.gs.len()
    }

    /// The cluster at `p`.
    pub fn get(&self, p: usize) -> (g: &'a str)
        requires
            p < self.views().len(),
        ensures
            g@ == self.views()[p as int],
    {
        self.gs[p]
    }

    /// The byte at which cluster `p` starts (the text's length at the end).
    pub fn offset_of(&self, p: usize) -> (o: usize)
        requires
            self.wf(),
            p <= self.views().len(),
        ensures
            o == offset(self.views(), p as int),
    {
        self.offsets[p]
    }

    /// The text of the clusters from `a` up to `b`.
    pub fn text(&self, a: usize, b: usize) -> (r: String)
        requires
            a <= b <= self.views().len(),
        ensures
            r@ == text_of(self.views(), a as int, b as int),
    {
        let mut r = String::new();
        let mut i = a;
        proof {
            assert(self.views().subrange(a as int, a as int) =~= Seq::<Seq<char>>::empty());
        }
        while i < b
            invariant
                a <= i <= b <= self.views().len(),
                self.views() == self.gs@.map_values(|g: &str| g@),
                r@ == text_of(self.views(), a as int, i as int),
            decreases b - i,
        {
            push_str(&mut r, self.gs[i]);
            proof {
                assert(self.views().subrange(a as int, i + 1).drop_last() =~= self.views().subrange(
                    a as int,
                    i as int,
                ));
            }
            i = i + 1;
        }
        r
    }

    /// The text of the clusters from `a` up to `b`, without the whitespace at its ends.
    pub fn trimmed_text(&self, a: usize, b: usize) -> (r: String)
        requires
            a <= b <= self.views().len(),
        ensures
            r@ == trimmed(text_of(self.views(), a as int, b as int)),
    {
        let t = self.text(a, b);
        trim(t.as_str())
    }
}

/// True when a cluster holds whitespace.
pub open spec fn has_space(g: Seq<char>) -> bool {
    exists|k: int| 0 <= k < g.len() && spec_is_whitespace(#[trigger] g[k])
}

/// True when a cluster holds a line feed.
pub open spec fn has_newline(g: Seq<char>) -> bool {
    exists|k: int| 0 <= k < g.len() && #[trigger] g[k] == '\n'
}

/// True when a cluster is a line break: a line feed, or a carriage return and a line feed.
pub open spec fn is_line_break(g: Seq<char>) -> bool {
    g == seq!['\n'] || g == seq!['\r', '\n']
}

/// The number of clusters from `pos` on that are the single character `c`.
pub open spec fn run_of(gs: Seq<Seq<char>>, pos: int, c: char) -> int
    decreases gs.len() - pos,
{
    if 0 <= pos < gs.len() && gs[pos] == seq![c] {
        1 + run_of(gs, pos + 1, c)
    } else {
        0
    }
}

/// The first cluster at `pos` or after it that holds a line feed.
pub open spec fn first_newline(gs: Seq<Seq<char>>, pos: int) -> Option<int>
    decreases gs.len() - pos,
{
    if pos < 0 || pos >= gs.len() {
        None
    } else if has_newline(gs[pos]) {
        Some(pos)
    } else {
        first_newline(gs, pos + 1)
    }
}

/// The first cluster at `pos` or after it that is the single character `c`.
pub open spec fn first_mark(gs: Seq<Seq<char>>, pos: int, c: char) -> Option<int>
    decreases gs.len() - pos,
{
    if pos < 0 || pos >= gs.len() {
        None
    } else if gs[pos] == seq![c] {
        Some(pos)
    } else {
        first_mark(gs, pos + 1, c)
    }
}

/// The second cluster of the first two neighbours at `pos` or after it that both hold a
/// line feed.
pub open spec fn first_newline_pair(gs: Seq<Seq<char>>, pos: int) -> Option<int>
    decreases gs.len() - pos,
{
    if pos < 0 || pos + 1 >= gs.len() {
        None
    } else if has_newline(gs[pos]) && has_newline(gs[pos + 1]) {
        Some(pos + 1)
    } else {
        first_newline_pair(gs, pos + 1)
    }
}

/// The second cluster of the first two neighbours at `pos` or after it that are both the
/// single character `c`.
pub open spec fn first_mark_pair(gs: Seq<Seq<char>>, pos: int, c: char) -> Option<int>
    decreases gs.len() - pos,
{
    if pos < 0 || pos + 1 >= gs.len() {
        None
    } else if gs[pos] == seq![c] && gs[pos + 1] == seq![c] {
        Some(pos + 1)
    } else {
        first_mark_pair(gs, pos + 1, c)
    }
}

/// What a search from `pos` finds lies at or after `pos` and inside the text.
pub proof fn lemma_found_in_range(gs: Seq<Seq<char>>, pos: int, c: char)
    requires
        0 <= pos,
    ensures
        first_newline(gs, pos) matches Some(k) ==> pos <= k < gs.len() && has_newline(gs[k]),
        first_mark(gs, pos, c) matches Some(k) ==> pos <= k < gs.len() && gs[k] == seq![c],
        first_newline_pair(gs, pos) matches Some(k) ==> pos + 1 <= k < gs.len(),
        first_mark_pair(gs, pos, c) matches Some(k) ==> pos + 1 <= k < gs.len() && gs[k - 1]
            == seq![c] && gs[k] == seq![c],
        0 <= run_of(gs, pos, c),
        pos <= gs.len() ==> pos + run_of(gs, pos, c) <= gs.len(),
    decreases gs.len() - pos,
{
    if pos < gs.len() {
        lemma_found_in_range(gs, pos + 1, c);
    }
}

/// True when a cluster holds whitespace.
fn cluster_has_space(g: &str) -> (b: bool)
    ensures
        b == has_space(g@),
{
    let v = crate::text::chars_of(g);
    let mut k: usize = 0;
    while k < v.len()
        invariant
            v@ == g@,
            k <= v@.len(),
            forall|j: int| 0 <= j < k ==> !spec_is_whitespace(#[trigger] v@[j]),
        decreases v@.len() - k,
    {
        if crate::markup::is_whitespace(v[k]) {
            return true;
        }
        k = k + 1;
    }
    false
}

/// True when a cluster holds a line feed.
fn cluster_has_newline(g: &str) -> (b: bool)
    ensures
        b == has_newline(g@),
{
    let v = crate::text::chars_of(g);
    let mut k: usize = 0;
    while k < v.len()
        invariant
            v@ == g@,
            k <= v@.len(),
            forall|j: int| 0 <= j < k ==> #[trigger] v@[j] != '\n',
        decreases v@.len() - k,
    {
        if v[k] == '\n' {
            return true;
        }
        k = k + 1;
    }
    false
}

/// True when a cluster is the single character `c`.
fn cluster_is(g: &str, c: char) -> (b: bool)
    ensures
        b == (g@ == seq![c]),
{
    let v = crate::text::chars_of(g);
    let r = v.len() == 1 && v[0] == c;
    proof {
        if v@.len() == 1 && v@[0] == c {
            assert(v@ =~= seq![c]);
        }
    }
    r
}

/// True when a cluster is a line break.
fn cluster_is_line_break(g: &str) -> (b: bool)
    ensures
        b == is_line_break(g@),
{
    let v = crate::text::chars_of(g);
    let r = (v.len() == 1 && v[0] == '\n') || (v.len() == 2 && v[0] == '\r' && v[1] == '\n');
    proof {
        if v@.len() == 1 && v@[0] == '\n' {
            assert(v@ =~= seq!['\n']);
        }
        if v@.len() == 2 && v@[0] == '\r' && v@[1] == '\n' {
            assert(v@ =~= seq!['\r', '\n']);
        }
    }
    r
}

impl<'a> Clusters<'a> {
    /// The number of clusters from `pos` on that are the single character `c`.
    pub fn count_run(&self, pos: usize, c: char) -> (n: usize)
        requires
            pos <= self.views().len(),
        ensures
            n == run_of(self.views(), pos as int, c),
    {
        let mut p = pos;
        while p < self.gs.len() && cluster_is(self.gs[p], c)
            invariant
                pos <= p <= self.views().len(),
                self.views() == self.gs@.map_values(|g: &str| g@),
                run_of(self.views(), pos as int, c) == (p - pos) + run_of(self.views(), p as int, c),
            decreases self.views().len() - p,
        {
            p = p + 1;
        }
        p - pos
    }

    /// The first cluster at `pos` or after it that holds a line feed.
    pub fn find_newline(&self, pos: usize) -> (r: Option<usize>)
        requires
            pos <= self.views().len(),
        ensures
            match r {
                Some(k) => first_newline(self.views(), pos as int) == Some(k as int),
                None => first_newline(self.views(), pos as int) is None,
            },
    {
        let mut p = pos;
        while p < self.gs.len()
            invariant
                pos <= p <= self.views().len(),
                self.views() == self.gs@.map_values(|g: &str| g@),
                first_newline(self.views(), p as int) == first_newline(self.views(), pos as int),
            decreases self.views().len() - p,
        {
            if cluster_has_newline(self.gs[p]) {
                return Some(p);
            }
            p = p + 1;
        }
        None
    }

    /// The first cluster at `pos` or after it that is the single character `c`.
    pub fn find_mark(&self, pos: usize, c: char) -> (r: Option<usize>)
        requires
            pos <= self.views().len(),
        ensures
            match r {
                Some(k) => first_mark(self.views(), pos as int, c) == Some(k as int),
                None => first_mark(self.views(), pos as int, c) is None,
            },
    {
        let mut p = pos;
        while p < self.gs.len()
            invariant
                pos <= p <= self.views().len(),
                self.views() == self.gs@.map_values(|g: &str| g@),
                first_mark(self.views(), p as int, c) == first_mark(self.views(), pos as int, c),
            decreases self.views().len() - p,
        {
            if cluster_is(self.gs[p], c) {
                return Some(p);
            }
            p = p + 1;
        }
        None
    }

    /// The second of the first two neighbouring clusters from `pos` on that both hold a line
    /// feed.
    pub fn find_newline_pair(&self, pos: usize) -> (r: Option<usize>)
        requires
            pos <= self.views().len(),
        ensures
            match r {
                Some(k) => first_newline_pair(self.views(), pos as int) == Some(k as int),
                None => first_newline_pair(self.views(), pos as int) is None,
            },
    {
        let mut p = pos;
        while p < self.gs.len() && p + 1 < self.gs.len()
            invariant
                pos <= p <= self.views().len(),
                self.views() == self.gs@.map_values(|g: &str| g@),
                first_newline_pair(self.views(), p as int) == first_newline_pair(
                    self.views(),
                    pos as int,
                ),
            decreases self.views().len() - p,
        {
            if cluster_has_newline(self.gs[p]) && cluster_has_newline(self.gs[p + 1]) {
                return Some(p + 1);
            }
            p = p + 1;
        }
        None
    }

    /// The second of the first two neighbouring clusters from `pos` on that are both the
    /// single character `c`.
    pub fn find_mark_pair(&self, pos: usize, c: char) -> (r: Option<usize>)
        requires
            pos <= self.views().len(),
        ensures
            match r {
                Some(k) => first_mark_pair(self.views(), pos as int, c) == Some(k as int),
                None => first_mark_pair(self.views(), pos as int, c) is None,
            },
    {
        let mut p = pos;
        while p < self.gs.len() && p + 1 < self.gs.len()
            invariant
                pos <= p <= self.views().len(),
                self.views() == self.gs@.map_values(|g: &str| g@),
                first_mark_pair(self.views(), p as int, c) == first_mark_pair(
                    self.views(),
                    pos as int,
                    c,
                ),
            decreases self.views().len() - p,
        {
            if cluster_is(self.gs[p], c) && cluster_is(self.gs[p + 1], c) {
                return Some(p + 1);
            }
            p = p + 1;
        }
        None
    }

    /// True when cluster `p` holds a line feed.
    pub fn newline_at(&self, p: usize) -> (b: bool)
        requires
            p < self.views().len(),
        ensures
            b == has_newline(self.views()[p as int]),
    {
        cluster_has_newline(self.gs[p])
    }

    /// True when cluster `p` holds whitespace.
    pub fn space_at(&self, p: usize) -> (b: bool)
        requires
            p < self.views().len(),
        ensures
            b == has_space(self.views()[p as int]),
    {
        cluster_has_space(self.gs[p])
    }

    /// True when cluster `p` is the single character `c`.
    pub fn mark_at(&self, p: usize, c: char) -> (b: bool)
        requires
            p < self.views().len(),
        ensures
            b == (self.views()[p as int] == seq![c]),
    {
        cluster_is(self.gs[p], c)
    }

    /// True when cluster `p` is a line break.
    pub fn line_break_at(&self, p: usize) -> (b: bool)
        requires
            p < self.views().len(),
        ensures
            b == is_line_break(self.views()[p as int]),
    {
        cluster_is_line_break(self.gs[p])
    }
}


/// A block as plain values.
pub enum BlockView {
    Paragraph { text: Seq<char>, alignment: HorizontalAlignment },
    Heading { text: Seq<char>, alignment: HorizontalAlignment, newline: bool },
    List { text: Seq<char> },
    Code { language: Seq<char>, text: Seq<char> },
    Image { description: Seq<char>, path: Seq<char> },
    Math { text: Seq<char> },
    Comment { text: Seq<char> },
    Break,
}

/// A block found by the parser: what it is, the bytes it spans and the cluster at which
/// the parser goes on.
pub struct Found {
    pub block: BlockView,
    pub start: int,
    pub end: int,
    pub next: int,
}

/// The length of the text in bytes.
pub open spec fn total(gs: Seq<Seq<char>>) -> int {
    offset(gs, gs.len() as int)
}

/// The clusters taken by the mark of an alignment at the start of a paragraph.
pub open spec fn mark_width(alignment: HorizontalAlignment) -> int {
    match alignment {
        HorizontalAlignment::Left => 0,
        _ => 1,
    }
}

/// The first cluster at `pos` or after it that holds no whitespace.
pub open spec fn first_solid(gs: Seq<Seq<char>>, pos: int) -> Option<int>
    decreases gs.len() - pos,
{
    if pos < 0 || pos >= gs.len() {
        None
    } else if !has_space(gs[pos]) {
        Some(pos)
    } else {
        first_solid(gs, pos + 1)
    }
}

/// How many of the (at most two) clusters from `pos` on hold a line feed, counted while
/// they do.
pub open spec fn newline_run2(gs: Seq<Seq<char>>, pos: int) -> int {
    if 0 <= pos < gs.len() && has_newline(gs[pos]) {
        if pos + 1 < gs.len() && has_newline(gs[pos + 1]) {
            2
        } else {
            1
        }
    } else {
        0
    }
}

/// A paragraph that starts at cluster `k` and runs from the search position `cur` up to
/// the first blank line.
pub open spec fn paragraph(
    gs: Seq<Seq<char>>,
    k: int,
    alignment: HorizontalAlignment,
    cur: int,
) -> Found {
    let n = gs.len() as int;
    let (stop, next) = match first_newline_pair(gs, cur) {
        Some(j) => (j, j + 1),
        None => (n, n),
    };
    Found {
        block: BlockView::Paragraph {
            text: trimmed(text_of(gs, k + mark_width(alignment), stop)),
            alignment,
        },
        start: offset(gs, k),
        end: offset(gs, next),
        next,
    }
}

/// A heading: the marks `=`, then an optional alignment mark, then the text up to the end
/// of the line.
pub open spec fn heading(gs: Seq<Seq<char>>, k: int) -> Found {
    let n = gs.len() as int;
    let a = k + 1 + run_of(gs, k + 1, '=');
    if a >= n {
        paragraph(gs, k, HorizontalAlignment::Left, n)
    } else {
        let (alignment, skip) = if gs[a] == seq![':'] {
            (HorizontalAlignment::Center, 1int)
        } else if gs[a] == seq![';'] {
            (HorizontalAlignment::Right, 1int)
        } else {
            (HorizontalAlignment::Left, 0int)
        };
        let (stop, next, newline) = match first_newline(gs, a + 1) {
            Some(j) => (j, j + 1, j + 1 < n && has_newline(gs[j + 1])),
            None => (n, n, false),
        };
        Found {
            block: BlockView::Heading { text: trimmed(text_of(gs, a + skip, stop)), alignment, newline },
            start: offset(gs, k),
            end: offset(gs, next),
            next,
        }
    }
}

/// A list: the text after the mark `-` up to the first blank line.
pub open spec fn list(gs: Seq<Seq<char>>, k: int) -> Found {
    let n = gs.len() as int;
    let (stop, next) = match first_newline_pair(gs, k + 1) {
        Some(j) => (j, j + 1),
        None => (n, n),
    };
    Found {
        block: BlockView::List { text: trimmed(text_of(gs, k + 1, stop)) },
        start: offset(gs, k),
        end: offset(gs, next),
        next,
    }
}

/// A comment: the text after the mark `#` up to the end of the line.
pub open spec fn comment(gs: Seq<Seq<char>>, k: int) -> Found {
    let n = gs.len() as int;
    let (stop, next) = match first_newline(gs, k + 1) {
        Some(j) => (j, j + 1),
        None => (n, n),
    };
    Found {
        block: BlockView::Comment { text: trimmed(text_of(gs, k + 1, stop)) },
        start: offset(gs, k),
        end: offset(gs, next),
        next,
    }
}

/// What follows an image or a formula that ends before cluster `e`: the end of the text,
/// or two clusters that hold line feeds; anything else makes the block a paragraph.
pub open spec fn closing(gs: Seq<Seq<char>>, k: int, block: BlockView, e: int) -> Found {
    let n = gs.len() as int;
    if e >= n {
        Found { block, start: offset(gs, k), end: total(gs), next: n }
    } else if !has_newline(gs[e]) {
        paragraph(gs, k, HorizontalAlignment::Left, e + 1)
    } else if e + 1 >= n {
        Found { block, start: offset(gs, k), end: offset(gs, e), next: n }
    } else if !has_newline(gs[e + 1]) {
        paragraph(gs, k, HorizontalAlignment::Left, e + 2)
    } else {
        Found { block, start: offset(gs, k), end: offset(gs, e), next: e + 2 }
    }
}

/// An image: `![description](path)` on a line of its own.
pub open spec fn image(gs: Seq<Seq<char>>, k: int) -> Found {
    let n = gs.len() as int;
    let b = k + 1;
    if b >= n {
        paragraph(gs, k, HorizontalAlignment::Left, n)
    } else if gs[b] != seq!['['] {
        paragraph(gs, k, HorizontalAlignment::Left, b + 1)
    } else {
        match first_mark(gs, b + 1, ']') {
            None => paragraph(gs, k, HorizontalAlignment::Left, n),
            Some(d) => {
                let q = d + 1;
                if q >= n {
                    paragraph(gs, k, HorizontalAlignment::Left, n)
                } else if gs[q] != seq!['('] {
                    paragraph(gs, k, HorizontalAlignment::Left, q + 1)
                } else {
                    match first_mark(gs, q + 1, ')') {
                        None => paragraph(gs, k, HorizontalAlignment::Left, n),
                        Some(p) => closing(
                            gs,
                            k,
                            BlockView::Image {
                                description: trimmed(text_of(gs, b + 1, d)),
                                path: trimmed(text_of(gs, q + 1, p)),
                            },
                            p + 1,
                        ),
                    }
                }
            },
        }
    }
}

/// A formula between the marks `$$` and `$$`, with something in it, on lines of its own.
pub open spec fn math(gs: Seq<Seq<char>>, k: int) -> Found {
    let n = gs.len() as int;
    match first_mark_pair(gs, k + 2, '$') {
        None => paragraph(gs, k, HorizontalAlignment::Left, n),
        Some(j) => {
            let text = trimmed(text_of(gs, k + 2, j - 1));
            if text.len() == 0 {
                paragraph(gs, k, HorizontalAlignment::Left, j + 1)
            } else {
                closing(gs, k, BlockView::Math { text }, j + 1)
            }
        },
    }
}

/// The rest of a code block whose language is `language` and whose code starts at cluster
/// `body`, searched from cluster `cur`: the block ends at a line that starts with as many
/// backticks as it was opened with and is followed by two line feeds, or at the end of the
/// text. What follows the closing backticks is divided into clusters anew, and where the
/// block closes there, the end of its range is counted in bytes from the end of those
/// backticks.
pub open spec fn code_body(
    gs: Seq<Seq<char>>,
    k: int,
    ticks: int,
    language: Seq<char>,
    body: int,
    cur: int,
) -> Found
    decreases gs.len() - cur,
    when 0 <= cur <= gs.len()
{
    let n = gs.len() as int;
    match first_newline(gs, cur) {
        None => Found {
            block: BlockView::Code { language, text: text_of(gs, body, n) },
            start: offset(gs, k),
            end: total(gs),
            next: n,
        },
        Some(ce) => {
            proof {
                lemma_found_in_range(gs, cur, '`');
                lemma_found_in_range(gs, ce + 1, '`');
            }
            let t = run_of(gs, ce + 1, '`');
            let after = ce + 1 + t;
            if t != ticks {
                code_body(gs, k, ticks, language, body, after)
            } else {
                let hs = grapheme_clusters(text_of(gs, after, n));
                let block = BlockView::Code { language, text: text_of(gs, body, ce) };
                if hs.len() == 0 {
                    Found { block, start: offset(gs, k), end: offset(gs, after), next: after }
                } else if !has_newline(hs[0]) {
                    code_body(gs, k, ticks, language, body, after)
                } else if hs.len() == 1 {
                    Found { block, start: offset(gs, k), end: utf8_len(hs[0]), next: after }
                } else if !has_newline(hs[1]) {
                    code_body(gs, k, ticks, language, body, after)
                } else {
                    Found {
                        block,
                        start: offset(gs, k),
                        end: utf8_len(hs[0]) + utf8_len(hs[1]),
                        next: if after + 2 <= n {
                            after + 2
                        } else {
                            n
                        },
                    }
                }
            }
        },
    }
}

/// A code block opened by `ticks` backticks: the language on the rest of the line, then the
/// code.
pub open spec fn code(gs: Seq<Seq<char>>, k: int, ticks: int) -> Found {
    let n = gs.len() as int;
    let a = k + ticks;
    match first_newline(gs, a) {
        None => Found {
            block: BlockView::Code { language: trimmed(text_of(gs, a, n)), text: seq![] },
            start: offset(gs, k),
            end: total(gs),
            next: n,
        },
        Some(i) => code_body(gs, k, ticks, trimmed(text_of(gs, a, i)), i + 1, i + 1),
    }
}

/// A block that starts with backticks at cluster `k`: code when there are three or more.
pub open spec fn ticks_block(gs: Seq<Seq<char>>, k: int) -> Found {
    let ticks = 1 + run_of(gs, k + 1, '`');
    if ticks >= 3 {
        code(gs, k, ticks)
    } else {
        paragraph(gs, k, HorizontalAlignment::Left, k + ticks)
    }
}

/// A block that starts with dashes at cluster `k`: a list after one, a break after three
/// that end the line and are followed by an empty one.
pub open spec fn dashes_block(gs: Seq<Seq<char>>, k: int) -> Found {
    let dashes = 1 + run_of(gs, k + 1, '-');
    let c = k + dashes;
    if dashes == 1 {
        list(gs, k)
    } else if dashes == 3 {
        let m = newline_run2(gs, c);
        if m == 2 {
            Found { block: BlockView::Break, start: offset(gs, k), end: offset(gs, k) + 5, next: c + 2 }
        } else {
            paragraph(gs, k, HorizontalAlignment::Left, c + m)
        }
    } else {
        paragraph(gs, k, HorizontalAlignment::Left, c)
    }
}

/// A block that starts with `$` at cluster `k`: a formula after two.
pub open spec fn dollar_block(gs: Seq<Seq<char>>, k: int) -> Found {
    let n = gs.len() as int;
    if k + 1 < n && gs[k + 1] == seq!['$'] {
        math(gs, k)
    } else if k + 1 < n {
        paragraph(gs, k, HorizontalAlignment::Left, k + 2)
    } else {
        paragraph(gs, k, HorizontalAlignment::Left, n)
    }
}

/// The block that starts with cluster `k` at the start of a line, chosen by its mark.
pub open spec fn line_block(gs: Seq<Seq<char>>, k: int) -> Found {
    let g = gs[k];
    if g == seq![':'] {
        paragraph(gs, k, HorizontalAlignment::Center, k + 1)
    } else if g == seq![';'] {
        paragraph(gs, k, HorizontalAlignment::Right, k + 1)
    } else if g == seq!['='] {
        heading(gs, k)
    } else if g == seq!['#'] {
        comment(gs, k)
    } else if g == seq!['!'] {
        image(gs, k)
    } else if g == seq!['`'] {
        ticks_block(gs, k)
    } else if g == seq!['-'] {
        dashes_block(gs, k)
    } else if g == seq!['$'] {
        dollar_block(gs, k)
    } else {
        paragraph(gs, k, HorizontalAlignment::Left, k + 1)
    }
}

/// The next block from cluster `cur` on: whitespace is skipped; a block that does not
/// start a line is a paragraph; otherwise its mark decides.
pub open spec fn next_block(gs: Seq<Seq<char>>, cur: int) -> Option<Found> {
    match first_solid(gs, cur) {
        None => None,
        Some(k) => if k == 0 || is_line_break(gs[k - 1]) {
            Some(line_block(gs, k))
        } else {
            Some(paragraph(gs, k, HorizontalAlignment::Left, k + 1))
        },
    }
}

/// The first cluster `-` at `pos` or after it that follows a cluster holding a line feed.
pub open spec fn item_break(gs: Seq<Seq<char>>, pos: int) -> Option<int>
    decreases gs.len() - pos,
{
    if pos >= gs.len() {
        None
    } else if pos >= 1 && has_newline(gs[pos - 1]) && gs[pos] == seq!['-'] {
        Some(pos)
    } else {
        item_break(gs, pos + 1)
    }
}

/// What a search for an item break finds lies at or after `pos`.
pub proof fn lemma_item_break_range(gs: Seq<Seq<char>>, pos: int)
    requires
        0 <= pos,
    ensures
        item_break(gs, pos) matches Some(k) ==> pos <= k < gs.len() && k >= 1 && has_newline(
            gs[k - 1],
        ) && gs[k] == seq!['-'],
    decreases gs.len() - pos,
{
    if pos < gs.len() {
        lemma_item_break_range(gs, pos + 1);
    }
}

/// The items of a list from cluster `pos` on: each runs up to a line that starts with `-`,
/// without the whitespace at its ends.
pub open spec fn list_items(gs: Seq<Seq<char>>, pos: int) -> Seq<Seq<char>>
    decreases gs.len() - pos,
{
    if pos < 0 || pos >= gs.len() {
        seq![]
    } else {
        match item_break(gs, pos) {
            None => seq![trimmed(text_of(gs, pos, gs.len() as int))],
            Some(k) => {
                proof {
                    lemma_item_break_range(gs, pos);
                }
                seq![trimmed(text_of(gs, pos, k - 1))] + list_items(gs, k + 1)
            },
        }
    }
}

impl<'a> Clusters<'a> {
    /// The first cluster `-` at `pos` or after it that follows a cluster holding a line feed.
    pub fn find_item_break(&self, pos: usize) -> (r: Option<usize>)
        requires
            pos <= self.views().len(),
        ensures
            match r {
                Some(k) => item_break(self.views(), pos as int) == Some(k as int),
                None => item_break(self.views(), pos as int) is None,
            },
    {
        let mut p = pos;
        while p < self.gs.len()
            invariant
                pos <= p <= self.views().len(),
                self.views() == self.gs@.map_values(|g: &str| g@),
                item_break(self.views(), p as int) == item_break(self.views(), pos as int),
            decreases self.views().len() - p,
        {
            if p >= 1 && cluster_has_newline(self.gs[p - 1]) && cluster_is(self.gs[p], '-') {
                return Some(p);
            }
            p = p + 1;
        }
        None
    }
}

/// The items of a list block, read one after the other.
#[derive(Debug, PartialEq, Eq)]
pub struct ListItems {
    text: String,
    pos: usize,
}

impl ListItems {
    /// The text of the list.
    pub closed spec fn text_view(&self) -> Seq<char> {
        self.text@
    }

    /// The items that are still to be read.
    pub closed spec fn remaining(&self) -> Seq<Seq<char>> {
        list_items(grapheme_clusters(self.text@), self.pos as int)
    }

    /// The reading position is the start, the end, or right after a mark `-`.
    pub closed spec fn wf(&self) -> bool {
        let gs = grapheme_clusters(self.text@);
        &&& self.pos <= gs.len()
        &&& (self.pos == 0 || self.pos == gs.len() || gs[self.pos - 1] == seq!['-'])
    }

    /// The items of a list text, from the first.
    pub fn new(text: &str) -> (l: Self)
        ensures
            l.wf(),
            l.text_view() == text@,
            l.remaining() == list_items(grapheme_clusters(text@), 0),
    {
        ListItems { text: crate::text::to_string(text), pos: 0 }
    }

    /// The next item, if any is left.
    pub fn next(&mut self) -> (r: Option<String>)
        requires
            old(self).wf(),
        ensures
            final(self).wf(),
            final(self).text_view() == old(self).text_view(),
            match r {
                None => old(self).remaining().len() == 0 && final(self).remaining() == old(
                    self,
                ).remaining(),
                Some(item) => old(self).remaining().len() > 0 && item@ == old(self).remaining()[0]
                    && final(self).remaining() == old(self).remaining().drop_first(),
            },
    {
        let c = Clusters::new(self.text.as_str());
        let ghost gs = c.views();
        let n = c.len();
        if self.pos >= n {
            return None;
        }
        let pos = self.pos;
        proof {
            lemma_item_break_range(gs, pos as int);
        }
        match c.find_item_break(pos) {
            Some(k) => {
                proof {
                    if pos >= 1 {
                        assert(gs[pos - 1][0] == '-');
                    }
                    assert((seq![trimmed(text_of(gs, pos as int, k - 1))] + list_items(
                        gs,
                        k + 1,
                    )).drop_first() =~= list_items(gs, k + 1));
                }
                let item = c.trimmed_text(pos, k - 1);
                self.pos = k + 1;
                Some(item)
            },
            None => {
                let item = c.trimmed_text(pos, n);
                self.pos = n;
                proof {
                    assert(seq![trimmed(text_of(gs, pos as int, n as int))].drop_first()
                        =~= Seq::<Seq<char>>::empty());
                }
                Some(item)
            },
        }
    }
}

/// A non-empty cluster takes at least one byte.
pub proof fn lemma_cluster_bytes(g: Seq<char>)
    requires
        g.len() > 0,
    ensures
        utf8_len(g) >= 1,
{
    assert(vstd::utf8::encode_utf8(g) == vstd::utf8::encode_scalar(g[0] as u32)
        + vstd::utf8::encode_utf8(g.drop_first()));
}

/// Offsets grow by at least one byte per non-empty cluster.
pub proof fn lemma_offset_grows(gs: Seq<Seq<char>>, p: int, q: int)
    requires
        0 <= p <= q <= gs.len(),
        forall|i: int| p <= i < q ==> #[trigger] gs[i].len() > 0,
    ensures
        offset(gs, q) >= offset(gs, p) + (q - p),
    decreases q - p,
{
    if p < q {
        lemma_offset_grows(gs, p, q - 1);
        lemma_offset_step(gs, q - 1);
        lemma_cluster_bytes(gs[q - 1]);
    }
}

/// The offset of the start is zero, and that of the second cluster is the first one's length.
pub proof fn lemma_offset_first(gs: Seq<Seq<char>>)
    ensures
        offset(gs, 0) == 0,
        gs.len() >= 1 ==> offset(gs, 1) == utf8_len(gs[0]),
{
    assert(text_of(gs, 0, 0) =~= Seq::<char>::empty());
    assert(vstd::utf8::encode_utf8(Seq::<char>::empty()) =~= Seq::<u8>::empty());
    if gs.len() >= 1 {
        lemma_offset_step(gs, 0);
    }
}

/// A block of markup text.
#[derive(Debug, PartialEq, Eq)]
pub enum MarkupBlock {
    Paragraph { text: String, alignment: HorizontalAlignment },
    Heading { text: String, alignment: HorizontalAlignment, newline: bool },
    List { items: ListItems },
    Code { language: String, text: String },
    Image { description: String, path: String },
    Math { text: String },
    Comment { text: String },
    Break,
}

impl MarkupBlock {
    /// The block as plain values.
    pub open spec fn view(&self) -> BlockView {
        match self {
            MarkupBlock::Paragraph { text, alignment } => BlockView::Paragraph {
                text: text@,
                alignment: *alignment,
            },
            MarkupBlock::Heading { text, alignment, newline } => BlockView::Heading {
                text: text@,
                alignment: *alignment,
                newline: *newline,
            },
            MarkupBlock::List { items } => BlockView::List { text: items.text_view() },
            MarkupBlock::Code { language, text } => BlockView::Code {
                language: language@,
                text: text@,
            },
            MarkupBlock::Image { description, path } => BlockView::Image {
                description: description@,
                path: path@,
            },
            MarkupBlock::Math { text } => BlockView::Math { text: text@ },
            MarkupBlock::Comment { text } => BlockView::Comment { text: text@ },
            MarkupBlock::Break => BlockView::Break,
        }
    }

    /// A list block has all its items still to read.
    pub open spec fn fresh(&self) -> bool {
        match self {
            MarkupBlock::List { items } => items.wf() && items.remaining() == list_items(
                grapheme_clusters(items.text_view()),
                0,
            ),
            _ => true,
        }
    }
}

/// A parsed block, its byte range and the cluster at which parsing goes on agree with what
/// the text gives.
pub open spec fn agrees(r: (MarkupBlock, Range<usize>, usize), f: Found) -> bool {
    &&& r.0.view() == f.block
    &&& r.0.fresh()
    &&& r.1.start == f.start
    &&& r.1.end == f.end
    &&& r.2 == f.next
}

impl<'a> Clusters<'a> {
    /// The first cluster at `pos` or after it that holds no whitespace.
    pub fn find_solid(&self, pos: usize) -> (r: Option<usize>)
        requires
            pos <= self.views().len(),
        ensures
            match r {
                Some(k) => first_solid(self.views(), pos as int) == Some(k as int),
                None => first_solid(self.views(), pos as int) is None,
            },
    {
        let mut p = pos;
        while p < self.gs.len()
            invariant
                pos <= p <= self.views().len(),
                self.views() == self.gs@.map_values(|g: &str| g@),
                first_solid(self.views(), p as int) == first_solid(self.views(), pos as int),
            decreases self.views().len() - p,
        {
            if !cluster_has_space(self.gs[p]) {
                return Some(p);
            }
            p = p + 1;
        }
        None
    }
}

/// What a search for a cluster without whitespace finds lies at or after `pos`.
pub proof fn lemma_solid_range(gs: Seq<Seq<char>>, pos: int)
    requires
        0 <= pos,
    ensures
        first_solid(gs, pos) matches Some(k) ==> pos <= k < gs.len(),
    decreases gs.len() - pos,
{
    if pos < gs.len() {
        lemma_solid_range(gs, pos + 1);
    }
}

/// Parses a paragraph that starts at cluster `k`, searching its end from `cur`.
fn parse_paragraph(c: &Clusters, k: usize, alignment: HorizontalAlignment, cur: usize) -> (r: (
    MarkupBlock,
    Range<usize>,
    usize,
))
    requires
        c.wf(),
        k + 1 <= cur <= c.views().len(),
    ensures
        agrees(r, paragraph(c.views(), k as int, alignment, cur as int)),
{
    let n = c.len();
    proof {
        lemma_found_in_range(c.views(), cur as int, ' ');
    }
    let (stop, next): (usize, usize) = match c.find_newline_pair(cur) {
        Some(j) => (j, j + 1),
        None => (n, n),
    };
    let skip: usize = match alignment {
        HorizontalAlignment::Left => 0,
        _ => 1,
    };
    let text = c.trimmed_text(k + skip, stop);
    (MarkupBlock::Paragraph { text, alignment }, c.offset_of(k)..c.offset_of(next), next)
}

/// Parses a heading that starts with the mark at cluster `k`.
fn parse_heading(c: &Clusters, k: usize) -> (r: (MarkupBlock, Range<usize>, usize))
    requires
        c.wf(),
        k < c.views().len(),
    ensures
        agrees(r, heading(c.views(), k as int)),
{
    let n = c.len();
    proof {
        lemma_found_in_range(c.views(), k + 1, '=');
    }
    let count = c.count_run(k + 1, '=');
    let a = k + 1 + count;
    if a >= n {
        return parse_paragraph(c, k, HorizontalAlignment::Left, n);
    }
    let (alignment, skip): (HorizontalAlignment, usize) = if c.mark_at(a, ':') {
        (HorizontalAlignment::Center, 1)
    } else if c.mark_at(a, ';') {
        (HorizontalAlignment::Right, 1)
    } else {
        (HorizontalAlignment::Left, 0)
    };
    proof {
        lemma_found_in_range(c.views(), a + 1, ' ');
    }
    let (stop, next, newline): (usize, usize, bool) = match c.find_newline(a + 1) {
        Some(j) => (j, j + 1, j + 1 < n && c.newline_at(j + 1)),
        None => (n, n, false),
    };
    let text = c.trimmed_text(a + skip, stop);
    (MarkupBlock::Heading { text, alignment, newline }, c.offset_of(k)..c.offset_of(next), next)
}

/// Parses a list that starts with the mark at cluster `k`.
fn parse_list(c: &Clusters, k: usize) -> (r: (MarkupBlock, Range<usize>, usize))
    requires
        c.wf(),
        k < c.views().len(),
    ensures
        agrees(r, list(c.views(), k as int)),
{
    let n = c.len();
    proof {
        lemma_found_in_range(c.views(), k + 1, ' ');
    }
    let (stop, next): (usize, usize) = match c.find_newline_pair(k + 1) {
        Some(j) => (j, j + 1),
        None => (n, n),
    };
    let text = c.trimmed_text(k + 1, stop);
    let items = ListItems::new(text.as_str());
    (MarkupBlock::List { items }, c.offset_of(k)..c.offset_of(next), next)
}

/// Parses a comment that starts with the mark at cluster `k`.
fn parse_comment(c: &Clusters, k: usize) -> (r: (MarkupBlock, Range<usize>, usize))
    requires
        c.wf(),
        k < c.views().len(),
    ensures
        agrees(r, comment(c.views(), k as int)),
{
    let n = c.len();
    proof {
        lemma_found_in_range(c.views(), k + 1, ' ');
    }
    let (stop, next): (usize, usize) = match c.find_newline(k + 1) {
        Some(j) => (j, j + 1),
        None => (n, n),
    };
    let text = c.trimmed_text(k + 1, stop);
    (MarkupBlock::Comment { text }, c.offset_of(k)..c.offset_of(next), next)
}

/// Ends an image or a formula that started at cluster `k` and whose marks end before `e`.
fn parse_closing(c: &Clusters, k: usize, block: MarkupBlock, e: usize) -> (r: (
    MarkupBlock,
    Range<usize>,
    usize,
))
    requires
        c.wf(),
        k < e <= c.views().len(),
        block.fresh(),
    ensures
        agrees(r, closing(c.views(), k as int, block.view(), e as int)),
{
    let n = c.len();
    if e >= n {
        (block, c.offset_of(k)..c.offset_of(n), n)
    } else if !c.newline_at(e) {
        parse_paragraph(c, k, HorizontalAlignment::Left, e + 1)
    } else if e + 1 >= n {
        (block, c.offset_of(k)..c.offset_of(e), n)
    } else if !c.newline_at(e + 1) {
        parse_paragraph(c, k, HorizontalAlignment::Left, e + 2)
    } else {
        (block, c.offset_of(k)..c.offset_of(e), e + 2)
    }
}

/// Parses an image that starts with the mark at cluster `k`.
fn parse_image(c: &Clusters, k: usize) -> (r: (MarkupBlock, Range<usize>, usize))
    requires
        c.wf(),
        k < c.views().len(),
    ensures
        agrees(r, image(c.views(), k as int)),
{
    let n = c.len();
    let b = k + 1;
    if b >= n {
        return parse_paragraph(c, k, HorizontalAlignment::Left, n);
    }
    if !c.mark_at(b, '[') {
        return parse_paragraph(c, k, HorizontalAlignment::Left, b + 1);
    }
    proof {
        lemma_found_in_range(c.views(), b + 1, ']');
    }
    match c.find_mark(b + 1, ']') {
        None => parse_paragraph(c, k, HorizontalAlignment::Left, n),
        Some(d) => {
            let q = d + 1;
            if q >= n {
                parse_paragraph(c, k, HorizontalAlignment::Left, n)
            } else if !c.mark_at(q, '(') {
                parse_paragraph(c, k, HorizontalAlignment::Left, q + 1)
            } else {
                proof {
                    lemma_found_in_range(c.views(), q + 1, ')');
                }
                match c.find_mark(q + 1, ')') {
                    None => parse_paragraph(c, k, HorizontalAlignment::Left, n),
                    Some(p) => {
                        let description = c.trimmed_text(b + 1, d);
                        let path = c.trimmed_text(q + 1, p);
                        parse_closing(c, k, MarkupBlock::Image { description, path }, p + 1)
                    },
                }
            }
        },
    }
}

/// Parses a formula whose opening marks are clusters `k` and `k + 1`.
fn parse_math(c: &Clusters, k: usize) -> (r: (MarkupBlock, Range<usize>, usize))
    requires
        c.wf(),
        k + 1 < c.views().len(),
    ensures
        agrees(r, math(c.views(), k as int)),
{
    let n = c.len();
    proof {
        lemma_found_in_range(c.views(), k + 2, '$');
    }
    match c.find_mark_pair(k + 2, '$') {
        None => parse_paragraph(c, k, HorizontalAlignment::Left, n),
        Some(j) => {
            let text = c.trimmed_text(k + 2, j - 1);
            if text.as_str().unicode_len() == 0 {
                parse_paragraph(c, k, HorizontalAlignment::Left, j + 1)
            } else {
                parse_closing(c, k, MarkupBlock::Math { text }, j + 1)
            }
        },
    }
}

/// Parses the code of a block opened at cluster `k` by `ticks` backticks, whose code starts
/// at cluster `body`.
fn parse_code_body(c: &Clusters, k: usize, ticks: usize, language: String, body: usize) -> (r: (
    MarkupBlock,
    Range<usize>,
    usize,
))
    requires
        c.wf(),
        k < body <= c.views().len(),
    ensures
        agrees(r, code_body(c.views(), k as int, ticks as int, language@, body as int, body as int)),
{
    let n = c.len();
    let ghost gs = c.views();
    let mut cur = body;
    loop
        invariant
            c.wf(),
            gs == c.views(),
            n == gs.len(),
            k < body <= cur <= n,
            code_body(gs, k as int, ticks as int, language@, body as int, cur as int) == code_body(
                gs,
                k as int,
                ticks as int,
                language@,
                body as int,
                body as int,
            ),
        decreases n - cur,
    {
        proof {
            lemma_found_in_range(gs, cur as int, '`');
        }
        match c.find_newline(cur) {
            None => {
                let text = c.text(body, n);
                return (MarkupBlock::Code { language, text }, c.offset_of(k)..c.offset_of(n), n);
            },
            Some(ce) => {
                proof {
                    lemma_found_in_range(gs, ce + 1, '`');
                }
                let t = c.count_run(ce + 1, '`');
                let after = ce + 1 + t;
                if t == ticks {
                    let rest = c.text(after, n);
                    let fresh = Clusters::new(rest.as_str());
                    let m = fresh.len();
                    if m == 0 {
                        let text = c.text(body, ce);
                        return (
                            MarkupBlock::Code { language, text },
                            c.offset_of(k)..c.offset_of(after),
                            after,
                        );
                    }
                    if fresh.newline_at(0) {
                        if m == 1 {
                            proof {
                                lemma_offset_first(fresh.views());
                            }
                            let text = c.text(body, ce);
                            return (
                                MarkupBlock::Code { language, text },
                                c.offset_of(k)..fresh.offset_of(1),
                                after,
                            );
                        }
                        if fresh.newline_at(1) {
                            proof {
                                lemma_offset_first(fresh.views());
                                lemma_offset_step(fresh.views(), 1);
                            }
                            let text = c.text(body, ce);
                            let next = if n - after >= 2 {
                                after + 2
                            } else {
                                n
                            };
                            return (
                                MarkupBlock::Code { language, text },
                                c.offset_of(k)..fresh.offset_of(2),
                                next,
                            );
                        }
                    }
                }
                cur = after;
            },
        }
    }
}

/// Parses a code block opened at cluster `k` by `ticks` backticks.
fn parse_code(c: &Clusters, k: usize, ticks: usize) -> (r: (MarkupBlock, Range<usize>, usize))
    requires
        c.wf(),
        1 <= ticks,
        k + ticks <= c.views().len(),
    ensures
        agrees(r, code(c.views(), k as int, ticks as int)),
{
    let n = c.len();
    let a = k + ticks;
    proof {
        lemma_found_in_range(c.views(), a as int, ' ');
    }
    match c.find_newline(a) {
        None => {
            let language = c.trimmed_text(a, n);
            (
                MarkupBlock::Code { language, text: String::new() },
                c.offset_of(k)..c.offset_of(n),
                n,
            )
        },
        Some(i) => {
            let language = c.trimmed_text(a, i);
            parse_code_body(c, k, ticks, language, i + 1)
        },
    }
}

/// The clusters of a run of marks are the mark.
pub proof fn lemma_run_marks(gs: Seq<Seq<char>>, pos: int, c: char)
    requires
        0 <= pos,
    ensures
        forall|i: int| pos <= i < pos + run_of(gs, pos, c) ==> #[trigger] gs[i] == seq![c],
    decreases gs.len() - pos,
{
    if 0 <= pos < gs.len() && gs[pos] == seq![c] {
        lemma_run_marks(gs, pos + 1, c);
    }
}

impl<'a> Clusters<'a> {
    /// Every offset fits in a `usize`.
    pub proof fn lemma_offset_fits(&self, p: int)
        requires
            self.wf(),
            0 <= p <= self.views().len(),
        ensures
            offset(self.views(), p) <= usize::MAX,
    {
        assert(self.offsets@[p] == offset(self.views(), p));
    }

    /// There are no more clusters than bytes, so their count fits in a `usize`.
    pub proof fn lemma_len_fits(&self)
        requires
            self.wf(),
        ensures
            self.views().len() <= usize::MAX,
    {
        let n = self.gs@.len() as int;
        assert(self.offsets@[n] == offset(self.views(), n));
        assert forall|i: int| 0 <= i < n implies #[trigger] self.views()[i].len() > 0 by {
            assert(self.gs@[i]@.len() > 0);
        }
        lemma_offset_grows(self.views(), 0, n);
        lemma_offset_first(self.views());
    }
}

/// Parses a block that starts with backticks at cluster `k`.
fn parse_ticks(c: &Clusters, k: usize) -> (r: (MarkupBlock, Range<usize>, usize))
    requires
        c.wf(),
        k < c.views().len(),
    ensures
        agrees(r, ticks_block(c.views(), k as int)),
{
    proof {
        c.lemma_len_fits();
        lemma_found_in_range(c.views(), k + 1, '`');
    }
    let ticks = 1 + c.count_run(k + 1, '`');
    if ticks >= 3 {
        parse_code(c, k, ticks)
    } else {
        parse_paragraph(c, k, HorizontalAlignment::Left, k + ticks)
    }
}

/// Parses a block that starts with dashes at cluster `k`.
fn parse_dashes(c: &Clusters, k: usize) -> (r: (MarkupBlock, Range<usize>, usize))
    requires
        c.wf(),
        k < c.views().len(),
        c.views()[k as int] == seq!['-'],
    ensures
        agrees(r, dashes_block(c.views(), k as int)),
{
    let n = c.len();
    let ghost gs = c.views();
    proof {
        lemma_found_in_range(gs, k + 1, '-');
        lemma_run_marks(gs, k + 1, '-');
    }
    let dashes = 1 + c.count_run(k + 1, '-');
    let after = k + dashes;
    if dashes == 1 {
        parse_list(c, k)
    } else if dashes == 3 {
        let m: usize = if after < n && c.newline_at(after) {
            if after + 1 < n && c.newline_at(after + 1) {
                2
            } else {
                1
            }
        } else {
            0
        };
        if m == 2 {
            let start = c.offset_of(k);
            proof {
                assert forall|i: int| k <= i < k + 5 implies #[trigger] gs[i].len() > 0 by {
                    if k + 1 <= i < k + 3 {
                        assert(gs[i] == seq!['-']);
                    }
                }
                lemma_offset_grows(gs, k as int, k + 5);
                c.lemma_offset_fits(k + 5);
            }
            (MarkupBlock::Break, start..start + 5, after + 2)
        } else {
            parse_paragraph(c, k, HorizontalAlignment::Left, after + m)
        }
    } else {
        parse_paragraph(c, k, HorizontalAlignment::Left, after)
    }
}

/// Parses a block that starts with `$` at cluster `k`.
fn parse_dollar(c: &Clusters, k: usize) -> (r: (MarkupBlock, Range<usize>, usize))
    requires
        c.wf(),
        k < c.views().len(),
    ensures
        agrees(r, dollar_block(c.views(), k as int)),
{
    let n = c.len();
    if k + 1 < n && c.mark_at(k + 1, '$') {
        parse_math(c, k)
    } else if k + 1 < n {
        parse_paragraph(c, k, HorizontalAlignment::Left, k + 2)
    } else {
        parse_paragraph(c, k, HorizontalAlignment::Left, n)
    }
}

/// Parses the block that starts with cluster `k` at the start of a line.
fn parse_line_block(c: &Clusters, k: usize) -> (r: (MarkupBlock, Range<usize>, usize))
    requires
        c.wf(),
        k < c.views().len(),
    ensures
        agrees(r, line_block(c.views(), k as int)),
{
    proof {
        c.lemma_len_fits();
    }
    if c.mark_at(k, ':') {
        parse_paragraph(c, k, HorizontalAlignment::Center, k + 1)
    } else if c.mark_at(k, ';') {
        parse_paragraph(c, k, HorizontalAlignment::Right, k + 1)
    } else if c.mark_at(k, '=') {
        parse_heading(c, k)
    } else if c.mark_at(k, '#') {
        parse_comment(c, k)
    } else if c.mark_at(k, '!') {
        parse_image(c, k)
    } else if c.mark_at(k, '`') {
        parse_ticks(c, k)
    } else if c.mark_at(k, '-') {
        parse_dashes(c, k)
    } else if c.mark_at(k, '$') {
        parse_dollar(c, k)
    } else {
        parse_paragraph(c, k, HorizontalAlignment::Left, k + 1)
    }
}

/// Reads a markup text block by block.
pub struct MarkupBlockParser<'a> {
    clusters: Clusters<'a>,
    cur: usize,
}

impl<'a> MarkupBlockParser<'a> {
    /// The grapheme clusters of the text being parsed.
    pub closed spec fn clusters_view(&self) -> Seq<Seq<char>> {
        self.clusters.views()
    }

    /// The cluster at which parsing goes on.
    pub closed spec fn position(&self) -> int {
        self.cur as int
    }

    /// The offsets are those of the clusters, and the position lies among them.
    pub closed spec fn wf(&self) -> bool {
        &&& self.clusters.wf()
        &&& self.cur <= self.clusters.views().len()
    }

    /// A well-formed parser stands among the clusters.
    pub proof fn lemma_position(&self)
        requires
            self.wf(),
        ensures
            0 <= self.position() <= self.clusters_view().len(),
            self.position() <= usize::MAX,
    {
    }

    /// A parser at the start of a text.
    pub fn new(input: &'a str) -> (p: Self)
        ensures
            p.wf(),
            p.clusters_view() == grapheme_clusters(input@),
            p.position() == 0,
    {
        MarkupBlockParser { clusters: Clusters::new(input), cur: 0 }
    }

    /// A parser at the start of a text given as its grapheme clusters; `None` when a
    /// cluster is empty or the text does not fit in a `usize` of bytes.
    pub fn from_clusters(pieces: Vec<&'a str>) -> (r: Option<Self>)
        ensures
            match r {
                Some(p) => p.wf() && p.clusters_view() == pieces@.map_values(|g: &str| g@)
                    && p.position() == 0,
                None => (exists|i: int| 0 <= i < pieces@.len() && #[trigger] pieces@[i]@.len() == 0)
                    || total(pieces@.map_values(|g: &str| g@)) > usize::MAX,
            },
    {
        match Clusters::from_pieces(pieces) {
            Some(clusters) => Some(MarkupBlockParser { clusters, cur: 0 }),
            None => None,
        }
    }

    /// The next block with the bytes it spans, or `None` when only whitespace is left.
    pub fn next(&mut self) -> (r: Option<(MarkupBlock, Range<usize>)>)
        requires
            old(self).wf(),
        ensures
            final(self).wf(),
            final(self).clusters_view() == old(self).clusters_view(),
            match next_block(old(self).clusters_view(), old(self).position()) {
                None => r is None && final(self).position() == old(self).clusters_view().len(),
                Some(f) => match r {
                    Some((b, range)) => agrees((b, range, final(self).position() as usize), f)
                        && final(self).position() == f.next,
                    None => false,
                },
            },
    {
        let n = self.clusters.len();
        proof {
            lemma_solid_range(self.clusters.views(), self.cur as int);
        }
        match self.clusters.find_solid(self.cur) {
            None => {
                self.cur = n;
                None
            },
            Some(k) => {
                let line_start = k == 0 || self.clusters.line_break_at(k - 1);
                let (block, range, next) = if line_start {
                    parse_line_block(&self.clusters, k)
                } else {
                    parse_paragraph(&self.clusters, k, HorizontalAlignment::Left, k + 1)
                };
                proof {
                    law_next_block_advances(self.clusters.views(), self.cur as int);
                }
                self.cur = next;
                Some((block, range))
            },
        }
    }
}

/// A paragraph goes on from its search position, and not past the end.
proof fn lemma_paragraph_next(gs: Seq<Seq<char>>, k: int, alignment: HorizontalAlignment, cur: int)
    requires
        0 <= cur <= gs.len(),
    ensures
        cur <= paragraph(gs, k, alignment, cur).next <= gs.len(),
{
    lemma_found_in_range(gs, cur, ' ');
}

/// The rest of a code block goes on from its search position, and not past the end.
proof fn lemma_code_body_next(
    gs: Seq<Seq<char>>,
    k: int,
    ticks: int,
    language: Seq<char>,
    body: int,
    cur: int,
)
    requires
        0 <= cur <= gs.len(),
    ensures
        cur <= code_body(gs, k, ticks, language, body, cur).next <= gs.len(),
    decreases gs.len() - cur,
{
    lemma_found_in_range(gs, cur, '`');
    if let Some(ce) = first_newline(gs, cur) {
        lemma_found_in_range(gs, ce + 1, '`');
        let after = ce + 1 + run_of(gs, ce + 1, '`');
        lemma_code_body_next(gs, k, ticks, language, body, after);
    }
}

/// An image that starts at cluster `k` ends after it, and not past the end.
proof fn lemma_image_next(gs: Seq<Seq<char>>, k: int)
    requires
        0 <= k < gs.len(),
    ensures
        k < image(gs, k).next <= gs.len(),
{
    let n = gs.len() as int;
    lemma_paragraph_next(gs, k, HorizontalAlignment::Left, n);
    if k + 1 < n {
        lemma_paragraph_next(gs, k, HorizontalAlignment::Left, k + 2);
        lemma_found_in_range(gs, k + 2, ']');
        if let Some(d) = first_mark(gs, k + 2, ']') {
            lemma_found_in_range(gs, d + 2, ')');
            if d + 1 < n {
                lemma_paragraph_next(gs, k, HorizontalAlignment::Left, d + 2);
            }
            if let Some(p) = first_mark(gs, d + 2, ')') {
                if p + 1 < n {
                    lemma_paragraph_next(gs, k, HorizontalAlignment::Left, p + 2);
                }
                if p + 2 < n {
                    lemma_paragraph_next(gs, k, HorizontalAlignment::Left, p + 3);
                }
            }
        }
    }
}

/// A block that starts with backticks at cluster `k` ends after it, and not past the end.
proof fn lemma_ticks_next(gs: Seq<Seq<char>>, k: int)
    requires
        0 <= k < gs.len(),
    ensures
        k < ticks_block(gs, k).next <= gs.len(),
{
    lemma_found_in_range(gs, k + 1, '`');
    let ticks = 1 + run_of(gs, k + 1, '`');
    lemma_paragraph_next(gs, k, HorizontalAlignment::Left, k + ticks);
    lemma_found_in_range(gs, k + ticks, ' ');
    if let Some(i) = first_newline(gs, k + ticks) {
        lemma_code_body_next(gs, k, ticks, trimmed(text_of(gs, k + ticks, i)), i + 1, i + 1);
    }
}

/// A block that starts with dashes at cluster `k` ends after it, and not past the end.
proof fn lemma_dashes_next(gs: Seq<Seq<char>>, k: int)
    requires
        0 <= k < gs.len(),
    ensures
        k < dashes_block(gs, k).next <= gs.len(),
{
    let n = gs.len() as int;
    lemma_found_in_range(gs, k + 1, '-');
    let c = k + 1 + run_of(gs, k + 1, '-');
    lemma_found_in_range(gs, k + 1, ' ');
    lemma_paragraph_next(gs, k, HorizontalAlignment::Left, c);
    if c <= n - 1 {
        lemma_paragraph_next(gs, k, HorizontalAlignment::Left, c + 1);
    }
}

/// A block that starts with `$` at cluster `k` ends after it, and not past the end.
proof fn lemma_dollar_next(gs: Seq<Seq<char>>, k: int)
    requires
        0 <= k < gs.len(),
    ensures
        k < dollar_block(gs, k).next <= gs.len(),
{
    let n = gs.len() as int;
    lemma_paragraph_next(gs, k, HorizontalAlignment::Left, n);
    if k + 1 < n {
        lemma_paragraph_next(gs, k, HorizontalAlignment::Left, k + 2);
        lemma_found_in_range(gs, k + 2, '$');
        if let Some(j) = first_mark_pair(gs, k + 2, '$') {
            lemma_paragraph_next(gs, k, HorizontalAlignment::Left, j + 1);
            if j + 1 < n {
                lemma_paragraph_next(gs, k, HorizontalAlignment::Left, j + 2);
            }
            if j + 2 < n {
                lemma_paragraph_next(gs, k, HorizontalAlignment::Left, j + 3);
            }
        }
    }
}

/// A block that starts a line at cluster `k` ends after it, and not past the end.
proof fn lemma_line_block_next(gs: Seq<Seq<char>>, k: int)
    requires
        0 <= k < gs.len(),
    ensures
        k < line_block(gs, k).next <= gs.len(),
{
    let n = gs.len() as int;
    lemma_found_in_range(gs, k + 1, '=');
    lemma_found_in_range(gs, k + 1, ' ');
    lemma_paragraph_next(gs, k, HorizontalAlignment::Center, k + 1);
    lemma_paragraph_next(gs, k, HorizontalAlignment::Right, k + 1);
    lemma_paragraph_next(gs, k, HorizontalAlignment::Left, k + 1);
    lemma_paragraph_next(gs, k, HorizontalAlignment::Left, n);
    let a = k + 1 + run_of(gs, k + 1, '=');
    lemma_found_in_range(gs, a + 1, ' ');
    lemma_image_next(gs, k);
    lemma_ticks_next(gs, k);
    lemma_dashes_next(gs, k);
    lemma_dollar_next(gs, k);
}

/// Each block that the parser finds moves it forward and not past the end of the text, so
/// reading a text block by block comes to an end.
pub proof fn law_next_block_advances(gs: Seq<Seq<char>>, cur: int)
    requires
        0 <= cur <= gs.len(),
    ensures
        next_block(gs, cur) matches Some(f) ==> cur < f.next <= gs.len(),
{
    lemma_solid_range(gs, cur);
    if let Some(k) = first_solid(gs, cur) {
        lemma_line_block_next(gs, k);
        lemma_paragraph_next(gs, k, HorizontalAlignment::Left, k + 1);
    }
}

} // verus!
