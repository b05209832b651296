use vstd::prelude::*;
use vstd::string::StrSliceExecFns;
use vstd::utf8::encode_utf8;

verus! {

/// The UTF-8 bytes of a text given as characters.
pub open spec fn utf8_len(s: Seq<char>) -> int {
    encode_utf8(s).len() as int
}

/// The encoding of two texts one after the other is the two encodings one after the other.
pub proof fn lemma_encode_concat(a: Seq<char>, b: Seq<char>)
    ensures
        encode_utf8(a + b) == encode_utf8(a) + encode_utf8(b),
    decreases a.len(),
{
    if a.len() == 0 {
        assert(a + b =~= b);
        assert(encode_utf8(a) =~= Seq::<u8>::empty());
        assert(encode_utf8(a) + encode_utf8(b) =~= encode_utf8(b));
    } else {
        lemma_encode_concat(a.drop_first(), b);
        assert((a + b).drop_first() =~= a.drop_first() + b);
        assert((a + b)[0] == a[0]);
        assert(encode_utf8(a + b) =~= encode_utf8(a) + encode_utf8(b));
    }
}

/// The end of a text's encoding, within the encoding of that text followed by another,
/// falls on a character boundary, and so does the end of the whole.
pub proof fn lemma_prefix_boundary(a: Seq<char>, b: Seq<char>)
    ensures
        vstd::utf8::is_char_boundary(encode_utf8(a + b), utf8_len(a)),
        vstd::utf8::is_char_boundary(encode_utf8(a + b), utf8_len(a + b)),
    decreases a.len(),
{
    vstd::utf8::encode_utf8_valid_utf8(a + b);
    vstd::utf8::is_char_boundary_start_end_of_seq(encode_utf8(a + b));
    if a.len() > 0 {
        let bytes = encode_utf8(a + b);
        lemma_encode_concat(a, b);
        lemma_encode_concat(a.drop_first(), b);
        assert((a + b).drop_first() =~= a.drop_first() + b);
        assert((a + b)[0] == a[0]);
        vstd::utf8::encode_utf8_first_scalar(a + b);
        assert(vstd::utf8::pop_first_scalar(bytes) =~= encode_utf8(a.drop_first() + b));
        assert(encode_utf8(a) == vstd::utf8::encode_scalar(a[0] as u32) + encode_utf8(
            a.drop_first(),
        ));
        lemma_prefix_boundary(a.drop_first(), b);
    }
}

/// A character boundary at or after the start of a suffix, which itself starts at a
/// boundary, is a boundary of the suffix.
pub proof fn lemma_boundary_in_tail(bytes: Seq<u8>, a: int, b: int)
    requires
        vstd::utf8::valid_utf8(bytes),
        0 <= a <= b <= bytes.len(),
        vstd::utf8::is_char_boundary(bytes, a),
        vstd::utf8::is_char_boundary(bytes, b),
    ensures
        vstd::utf8::is_char_boundary(bytes.subrange(a, bytes.len() as int), b - a),
{
    let tail = bytes.subrange(a, bytes.len() as int);
    vstd::utf8::valid_utf8_split(bytes, a);
    if b == bytes.len() {
        vstd::utf8::is_char_boundary_start_end_of_seq(tail);
    } else {
        vstd::utf8::is_char_boundary_iff_not_is_continuation_byte(bytes, b);
        vstd::utf8::is_char_boundary_iff_not_is_continuation_byte(tail, b - a);
        assert(tail[b - a] == bytes[b]);
    }
}

/// The characters of a string slice, in order.
pub fn chars_of(s: &str) -> (v: Vec<char>)
    ensures
        v@ == s@,
{
    let mut v: Vec<char> = Vec::new();
    let n = s.unicode_len();
    let mut i: usize = 0;
    while i < n
        invariant
            n == s@.len(),
            i <= n,
            v@ == s@.subrange(0, i as int),
        decreases n - i,
    {
        let c = s.get_char(i);
        v.push(c);
        proof {
            assert(v@ =~= s@.subrange(0, i + 1));
        }
        i = i + 1;
    }
    proof {
        assert(v@ =~= s@);
    }
    v
}

/// Appends one character.
///
/// Calls `String::push`, which the standard library documents as appending the character
/// to the end of the string.
#[verifier::external_body]
pub fn push_char(s: &mut String, c: char)
    ensures
        final(s)@ == old(s)@.push(c),
{
    s.push(c)
}

/// Appends a string slice.
pub fn push_str(s: &mut String, t: &str)
    ensures
        final(s)@ == old(s)@ + t@,
{
    s.append(t)
}

/// Empties the string.
///
/// Calls `String::clear`, which the standard library documents as removing all contents,
/// leaving the string empty.
#[verifier::external_body]
pub fn string_clear(s: &mut String)
    ensures
        final(s)@ == Seq::<char>::empty(),
{
    s.clear()
}

/// Inserts a string slice before the character at position `i` (counted in characters).
pub fn insert_str(s: &mut String, i: usize, t: &str)
    requires
        i <= old(s)@.len(),
    ensures
        final(s)@ == old(s)@.subrange(0, i as int) + t@ + old(s)@.subrange(
            i as int,
            old(s)@.len() as int,
        ),
{
    let mut r = String::new();
    {
        let whole: &str = s.as_str();
        let n = whole.unicode_len();
        r.append(whole.substring_char(0, i));
        r.append(t);
        r.append(whole.substring_char(i, n));
    }
    *s = r;
}

/// Number of bytes of the UTF-8 encoding.
pub fn byte_len(s: &str) -> (n: usize)
    ensures
        n == utf8_len(s@),
{
    let b = s.as_bytes();
    b.len()
}

/// A string holding a copy of the slice.
pub fn to_string(s: &str) -> (r: String)
    ensures
        r@ == s@,
{
    s.to_owned()
}

/// A string holding the given characters.
pub fn string_from_chars(v: &Vec<char>) -> (r: String)
    ensures
        r@ == v@,
{
    let mut r = String::new();
    let mut i: usize = 0;
    while i < v.len()
        invariant
            i <= v@.len(),
            r@ == v@.subrange(0, i as int),
        decreases v@.len() - i,
    {
        push_char(&mut r, v[i]);
        proof {
            assert(r@ =~= v@.subrange(0, i + 1));
        }
        i = i + 1;
    }
    proof {
        assert(r@ =~= v@);
    }
    r
}

/// The pieces of `s` between the separators `sep`, in order (one piece when there is none).
pub open spec fn split_on(s: Seq<char>, sep: char) -> Seq<Seq<char>>
    decreases s.len(),
{
    if s.len() == 0 {
        seq![Seq::empty()]
    } else if s.last() == sep {
        split_on(s.drop_last(), sep).push(Seq::empty())
    } else {
        let p = split_on(s.drop_last(), sep);
        p.update(p.len() - 1, p.last().push(s.last()))
    }
}

/// There is always at least one piece.
pub proof fn lemma_split_on_nonempty(s: Seq<char>, sep: char)
    ensures
        split_on(s, sep).len() >= 1,
    decreases s.len(),
{
    if s.len() > 0 {
        lemma_split_on_nonempty(s.drop_last(), sep);
    }
}

/// The positions `(start, end)` of the pieces of `chars[from..to]` between the separators.
pub fn split_spans(chars: &Vec<char>, from: usize, to: usize, sep: char) -> (r: Vec<(usize, usize)>)
    requires
        from <= to <= chars@.len(),
    ensures
        r@.len() == split_on(chars@.subrange(from as int, to as int), sep).len(),
        forall|k: int|
            0 <= k < r@.len() ==> #[trigger] r@[k].0 <= r@[k].1 <= to && from <= r@[k].0
                && chars@.subrange(r@[k].0 as int, r@[k].1 as int) == split_on(
                chars@.subrange(from as int, to as int),
                sep,
            )[k],
{
    let mut r: Vec<(usize, usize)> = Vec::new();
    let mut cur = from;
    let mut j = from;
    proof {
        assert(chars@.subrange(from as int, from as int) =~= Seq::<char>::empty());
    }
    while j < to
        invariant
            from <= cur <= j <= to <= chars@.len(),
            split_on(chars@.subrange(from as int, j as int), sep).len() == r@.len() + 1,
            split_on(chars@.subrange(from as int, j as int), sep)[r@.len() as int]
                == chars@.subrange(cur as int, j as int),
            forall|k: int|
                0 <= k < r@.len() ==> #[trigger] r@[k].0 <= r@[k].1 <= j && from <= r@[k].0
                    && chars@.subrange(r@[k].0 as int, r@[k].1 as int) == split_on(
                    chars@.subrange(from as int, j as int),
                    sep,
                )[k],
        decreases to - j,
    {
        let ghost before = chars@.subrange(from as int, j as int);
        let ghost after = chars@.subrange(from as int, j + 1);
        proof {
            assert(after.drop_last() =~= before);
            assert(after.last() == chars@[j as int]);
        }
        let ghost pieces_before = split_on(before, sep);
        let ghost pieces_after = split_on(after, sep);
        let ghost old_r = r@;
        if chars[j] == sep {
            r.push((cur, j));
            proof {
                assert(pieces_after == pieces_before.push(Seq::empty()));
                assert forall|k: int| 0 <= k < r@.len() implies #[trigger] r@[k].0 <= r@[k].1 <= j
                    + 1 && from <= r@[k].0 && chars@.subrange(r@[k].0 as int, r@[k].1 as int)
                    == pieces_after[k] by {
                    if k < old_r.len() {
                        assert(r@[k] == old_r[k]);
                        assert(pieces_after[k] == pieces_before[k]);
                    } else {
                        assert(r@[k] == (cur, j));
                    }
                }
            }
            cur = j + 1;
            proof {
                assert(chars@.subrange(cur as int, j + 1) =~= Seq::<char>::empty());
            }
        } else {
            proof {
                assert(chars@.subrange(cur as int, j + 1) =~= chars@.subrange(
                    cur as int,
                    j as int,
                ).push(chars@[j as int]));
                assert(pieces_after == pieces_before.update(
                    pieces_before.len() - 1,
                    pieces_before.last().push(chars@[j as int]),
                ));
                assert forall|k: int| 0 <= k < r@.len() implies #[trigger] r@[k].0 <= r@[k].1 <= j
                    + 1 && from <= r@[k].0 && chars@.subrange(r@[k].0 as int, r@[k].1 as int)
                    == pieces_after[k] by {
                    assert(r@[k] == old_r[k]);
                    assert(pieces_after[k] == pieces_before[k]);
                }
            }
        }
        j = j + 1;
    }
    r.push((cur, to));
    r
}

/// The position of the first `c` in `s`, if there is one.
pub open spec fn first_index(s: Seq<char>, c: char) -> Option<int>
    decreases s.len(),
{
    if s.len() == 0 {
        None
    } else if s[0] == c {
        Some(0)
    } else {
        match first_index(s.drop_first(), c) {
            Some(i) => Some(i + 1),
            None => None,
        }
    }
}

/// `first_index` is the first position that holds `c`.
pub proof fn lemma_first_index(s: Seq<char>, c: char, i: int)
    requires
        0 <= i <= s.len(),
        forall|j: int| 0 <= j < i ==> s[j] != c,
        i == s.len() || s[i] == c,
    ensures
        first_index(s, c) == (if i < s.len() {
            Some(i)
        } else {
            None::<int>
        }),
    decreases i,
{
    if s.len() > 0 && i > 0 {
        assert forall|j: int| 0 <= j < i - 1 implies s.drop_first()[j] != c by {
            assert(s.drop_first()[j] == s[j + 1]);
        }
        if i < s.len() {
            assert(s.drop_first()[i - 1] == s[i]);
        }
        lemma_first_index(s.drop_first(), c, i - 1);
    }
}

/// The position of the first `c` in `chars[from..]`, counted from the start of `chars`.
pub fn find_from(chars: &Vec<char>, from: usize, c: char) -> (r: Option<usize>)
    requires
        from <= chars@.len(),
    ensures
        first_index(chars@.subrange(from as int, chars@.len() as int), c) == match r {
            Some(i) => Some(i - from),
            None => None::<int>,
        },
        match r {
            Some(i) => from <= i < chars@.len() && chars@[i as int] == c && forall|j: int|
                from <= j < i ==> chars@[j] != c,
            None => forall|j: int| from <= j < chars@.len() ==> chars@[j] != c,
        },
{
    let ghost s = chars@.subrange(from as int, chars@.len() as int);
    let mut i = from;
    while i < chars.len()
        invariant
            from <= i <= chars@.len(),
            s == chars@.subrange(from as int, chars@.len() as int),
            forall|j: int| from <= j < i ==> chars@[j] != c,
        decreases chars@.len() - i,
    {
        if chars[i] == c {
            proof {
                assert forall|j: int| 0 <= j < i - from implies s[j] != c by {
                    assert(s[j] == chars@[from + j]);
                }
                lemma_first_index(s, c, i - from);
            }
            return Some(i);
        }
        i = i + 1;
    }
    proof {
        assert forall|j: int| 0 <= j < s.len() implies s[j] != c by {
            assert(s[j] == chars@[from + j]);
        }
        lemma_first_index(s, c, s.len() as int);
    }
    None
}

/// The SeaHash of a byte string.
pub uninterp spec fn sea_hash(bytes: Seq<u8>) -> u64;

/// A hash of the bytes that is the same on every machine and in every run.
///
/// Calls `seahash::hash`, whose result depends on the bytes alone and is named `sea_hash`.
#[verifier::external_body]
pub fn hash_portable(input: &[u8]) -> (h: u64)
    ensures
        h == sea_hash(input@),
{
    seahash::hash(input)
}

/// A fast hash of a text, for noticing that a text changed.
///
/// Feeds the text to an `ahash::AHasher` made by `AHasher::default`. With the standard
/// library, that hasher's keys are drawn when it is first used in a process, so the hash
/// differs from run to run and nothing is stated of it.
#[verifier::external_body]
pub fn hash_fast(input: &str) -> u64 {
    let mut hasher = ahash::AHasher::default();
    std::hash::Hash::hash(input, &mut hasher);
    std::hash::Hasher::finish(&hasher)
}

} // verus!
