//! Text as sequences of characters: cutting a text at separators and putting
//! the pieces together again.

use vstd::prelude::*;

verus! {

/// Whether a character is white space, that is, has the Unicode property
/// `White_Space`.
pub open spec fn is_whitespace(c: char) -> bool {
    ||| '\u{9}' <= c <= '\u{D}'
    ||| c == ' '
    ||| c == '\u{85}'
    ||| c == '\u{A0}'
    ||| c == '\u{1680}'
    ||| '\u{2000}' <= c <= '\u{200A}'
    ||| c == '\u{2028}'
    ||| c == '\u{2029}'
    ||| c == '\u{202F}'
    ||| c == '\u{205F}'
    ||| c == '\u{3000}'
}

/// The separator that is any white space.
pub open spec fn whitespace() -> spec_fn(char) -> bool {
    |c: char| is_whitespace(c)
}

/// The separator that is the one character `sep`.
pub open spec fn only(sep: char) -> spec_fn(char) -> bool {
    |c: char| c == sep
}

/// Whether no character of `s` is a separator.
pub open spec fn free_of(s: Seq<char>, sep: spec_fn(char) -> bool) -> bool {
    forall|i: int| 0 <= i < s.len() ==> !sep(#[trigger] s[i])
}

/// Whether every character of `s` passes the test.
pub open spec fn every(s: Seq<char>, test: spec_fn(char) -> bool) -> bool {
    forall|i: int| 0 <= i < s.len() ==> test(#[trigger] s[i])
}

/// The pieces into which the separators cut `s`, in order. Each separator
/// character ends one piece and starts the next, so there is always at least
/// one piece, and a piece is empty where two separators are adjacent or
/// where `s` starts or ends with one.
pub open spec fn pieces(s: Seq<char>, sep: spec_fn(char) -> bool) -> Seq<Seq<char>>
    decreases s.len(),
{
    if s.len() == 0 {
        seq![Seq::empty()]
    } else {
        let before = pieces(s.drop_last(), sep);
        if sep(s.last()) {
            before.push(Seq::empty())
        } else {
            before.drop_last().push(before.last().push(s.last()))
        }
    }
}

/// The test that a piece holds at least one character.
pub open spec fn nonempty() -> spec_fn(Seq<char>) -> bool {
    |t: Seq<char>| t.len() > 0
}

/// The words of `s`: its maximal runs of characters that are not white
/// space, in order.
pub open spec fn tokens(s: Seq<char>) -> Seq<Seq<char>> {
    pieces(s, whitespace()).filter(nonempty())
}

/// The parts written one after another with `sep` between neighbours.
pub open spec fn join(parts: Seq<Seq<char>>, sep: char) -> Seq<char>
    decreases parts.len(),
{
    if parts.len() == 0 {
        Seq::empty()
    } else if parts.len() == 1 {
        parts[0]
    } else {
        join(parts.drop_last(), sep) + seq![sep] + parts.last()
    }
}

/// What a vector of vectors holds, as a sequence of sequences.
pub open spec fn rows<T>(v: Seq<Vec<T>>) -> Seq<Seq<T>> {
    Seq::new(v.len(), |i: int| v[i]@)
}

/// There is always at least one piece.
pub proof fn lemma_pieces_len(s: Seq<char>, sep: spec_fn(char) -> bool)
    ensures
        pieces(s, sep).len() >= 1,
    decreases s.len(),
{
    if s.len() > 0 {
        lemma_pieces_len(s.drop_last(), sep);
    }
}

/// A text without separators is a single piece.
pub proof fn lemma_pieces_whole(s: Seq<char>, sep: spec_fn(char) -> bool)
    requires
        free_of(s, sep),
    ensures
        pieces(s, sep) == seq![s],
    decreases s.len(),
{
    if s.len() > 0 {
        lemma_pieces_whole(s.drop_last(), sep);
        assert(s.drop_last().push(s.last()) == s);
        assert(seq![s.drop_last()].drop_last().push(s) == seq![s]);
    } else {
        assert(s == Seq::<char>::empty());
    }
}

/// A separator between two texts keeps their pieces apart: the pieces of
/// the whole are those of the first text followed by those of the second.
pub proof fn lemma_pieces_concat(a: Seq<char>, c: char, b: Seq<char>, sep: spec_fn(char) -> bool)
    requires
        sep(c),
    ensures
        pieces(a + seq![c] + b, sep) == pieces(a, sep) + pieces(b, sep),
    decreases b.len(),
{
    let whole = a + seq![c] + b;
    if b.len() == 0 {
        assert(whole.drop_last() == a);
        assert(pieces(a, sep).push(Seq::empty()) == pieces(a, sep) + pieces(b, sep));
    } else {
        let rest = b.drop_last();
        lemma_pieces_concat(a, c, rest, sep);
        lemma_pieces_len(rest, sep);
        assert(whole.drop_last() == a + seq![c] + rest);
        assert(whole.last() == b.last());
        let left = pieces(a, sep);
        let right = pieces(rest, sep);
        if sep(b.last()) {
            assert((left + right).push(Seq::empty()) == left + right.push(Seq::empty()));
        } else {
            assert((left + right).drop_last() == left + right.drop_last());
            assert((left + right).last() == right.last());
            assert((left + right.drop_last()).push(right.last().push(b.last())) == left
                + right.drop_last().push(right.last().push(b.last())));
        }
    }
}

/// Cutting a joined text at the joining character gives the parts back,
/// where no part holds a separator.
pub proof fn lemma_pieces_join(parts: Seq<Seq<char>>, c: char, sep: spec_fn(char) -> bool)
    requires
        parts.len() >= 1,
        sep(c),
        forall|i: int| 0 <= i < parts.len() ==> free_of(#[trigger] parts[i], sep),
    ensures
        pieces(join(parts, c), sep) == parts,
    decreases parts.len(),
{
    if parts.len() == 1 {
        lemma_pieces_whole(parts[0], sep);
        assert(seq![parts[0]] == parts);
    } else {
        let init = parts.drop_last();
        assert forall|i: int| 0 <= i < init.len() implies free_of(#[trigger] init[i], sep) by {
            assert(init[i] == parts[i]);
        }
        lemma_pieces_join(init, c, sep);
        lemma_pieces_concat(join(init, c), c, parts.last(), sep);
        lemma_pieces_whole(parts.last(), sep);
        assert(init + seq![parts.last()] == parts);
    }
}

/// The pieces of a text hold exactly its characters that are no separators:
/// a test passes on all of those characters exactly when it passes on every
/// character of every piece.
pub proof fn lemma_pieces_every(s: Seq<char>, sep: spec_fn(char) -> bool, test: spec_fn(char) -> bool)
    ensures
        (forall|i: int| 0 <= i < s.len() ==> sep(#[trigger] s[i]) || test(s[i])) <==> (forall|j: int|
            0 <= j < pieces(s, sep).len() ==> every(#[trigger] pieces(s, sep)[j], test)),
    decreases s.len(),
{
    let whole = pieces(s, sep);
    if s.len() == 0 {
        assert(every(whole[0], test));
    } else {
        let init = s.drop_last();
        let before = pieces(init, sep);
        lemma_pieces_every(init, sep, test);
        lemma_pieces_len(init, sep);
        let last = before.len() - 1;
        if forall|i: int| 0 <= i < s.len() ==> sep(#[trigger] s[i]) || test(s[i]) {
            assert forall|i: int| 0 <= i < init.len() implies sep(#[trigger] init[i]) || test(
                init[i],
            ) by {
                assert(init[i] == s[i]);
            }
            assert forall|j: int| 0 <= j < whole.len() implies every(#[trigger] whole[j], test) by {
                if j < last {
                    assert(whole[j] == before[j]);
                } else if j == last && !sep(s.last()) {
                    assert(every(before[last], test));
                }
            }
        }
        if forall|j: int| 0 <= j < whole.len() ==> every(#[trigger] whole[j], test) {
            assert forall|j: int| 0 <= j < before.len() implies every(#[trigger] before[j], test) by {
                if j < last || sep(s.last()) {
                    assert(whole[j] == before[j]);
                } else {
                    assert(every(whole[j], test));
                    assert forall|k: int| 0 <= k < before[j].len() implies test(
                        #[trigger] before[j][k],
                    ) by {
                        assert(before[j][k] == whole[j][k]);
                    }
                }
            }
            assert forall|i: int| 0 <= i < s.len() implies sep(#[trigger] s[i]) || test(s[i]) by {
                if i < init.len() {
                    assert(init[i] == s[i]);
                } else if !sep(s.last()) {
                    assert(every(whole[last], test));
                    assert(whole[last][before[last].len() as int] == s.last());
                }
            }
        }
    }
}

/// A test that passes on every character of every part, and on the joining
/// character where it is used, passes on every character of the joined text.
pub proof fn lemma_join_every(parts: Seq<Seq<char>>, c: char, test: spec_fn(char) -> bool)
    requires
        forall|i: int| 0 <= i < parts.len() ==> every(#[trigger] parts[i], test),
        parts.len() >= 2 ==> test(c),
    ensures
        every(join(parts, c), test),
    decreases parts.len(),
{
    if parts.len() >= 2 {
        let init = parts.drop_last();
        assert forall|i: int| 0 <= i < init.len() implies every(#[trigger] init[i], test) by {
            assert(init[i] == parts[i]);
        }
        lemma_join_every(init, c, test);
        assert(every(parts.last(), test));
    } else if parts.len() == 1 {
        assert(every(parts[0], test));
    }
}

/// Filtering keeps a sequence as it is where every element passes.
pub proof fn lemma_filter_all<A>(s: Seq<A>, pred: spec_fn(A) -> bool)
    requires
        forall|i: int| 0 <= i < s.len() ==> pred(#[trigger] s[i]),
    ensures
        s.filter(pred) == s,
    decreases s.len(),
{
    reveal(Seq::filter);
    if s.len() > 0 {
        lemma_filter_all(s.drop_last(), pred);
        assert(s.drop_last().push(s.last()) == s);
    }
}

/// The words of a text that joins words with single spaces are those words.
pub proof fn lemma_tokens_join(parts: Seq<Seq<char>>)
    requires
        parts.len() >= 1,
        forall|i: int|
            0 <= i < parts.len() ==> (#[trigger] parts[i]).len() > 0 && free_of(
                parts[i],
                whitespace(),
            ),
    ensures
        tokens(join(parts, ' ')) == parts,
{
    lemma_pieces_join(parts, ' ', whitespace());
    lemma_filter_all(parts, nonempty());
}

/// Whether a character is white space.
pub fn is_whitespace_char(c: char) -> (b: bool)
    ensures
        b == is_whitespace(c),
{
    ('\u{9}' <= c && c <= '\u{D}') || c == ' ' || c == '\u{85}' || c == '\u{A0}' || c
        == '\u{1680}' || ('\u{2000}' <= c && c <= '\u{200A}') || c == '\u{2028}' || c
        == '\u{2029}' || c == '\u{202F}' || c == '\u{205F}' || c == '\u{3000}'
}

/// The characters of a string slice, in order.
pub fn to_chars(s: &str) -> (out: Vec<char>)
    ensures
        out@ == s@,
{
    broadcast use vstd::string::group_string_axioms;

    let mut out: Vec<char> = Vec::new();
    for c in it: s.chars()
        invariant
            it.seq() == s@,
            out@ == s@.take(it.index()),
    {
        out.push(c);
    }
    out
}

/// Whether `c` occurs in `s`.
pub fn contains(s: &[char], c: char) -> (found: bool)
    ensures
        found == s@.contains(c),
{
    let mut i: usize = 0;
    while i < s.len()
        invariant
            i <= s.len(),
            forall|j: int| 0 <= j < i ==> s@[j] != c,
        decreases s.len() - i,
    {
        if s[i] == c {
            return true;
        }
        i += 1;
    }
    false
}

/// Cuts `s` at every occurrence of `sep`. The result is never empty.
pub fn split_on(s: &[char], sep: char) -> (out: Vec<Vec<char>>)
    ensures
        rows(out@) == pieces(s@, only(sep)),
{
    let mut out: Vec<Vec<char>> = Vec::new();
    let mut current: Vec<char> = Vec::new();
    let mut i: usize = 0;
    assert(s@.take(0).len() == 0);
    assert(rows(out@).push(current@) == pieces(s@.take(0), only(sep)));
    while i < s.len()
        invariant
            i <= s.len(),
            rows(out@).push(current@) == pieces(s@.take(i as int), only(sep)),
        decreases s.len() - i,
    {
        let c = s[i];
        proof {
            let prefix = s@.take(i + 1);
            assert(prefix.drop_last() == s@.take(i as int));
            assert(prefix.last() == c);
            assert(rows(out@).push(current@).drop_last() == rows(out@));
        }
        if c == sep {
            let ghost before = rows(out@).push(current@);
            out.push(current);
            current = Vec::new();
            assert(rows(out@) == before);
        } else {
            current.push(c);
        }
        i += 1;
    }
    assert(s@.take(i as int) == s@);
    let ghost before = rows(out@).push(current@);
    out.push(current);
    assert(rows(out@) == before);
    out
}

/// The words of `s`: cuts `s` at white space and drops the empty pieces.
pub fn split_whitespace(s: &[char]) -> (out: Vec<Vec<char>>)
    ensures
        rows(out@) == tokens(s@),
{
    let mut out: Vec<Vec<char>> = Vec::new();
    let mut current: Vec<char> = Vec::new();
    let mut i: usize = 0;
    proof {
        reveal(Seq::filter);
        assert(s@.take(0).len() == 0);
        assert(pieces(s@.take(0), whitespace()).drop_last() == Seq::<Seq<char>>::empty());
        assert(rows(out@) == Seq::<Seq<char>>::empty());
    }
    while i < s.len()
        invariant
            i <= s.len(),
            pieces(s@.take(i as int), whitespace()).len() >= 1,
            rows(out@) == pieces(s@.take(i as int), whitespace()).drop_last().filter(nonempty()),
            current@ == pieces(s@.take(i as int), whitespace()).last(),
        decreases s.len() - i,
    {
        let c = s[i];
        proof {
            reveal(Seq::filter);
            let prefix = s@.take(i + 1);
            assert(prefix.drop_last() == s@.take(i as int));
            assert(prefix.last() == c);
            let before = pieces(s@.take(i as int), whitespace());
            assert(before.push(Seq::empty()).drop_last() == before);
            assert(before.drop_last().push(before.last()) == before);
            assert(before.drop_last().push(before.last().push(c)).drop_last()
                == before.drop_last());
        }
        if is_whitespace_char(c) {
            if current.len() > 0 {
                let ghost before = rows(out@).push(current@);
                out.push(current);
                assert(rows(out@) == before);
            }
            current = Vec::new();
        } else {
            current.push(c);
        }
        i += 1;
    }
    proof {
        reveal(Seq::filter);
        assert(s@.take(i as int) == s@);
        let all = pieces(s@, whitespace());
        assert(all.drop_last().push(all.last()) == all);
    }
    if current.len() > 0 {
        let ghost before = rows(out@).push(current@);
        out.push(current);
        assert(rows(out@) == before);
    }
    out
}

} // verus!
