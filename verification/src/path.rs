//! Paths of requests, cut into segments.

use vstd::prelude::*;

verus! {

/// The segments that are still to come when `current` has been read of the
/// segment at hand and `rest` is still to be read.
pub open spec fn pieces(rest: Seq<char>, current: Seq<char>) -> Seq<Seq<char>>
    decreases rest.len(),
{
    let finished = if current.len() > 0 {
        seq![current]
    } else {
        Seq::<Seq<char>>::empty()
    };
    if rest.len() == 0 {
        finished
    } else if rest[0] == '/' {
        finished + pieces(rest.skip(1), Seq::empty())
    } else {
        pieces(rest.skip(1), current.push(rest[0]))
    }
}

/// The segments of a path: the runs of characters between its slashes,
/// without the empty ones.
pub open spec fn segments_of(path: Seq<char>) -> Seq<Seq<char>> {
    pieces(path, Seq::empty())
}

/// The characters of each of the words.
pub open spec fn words(segments: Seq<Vec<char>>) -> Seq<Seq<char>> {
    Seq::new(segments.len(), |i: int| segments[i]@)
}

/// Whether the word holds no slash.
pub open spec fn slash_free(word: Seq<char>) -> bool {
    forall|k: int| 0 <= k < word.len() ==> #[trigger] word[k] != '/'
}

/// Whether each of the words has at least one character and no slash.
pub open spec fn all_words(segments: Seq<Seq<char>>) -> bool {
    forall|i: int|
        0 <= i < segments.len() ==> (#[trigger] segments[i]).len() > 0 && slash_free(segments[i])
}

/// Whatever is still to come, the segments are words.
pub proof fn lemma_pieces_are_words(rest: Seq<char>, current: Seq<char>)
    requires
        slash_free(current),
    ensures
        all_words(pieces(rest, current)),
    decreases rest.len(),
{
    let finished = if current.len() > 0 {
        seq![current]
    } else {
        Seq::<Seq<char>>::empty()
    };
    if rest.len() == 0 {
    } else if rest[0] == '/' {
        let later = pieces(rest.skip(1), Seq::empty());
        lemma_pieces_are_words(rest.skip(1), Seq::empty());
        let all = finished + later;
        assert forall|i: int| 0 <= i < all.len() implies (#[trigger] all[i]).len() > 0
            && slash_free(all[i]) by {
            if i < finished.len() {
                assert(all[i] == current);
            } else {
                assert(all[i] == later[i - finished.len()]);
            }
        }
    } else {
        let longer = current.push(rest[0]);
        assert forall|k: int| 0 <= k < longer.len() implies #[trigger] longer[k] != '/' by {
            if k < current.len() {
                assert(longer[k] == current[k]);
            }
        }
        lemma_pieces_are_words(rest.skip(1), longer);
    }
}

/// Every segment of a path has at least one character and no slash.
pub proof fn lemma_segments_are_words(path: Seq<char>)
    ensures
        all_words(segments_of(path)),
{
    lemma_pieces_are_words(path, Seq::empty());
}

/// Reading on through a word without a slash adds the word to the segment
/// at hand.
pub proof fn lemma_pieces_after_word(word: Seq<char>, rest: Seq<char>, current: Seq<char>)
    requires
        slash_free(word),
    ensures
        pieces(word + rest, current) == pieces(rest, current + word),
    decreases word.len(),
{
    if word.len() == 0 {
        assert(word + rest =~= rest);
        assert(current + word =~= current);
    } else {
        let all = word + rest;
        assert(all[0] == word[0]);
        assert(all.skip(1) =~= word.skip(1) + rest);
        assert forall|k: int| 0 <= k < word.skip(1).len() implies #[trigger] word.skip(1)[k]
            != '/' by {
            assert(word.skip(1)[k] == word[k + 1]);
        }
        lemma_pieces_after_word(word.skip(1), rest, current.push(word[0]));
        assert(current.push(word[0]) + word.skip(1) =~= current + word);
    }
}

/// A path made of a slash, a word, a slash and a second word has the two
/// words as its segments.
pub proof fn lemma_two_segments(path: Seq<char>, first: Seq<char>, second: Seq<char>)
    requires
        path == seq!['/'] + first + seq!['/'] + second,
        first.len() > 0,
        second.len() > 0,
        slash_free(first),
        slash_free(second),
    ensures
        segments_of(path) == seq![first, second],
{
    let none = Seq::<char>::empty();
    let tail = seq!['/'] + second;
    let after = first + tail;
    assert(path.len() > 0 && path[0] == '/');
    assert(path.skip(1) =~= after);
    assert(pieces(path, none) == Seq::<Seq<char>>::empty() + pieces(after, none));
    lemma_pieces_after_word(first, tail, none);
    assert(none + first =~= first);
    assert(tail.len() > 0 && tail[0] == '/');
    assert(tail.skip(1) =~= second);
    assert(pieces(tail, first) == seq![first] + pieces(second, none));
    assert(second + none =~= second);
    lemma_pieces_after_word(second, none, none);
    assert(none + second =~= second);
    assert(pieces(none, second) == seq![second]);
    assert(Seq::<Seq<char>>::empty() + (seq![first] + seq![second]) =~= seq![first, second]);
}

/// Cuts a path into its segments.
pub fn split_path(path: &str) -> (segments: Vec<Vec<char>>)
    ensures
        words(segments@) == segments_of(path@),
{
    let mut segments: Vec<Vec<char>> = Vec::new();
    let mut current: Vec<char> = Vec::new();
    assert(words(segments@) + pieces(path@.skip(0), current@) =~= segments_of(path@)) by {
        assert(path@.skip(0) =~= path@);
        assert(current@ =~= Seq::empty());
    }
    for c in it: path.chars()
        invariant
            it.seq() == path@,
            words(segments@) + pieces(path@.skip(it.index() as int), current@) == segments_of(
                path@,
            ),
    {
        let ghost i = it.index() as int;
        let ghost rest = path@.skip(i);
        let ghost before = words(segments@);
        let ghost read = current@;
        assert(rest.len() > 0 && rest[0] == c);
        assert(rest.skip(1) =~= path@.skip(i + 1));
        if c == '/' {
            if current.len() > 0 {
                segments.push(current);
                current = Vec::new();
                assert(words(segments@) =~= before + seq![read]);
            }
            assert(current@ =~= Seq::empty());
            assert(words(segments@) + pieces(rest.skip(1), current@) =~= before + pieces(
                rest,
                read,
            ));
        } else {
            current.push(c);
            assert(current@ =~= read.push(rest[0]));
        }
    }
    let ghost before = words(segments@);
    let ghost read = current@;
    assert(path@.skip(path@.len() as int).len() == 0);
    if current.len() > 0 {
        segments.push(current);
        assert(words(segments@) =~= before + seq![read]);
    } else {
        assert(words(segments@) =~= before + Seq::<Seq<char>>::empty());
    }
    segments
}

} // verus!
