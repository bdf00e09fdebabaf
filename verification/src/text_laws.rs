//! What holds of splitting, joining, trimming and the last word.

use crate::text::{
    is_whitespace, join, last_token, last_word, position, position_after, position_is_first,
    split_on, trim_end, trim_start, trimmed,
};
use vstd::prelude::*;

verus! {

/// A joined list of two parts or more is its first part, the separator, and
/// the rest joined.
pub proof fn join_from_the_front(parts: Seq<Seq<char>>, sep: Seq<char>)
    requires
        parts.len() >= 2,
    ensures
        join(parts, sep) == parts[0] + sep + join(parts.drop_first(), sep),
    decreases parts.len(),
{
    let front = parts.drop_last();
    if parts.len() == 2 {
        assert(front =~= seq![parts[0]]);
        assert(parts.drop_first() =~= seq![parts[1]]);
        assert(join(front, sep) == parts[0]);
        assert(join(parts.drop_first(), sep) == parts[1]);
    } else {
        join_from_the_front(front, sep);
        assert(front.drop_first() =~= parts.drop_first().drop_last());
        assert(front[0] == parts[0]);
        assert(parts.drop_first().last() == parts.last());
        assert(join(parts, sep) =~= parts[0] + sep + join(parts.drop_first(), sep));
    }
}

/// Splitting gives at least one piece, no piece holds the separator, and the
/// pieces joined with the separator are the text again.
pub proof fn split_then_join(s: Seq<char>, sep: char)
    ensures
        split_on(s, sep).len() >= 1,
        forall|i: int| 0 <= i < split_on(s, sep).len() ==> !(#[trigger] split_on(s, sep)[i]).contains(
            sep,
        ),
        join(split_on(s, sep), seq![sep]) == s,
    decreases s.len(),
{
    let p = position(s, sep);
    position_is_first(s, sep);
    let pieces = split_on(s, sep);
    if 0 <= p < s.len() {
        let head = s.take(p);
        let rest = s.skip(p + 1);
        split_then_join(rest, sep);
        let tail = split_on(rest, sep);
        assert(pieces == seq![head] + tail);
        assert forall|i: int| 0 <= i < pieces.len() implies !(#[trigger] pieces[i]).contains(
            sep,
        ) by {
            if i == 0 {
                if head.contains(sep) {
                    let k = choose|k: int| 0 <= k < head.len() && head[k] == sep;
                    assert(s[k] == sep);
                }
            } else {
                assert(pieces[i] == tail[i - 1]);
            }
        }
        join_from_the_front(pieces, seq![sep]);
        assert(pieces.drop_first() =~= tail);
        assert(head + seq![sep] + rest =~= s);
    } else {
        assert(pieces == seq![s]);
    }
}

/// Parts that hold no separator come back when their joined text is split:
/// one part at least, for no parts and one empty part join to the same text.
pub proof fn join_then_split(parts: Seq<Seq<char>>, sep: char)
    requires
        parts.len() >= 1,
        forall|i: int| 0 <= i < parts.len() ==> !(#[trigger] parts[i]).contains(sep),
    ensures
        split_on(join(parts, seq![sep]), sep) == parts,
    decreases parts.len(),
{
    let text = join(parts, seq![sep]);
    if parts.len() == 1 {
        position_is_first(parts[0], sep);
        assert(parts =~= seq![parts[0]]);
    } else {
        let rest = parts.drop_first();
        join_from_the_front(parts, seq![sep]);
        let tail = seq![sep] + join(rest, seq![sep]);
        assert(text =~= parts[0] + tail);
        position_after(parts[0], tail, sep);
        assert(position(tail, sep) == 0);
        let p = position(text, sep);
        assert(text.take(p) =~= parts[0]);
        assert(text.skip(p + 1) =~= join(rest, seq![sep]));
        assert forall|i: int| 0 <= i < rest.len() implies !(#[trigger] rest[i]).contains(sep) by {
            assert(rest[i] == parts[i + 1]);
        }
        join_then_split(rest, sep);
        assert(seq![parts[0]] + rest =~= parts);
    }
}

/// What is trimmed at the end is a start of the text that does not end with
/// white space, and only white space follows it.
pub proof fn trim_end_is_a_prefix(s: Seq<char>)
    ensures
        trim_end(s).len() <= s.len(),
        trim_end(s) == s.take(trim_end(s).len() as int),
        trim_end(s).len() > 0 ==> !is_whitespace(trim_end(s).last()),
        forall|i: int| trim_end(s).len() <= i < s.len() ==> is_whitespace(#[trigger] s[i]),
    decreases s.len(),
{
    if s.len() > 0 && is_whitespace(s.last()) {
        let front = s.drop_last();
        trim_end_is_a_prefix(front);
        assert(front.take(trim_end(front).len() as int) =~= s.take(trim_end(front).len() as int));
        assert forall|i: int| trim_end(s).len() <= i < s.len() implies is_whitespace(
            #[trigger] s[i],
        ) by {
            if i < front.len() {
                assert(s[i] == front[i]);
            }
        }
    } else {
        assert(s.take(s.len() as int) =~= s);
    }
}

/// What is trimmed at the start is an end of the text that does not start
/// with white space, and only white space stands before it.
pub proof fn trim_start_is_a_suffix(s: Seq<char>)
    ensures
        trim_start(s).len() <= s.len(),
        trim_start(s) == s.skip(s.len() - trim_start(s).len()),
        trim_start(s).len() > 0 ==> !is_whitespace(trim_start(s)[0]),
        forall|i: int| 0 <= i < s.len() - trim_start(s).len() ==> is_whitespace(#[trigger] s[i]),
    decreases s.len(),
{
    if s.len() > 0 && is_whitespace(s[0]) {
        let rest = s.drop_first();
        trim_start_is_a_suffix(rest);
        assert(rest.skip(rest.len() - trim_start(rest).len()) =~= s.skip(
            s.len() - trim_start(rest).len(),
        ));
        assert forall|i: int| 0 <= i < s.len() - trim_start(s).len() implies is_whitespace(
            #[trigger] s[i],
        ) by {
            if i > 0 {
                assert(s[i] == rest[i - 1]);
            }
        }
    } else {
        assert(s.skip(0) =~= s);
    }
}

/// A trimmed text is the run of the text between its white space at the
/// start and its white space at the end: it neither starts nor ends with
/// white space, and only white space was left out.
pub proof fn trimmed_is_the_middle(s: Seq<char>)
    ensures
        ({
            let middle = trimmed(s);
            let from = s.len() - trim_start(s).len();
            &&& middle == s.subrange(from, from + middle.len())
            &&& from + middle.len() <= s.len()
            &&& middle.len() > 0 ==> !is_whitespace(middle[0]) && !is_whitespace(middle.last())
            &&& forall|i: int| 0 <= i < from ==> is_whitespace(#[trigger] s[i])
            &&& forall|i: int| from + middle.len() <= i < s.len() ==> is_whitespace(#[trigger] s[i])
        }),
{
    let tail = trim_start(s);
    let middle = trimmed(s);
    let from = s.len() - tail.len();
    trim_start_is_a_suffix(s);
    trim_end_is_a_prefix(tail);
    assert(middle =~= s.subrange(from, from + middle.len()));
    if middle.len() > 0 {
        assert(middle[0] == tail[0]);
    }
    assert forall|i: int| from + middle.len() <= i < s.len() implies is_whitespace(
        #[trigger] s[i],
    ) by {
        assert(s[i] == tail[i - from]);
    }
}

/// The last word is an end of the text without white space in it, and it is
/// the longest such end.
pub proof fn last_word_is_the_longest(s: Seq<char>)
    ensures
        last_word(s).len() <= s.len(),
        last_word(s) == s.skip(s.len() - last_word(s).len()),
        forall|i: int| 0 <= i < last_word(s).len() ==> !is_whitespace(#[trigger] last_word(s)[i]),
        last_word(s).len() < s.len() ==> is_whitespace(s[s.len() - last_word(s).len() - 1]),
    decreases s.len(),
{
    if s.len() == 0 || is_whitespace(s.last()) {
        assert(s.skip(s.len() as int) =~= Seq::<char>::empty());
    } else {
        let front = s.drop_last();
        last_word_is_the_longest(front);
        let word = last_word(s);
        assert(word =~= s.skip(s.len() - word.len()));
        if word.len() < s.len() {
            assert(s[s.len() - word.len() - 1] == front[front.len() - last_word(front).len() - 1]);
        }
    }
}

/// The last token of a text is its last run of characters without white
/// space: white space or the start of the text stands before it, and only
/// white space follows it. A text has no last token exactly where it holds
/// nothing but white space.
pub proof fn last_token_is_the_last_run(s: Seq<char>)
    ensures
        last_token(s) is None <==> forall|i: int| 0 <= i < s.len() ==> is_whitespace(#[trigger] s[i]),
        last_token(s) matches Some(word) ==> {
            let to = trim_end(s).len() as int;
            let from = to - word.len();
            &&& 0 <= from < to <= s.len()
            &&& word == s.subrange(from, to)
            &&& forall|i: int| from <= i < to ==> !is_whitespace(#[trigger] s[i])
            &&& from > 0 ==> is_whitespace(s[from - 1])
            &&& forall|i: int| to <= i < s.len() ==> is_whitespace(#[trigger] s[i])
        },
{
    let head = trim_end(s);
    let word = last_word(head);
    trim_end_is_a_prefix(s);
    last_word_is_the_longest(head);
    let to = head.len() as int;
    let from = to - word.len();
    if head.len() > 0 {
        assert(!is_whitespace(head.last()));
        assert(head.last() == s[to - 1]);
        assert(word.len() > 0);
        assert(word =~= s.subrange(from, to));
        assert forall|i: int| from <= i < to implies !is_whitespace(#[trigger] s[i]) by {
            assert(s[i] == word[i - from]);
        }
        if from > 0 {
            assert(head[from - 1] == s[from - 1]);
        }
    }
}

} // verus!
