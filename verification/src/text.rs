//! Text as sequences of characters: searching, trimming, splitting, joining.
//!
//! Every executable function here is specified over the `Seq<char>` view of
//! its arguments.

use vstd::prelude::*;

verus! {

/// The characters with the Unicode property `White_Space`.
pub open spec fn is_whitespace(c: char) -> bool {
    let u = c as u32;
    ||| 0x09 <= u <= 0x0D
    ||| u == 0x20
    ||| u == 0x85
    ||| u == 0xA0
    ||| u == 0x1680
    ||| 0x2000 <= u <= 0x200A
    ||| u == 0x2028
    ||| u == 0x2029
    ||| u == 0x202F
    ||| u == 0x205F
    ||| u == 0x3000
}

/// Whether `c` is white space.
pub fn whitespace(c: char) -> (r: bool)
    ensures
        r == is_whitespace(c),
{
    let u: u32 = c as u32;
    (0x09 <= u && u <= 0x0D) || u == 0x20 || u == 0x85 || u == 0xA0 || u == 0x1680 || (0x2000 <= u
        && u <= 0x200A) || u == 0x2028 || u == 0x2029 || u == 0x202F || u == 0x205F || u == 0x3000
}

/// The characters of `s`, one by one.
pub fn chars_of(s: &str) -> (v: Vec<char>)
    ensures
        v@ == s@,
{
    let mut v: Vec<char> = Vec::new();
    for c in it: s.chars()
        invariant
            it.seq() == s@,
            v@ == it.seq().take(it.index() as int),
    {
        v.push(c);
    }
    v
}

/// `needle` stands in `hay` at index `at`.
pub open spec fn occurs_at(hay: Seq<char>, needle: Seq<char>, at: int) -> bool {
    &&& 0 <= at
    &&& at + needle.len() <= hay.len()
    &&& hay.subrange(at, at + needle.len()) == needle
}

/// `needle` stands somewhere in `hay`, as a run of neighbouring characters.
pub open spec fn has_substring(hay: Seq<char>, needle: Seq<char>) -> bool {
    exists|at: int| occurs_at(hay, needle, at)
}

/// Whether `needle` stands in `hay` at index `at`.
pub(crate) fn matches_at(hay: &[char], needle: &[char], at: usize) -> (r: bool)
    requires
        at + needle.len() <= hay.len(),
    ensures
        r == occurs_at(hay@, needle@, at as int),
{
    let mut k: usize = 0;
    while k < needle.len()
        invariant
            k <= needle.len(),
            at + needle.len() <= hay.len(),
            forall|j: int| 0 <= j < k ==> hay@[at + j] == needle@[j],
        decreases needle.len() - k,
    {
        if hay[at + k] != needle[k] {
            assert(hay@.subrange(at as int, at + needle.len())[k as int] != needle@[k as int]);
            return false;
        }
        k += 1;
    }
    assert(hay@.subrange(at as int, at + needle.len()) =~= needle@);
    true
}

/// Whether `needle` stands somewhere in `hay`.
pub fn find_substring(hay: &[char], needle: &[char]) -> (r: bool)
    ensures
        r == has_substring(hay@, needle@),
{
    if needle.len() > hay.len() {
        return false;
    }
    let last: usize = hay.len() - needle.len();
    let mut at: usize = 0;
    loop
        invariant
            last == hay.len() - needle.len(),
            at <= last,
            forall|j: int| 0 <= j < at ==> !occurs_at(hay@, needle@, j),
        decreases last - at,
    {
        if matches_at(hay, needle, at) {
            return true;
        }
        if at == last {
            return false;
        }
        at += 1;
    }
}

/// Whether `needle` stands somewhere in `hay`.
pub fn contains(hay: &str, needle: &str) -> (r: bool)
    ensures
        r == has_substring(hay@, needle@),
{
    let h = chars_of(hay);
    let n = chars_of(needle);
    find_substring(h.as_slice(), n.as_slice())
}

/// The index of the first `x` in `s`, or the length of `s` where `s` holds none.
pub open spec fn position<T>(s: Seq<T>, x: T) -> int
    decreases s.len(),
{
    if s.len() == 0 || s[0] == x {
        0
    } else {
        1 + position(s.drop_first(), x)
    }
}

/// `position` stays within `s`, passes over no `x`, and stops at one if there is any.
pub proof fn position_is_first<T>(s: Seq<T>, x: T)
    ensures
        0 <= position(s, x) <= s.len(),
        forall|j: int| 0 <= j < position(s, x) ==> s[j] != x,
        position(s, x) < s.len() ==> s[position(s, x)] == x,
        position(s, x) < s.len() <==> s.contains(x),
    decreases s.len(),
{
    if s.len() == 0 || s[0] == x {
    } else {
        let rest = s.drop_first();
        position_is_first(rest, x);
        assert forall|j: int| 0 <= j < position(s, x) implies s[j] != x by {
            if j > 0 {
                assert(s[j] == rest[j - 1]);
            }
        }
        if position(s, x) < s.len() {
            assert(s[position(s, x)] == rest[position(rest, x)]);
        }
        if s.contains(x) {
            let k = choose|k: int| 0 <= k < s.len() && s[k] == x;
            assert(rest[k - 1] == x);
        }
    }
}

/// Where `a` holds no `x`, the first `x` of `a + b` is the first `x` of `b`.
pub proof fn position_after<T>(a: Seq<T>, b: Seq<T>, x: T)
    requires
        !a.contains(x),
    ensures
        position(a + b, x) == a.len() + position(b, x),
    decreases a.len(),
{
    if a.len() == 0 {
        assert(a + b =~= b);
    } else {
        assert(a[0] != x);
        assert((a + b)[0] == a[0]);
        assert((a + b).drop_first() =~= a.drop_first() + b);
        assert forall|i: int| 0 <= i < a.drop_first().len() implies a.drop_first()[i] != x by {
            assert(a[i + 1] == a.drop_first()[i]);
        }
        position_after(a.drop_first(), b, x);
    }
}

/// The index of the first `c` in `s` at or after `from`, or the length of `s`.
pub(crate) fn find_char(s: &[char], from: usize, c: char) -> (r: usize)
    requires
        from <= s.len(),
    ensures
        r == from + position(s@.skip(from as int), c),
        from <= r <= s.len(),
{
    let mut i: usize = from;
    while i < s.len()
        invariant
            from <= i <= s.len(),
            position(s@.skip(from as int), c) == (i - from) + position(s@.skip(i as int), c),
        decreases s.len() - i,
    {
        if s[i] == c {
            return i;
        }
        proof {
            assert(s@.skip(i as int).drop_first() =~= s@.skip(i + 1));
        }
        i += 1;
    }
    i
}

/// The pieces of `s` between the occurrences of `sep`: one more piece than
/// there are separators, each without a separator, some perhaps empty.
pub open spec fn split_on(s: Seq<char>, sep: char) -> Seq<Seq<char>>
    decreases s.len(),
{
    let p = position(s, sep);
    if 0 <= p < s.len() {
        seq![s.take(p)] + split_on(s.skip(p + 1), sep)
    } else {
        seq![s]
    }
}

/// `parts` in a row, with `sep` between each two neighbours.
pub open spec fn join(parts: Seq<Seq<char>>, sep: Seq<char>) -> Seq<char>
    decreases parts.len(),
{
    if parts.len() == 0 {
        Seq::empty()
    } else if parts.len() == 1 {
        parts[0]
    } else {
        join(parts.drop_last(), sep) + sep + parts.last()
    }
}

/// The pieces of `text` between the occurrences of `sep`.
pub fn split(text: &str, sep: char) -> (parts: Vec<String>)
    ensures
        parts.deep_view() == split_on(text@, sep),
{
    let chars = chars_of(text);
    let mut parts: Vec<String> = Vec::new();
    let mut start: usize = 0;
    proof {
        assert(text@.skip(0) =~= text@);
        assert(parts.deep_view() + split_on(text@, sep) =~= split_on(text@, sep));
    }
    loop
        invariant
            chars@ == text@,
            start <= chars.len(),
            split_on(text@, sep) == parts.deep_view() + split_on(text@.skip(start as int), sep),
        decreases chars.len() - start,
    {
        let p = find_char(chars.as_slice(), start, sep);
        let piece = text.substring_char(start, p).to_owned();
        let ghost before = parts.deep_view();
        let ghost rest = text@.skip(start as int);
        proof {
            position_is_first(rest, sep);
            assert(rest.take(p - start) =~= text@.subrange(start as int, p as int));
        }
        parts.push(piece);
        assert(parts.deep_view() =~= before.push(rest.take(p - start)));
        if p == chars.len() {
            assert(before + split_on(rest, sep) =~= parts.deep_view());
            return parts;
        }
        proof {
            assert(rest.skip(p - start + 1) =~= text@.skip(p + 1));
            assert(before + split_on(rest, sep) =~= parts.deep_view() + split_on(
                text@.skip(p + 1),
                sep,
            ));
        }
        start = p + 1;
    }
}

/// The texts of `parts` in a row, with `sep` between each two neighbours.
pub fn join_texts(parts: &[String], sep: &str) -> (r: String)
    ensures
        r@ == join(parts.deep_view(), sep@),
{
    let mut r = String::new();
    let mut i: usize = 0;
    while i < parts.len()
        invariant
            i <= parts.len(),
            r@ == join(parts.deep_view().take(i as int), sep@),
        decreases parts.len() - i,
    {
        proof {
            let next = parts.deep_view().take(i + 1);
            assert(next.drop_last() =~= parts.deep_view().take(i as int));
            assert(next.last() == parts@[i as int]@);
        }
        if i > 0 {
            r.append(sep);
        }
        r.append(parts[i].as_str());
        i += 1;
    }
    assert(parts.deep_view().take(i as int) =~= parts.deep_view());
    r
}

/// The lines of `text`: its pieces between line feeds, without the piece
/// after the last line feed where that is empty.
pub open spec fn text_lines(text: Seq<char>) -> Seq<Seq<char>> {
    let pieces = split_on(text, '\n');
    if pieces.len() > 0 && pieces.last().len() == 0 {
        pieces.drop_last()
    } else {
        pieces
    }
}

/// The lines of `text`.
pub fn split_lines(text: &str) -> (lines: Vec<String>)
    ensures
        lines.deep_view() == text_lines(text@),
{
    let mut lines = split(text, '\n');
    let ghost pieces = lines.deep_view();
    let count = lines.len();
    if count > 0 && lines[count - 1].as_str().is_empty() {
        lines.pop();
        assert(lines.deep_view() =~= pieces.drop_last());
    }
    lines
}

/// `s` without the white space at its start.
pub open spec fn trim_start(s: Seq<char>) -> Seq<char>
    decreases s.len(),
{
    if s.len() > 0 && is_whitespace(s[0]) {
        trim_start(s.drop_first())
    } else {
        s
    }
}

/// `s` without the white space at its end.
pub open spec fn trim_end(s: Seq<char>) -> Seq<char>
    decreases s.len(),
{
    if s.len() > 0 && is_whitespace(s.last()) {
        trim_end(s.drop_last())
    } else {
        s
    }
}

/// `s` without the white space at its start and at its end.
pub open spec fn trimmed(s: Seq<char>) -> Seq<char> {
    trim_end(trim_start(s))
}

/// The longest run at the end of `s` that holds no white space.
pub open spec fn last_word(s: Seq<char>) -> Seq<char>
    decreases s.len(),
{
    if s.len() == 0 || is_whitespace(s.last()) {
        Seq::empty()
    } else {
        last_word(s.drop_last()).push(s.last())
    }
}

/// The last of the words of `s` that white space separates, if `s` has a word.
pub open spec fn last_token(s: Seq<char>) -> Option<Seq<char>> {
    let word = last_word(trim_end(s));
    if word.len() == 0 {
        None
    } else {
        Some(word)
    }
}

/// The index in `s` at which its white space at the start ends.
fn skip_whitespace(s: &[char]) -> (r: usize)
    ensures
        r <= s.len(),
        trim_start(s@) == s@.skip(r as int),
{
    let mut i: usize = 0;
    assert(s@.skip(0) =~= s@);
    while i < s.len()
        invariant
            i <= s.len(),
            trim_start(s@) == trim_start(s@.skip(i as int)),
        decreases s.len() - i,
    {
        if !whitespace(s[i]) {
            return i;
        }
        assert(s@.skip(i as int).drop_first() =~= s@.skip(i + 1));
        i += 1;
    }
    i
}

/// The index in `s`, not before `from`, at which its white space at the end begins.
fn drop_whitespace(s: &[char], from: usize) -> (r: usize)
    requires
        from <= s.len(),
    ensures
        from <= r <= s.len(),
        trim_end(s@.skip(from as int)) == s@.subrange(from as int, r as int),
{
    let mut e: usize = s.len();
    assert(s@.skip(from as int) =~= s@.subrange(from as int, e as int));
    while e > from
        invariant
            from <= e <= s.len(),
            trim_end(s@.skip(from as int)) == trim_end(s@.subrange(from as int, e as int)),
        decreases e,
    {
        if !whitespace(s[e - 1]) {
            return e;
        }
        assert(s@.subrange(from as int, e as int).drop_last() =~= s@.subrange(
            from as int,
            e - 1,
        ));
        e -= 1;
    }
    e
}

/// The index in `s` at which the run without white space that ends at `end` begins.
fn word_start(s: &[char], end: usize) -> (r: usize)
    requires
        end <= s.len(),
    ensures
        r <= end,
        last_word(s@.take(end as int)) == s@.subrange(r as int, end as int),
{
    let mut b: usize = end;
    assert(s@.subrange(end as int, end as int) =~= Seq::<char>::empty());
    while b > 0
        invariant
            b <= end <= s.len(),
            last_word(s@.take(end as int)) == last_word(s@.take(b as int)) + s@.subrange(
                b as int,
                end as int,
            ),
        decreases b,
    {
        if whitespace(s[b - 1]) {
            return b;
        }
        proof {
            let head = s@.take(b as int);
            assert(head.drop_last() =~= s@.take(b - 1));
            assert(last_word(head.drop_last()).push(head.last()) + s@.subrange(
                b as int,
                end as int,
            ) =~= last_word(head.drop_last()) + s@.subrange(b - 1, end as int));
        }
        b -= 1;
    }
    assert(s@.take(0) =~= Seq::<char>::empty());
    b
}

/// `text` without the white space at its start and at its end.
pub fn trim(text: &str) -> (r: String)
    ensures
        r@ == trimmed(text@),
{
    let chars = chars_of(text);
    let from = skip_whitespace(chars.as_slice());
    let to = drop_whitespace(chars.as_slice(), from);
    text.substring_char(from, to).to_owned()
}

/// The last of the words of `text` that white space separates, if it has a word.
pub fn last_token_of(text: &str) -> (r: Option<String>)
    ensures
        r is Some <==> last_token(text@) is Some,
        r matches Some(word) ==> last_token(text@) == Some(word@),
{
    let chars = chars_of(text);
    let end = drop_whitespace(chars.as_slice(), 0);
    let begin = word_start(chars.as_slice(), end);
    proof {
        assert(text@.skip(0) =~= text@);
        assert(text@.subrange(0, end as int) =~= text@.take(end as int));
    }
    if begin == end {
        None
    } else {
        Some(text.substring_char(begin, end).to_owned())
    }
}

/// Whether `a` and `b` are the same text.
pub fn same_text(a: &str, b: &str) -> (r: bool)
    ensures
        r == (a@ == b@),
{
    let x = chars_of(a);
    let y = chars_of(b);
    if x.len() != y.len() {
        return false;
    }
    let mut i: usize = 0;
    while i < x.len()
        invariant
            i <= x.len(),
            x.len() == y.len(),
            x@ == a@,
            y@ == b@,
            forall|j: int| 0 <= j < i ==> x@[j] == y@[j],
        decreases x.len() - i,
    {
        if x[i] != y[i] {
            assert(a@[i as int] != b@[i as int]);
            return false;
        }
        i += 1;
    }
    assert(x@ =~= y@);
    true
}

/// `s` without the occurrences of `pattern`, taken from the left, none
/// overlapping another. An empty pattern takes nothing away.
pub open spec fn without(s: Seq<char>, pattern: Seq<char>) -> Seq<char>
    decreases s.len(),
{
    if pattern.len() == 0 || s.len() < pattern.len() {
        s
    } else if s.take(pattern.len() as int) == pattern {
        without(s.skip(pattern.len() as int), pattern)
    } else {
        seq![s[0]] + without(s.drop_first(), pattern)
    }
}

/// `text` without the occurrences of `pattern`.
pub fn remove_all(text: &str, pattern: &str) -> (r: String)
    ensures
        r@ == without(text@, pattern@),
{
    let chars = chars_of(text);
    let wanted = chars_of(pattern);
    if wanted.len() == 0 || chars.len() < wanted.len() {
        return text.to_owned();
    }
    let last: usize = chars.len() - wanted.len();
    let mut r = String::new();
    let mut kept_from: usize = 0;
    let mut at: usize = 0;
    proof {
        assert(text@.skip(0) =~= text@);
        assert(r@ + text@.subrange(0, 0) + without(text@, pattern@) =~= without(text@, pattern@));
    }
    while at <= last
        invariant
            chars@ == text@,
            wanted@ == pattern@,
            wanted.len() > 0,
            last == chars.len() - wanted.len(),
            kept_from <= at <= chars.len(),
            without(text@, pattern@) == r@ + text@.subrange(kept_from as int, at as int) + without(
                text@.skip(at as int),
                pattern@,
            ),
        decreases chars.len() - at,
    {
        let ghost rest = text@.skip(at as int);
        proof {
            assert(rest.take(pattern@.len() as int) =~= text@.subrange(
                at as int,
                at + pattern@.len(),
            ));
        }
        if matches_at(chars.as_slice(), wanted.as_slice(), at) {
            let ghost before = r@;
            r.append(text.substring_char(kept_from, at));
            proof {
                assert(rest.skip(pattern@.len() as int) =~= text@.skip(at + pattern@.len()));
                assert(before + text@.subrange(kept_from as int, at as int) + without(
                    text@.skip(at + pattern@.len()),
                    pattern@,
                ) =~= r@ + text@.subrange(at + pattern@.len(), at + pattern@.len()) + without(
                    text@.skip(at + pattern@.len()),
                    pattern@,
                ));
            }
            at += wanted.len();
            kept_from = at;
        } else {
            proof {
                assert(rest.drop_first() =~= text@.skip(at + 1));
                assert(r@ + text@.subrange(kept_from as int, at as int) + (seq![rest[0]] + without(
                    text@.skip(at + 1),
                    pattern@,
                )) =~= r@ + text@.subrange(kept_from as int, at + 1) + without(
                    text@.skip(at + 1),
                    pattern@,
                ));
            }
            at += 1;
        }
    }
    proof {
        assert(text@.subrange(kept_from as int, at as int) + text@.skip(at as int)
            =~= text@.subrange(kept_from as int, chars.len() as int));
    }
    r.append(text.substring_char(kept_from, chars.len()));
    r
}

} // verus!
