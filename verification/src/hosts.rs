//! The lines of a hosts file and their reconciliation with a set of names.
//!
//! A line that holds the marker comment was written by this library and may be
//! removed and written again. Every other line is foreign and is kept as it
//! is, in its place among the foreign lines. Line endings are not part of a
//! line: a line that ended with a line feed, or with a carriage return and a
//! line feed, is written with a carriage return and a line feed, as Windows
//! ends the lines of its hosts file. A file that is not text is refused as a
//! whole: it is not read, and so never written.

use crate::decode::{decode_utf8_bytes, refusal, utf8_decoded};
use crate::text::{chars_of, contains, has_substring, split, split_on};
use crate::text_laws::split_then_join;
use vstd::prelude::*;
use vstd::slice::slice_to_vec;
use vstd::utf8::{decode_utf8, encode_utf8, valid_utf8};

verus! {

/// The comment that marks a line as written by this library.
pub const HOSTS_COMMENT: &'static str = "# added by wsl2-ip-host";

/// The marker comment, character by character.
pub open spec fn marker() -> Seq<char> {
    HOSTS_COMMENT@
}

/// A line that holds the marker, wherever in it.
pub open spec fn is_managed(line: Seq<char>) -> bool {
    has_substring(line, marker())
}

/// The test that keeps a line when managed lines are removed.
pub open spec fn is_foreign() -> spec_fn(Seq<char>) -> bool {
    |line: Seq<char>| !is_managed(line)
}

/// The lines of `lines` that are not managed, in their order.
pub open spec fn foreign_lines(lines: Seq<Seq<char>>) -> Seq<Seq<char>> {
    lines.filter(is_foreign())
}

/// The line that gives `name` the address `ip`.
pub open spec fn managed_line(ip: Seq<char>, name: Seq<char>) -> Seq<char> {
    ip + seq![' '] + name + seq![' '] + marker()
}

/// One managed line for each of `names`, in their order.
pub open spec fn managed_lines(ip: Seq<char>, names: Seq<Seq<char>>) -> Seq<Seq<char>> {
    Seq::new(names.len(), |i: int| managed_line(ip, names[i]))
}

/// The lines of a file after reconciliation: its foreign lines, then one
/// managed line for each name.
pub open spec fn reconciled(lines: Seq<Seq<char>>, ip: Seq<char>, names: Seq<Seq<char>>) -> Seq<
    Seq<char>,
> {
    foreign_lines(lines) + managed_lines(ip, names)
}

/// Whether `line` holds the marker.
pub fn line_is_managed(line: &str) -> (r: bool)
    ensures
        r == is_managed(line@),
{
    contains(line, HOSTS_COMMENT)
}

/// The lines of `list` without the managed ones.
pub fn clean_list(list: &[String]) -> (kept: Vec<String>)
    ensures
        kept.deep_view() == foreign_lines(list.deep_view()),
{
    let mut kept: Vec<String> = Vec::new();
    let mut i: usize = 0;
    proof {
        reveal(Seq::filter);
        assert(list.deep_view().take(0) =~= Seq::<Seq<char>>::empty());
        assert(kept.deep_view() =~= Seq::<Seq<char>>::empty());
    }
    while i < list.len()
        invariant
            i <= list.len(),
            kept.deep_view() == foreign_lines(list.deep_view().take(i as int)),
        decreases list.len() - i,
    {
        let ghost before = kept.deep_view();
        proof {
            let head = list.deep_view().take(i as int);
            assert(list.deep_view().take(i + 1) =~= head.push(list@[i as int]@));
            head.lemma_filter_push(list@[i as int]@, is_foreign());
        }
        if !line_is_managed(list[i].as_str()) {
            kept.push(list[i].clone());
            assert(kept.deep_view() =~= before.push(list@[i as int]@));
        }
        i += 1;
    }
    assert(list.deep_view().take(i as int) =~= list.deep_view());
    kept
}

/// The line that gives `name` the address `ip`.
pub fn make_managed_line(ip: &str, name: &str) -> (line: String)
    ensures
        line@ == managed_line(ip@, name@),
{
    let mut line = ip.to_owned();
    line.append(" ");
    line.append(name);
    line.append(" ");
    line.append(HOSTS_COMMENT);
    proof {
        reveal_strlit(" ");
        assert(" "@ =~= seq![' ']);
    }
    line
}

/// `lines`, then one managed line for each of `names`.
pub fn append_managed(lines: &[String], ip: &str, names: &[String]) -> (all: Vec<String>)
    ensures
        all.deep_view() == lines.deep_view() + managed_lines(ip@, names.deep_view()),
{
    let mut all: Vec<String> = Vec::new();
    let mut i: usize = 0;
    while i < lines.len()
        invariant
            i <= lines.len(),
            all.deep_view() == lines.deep_view().take(i as int),
        decreases lines.len() - i,
    {
        let ghost before = all.deep_view();
        all.push(lines[i].clone());
        assert(all.deep_view() =~= before.push(lines@[i as int]@));
        assert(lines.deep_view().take(i + 1) =~= before.push(lines@[i as int]@));
        i += 1;
    }
    assert(lines.deep_view().take(i as int) =~= lines.deep_view());
    let mut k: usize = 0;
    while k < names.len()
        invariant
            k <= names.len(),
            all.deep_view() == lines.deep_view() + managed_lines(ip@, names.deep_view()).take(
                k as int,
            ),
        decreases names.len() - k,
    {
        let ghost before = all.deep_view();
        all.push(make_managed_line(ip, names[k].as_str()));
        proof {
            let added = managed_lines(ip@, names.deep_view());
            assert(all.deep_view() =~= before.push(added[k as int]));
            assert(added.take(k + 1) =~= added.take(k as int).push(added[k as int]));
        }
        k += 1;
    }
    assert(managed_lines(ip@, names.deep_view()).take(k as int) =~= managed_lines(
        ip@,
        names.deep_view(),
    ));
    all
}

/// The byte that ends a line.
pub const LINE_FEED: u8 = 0x0A;

/// The byte that stands before the line feed in the line ending of Windows.
pub const CARRIAGE_RETURN: u8 = 0x0D;

/// `piece` without a carriage return at its end.
pub open spec fn without_carriage_return(piece: Seq<char>) -> Seq<char> {
    if piece.len() > 0 && piece.last() == '\r' {
        piece.drop_last()
    } else {
        piece
    }
}

/// The lines of a file that holds the text `text`.
///
/// A line is what stands before a line feed, or before a carriage return and
/// a line feed; neither belongs to the line. What follows the last line feed
/// is a line too, unless there is nothing, and is taken as it is, with a
/// carriage return at its end if it has one.
pub open spec fn lines_in(text: Seq<char>) -> Seq<Seq<char>> {
    let pieces = split_on(text, '\n');
    let ended = Seq::new(
        (pieces.len() - 1) as nat,
        |i: int| without_carriage_return(pieces[i]),
    );
    if pieces.last().len() == 0 {
        ended
    } else {
        ended.push(pieces.last())
    }
}

/// The lines of a file that holds `bytes`, or the decoder's words where the
/// bytes are not UTF-8: a file that is not text has no lines and is not
/// taken for a file without lines.
pub open spec fn lines_of(bytes: Seq<u8>) -> Result<Seq<Seq<char>>, Seq<char>> {
    if valid_utf8(bytes) {
        Ok(lines_in(decode_utf8(bytes)))
    } else {
        Err(refusal(utf8_decoded(bytes)))
    }
}

/// The bytes of a file that holds `lines`, each followed by a carriage return
/// and a line feed, the line ending of the system whose hosts file it is.
pub open spec fn file_bytes(lines: Seq<Seq<char>>) -> Seq<u8>
    decreases lines.len(),
{
    if lines.len() == 0 {
        Seq::empty()
    } else {
        file_bytes(lines.drop_last()) + encode_utf8(lines.last()) + seq![
            CARRIAGE_RETURN,
            LINE_FEED,
        ]
    }
}

/// `piece` without a carriage return at its end.
pub fn strip_carriage_return(piece: &str) -> (r: String)
    ensures
        r@ == without_carriage_return(piece@),
{
    let chars = chars_of(piece);
    let count = chars.len();
    if count > 0 && chars[count - 1] == '\r' {
        assert(piece@.subrange(0, count - 1) =~= piece@.drop_last());
        piece.substring_char(0, count - 1).to_owned()
    } else {
        piece.to_owned()
    }
}

/// The lines of a file that holds the text `text`.
pub fn lines_of_text(text: &str) -> (lines: Vec<String>)
    ensures
        lines.deep_view() == lines_in(text@),
{
    let pieces = split(text, '\n');
    proof {
        split_then_join(text@, '\n');
    }
    let last: usize = pieces.len() - 1;
    let ghost ended = Seq::new(
        last as nat,
        |i: int| without_carriage_return(pieces.deep_view()[i]),
    );
    let mut lines: Vec<String> = Vec::new();
    let mut i: usize = 0;
    while i < last
        invariant
            i <= last,
            last == pieces.len() - 1,
            ended == Seq::new(last as nat, |i: int| without_carriage_return(pieces.deep_view()[i])),
            lines.deep_view() == ended.take(i as int),
        decreases last - i,
    {
        let ghost before = lines.deep_view();
        lines.push(strip_carriage_return(pieces[i].as_str()));
        assert(lines.deep_view() =~= before.push(without_carriage_return(pieces@[i as int]@)));
        assert(lines.deep_view() =~= ended.take(i + 1));
        i += 1;
    }
    assert(lines.deep_view() =~= ended);
    if !pieces[last].as_str().is_empty() {
        lines.push(pieces[last].clone());
        assert(lines.deep_view() =~= ended.push(pieces.deep_view().last()));
    }
    lines
}

/// The lines of a file that holds `bytes`.
///
/// Fails, with the decoder's words, where the bytes are not UTF-8.
pub fn read_lines(bytes: &[u8]) -> (r: Result<Vec<String>, String>)
    ensures
        match lines_of(bytes@) {
            Ok(lines) => r matches Ok(l) && l.deep_view() == lines,
            Err(cause) => r matches Err(e) && e@ == cause,
        },
{
    match decode_utf8_bytes(slice_to_vec(bytes)) {
        Ok(text) => Ok(lines_of_text(text.as_str())),
        Err(cause) => Err(cause),
    }
}

/// The bytes of a file that holds `lines`, each followed by a carriage return
/// and a line feed.
pub fn file_content(lines: &[String]) -> (bytes: Vec<u8>)
    ensures
        bytes@ == file_bytes(lines.deep_view()),
{
    let mut bytes: Vec<u8> = Vec::new();
    let mut i: usize = 0;
    assert(lines.deep_view().take(0) =~= Seq::<Seq<char>>::empty());
    while i < lines.len()
        invariant
            i <= lines.len(),
            bytes@ == file_bytes(lines.deep_view().take(i as int)),
        decreases lines.len() - i,
    {
        let ghost before = bytes@;
        proof {
            let next = lines.deep_view().take(i + 1);
            assert(next.drop_last() =~= lines.deep_view().take(i as int));
            assert(next.last() == lines@[i as int]@);
        }
        let encoded = lines[i].as_str().as_bytes();
        bytes.extend_from_slice(encoded);
        assert(bytes@ =~= before + encode_utf8(lines@[i as int]@));
        bytes.push(CARRIAGE_RETURN);
        bytes.push(LINE_FEED);
        i += 1;
    }
    assert(lines.deep_view().take(i as int) =~= lines.deep_view());
    bytes
}

} // verus!
