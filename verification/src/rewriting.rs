//! What holds of a hosts file that is reconciled, written, and read again.

use crate::config::{AccessView, ConfigView};
use crate::decode::{refusal, utf8_decoded};
use crate::encoding::{encoding_of_char, encoding_of_concat};
use crate::hosts::{
    file_bytes, foreign_lines, is_foreign, is_managed, lines_in, lines_of, managed_line,
    managed_lines, marker, reconciled, without_carriage_return, CARRIAGE_RETURN, LINE_FEED,
};
use crate::seqs::{
    filter_brings_nothing_in, filter_keeps_order, filter_of_all, filter_of_none, filter_twice,
    kept_indices,
};
use crate::text::{occurs_at, position, position_after, split_on};
use crate::text_laws::split_then_join;
use vstd::prelude::*;
use vstd::utf8::{
    decode_utf8, encode_utf8, encode_utf8_decode_utf8, encode_utf8_valid_utf8, valid_utf8,
};

verus! {

/// The marker holds neither a line feed nor a carriage return, and is not empty.
pub proof fn marker_is_one_line()
    ensures
        marker().len() == 23,
        forall|i: int| 0 <= i < marker().len() ==> marker()[i] != '\n' && marker()[i] != '\r',
{
    reveal_strlit("# added by wsl2-ip-host");
}

/// A managed line holds the marker, whatever the address and the name.
pub proof fn managed_line_is_managed(ip: Seq<char>, name: Seq<char>)
    ensures
        is_managed(managed_line(ip, name)),
{
    let line = managed_line(ip, name);
    let at = (ip.len() + 1 + name.len() + 1) as int;
    assert(line.subrange(at, at + marker().len()) =~= marker());
    assert(occurs_at(line, marker(), at));
}

/// Reconciling a second time, with the same address and names, changes
/// nothing: old managed lines never pile up.
pub proof fn reconciling_twice(lines: Seq<Seq<char>>, ip: Seq<char>, names: Seq<Seq<char>>)
    ensures
        reconciled(reconciled(lines, ip, names), ip, names) == reconciled(lines, ip, names),
{
    let kept = foreign_lines(lines);
    let added = managed_lines(ip, names);
    Seq::filter_distributes_over_add(kept, added, is_foreign());
    filter_twice(lines, is_foreign());
    assert forall|j: int| 0 <= j < added.len() implies !is_foreign()(#[trigger] added[j]) by {
        managed_line_is_managed(ip, names[j]);
    }
    filter_of_none(added, is_foreign());
    assert(kept + Seq::<Seq<char>>::empty() =~= kept);
}

/// Reconciling keeps the foreign lines and nothing else of the file: they
/// stand first, each as it was and in the order it had, and after them
/// stands one managed line for each name, in the order of the names.
pub proof fn foreign_lines_are_kept(lines: Seq<Seq<char>>, ip: Seq<char>, names: Seq<Seq<char>>)
    ensures
        ({
            let after = reconciled(lines, ip, names);
            let kept = foreign_lines(lines);
            let at = kept_indices(lines, is_foreign());
            &&& after.len() == kept.len() + names.len()
            &&& after.take(kept.len() as int) == kept
            &&& at.len() == kept.len()
            &&& forall|k: int|
                0 <= k < kept.len() ==> 0 <= #[trigger] at[k] < lines.len() && after[k]
                    == lines[at[k]] && !is_managed(after[k])
            &&& forall|j: int, k: int|
                0 <= j < k < kept.len() ==> (#[trigger] at[j]) < (#[trigger] at[k])
            &&& forall|i: int|
                0 <= i < lines.len() && !is_managed(#[trigger] lines[i]) ==> at.contains(i)
            &&& forall|j: int|
                0 <= j < names.len() ==> #[trigger] after[kept.len() + j] == managed_line(
                    ip,
                    names[j],
                ) && is_managed(after[kept.len() + j])
        }),
        (forall|i: int| 0 <= i < lines.len() ==> !is_managed(#[trigger] lines[i]))
            ==> foreign_lines(lines) == lines,
{
    let after = reconciled(lines, ip, names);
    let kept = foreign_lines(lines);
    let at = kept_indices(lines, is_foreign());
    filter_keeps_order(lines, is_foreign());
    assert(after.take(kept.len() as int) =~= kept);
    assert forall|k: int| 0 <= k < kept.len() implies 0 <= #[trigger] at[k] < lines.len()
        && after[k] == lines[at[k]] && !is_managed(after[k]) by {
        assert(is_foreign()(lines[at[k]]));
    }
    assert forall|i: int| 0 <= i < lines.len() && !is_managed(#[trigger] lines[i]) implies at.contains(
        i,
    ) by {
        assert(is_foreign()(lines[i]));
    }
    assert forall|j: int| 0 <= j < names.len() implies #[trigger] after[kept.len() + j]
        == managed_line(ip, names[j]) && is_managed(after[kept.len() + j]) by {
        managed_line_is_managed(ip, names[j]);
    }
    if forall|i: int| 0 <= i < lines.len() ==> !is_managed(#[trigger] lines[i]) {
        assert forall|i: int| 0 <= i < lines.len() implies is_foreign()(#[trigger] lines[i]) by {
            assert(!is_managed(lines[i]));
        }
        filter_of_all(lines, is_foreign());
    }
}

/// A line that a file gives back as it was written: it holds no line feed.
pub open spec fn reads_back(line: Seq<char>) -> bool {
    !line.contains('\n')
}

/// The ending of a written line: a carriage return and a line feed.
pub open spec fn line_ending() -> Seq<char> {
    seq!['\r', '\n']
}

/// The text of a file that holds `lines`, each followed by the line ending.
pub open spec fn file_text(lines: Seq<Seq<char>>) -> Seq<char>
    decreases lines.len(),
{
    if lines.len() == 0 {
        Seq::empty()
    } else {
        file_text(lines.drop_last()) + lines.last() + line_ending()
    }
}

/// The line ending is encoded as the two bytes of its two characters.
proof fn line_ending_in_bytes()
    ensures
        encode_utf8(line_ending()) == seq![CARRIAGE_RETURN, LINE_FEED],
{
    let feed = seq!['\n'];
    encoding_of_char('\r');
    encoding_of_char('\n');
    assert(line_ending().drop_first() =~= feed);
    assert(feed.drop_first() =~= Seq::<char>::empty());
    assert(encode_utf8(feed.drop_first()) =~= Seq::<u8>::empty());
    assert(encode_utf8(feed) =~= seq![LINE_FEED]);
    assert(encode_utf8(line_ending()) =~= seq![CARRIAGE_RETURN, LINE_FEED]);
}

/// The bytes of a file are the encoding of its text.
pub proof fn file_bytes_encode_the_text(lines: Seq<Seq<char>>)
    ensures
        file_bytes(lines) == encode_utf8(file_text(lines)),
    decreases lines.len(),
{
    if lines.len() > 0 {
        let front = lines.drop_last();
        file_bytes_encode_the_text(front);
        encoding_of_concat(file_text(front) + lines.last(), line_ending());
        encoding_of_concat(file_text(front), lines.last());
        line_ending_in_bytes();
    }
}

/// The text of two lists of lines in a row is the text of each in a row.
pub proof fn file_text_of_concat(a: Seq<Seq<char>>, b: Seq<Seq<char>>)
    ensures
        file_text(a + b) == file_text(a) + file_text(b),
    decreases b.len(),
{
    if b.len() == 0 {
        assert(a + b =~= a);
        assert(file_text(a) + file_text(b) =~= file_text(a));
    } else {
        assert((a + b).drop_last() =~= a + b.drop_last());
        file_text_of_concat(a, b.drop_last());
        assert(file_text(a + b) =~= file_text(a) + file_text(b));
    }
}

/// Every line of a text reads back as it is: none holds a line feed.
pub proof fn lines_read_back(text: Seq<char>)
    ensures
        forall|i: int| 0 <= i < lines_in(text).len() ==> reads_back(#[trigger] lines_in(text)[i]),
{
    let pieces = split_on(text, '\n');
    let lines = lines_in(text);
    split_then_join(text, '\n');
    assert forall|i: int| 0 <= i < lines.len() implies reads_back(#[trigger] lines[i]) by {
        let piece = pieces[i];
        assert(!piece.contains('\n'));
        if lines[i].contains('\n') {
            let k = choose|k: int| 0 <= k < lines[i].len() && lines[i][k] == '\n';
            assert(piece[k] == '\n');
        }
    }
}

/// The pieces between the line feeds of a written file: each line with a
/// carriage return after it.
pub open spec fn written_pieces(lines: Seq<Seq<char>>) -> Seq<Seq<char>> {
    Seq::new(lines.len(), |i: int| lines[i].push('\r'))
}

/// The text of a file splits at its line feeds into its lines, each with a
/// carriage return after it, and an empty piece after the last, where no
/// line holds a line feed.
proof fn file_text_splits_into_lines(lines: Seq<Seq<char>>)
    requires
        forall|i: int| 0 <= i < lines.len() ==> !(#[trigger] lines[i]).contains('\n'),
    ensures
        split_on(file_text(lines), '\n') == written_pieces(lines).push(Seq::empty()),
    decreases lines.len(),
{
    if lines.len() == 0 {
        assert(written_pieces(lines).push(Seq::<char>::empty()) =~= seq![Seq::<char>::empty()]);
    } else {
        let first = lines[0];
        let rest = lines.drop_first();
        let ended = first.push('\r');
        assert(lines =~= seq![first] + rest);
        file_text_of_concat(seq![first], rest);
        assert(seq![first].drop_last() =~= Seq::<Seq<char>>::empty());
        assert(file_text(seq![first].drop_last()) =~= Seq::<char>::empty());
        assert(file_text(seq![first]) =~= ended + seq!['\n']);
        let tail = seq!['\n'] + file_text(rest);
        let text = file_text(lines);
        assert(text =~= ended + tail);
        if ended.contains('\n') {
            let k = choose|k: int| 0 <= k < ended.len() && ended[k] == '\n';
            assert(first[k] == '\n');
        }
        position_after(ended, tail, '\n');
        assert(position(tail, '\n') == 0);
        let p = position(text, '\n');
        assert(text.take(p) =~= ended);
        assert(text.skip(p + 1) =~= file_text(rest));
        assert forall|i: int| 0 <= i < rest.len() implies !(#[trigger] rest[i]).contains(
            '\n',
        ) by {
            assert(rest[i] == lines[i + 1]);
        }
        file_text_splits_into_lines(rest);
        assert(seq![ended] + written_pieces(rest).push(Seq::empty()) =~= written_pieces(
            lines,
        ).push(Seq::empty()));
    }
}

/// Lines without a line feed are the lines of the file that holds them:
/// writing and reading again loses nothing, whatever the lines end with.
pub proof fn written_lines_read_back(lines: Seq<Seq<char>>)
    requires
        forall|i: int| 0 <= i < lines.len() ==> reads_back(#[trigger] lines[i]),
    ensures
        lines_in(file_text(lines)) == lines,
        lines_of(file_bytes(lines)) == Ok::<Seq<Seq<char>>, Seq<char>>(lines),
{
    let text = file_text(lines);
    assert forall|i: int| 0 <= i < lines.len() implies !(#[trigger] lines[i]).contains('\n') by {
        assert(reads_back(lines[i]));
    }
    file_text_splits_into_lines(lines);
    let pieces = split_on(text, '\n');
    assert(pieces.len() == lines.len() + 1);
    assert(pieces.last().len() == 0);
    assert forall|i: int| 0 <= i < lines.len() implies without_carriage_return(pieces[i])
        == lines[i] by {
        assert(pieces[i] == lines[i].push('\r'));
        assert(lines[i].push('\r').drop_last() =~= lines[i]);
    }
    assert(lines_in(text) =~= lines);
    file_bytes_encode_the_text(lines);
    encode_utf8_valid_utf8(text);
    encode_utf8_decode_utf8(text);
}

/// The lines of a reconciled file read back as they are, where the lines of
/// the file did, and where neither a name nor, if there are names, the
/// address holds a line feed.
pub proof fn reconciled_lines_read_back(
    lines: Seq<Seq<char>>,
    ip: Seq<char>,
    names: Seq<Seq<char>>,
)
    requires
        forall|i: int| 0 <= i < lines.len() ==> reads_back(#[trigger] lines[i]),
        forall|j: int| 0 <= j < names.len() ==> !(#[trigger] names[j]).contains('\n'),
        names.len() > 0 ==> !ip.contains('\n'),
    ensures
        forall|i: int|
            0 <= i < reconciled(lines, ip, names).len() ==> reads_back(
                #[trigger] reconciled(lines, ip, names)[i],
            ),
{
    let kept = foreign_lines(lines);
    let after = reconciled(lines, ip, names);
    filter_brings_nothing_in(lines, is_foreign());
    marker_is_one_line();
    assert forall|i: int| 0 <= i < after.len() implies reads_back(#[trigger] after[i]) by {
        if i < kept.len() {
            assert(after[i] == kept[i]);
            assert(kept.contains(kept[i]));
            assert(lines.contains(kept[i]));
            let j = choose|j: int| 0 <= j < lines.len() && lines[j] == kept[i];
            assert(reads_back(lines[j]));
        } else {
            let name = names[i - kept.len()];
            let line = managed_line(ip, name);
            assert(after[i] == line);
            if line.contains('\n') {
                let k = choose|k: int| 0 <= k < line.len() && line[k] == '\n';
                if k < ip.len() {
                    assert(ip[k] == '\n');
                } else if k == ip.len() {
                } else if k < ip.len() + 1 + name.len() {
                    assert(name[k - ip.len() - 1] == '\n');
                } else if k == ip.len() + 1 + name.len() {
                } else {
                    assert(marker()[k - ip.len() - 1 - name.len() - 1] == '\n');
                }
            }
        }
    }
}

/// What is written reads back as it was meant: the file that a write leaves
/// holds the foreign lines of the file before it, each as it was read, and
/// after them one managed line for each name, where neither a name nor, if
/// there are names, the address holds a line feed.
pub proof fn written_file_holds_the_reconciled_lines(
    config: ConfigView,
    ip: Seq<char>,
    access: AccessView,
    bytes: Seq<u8>,
)
    requires
        forall|j: int| 0 <= j < config.names.len() ==> !(#[trigger] config.names[j]).contains('\n'),
        config.names.len() > 0 ==> !ip.contains('\n'),
    ensures
        config.write_outcome(ip, access, Ok(bytes)) matches Ok(written) ==> (lines_of(
            bytes,
        ) matches Ok(lines) && lines_of(written) == Ok::<Seq<Seq<char>>, Seq<char>>(
            reconciled(lines, ip, config.names),
        )),
{
    if config.write_outcome(ip, access, Ok(bytes)) is Ok {
        let lines = lines_in(decode_utf8(bytes));
        lines_read_back(decode_utf8(bytes));
        reconciled_lines_read_back(lines, ip, config.names);
        written_lines_read_back(reconciled(lines, ip, config.names));
    }
}

/// A file that is not text is refused as a whole: what was read of it counts
/// as a failed read, nothing is to be written, and the file stays as it is,
/// with every line it holds. Such a file is never written, whatever the
/// names, until it is made text.
pub proof fn a_file_that_is_not_text_stays(
    config: ConfigView,
    ip: Seq<char>,
    access: AccessView,
    bytes: Seq<u8>,
)
    requires
        !valid_utf8(bytes),
    ensures
        access.read ==> config.read_outcome(access, Ok(bytes)) == Err::<
            Seq<Seq<char>>,
            crate::error::IoErrorView,
        >(
            crate::error::IoErrorView::ReadFailed {
                path: config.hosts_path,
                cause: refusal(utf8_decoded(bytes)),
            },
        ),
        config.preview_outcome(ip, access, Ok(bytes)) is Err,
        config.write_outcome(ip, access, Ok(bytes)) is Err,
        config.file_after(ip, access, bytes) == bytes,
{
}

/// Writing the hosts file twice in a row, with the same names and the same
/// address, leaves the bytes of the first write, whatever the file held
/// before: old managed lines never pile up, and no line is lost or moved.
///
/// This holds where neither a name nor, if there are names, the address
/// holds a line feed.
pub proof fn writing_twice(config: ConfigView, ip: Seq<char>, access: AccessView, bytes: Seq<u8>)
    requires
        forall|j: int| 0 <= j < config.names.len() ==> !(#[trigger] config.names[j]).contains('\n'),
        config.names.len() > 0 ==> !ip.contains('\n'),
    ensures
        config.file_after(ip, access, config.file_after(ip, access, bytes)) == config.file_after(
            ip,
            access,
            bytes,
        ),
        config.write_outcome(ip, access, Ok(bytes)) matches Ok(first) ==> config.write_outcome(
            ip,
            access,
            Ok(first),
        ) == Ok::<Seq<u8>, crate::error::IoErrorView>(first),
{
    if config.write_outcome(ip, access, Ok(bytes)) is Ok {
        let lines = lines_in(decode_utf8(bytes));
        written_file_holds_the_reconciled_lines(config, ip, access, bytes);
        reconciling_twice(lines, ip, config.names);
    }
}

} // verus!
