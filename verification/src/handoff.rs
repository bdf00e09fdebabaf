//! The hand-off to the writer, a helper program that runs with the rights to
//! write the hosts file: what it is started with, and what it makes of that.

use crate::config::{optional_text, read_view, valid_names, Access, Config, ConfigView};
use crate::seqs::{filter_brings_nothing_in, filter_of_all, filter_of_none};
use crate::error::{IoError, IoErrorView};
use crate::text::{contains, has_substring, join, join_texts, split, split_on};
use crate::text_laws::join_then_split;
use vstd::prelude::*;

verus! {

/// The writer's file name.
pub const WRITER_EXE: &'static str = "wsl2-ip-host-writer.exe";

/// The sentence for a writer that could not be started.
pub const HAND_OFF_FAILED: &'static str = "Unable to run wsl2-ip-host-writer.";

/// The sentence for a writer that was started with too few or too many words.
pub const INSUFFICIENT_ARGUMENTS: &'static str = "Insufficient arguments provided.";

/// The highest code with which the shell reports that it started nothing.
pub const LAST_FAILURE_CODE: i32 = 31;

/// A program to start and the text of its arguments.
#[derive(Debug, PartialEq, Eq)]
pub struct HandOff {
    /// The file name of the program.
    pub program: String,
    /// Its arguments, as one text.
    pub arguments: String,
}

/// A `HandOff` with its texts as sequences of characters.
pub struct HandOffView {
    pub program: Seq<char>,
    pub arguments: Seq<char>,
}

impl View for HandOff {
    type V = HandOffView;

    open spec fn view(&self) -> HandOffView {
        HandOffView { program: self.program@, arguments: self.arguments@ }
    }
}

/// The arguments for the writer: the address, the names with commas between
/// them, and the path of the hosts file, with one space between each two.
pub open spec fn writer_arguments(ip: Seq<char>, config: ConfigView) -> Seq<char> {
    ip + seq![' '] + join(config.names, seq![',']) + seq![' '] + config.hosts_path
}

/// The hand-off that has the writer write the address `ip` for `state`.
pub open spec fn hand_off_for(ip: Seq<char>, state: ConfigView) -> HandOffView {
    HandOffView { program: WRITER_EXE@, arguments: writer_arguments(ip, state) }
}

/// The hand-off that has the writer write the address `ip` for `state`.
pub fn write_changes(ip: &str, state: &Config) -> (hand_off: HandOff)
    ensures
        hand_off@ == hand_off_for(ip@, state@),
{
    proof {
        reveal_strlit(" ");
        reveal_strlit(",");
        assert(" "@ =~= seq![' ']);
        assert(","@ =~= seq![',']);
    }
    let names = join_texts(state.names.as_slice(), ",");
    let mut arguments = ip.to_owned();
    arguments.append(" ");
    arguments.append(names.as_str());
    arguments.append(" ");
    arguments.append(state.hosts_path.as_str());
    HandOff { program: WRITER_EXE.to_owned(), arguments }
}

/// Whether the shell, which answered the hand-off with `code`, started the writer.
pub fn hand_off_succeeded(code: i32) -> (r: bool)
    ensures
        r == (code > LAST_FAILURE_CODE),
{
    code > LAST_FAILURE_CODE
}

/// What the writer is asked to do.
#[derive(Debug, PartialEq, Eq)]
pub struct WriterRequest {
    /// The address to write.
    pub ip: String,
    /// The names to write it for, with commas between them.
    pub domains: String,
    /// The path of the hosts file.
    pub path: String,
}

/// A `WriterRequest` with its texts as sequences of characters.
pub struct WriterRequestView {
    pub ip: Seq<char>,
    pub domains: Seq<char>,
    pub path: Seq<char>,
}

impl View for WriterRequest {
    type V = WriterRequestView;

    open spec fn view(&self) -> WriterRequestView {
        WriterRequestView { ip: self.ip@, domains: self.domains@, path: self.path@ }
    }
}

/// What the words `args` that the writer was started with, its own name
/// first, ask for: the address, the names and the path, in this order.
///
/// Fails unless there are exactly three words after the name.
pub fn writer_request(args: &[String]) -> (r: Result<WriterRequest, String>)
    ensures
        args.len() == 4 ==> (r matches Ok(request) && request@ == (WriterRequestView {
            ip: args[1]@,
            domains: args[2]@,
            path: args[3]@,
        })),
        args.len() != 4 ==> (r matches Err(text) && text@ == INSUFFICIENT_ARGUMENTS@),
{
    if args.len() != 4 {
        return Err(INSUFFICIENT_ARGUMENTS.to_owned());
    }
    Ok(WriterRequest { ip: args[1].clone(), domains: args[2].clone(), path: args[3].clone() })
}

/// `names` with each of `more` added at the end, in their order, unless it is
/// there already.
pub open spec fn with_added(names: Seq<Seq<char>>, more: Seq<Seq<char>>) -> Seq<Seq<char>>
    decreases more.len(),
{
    if more.len() == 0 {
        names
    } else {
        let before = with_added(names, more.drop_last());
        if before.contains(more.last()) {
            before
        } else {
            before.push(more.last())
        }
    }
}

/// The test that keeps a piece of the joined names: it is not empty.
pub open spec fn is_name() -> spec_fn(Seq<char>) -> bool {
    |piece: Seq<char>| piece.len() > 0
}

/// The names in the joined names `domains`: its pieces between the commas,
/// without the empty ones, each once.
pub open spec fn names_between_commas(domains: Seq<char>) -> Seq<Seq<char>> {
    with_added(Seq::empty(), split_on(domains, ',').filter(is_name()))
}

/// The configuration that the writer works with: the hosts file at `path`
/// and the names between the commas of `domains`, each once and none empty.
/// The joined names of no names are the empty text, which gives no name.
pub open spec fn writer_config(path: Seq<char>, domains: Seq<char>) -> ConfigView {
    ConfigView {
        hosts_path: path,
        names: names_between_commas(domains),
        distro: None,
        last_address: None,
    }
}

/// The configuration that the writer works with.
pub fn config_for_writer(path: &str, domains: &str) -> (config: Config)
    ensures
        config@ == writer_config(path@, domains@),
{
    let mut config = Config::with_hosts_path(path);
    let pieces = split(domains, ',');
    let mut i: usize = 0;
    proof {
        reveal(Seq::filter);
        assert(pieces.deep_view().take(0) =~= Seq::<Seq<char>>::empty());
    }
    while i < pieces.len()
        invariant
            i <= pieces.len(),
            config@ == (ConfigView {
                hosts_path: path@,
                names: with_added(
                    Seq::empty(),
                    pieces.deep_view().take(i as int).filter(is_name()),
                ),
                distro: None,
                last_address: None,
            }),
        decreases pieces.len() - i,
    {
        proof {
            let head = pieces.deep_view().take(i as int);
            let piece = pieces@[i as int]@;
            assert(pieces.deep_view().take(i + 1) =~= head.push(piece));
            head.lemma_filter_push(piece, is_name());
            if is_name()(piece) {
                let next = head.filter(is_name()).push(piece);
                assert(next.drop_last() =~= head.filter(is_name()));
                assert(next.last() == piece);
            }
        }
        if !pieces[i].as_str().is_empty() {
            config.add_name(pieces[i].clone());
        }
        i += 1;
    }
    assert(pieces.deep_view().take(i as int) =~= pieces.deep_view());
    config
}

/// The bytes that the writer writes to the hosts file.
///
/// `access` is what a look at the file found and `read` what reading it gave.
/// Fails where the file may not be written, may not be read, was not read,
/// or does not hold text; nothing is to be written then.
pub fn save(
    path: &str,
    domains: &str,
    ip: &str,
    access: &Access,
    read: &Result<Vec<u8>, String>,
) -> (r: Result<Vec<u8>, IoError>)
    ensures
        match writer_config(path@, domains@).write_outcome(ip@, access@, read_view(*read)) {
            Ok(bytes) => r matches Ok(b) && b@ == bytes,
            Err(error) => r matches Err(e) && e@ == error,
        },
{
    let config = config_for_writer(path, domains);
    config.write_file(ip, access, read)
}

/// The words shown above a notice of a write.
pub const NOTICE_SUMMARY: &'static str = "Wrote to hosts file";

/// The words with which a notice of a write begins.
pub const NOTICE_INTRO: &'static str = "Applied the following domains to the hosts file. \r\n\r\n";

/// For how many milliseconds a notice is shown.
pub const NOTICE_TIMEOUT: u32 = 5000;

/// A notice for the user.
#[derive(Debug, PartialEq, Eq)]
pub struct Notice {
    /// The words shown above the notice.
    pub summary: String,
    /// The words of the notice.
    pub body: String,
    /// For how many milliseconds it is shown.
    pub timeout: u32,
}

/// A `Notice` with its texts as sequences of characters.
pub struct NoticeView {
    pub summary: Seq<char>,
    pub body: Seq<char>,
    pub timeout: u32,
}

impl View for Notice {
    type V = NoticeView;

    open spec fn view(&self) -> NoticeView {
        NoticeView { summary: self.summary@, body: self.body@, timeout: self.timeout }
    }
}

/// The address `ip` before each of `names`, with a space between the two.
pub open spec fn pairs(ip: Seq<char>, names: Seq<Seq<char>>) -> Seq<Seq<char>> {
    Seq::new(names.len(), |i: int| ip + seq![' '] + names[i])
}

/// The notice of a write of the address `ip` for `names`: one line for each name.
pub open spec fn notice_of(ip: Seq<char>, names: Seq<Seq<char>>) -> NoticeView {
    NoticeView {
        summary: NOTICE_SUMMARY@,
        body: NOTICE_INTRO@ + join(pairs(ip, names), seq!['\r', '\n']),
        timeout: NOTICE_TIMEOUT,
    }
}

/// The notice of a write of the address `ip` for `domains`.
pub fn notify(ip: &str, domains: &[String]) -> (notice: Notice)
    ensures
        notice@ == notice_of(ip@, domains.deep_view()),
{
    proof {
        reveal_strlit(" ");
        reveal_strlit("\r\n");
        assert(" "@ =~= seq![' ']);
        assert("\r\n"@ =~= seq!['\r', '\n']);
    }
    let mut lines: Vec<String> = Vec::new();
    let mut i: usize = 0;
    while i < domains.len()
        invariant
            i <= domains.len(),
            " "@ == seq![' '],
            lines.deep_view() == pairs(ip@, domains.deep_view()).take(i as int),
        decreases domains.len() - i,
    {
        let ghost before = lines.deep_view();
        let mut line = ip.to_owned();
        line.append(" ");
        line.append(domains[i].as_str());
        lines.push(line);
        assert(lines.deep_view() =~= before.push(ip@ + seq![' '] + domains@[i as int]@));
        assert(lines.deep_view() =~= pairs(ip@, domains.deep_view()).take(i + 1));
        i += 1;
    }
    assert(lines.deep_view() =~= pairs(ip@, domains.deep_view()));
    let text = join_texts(lines.as_slice(), "\r\n");
    let mut body = NOTICE_INTRO.to_owned();
    body.append(text.as_str());
    Notice { summary: NOTICE_SUMMARY.to_owned(), body, timeout: NOTICE_TIMEOUT }
}

/// What the writer reports of its write to the file at `path`: success, or
/// the failure with the system's words.
pub fn report_write(path: &str, wrote: Result<(), String>) -> (r: Result<(), IoError>)
    ensures
        match wrote {
            Ok(_) => r is Ok,
            Err(cause) => r matches Err(e) && e@ == (IoErrorView::WriteFailed {
                path: path@,
                cause: cause@,
            }),
        },
{
    match wrote {
        Ok(_) => Ok(()),
        Err(cause) => Err(IoError::WriteFailed { path: path.to_owned(), cause }),
    }
}

/// Why a program could not be started.
#[derive(Debug, PartialEq, Eq)]
pub struct SpawnFailure {
    /// The system's words.
    pub text: String,
    /// Whether the system found no such program.
    pub not_found: bool,
}

/// The words by which the system says that a program needs more rights.
pub const REQUIRES_ELEVATION: &'static str = "requires elevation";

/// The words before the system's when the writer is not found.
pub const WRITER_NOT_FOUND: &'static str = "wsl2-ip-host-writer.exe not found: ";

/// What is wrong with the writer, given the system's words `text` after a
/// failed trial start and whether it found no such program: nothing where
/// the writer only needs more rights.
pub open spec fn writer_trouble(text: Seq<char>, not_found: bool) -> Option<Seq<char>> {
    if has_substring(text, REQUIRES_ELEVATION@) {
        None
    } else if not_found {
        Some(WRITER_NOT_FOUND@ + text)
    } else {
        Some(text)
    }
}

/// What is wrong with the writer, given what came of a trial start: nothing
/// where it started or only needs more rights, else the words to show.
pub fn find_writer(spawned: &Result<(), SpawnFailure>) -> (trouble: Option<String>)
    ensures
        optional_text(trouble) == match *spawned {
            Ok(_) => None,
            Err(failure) => writer_trouble(failure.text@, failure.not_found),
        },
{
    match spawned {
        Ok(_) => None,
        Err(failure) => {
            if contains(failure.text.as_str(), REQUIRES_ELEVATION) {
                None
            } else if failure.not_found {
                let mut text = WRITER_NOT_FOUND.to_owned();
                text.append(failure.text.as_str());
                Some(text)
            } else {
                Some(failure.text.clone())
            }
        },
    }
}

/// Adding names keeps the names that were there, in their places, brings in
/// exactly the names that are added, and lets none stand twice.
pub proof fn added_names_stand_once(names: Seq<Seq<char>>, more: Seq<Seq<char>>)
    ensures
        names.len() <= with_added(names, more).len(),
        with_added(names, more).take(names.len() as int) == names,
        forall|x: Seq<char>| #[trigger]
            with_added(names, more).contains(x) <==> names.contains(x) || more.contains(x),
        names.no_duplicates() ==> with_added(names, more).no_duplicates(),
    decreases more.len(),
{
    let all = with_added(names, more);
    if more.len() == 0 {
        assert(names.take(names.len() as int) =~= names);
    } else {
        let front = more.drop_last();
        let before = with_added(names, front);
        added_names_stand_once(names, front);
        assert(all.take(names.len() as int) =~= before.take(names.len() as int));
        assert forall|x: Seq<char>| #[trigger] all.contains(x) <==> names.contains(x)
            || more.contains(x) by {
            if all.contains(x) {
                let k = choose|k: int| 0 <= k < all.len() && all[k] == x;
                if k < before.len() {
                    assert(before[k] == x);
                    assert(before.contains(x));
                    if front.contains(x) {
                        let j = choose|j: int| 0 <= j < front.len() && front[j] == x;
                        assert(more[j] == x);
                    }
                } else {
                    assert(more[more.len() - 1] == x);
                }
            }
            if more.contains(x) {
                let j = choose|j: int| 0 <= j < more.len() && more[j] == x;
                if j < front.len() {
                    assert(front[j] == x);
                    assert(front.contains(x));
                    assert(before.contains(x));
                } else if !before.contains(x) {
                    assert(all[all.len() - 1] == x);
                }
            }
            if before.contains(x) {
                let k = choose|k: int| 0 <= k < before.len() && before[k] == x;
                assert(all[k] == x);
            }
        }
    }
}

/// Names of which none stands twice, added to no names, are those names.
pub proof fn adding_to_none(names: Seq<Seq<char>>)
    requires
        names.no_duplicates(),
    ensures
        with_added(Seq::empty(), names) == names,
    decreases names.len(),
{
    if names.len() > 0 {
        let front = names.drop_last();
        assert forall|i: int, j: int| 0 <= i < front.len() && 0 <= j < front.len() && i
            != j implies front[i] != front[j] by {
            assert(front[i] == names[i] && front[j] == names[j]);
        }
        adding_to_none(front);
        if front.contains(names.last()) {
            let k = choose|k: int| 0 <= k < front.len() && front[k] == names.last();
            assert(names[k] == names[names.len() - 1]);
        }
        assert(front.push(names.last()) =~= names);
    }
}

/// The writer works with the names and the path that it was handed: where
/// no name is empty, stands twice, or holds a comma, the names that the
/// writer takes from the joined names are the names of the configuration,
/// be there many, one, or none.
pub proof fn names_survive_the_hand_off(config: ConfigView)
    requires
        valid_names(config.names),
        forall|i: int| 0 <= i < config.names.len() ==> !(#[trigger] config.names[i]).contains(','),
    ensures
        writer_config(config.hosts_path, join(config.names, seq![','])) == (ConfigView {
            distro: None,
            last_address: None,
            ..config
        }),
{
    let joined = join(config.names, seq![',']);
    let pieces = split_on(joined, ',');
    if config.names.len() == 0 {
        assert(pieces =~= seq![Seq::<char>::empty()]);
        assert forall|i: int| 0 <= i < pieces.len() implies !is_name()(#[trigger] pieces[i]) by {}
        filter_of_none(pieces, is_name());
        assert(names_between_commas(joined) =~= config.names);
    } else {
        join_then_split(config.names, ',');
        assert forall|i: int| 0 <= i < pieces.len() implies is_name()(#[trigger] pieces[i]) by {
            assert(config.names[i].len() > 0);
        }
        filter_of_all(pieces, is_name());
        adding_to_none(config.names);
        assert(names_between_commas(joined) == config.names);
    }
}

/// The writer's names are well-formed: none is empty and none stands twice,
/// whatever the joined names hold.
pub proof fn writer_names_are_valid(domains: Seq<char>)
    ensures
        valid_names(names_between_commas(domains)),
{
    let pieces = split_on(domains, ',').filter(is_name());
    let names = names_between_commas(domains);
    added_names_stand_once(Seq::empty(), pieces);
    filter_brings_nothing_in(split_on(domains, ','), is_name());
    assert forall|i: int| 0 <= i < names.len() implies (#[trigger] names[i]).len() > 0 by {
        assert(names.contains(names[i]));
        assert(pieces.contains(names[i]));
    }
}

} // verus!
