//! The address of the virtual machine, read from the output of the `ip`
//! command that `wsl.exe` runs inside it, and the list of distributions.

use crate::decode::{
    decode_utf16_units, decode_utf8_bytes, refusal, utf16_decoded, utf16_text, utf8_decoded,
};
use crate::error::{DiscoveryError, DiscoveryErrorView};
use crate::text::{
    chars_of, find_char, last_token, last_token_of, position, position_is_first, remove_all,
    split_lines, text_lines, trim, trimmed, without,
};
use vstd::prelude::*;
use vstd::utf8::{decode_utf8, valid_utf8};

verus! {

/// The program that is asked.
pub const WSL_EXE: &'static str = "wsl.exe";

/// The sentence for an address query that ended with a failure and wrote no text.
pub const IP_FAILED: &'static str = "Unable to run ip command.";

/// The sentence for a listing that ended with a failure and wrote no text.
pub const LIST_FAILED: &'static str = "Unable to get a list of distros from wsl.exe.";

/// How a command ended and what it wrote.
#[derive(Debug, PartialEq, Eq)]
pub struct CommandOutput {
    /// Whether the command ended with success.
    pub success: bool,
    /// What it wrote to its output stream.
    pub stdout: Vec<u8>,
    /// What it wrote to its error stream.
    pub stderr: Vec<u8>,
}

/// A `CommandOutput` as plain mathematical values.
pub struct CommandOutputView {
    pub success: bool,
    pub stdout: Seq<u8>,
    pub stderr: Seq<u8>,
}

impl View for CommandOutput {
    type V = CommandOutputView;

    open spec fn view(&self) -> CommandOutputView {
        CommandOutputView { success: self.success, stdout: self.stdout@, stderr: self.stderr@ }
    }
}

/// What running a command gave, as plain values: its output, or the words of
/// the failure to start it.
pub open spec fn ran_view(ran: Result<CommandOutput, String>) -> Result<
    CommandOutputView,
    Seq<char>,
> {
    match ran {
        Ok(output) => Ok(output@),
        Err(cause) => Err(cause@),
    }
}

/// The arguments with which `wsl.exe` prints the IPv4 addresses of `eth0` in
/// brief form, in the distribution `distro` or in the default one.
pub open spec fn ip_arguments(distro: Option<Seq<char>>) -> Seq<Seq<char>> {
    let query = seq!["--"@, "ip"@, "-4"@, "-br"@, "address"@, "show"@, "eth0"@];
    match distro {
        Some(name) => seq!["-d"@, name] + query,
        None => query,
    }
}

/// The arguments with which `wsl.exe` lists all distributions.
pub open spec fn list_arguments() -> Seq<Seq<char>> {
    seq!["-l"@, "--all"@]
}

/// The arguments for the address query.
pub fn wsl_ip_args(distro: &Option<String>) -> (args: Vec<String>)
    ensures
        args.deep_view() == ip_arguments(crate::config::optional_text(*distro)),
{
    let mut args: Vec<String> = Vec::new();
    match distro {
        Some(name) => {
            args.push("-d".to_owned());
            args.push(name.clone());
        },
        None => {},
    }
    args.push("--".to_owned());
    args.push("ip".to_owned());
    args.push("-4".to_owned());
    args.push("-br".to_owned());
    args.push("address".to_owned());
    args.push("show".to_owned());
    args.push("eth0".to_owned());
    assert(args.deep_view() =~= ip_arguments(crate::config::optional_text(*distro)));
    args
}

/// The arguments for the listing of distributions.
pub fn wsl_list_args() -> (args: Vec<String>)
    ensures
        args.deep_view() == list_arguments(),
{
    let mut args: Vec<String> = Vec::new();
    args.push("-l".to_owned());
    args.push("--all".to_owned());
    assert(args.deep_view() =~= list_arguments());
    args
}

/// The address in the output `text` of the query: the last word of the text,
/// up to its first `/`.
pub open spec fn address_in(text: Seq<char>) -> Result<Seq<char>, DiscoveryErrorView> {
    match last_token(text) {
        None => Err(DiscoveryErrorView::NoTokens),
        Some(token) => if token.contains('/') {
            Ok(token.take(position(token, '/')))
        } else {
            Err(DiscoveryErrorView::MalformedAddress)
        },
    }
}

/// What is found in an output is an address without a `/`, which stands at
/// the start of the last word and before the first `/` of it. Nothing is
/// found exactly where the output holds no word, or no `/` in its last word.
pub proof fn address_is_before_the_slash(text: Seq<char>)
    ensures
        address_in(text) matches Ok(address) ==> (last_token(text) matches Some(token) && {
            &&& !address.contains('/')
            &&& address.len() < token.len()
            &&& token.take(address.len() as int) == address
            &&& token[address.len() as int] == '/'
        }),
        address_in(text) == Err::<Seq<char>, DiscoveryErrorView>(DiscoveryErrorView::NoTokens)
            <==> last_token(text) is None,
        address_in(text) == Err::<Seq<char>, DiscoveryErrorView>(
            DiscoveryErrorView::MalformedAddress,
        ) <==> (last_token(text) matches Some(token) && !token.contains('/')),
{
    match last_token(text) {
        Some(token) => {
            position_is_first(token, '/');
            if token.contains('/') {
                let address = token.take(position(token, '/'));
                if address.contains('/') {
                    let k = choose|k: int| 0 <= k < address.len() && address[k] == '/';
                    assert(token[k] == '/');
                }
            }
        },
        None => {},
    }
}

/// The address in the output `text` of the query.
///
/// Fails where the text holds no word, and where its last word holds no `/`.
pub fn parse_address(text: &str) -> (r: Result<String, DiscoveryError>)
    ensures
        match address_in(text@) {
            Ok(address) => r matches Ok(a) && a@ == address,
            Err(error) => r matches Err(e) && e@ == error,
        },
{
    match last_token_of(text) {
        None => Err(DiscoveryError::NoTokens),
        Some(token) => {
            let chars = chars_of(token.as_str());
            let slash = find_char(chars.as_slice(), 0, '/');
            proof {
                assert(token@.skip(0) =~= token@);
                position_is_first(token@, '/');
            }
            if slash == chars.len() {
                Err(DiscoveryError::MalformedAddress)
            } else {
                let address = token.as_str().substring_char(0, slash).to_owned();
                assert(token@.subrange(0, slash as int) =~= token@.take(slash as int));
                Ok(address)
            }
        },
    }
}

/// What a failed command is reported with: what it wrote to its error stream
/// where that is text, else `fallback`.
pub open spec fn failure_text(stderr: Seq<u8>, fallback: Seq<char>) -> Seq<char> {
    if valid_utf8(stderr) {
        decode_utf8(stderr)
    } else {
        fallback
    }
}

/// The address that a run of the query gives.
pub open spec fn resolved(ran: Result<CommandOutputView, Seq<char>>) -> Result<
    Seq<char>,
    DiscoveryErrorView,
> {
    match ran {
        Err(cause) => Err(DiscoveryErrorView::Launch(cause)),
        Ok(output) => if !output.success {
            Err(DiscoveryErrorView::ExitFailure(failure_text(output.stderr, IP_FAILED@)))
        } else if !valid_utf8(output.stdout) {
            Err(DiscoveryErrorView::InvalidText(refusal(utf8_decoded(output.stdout))))
        } else {
            address_in(decode_utf8(output.stdout))
        },
    }
}

/// What a failed command is reported with.
fn failure_message(stderr: Vec<u8>, fallback: &str) -> (text: String)
    ensures
        text@ == failure_text(stderr@, fallback@),
{
    match decode_utf8_bytes(stderr) {
        Ok(text) => text,
        Err(_) => fallback.to_owned(),
    }
}

/// The address of the virtual machine, from what a run of the query gave.
///
/// Fails where the query could not be started, where it ended with a failure,
/// where its output is not text, holds no word, or holds no `/` in its last word.
pub fn find_wsl_ip(ran: Result<CommandOutput, String>) -> (r: Result<String, DiscoveryError>)
    ensures
        match resolved(ran_view(ran)) {
            Ok(address) => r matches Ok(a) && a@ == address,
            Err(error) => r matches Err(e) && e@ == error,
        },
{
    match ran {
        Err(cause) => Err(DiscoveryError::Launch(cause)),
        Ok(output) => {
            if !output.success {
                return Err(DiscoveryError::ExitFailure(failure_message(output.stderr, IP_FAILED)));
            }
            match decode_utf8_bytes(output.stdout) {
                Err(cause) => Err(DiscoveryError::InvalidText(cause)),
                Ok(text) => parse_address(text.as_str()),
            }
        },
    }
}

/// The 16-bit units that `bytes` hold in pairs, the low byte first; a last
/// byte without a partner is left out.
pub open spec fn paired_units(bytes: Seq<u8>) -> Seq<u16> {
    Seq::new((bytes.len() / 2) as nat, |i: int| (bytes[2 * i] + 256 * bytes[2 * i + 1]) as u16)
}

/// The 16-bit units that `bytes` hold in pairs, the low byte first.
pub fn pair_units(bytes: &[u8]) -> (units: Vec<u16>)
    ensures
        units@ == paired_units(bytes@),
{
    let mut units: Vec<u16> = Vec::new();
    let mut i: usize = 0;
    while i + 1 < bytes.len()
        invariant
            i % 2 == 0,
            i <= bytes.len(),
            units@ == paired_units(bytes@).take(i as int / 2),
        decreases bytes.len() - i,
    {
        let low: u16 = bytes[i] as u16;
        let high: u16 = bytes[i + 1] as u16;
        let ghost before = units@;
        units.push(low + 256 * high);
        assert(units@ =~= paired_units(bytes@).take(i as int / 2 + 1));
        i += 2;
    }
    assert(units@ =~= paired_units(bytes@));
    units
}

/// The names in a listing of distributions: its lines after the heading,
/// each without the white space around it.
pub open spec fn names_in(text: Seq<char>) -> Seq<Seq<char>> {
    let lines = text_lines(text);
    Seq::new((if lines.len() > 0 { lines.len() - 1 } else { 0 }) as nat, |i: int| trimmed(lines[i + 1]))
}

/// The names in a listing of distributions.
pub fn distro_names(text: &str) -> (names: Vec<String>)
    ensures
        names.deep_view() == names_in(text@),
{
    let lines = split_lines(text);
    let mut names: Vec<String> = Vec::new();
    if lines.len() == 0 {
        assert(names.deep_view() =~= names_in(text@));
        return names;
    }
    let mut i: usize = 1;
    while i < lines.len()
        invariant
            1 <= i <= lines.len(),
            lines.deep_view() == text_lines(text@),
            names.deep_view() == names_in(text@).take(i - 1),
        decreases lines.len() - i,
    {
        let ghost before = names.deep_view();
        names.push(trim(lines[i].as_str()));
        assert(names.deep_view() =~= before.push(trimmed(lines@[i as int]@)));
        assert(names.deep_view() =~= names_in(text@).take(i as int));
        i += 1;
    }
    assert(names.deep_view() =~= names_in(text@));
    names
}

/// The distributions that a run of the listing gives.
pub open spec fn listed(ran: Result<CommandOutputView, Seq<char>>) -> Result<
    Seq<Seq<char>>,
    DiscoveryErrorView,
> {
    match ran {
        Err(cause) => Err(DiscoveryErrorView::Launch(cause)),
        Ok(output) => if !output.success {
            Err(DiscoveryErrorView::ExitFailure(failure_text(output.stderr, LIST_FAILED@)))
        } else {
            match utf16_text(paired_units(output.stdout)) {
                Some(text) => Ok(names_in(text)),
                None => Err(
                    DiscoveryErrorView::InvalidText(
                        refusal(utf16_decoded(paired_units(output.stdout))),
                    ),
                ),
            }
        },
    }
}

/// The distributions of the machine, from what a run of the listing gave.
///
/// The listing is written in UTF-16. Fails where the listing could not be
/// started, where it ended with a failure, and where its output is not text.
pub fn find_wsl_distros(ran: Result<CommandOutput, String>) -> (r: Result<
    Vec<String>,
    DiscoveryError,
>)
    ensures
        match listed(ran_view(ran)) {
            Ok(names) => r matches Ok(n) && n.deep_view() == names,
            Err(error) => r matches Err(e) && e@ == error,
        },
{
    match ran {
        Err(cause) => Err(DiscoveryError::Launch(cause)),
        Ok(output) => {
            if !output.success {
                return Err(
                    DiscoveryError::ExitFailure(failure_message(output.stderr, LIST_FAILED)),
                );
            }
            let units = pair_units(output.stdout.as_slice());
            match decode_utf16_units(units.as_slice()) {
                Err(cause) => Err(DiscoveryError::InvalidText(cause)),
                Ok(text) => Ok(distro_names(text.as_str())),
            }
        },
    }
}

/// The mark that the list of distributions shows beside the default one.
pub const DEFAULT_MARK: &'static str = "(Default)";

/// The name of the distribution in an entry of the list: the entry without
/// the mark of the default, and without the white space around it.
pub open spec fn name_in_entry(entry: Seq<char>) -> Seq<char> {
    trimmed(without(entry, DEFAULT_MARK@))
}

/// The name of the distribution in an entry of the list.
pub fn distro_of_entry(entry: &str) -> (name: String)
    ensures
        name@ == name_in_entry(entry@),
{
    let plain = remove_all(entry, DEFAULT_MARK);
    trim(plain.as_str())
}

} // verus!
