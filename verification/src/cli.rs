//! The options of the command line.

use crate::config::{
    copy_optional, copy_texts, optional_text, Config, ConfigView, DEFAULT_HOST, DEFAULT_HOSTS_PATH,
};
use crate::text::same_text;
use vstd::prelude::*;

verus! {

/// What the command line asks for.
#[derive(Debug, PartialEq, Eq)]
pub struct App {
    /// Whether the help text is asked for.
    pub help: bool,
    /// The names given with `-n` or `--name`, in their order.
    pub names: Vec<String>,
    /// The distribution given with `-d` or `--distro`.
    pub distro: Option<String>,
}

/// An `App` as plain mathematical values.
pub struct AppView {
    pub help: bool,
    pub names: Seq<Seq<char>>,
    pub distro: Option<Seq<char>>,
}

impl View for App {
    type V = AppView;

    open spec fn view(&self) -> AppView {
        AppView {
            help: self.help,
            names: self.names.deep_view(),
            distro: optional_text(self.distro),
        }
    }
}

/// `-d` or `--distro`.
pub open spec fn is_distro_option(word: Seq<char>) -> bool {
    word == "-d"@ || word == "--distro"@
}

/// `-n` or `--name`.
pub open spec fn is_name_option(word: Seq<char>) -> bool {
    word == "-n"@ || word == "--name"@
}

/// One of the options that take a value.
pub open spec fn is_option(word: Seq<char>) -> bool {
    is_distro_option(word) || is_name_option(word)
}

/// `-h` or `--help`.
pub open spec fn is_help(word: Seq<char>) -> bool {
    word == "-h"@ || word == "--help"@
}

impl AppView {
    /// `self` after the option `option` with the value `value`: a distribution
    /// replaces the one before, a name is added at the end, and nothing
    /// changes without a value or for another word.
    pub open spec fn applied(self, option: Seq<char>, value: Option<Seq<char>>) -> AppView {
        match value {
            None => self,
            Some(v) => if is_distro_option(option) {
                AppView { distro: Some(v), ..self }
            } else if is_name_option(option) {
                AppView { names: self.names.push(v), ..self }
            } else {
                self
            },
        }
    }

    /// `self` after the words of `args` from index `at` on: an option takes the
    /// word after it as its value unless that word is an option too, and every
    /// other word is passed over.
    pub open spec fn after_words(self, args: Seq<Seq<char>>, at: int) -> AppView
        decreases args.len() - at,
    {
        if at < 0 || at >= args.len() {
            self
        } else if is_option(args[at]) && at + 1 < args.len() && !is_option(args[at + 1]) {
            self.applied(args[at], Some(args[at + 1])).after_words(args, at + 2)
        } else {
            self.after_words(args, at + 1)
        }
    }
}

/// What the words `args` of a command line ask for: help where one of them
/// asks for it, else the distribution and the names they give, with the
/// default name where they give none.
pub open spec fn parsed(args: Seq<Seq<char>>) -> AppView {
    if exists|i: int| 0 <= i < args.len() && is_help(#[trigger] args[i]) {
        AppView { help: true, names: Seq::empty(), distro: None }
    } else {
        let given = (AppView { help: false, names: Seq::empty(), distro: None }).after_words(
            args,
            0,
        );
        if given.names.len() == 0 {
            AppView { names: seq![DEFAULT_HOST@], ..given }
        } else {
            given
        }
    }
}

/// Whether `word` is `-d` or `--distro`.
fn distro_option(word: &str) -> (r: bool)
    ensures
        r == is_distro_option(word@),
{
    same_text(word, "-d") || same_text(word, "--distro")
}

/// Whether `word` is `-n` or `--name`.
fn name_option(word: &str) -> (r: bool)
    ensures
        r == is_name_option(word@),
{
    same_text(word, "-n") || same_text(word, "--name")
}

/// Whether `word` is one of the options that take a value.
fn option(word: &str) -> (r: bool)
    ensures
        r == is_option(word@),
{
    distro_option(word) || name_option(word)
}

/// Whether one of `args` asks for help.
fn asks_for_help(args: &[String]) -> (r: bool)
    ensures
        r == exists|i: int| 0 <= i < args.len() && is_help(#[trigger] args.deep_view()[i]),
{
    let mut i: usize = 0;
    while i < args.len()
        invariant
            i <= args.len(),
            forall|j: int| 0 <= j < i ==> !is_help(#[trigger] args.deep_view()[j]),
        decreases args.len() - i,
    {
        let word = args[i].as_str();
        if same_text(word, "-h") || same_text(word, "--help") {
            assert(is_help(args.deep_view()[i as int]));
            return true;
        }
        i += 1;
    }
    false
}

impl App {
    /// Takes in the option `option` with the value `value`.
    pub fn apply(&mut self, option: &str, value: Option<String>)
        ensures
            final(self)@ == old(self)@.applied(option@, optional_text(value)),
    {
        match value {
            None => {},
            Some(v) => {
                if distro_option(option) {
                    self.distro = Some(v);
                } else if name_option(option) {
                    let ghost before = self.names.deep_view();
                    self.names.push(v);
                    assert(self.names.deep_view() =~= before.push(v@));
                }
            },
        }
    }

    /// The configuration that the command line asks for: the default hosts
    /// file, with the names and the distribution given.
    pub fn config(&self) -> (config: Config)
        ensures
            config@ == (ConfigView {
                hosts_path: DEFAULT_HOSTS_PATH@,
                names: self@.names,
                distro: self@.distro,
                last_address: None,
            }),
    {
        let mut config = Config::new();
        config.set_names(copy_texts(self.names.as_slice()));
        config.distro = copy_optional(&self.distro);
        config
    }
}

/// What the words `args` of a command line, without the program's name, ask for.
pub fn parse_args(args: Vec<String>) -> (app: App)
    ensures
        app@ == parsed(args.deep_view()),
{
    let mut app = App { help: true, names: Vec::new(), distro: None };
    assert(app.names.deep_view() =~= Seq::<Seq<char>>::empty());
    let words_given = args.as_slice();
    assert(words_given.deep_view() =~= args.deep_view());
    if asks_for_help(words_given) {
        return app;
    }
    app.help = false;
    let ghost start = app@;
    let ghost words = args.deep_view();
    let mut i: usize = 0;
    while i < args.len()
        invariant
            i <= args.len(),
            words == args.deep_view(),
            !app.help,
            start.after_words(words, 0) == app@.after_words(words, i as int),
        decreases args.len() - i,
    {
        if option(args[i].as_str()) && i + 1 < args.len() && !option(args[i + 1].as_str()) {
            app.apply(args[i].as_str(), Some(args[i + 1].clone()));
            i += 2;
        } else {
            i += 1;
        }
    }
    let ghost given = app@;
    assert(given == start.after_words(words, 0));
    if app.names.len() == 0 {
        app.names.push(DEFAULT_HOST.to_owned());
        assert(app.names.deep_view() =~= seq![DEFAULT_HOST@]);
        assert(app@ == (AppView { names: seq![DEFAULT_HOST@], ..given }));
    }
    app
}

/// The name under which the program is known.
pub const PROGRAM: &'static str = "wsl2-ip-host";

/// The help text after the version, up to the default name.
pub const HELP_USAGE: &'static str = "

Usage: wsl2-ip-host [-d distro] [-n <host-name>] ...

Uses wsl to retrieve the IP address of a wsl vm and writes it to the windows hosts
file.

Options:
-d, --distro <distro>       WSL distro name -d passed to wsl.exe. Falls back to your
                            default distro if omitted.
-n, --name <host-name>      Host name to associate the ip to [default: ";

/// The help text after the default name.
pub const HELP_REST: &'static str = "]
                            this option can be passed multiple times to add more than one
                            host name.
-h, --help                  Display help text
";

/// The help text of the program in the version `version`.
pub open spec fn help_of(version: Seq<char>) -> Seq<char> {
    PROGRAM@ + seq![' '] + version + HELP_USAGE@ + DEFAULT_HOST@ + HELP_REST@
}

/// The help text of the program in the version `version`.
pub fn help_text(version: &str) -> (text: String)
    ensures
        text@ == help_of(version@),
{
    proof {
        reveal_strlit(" ");
        assert(" "@ =~= seq![' ']);
    }
    let mut text = PROGRAM.to_owned();
    text.append(" ");
    text.append(version);
    text.append(HELP_USAGE);
    text.append(DEFAULT_HOST);
    text.append(HELP_REST);
    text
}

} // verus!
