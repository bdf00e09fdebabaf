//! The coordinator: the one owner of the configuration.
//!
//! It takes one event at a time and answers with the actions that the caller
//! is to carry out. A request of the user interface is an event; so is what
//! came of an action that the coordinator asked for. Every request but the
//! one to quit is answered with exactly one reply, which holds the messages
//! to send back, in their order, and holds one at least: where there is
//! nothing to tell, the reply is the message that says nothing.

use crate::config::{
    copy_texts, differs_from, read_view, Access, AccessView, Config, ConfigView,
};
use crate::error::IoError;
use crate::handoff::{
    hand_off_for, hand_off_succeeded, notice_of, notify, write_changes, HandOff, HandOffView,
    Notice, NoticeView, HAND_OFF_FAILED, LAST_FAILURE_CODE,
};
use crate::resolver::{
    find_wsl_ip, ip_arguments, ran_view, resolved, wsl_ip_args, CommandOutput, CommandOutputView,
};
use crate::settings::{save_config, SavedSettings, SavedSettingsView};
use crate::text::{join, join_texts, same_text};
use vstd::prelude::*;

verus! {

/// A message between the user interface and the coordinator.
#[derive(Debug, PartialEq, Eq)]
pub enum Cmd {
    /// Request: add a name.
    AddName(String),
    /// Reply: a text to show.
    Content(String),
    /// Reply: the coordinator is there.
    InitOk,
    /// Reply: the distributions of the machine.
    Distros(Vec<String>),
    /// Request: ask this distribution from now on. The reply says nothing.
    SetDistro(String),
    /// Reply: the words of a failure.
    Error(String),
    /// Reply: the request was taken in, and there is nothing to tell.
    Nothing,
    /// Request: say what is configured.
    OnInit,
    /// Request: show what a write would leave in the hosts file.
    Preview,
    /// Request: stop.
    Quit,
    /// Request: show the hosts file.
    ReadFile,
    /// Request: remove a name.
    RemoveName(String),
    /// Request: keep the configuration for the next run.
    SaveConfig,
    /// Request: work on the hosts file at this path.
    SetHostsFile(String),
    /// Reply: the configuration.
    State(Config),
    /// Request: write the hosts file.
    Write,
}

/// A `Cmd` as plain mathematical values.
pub enum CmdView {
    AddName(Seq<char>),
    Content(Seq<char>),
    InitOk,
    Distros(Seq<Seq<char>>),
    SetDistro(Seq<char>),
    Error(Seq<char>),
    Nothing,
    OnInit,
    Preview,
    Quit,
    ReadFile,
    RemoveName(Seq<char>),
    SaveConfig,
    SetHostsFile(Seq<char>),
    State(ConfigView),
    Write,
}

impl View for Cmd {
    type V = CmdView;

    open spec fn view(&self) -> CmdView {
        match self {
            Cmd::AddName(name) => CmdView::AddName(name@),
            Cmd::Content(text) => CmdView::Content(text@),
            Cmd::InitOk => CmdView::InitOk,
            Cmd::Distros(names) => CmdView::Distros(names.deep_view()),
            Cmd::SetDistro(name) => CmdView::SetDistro(name@),
            Cmd::Error(text) => CmdView::Error(text@),
            Cmd::Nothing => CmdView::Nothing,
            Cmd::OnInit => CmdView::OnInit,
            Cmd::Preview => CmdView::Preview,
            Cmd::Quit => CmdView::Quit,
            Cmd::ReadFile => CmdView::ReadFile,
            Cmd::RemoveName(name) => CmdView::RemoveName(name@),
            Cmd::SaveConfig => CmdView::SaveConfig,
            Cmd::SetHostsFile(path) => CmdView::SetHostsFile(path@),
            Cmd::State(config) => CmdView::State(config@),
            Cmd::Write => CmdView::Write,
        }
    }
}

impl DeepView for Cmd {
    type V = CmdView;

    open spec fn deep_view(&self) -> CmdView {
        self@
    }
}

/// Something that happened and that the coordinator is told of.
#[derive(Debug, PartialEq, Eq)]
pub enum Event {
    /// The user interface sent a request.
    Request(Cmd),
    /// The address query was run.
    Discovered(Result<CommandOutput, String>),
    /// The hosts file was looked at and read.
    FileRead { access: Access, read: Result<Vec<u8>, String> },
    /// The shell answered the hand-off to the writer with this code.
    HandedOff(i32),
    /// The settings were saved to the file at this path, or could not be.
    Saved(Result<String, String>),
}

/// Whether settings were saved, as plain values.
pub open spec fn saved_view(saved: Result<String, String>) -> Result<Seq<char>, Seq<char>> {
    match saved {
        Ok(path) => Ok(path@),
        Err(cause) => Err(cause@),
    }
}

/// An `Event` as plain mathematical values.
pub enum EventView {
    Request(CmdView),
    Discovered(Result<CommandOutputView, Seq<char>>),
    FileRead { access: AccessView, read: Result<Seq<u8>, Seq<char>> },
    HandedOff(i32),
    Saved(Result<Seq<char>, Seq<char>>),
}

impl View for Event {
    type V = EventView;

    open spec fn view(&self) -> EventView {
        match self {
            Event::Request(cmd) => EventView::Request(cmd@),
            Event::Discovered(ran) => EventView::Discovered(ran_view(*ran)),
            Event::FileRead { access, read } => EventView::FileRead {
                access: access@,
                read: read_view(*read),
            },
            Event::HandedOff(code) => EventView::HandedOff(*code),
            Event::Saved(saved) => EventView::Saved(saved_view(*saved)),
        }
    }
}

/// Something that the caller is to carry out for the coordinator.
#[derive(Debug, PartialEq, Eq)]
pub enum Action {
    /// Send these messages to the user interface, in their order.
    Reply(Vec<Cmd>),
    /// Run `wsl.exe` with these arguments and tell what came of it.
    Discover(Vec<String>),
    /// Look at the file at this path, read it, and tell what came of it.
    ReadFile(String),
    /// Start the writer and tell the shell's code.
    HandOff(HandOff),
    /// Show a notice.
    Notify(Notice),
    /// Save these settings and tell where.
    Save(SavedSettings),
    /// Stop: the coordinator takes no more events.
    Stop,
}

/// An `Action` as plain mathematical values.
pub enum ActionView {
    Reply(Seq<CmdView>),
    Discover(Seq<Seq<char>>),
    ReadFile(Seq<char>),
    HandOff(HandOffView),
    Notify(NoticeView),
    Save(SavedSettingsView),
    Stop,
}

impl View for Action {
    type V = ActionView;

    open spec fn view(&self) -> ActionView {
        match self {
            Action::Reply(messages) => ActionView::Reply(messages.deep_view()),
            Action::Discover(arguments) => ActionView::Discover(arguments.deep_view()),
            Action::ReadFile(path) => ActionView::ReadFile(path@),
            Action::HandOff(hand_off) => ActionView::HandOff(hand_off@),
            Action::Notify(notice) => ActionView::Notify(notice@),
            Action::Save(settings) => ActionView::Save(settings@),
            Action::Stop => ActionView::Stop,
        }
    }
}

impl DeepView for Event {
    type V = EventView;

    open spec fn deep_view(&self) -> EventView {
        self@
    }
}

impl DeepView for Action {
    type V = ActionView;

    open spec fn deep_view(&self) -> ActionView {
        self@
    }
}

/// What the coordinator is doing.
///
/// It is stopped, or it runs; while it runs it is idle, and takes requests,
/// or it waits for what is to come of an action.
#[derive(Debug, PartialEq, Eq)]
pub enum Phase {
    /// Idle: the next event is a request.
    Idle,
    /// The hosts file is to be shown; waits for the file.
    RawFile,
    /// A preview was asked for; waits for the address.
    PreviewAddress,
    /// A preview was asked for and the address is known; waits for the file.
    PreviewFile(String),
    /// The settings are to be saved; waits for the outcome.
    Saving,
    /// A write was asked for; waits for the address.
    WriteAddress,
    /// A write was asked for and the address is known; waits for the shell.
    WriteHandOff(String),
    /// A write at the start was asked for; waits for the address.
    StartAddress,
    /// A write at the start was asked for and the address is known; waits for the shell.
    StartHandOff(String),
    /// Stopped, for good.
    Stopped,
}

/// A `Phase` with its address as a sequence of characters.
pub enum PhaseView {
    Idle,
    RawFile,
    PreviewAddress,
    PreviewFile(Seq<char>),
    Saving,
    WriteAddress,
    WriteHandOff(Seq<char>),
    StartAddress,
    StartHandOff(Seq<char>),
    Stopped,
}

impl View for Phase {
    type V = PhaseView;

    open spec fn view(&self) -> PhaseView {
        match self {
            Phase::Idle => PhaseView::Idle,
            Phase::RawFile => PhaseView::RawFile,
            Phase::PreviewAddress => PhaseView::PreviewAddress,
            Phase::PreviewFile(address) => PhaseView::PreviewFile(address@),
            Phase::Saving => PhaseView::Saving,
            Phase::WriteAddress => PhaseView::WriteAddress,
            Phase::WriteHandOff(address) => PhaseView::WriteHandOff(address@),
            Phase::StartAddress => PhaseView::StartAddress,
            Phase::StartHandOff(address) => PhaseView::StartHandOff(address@),
            Phase::Stopped => PhaseView::Stopped,
        }
    }
}

/// The owner of the configuration.
#[derive(Debug)]
pub struct Coordinator {
    config: Config,
    distros: Vec<String>,
    auto_run: bool,
    phase: Phase,
}

/// A `Coordinator` as plain mathematical values.
pub struct CoordinatorView {
    /// The configuration.
    pub config: ConfigView,
    /// The distributions of the machine.
    pub distros: Seq<Seq<char>>,
    /// Whether the hosts file is written right after the first request.
    pub auto_run: bool,
    /// What the coordinator is doing.
    pub phase: PhaseView,
}

impl View for Coordinator {
    type V = CoordinatorView;

    closed spec fn view(&self) -> CoordinatorView {
        CoordinatorView {
            config: self.config@,
            distros: self.distros.deep_view(),
            auto_run: self.auto_run,
            phase: self.phase@,
        }
    }
}

/// The words of the reply to an event that does not fit what the coordinator is doing.
pub const STATE_ERROR: &'static str = "Unable to read app state.";

/// The words of the reply to a write that was handed off.
pub const SAVED: &'static str = "Saved.";

/// The words before the path in the reply to saved settings.
pub const SAVED_TO: &'static str = "saved to ";

/// The word with which the hosts file is written right after the first request.
pub const RUN_FLAG: &'static str = "--run";

/// A carriage return and a line feed, which stand between the lines of a shown text.
pub open spec fn line_break() -> Seq<char> {
    seq!['\r', '\n']
}

/// One reply with the one message `message`.
pub open spec fn reply_with(message: CmdView) -> Seq<ActionView> {
    seq![ActionView::Reply(seq![message])]
}

/// One reply that only acknowledges: its one message says nothing.
pub open spec fn acknowledgment() -> Seq<ActionView> {
    reply_with(CmdView::Nothing)
}

impl CoordinatorView {
    /// `self` in another phase.
    pub open spec fn in_phase(self, phase: PhaseView) -> CoordinatorView {
        CoordinatorView { phase, ..self }
    }

    /// `self` with another configuration, idle.
    pub open spec fn idle_with(self, config: ConfigView) -> CoordinatorView {
        CoordinatorView { config, phase: PhaseView::Idle, ..self }
    }

    /// `self` with the address `ip` noted as the one found last.
    pub open spec fn with_address(self, ip: Seq<char>) -> CoordinatorView {
        CoordinatorView {
            config: ConfigView { last_address: Some(ip), ..self.config },
            ..self
        }
    }

    /// What an event that does not fit the phase leads to: the coordinator
    /// gives up what it was doing, says so in one reply, and is idle.
    pub open spec fn confused(self) -> (CoordinatorView, Seq<ActionView>) {
        (self.in_phase(PhaseView::Idle), reply_with(CmdView::Error(STATE_ERROR@)))
    }

    /// What a request leads to when the coordinator is idle.
    pub open spec fn on_request(self, request: CmdView) -> (CoordinatorView, Seq<ActionView>) {
        match request {
            CmdView::OnInit => {
                let told = ActionView::Reply(
                    seq![
                        CmdView::InitOk,
                        CmdView::Distros(self.distros),
                        CmdView::State(self.config),
                    ],
                );
                if self.auto_run {
                    (
                        self.in_phase(PhaseView::StartAddress),
                        seq![told, ActionView::Discover(ip_arguments(self.config.distro))],
                    )
                } else {
                    (self, seq![told])
                }
            },
            CmdView::SetDistro(name) => (
                self.idle_with(ConfigView { distro: Some(name), ..self.config }),
                acknowledgment(),
            ),
            CmdView::AddName(name) => {
                let config = ConfigView {
                    names: if self.config.names.contains(name) {
                        self.config.names
                    } else {
                        self.config.names.push(name)
                    },
                    ..self.config
                };
                (self.idle_with(config), reply_with(CmdView::State(config)))
            },
            CmdView::RemoveName(name) => {
                let config = ConfigView {
                    names: self.config.names.filter(differs_from(name)),
                    ..self.config
                };
                (self.idle_with(config), reply_with(CmdView::State(config)))
            },
            CmdView::SetHostsFile(path) => {
                let config = ConfigView { hosts_path: path, ..self.config };
                (self.idle_with(config), reply_with(CmdView::State(config)))
            },
            CmdView::ReadFile => (
                self.in_phase(PhaseView::RawFile),
                seq![ActionView::ReadFile(self.config.hosts_path)],
            ),
            CmdView::Preview => (
                self.in_phase(PhaseView::PreviewAddress),
                seq![ActionView::Discover(ip_arguments(self.config.distro))],
            ),
            CmdView::SaveConfig => (
                self.in_phase(PhaseView::Saving),
                seq![ActionView::Save(self.config.kept())],
            ),
            CmdView::Write => (
                self.in_phase(PhaseView::WriteAddress),
                seq![ActionView::Discover(ip_arguments(self.config.distro))],
            ),
            CmdView::Quit => (self.in_phase(PhaseView::Stopped), seq![ActionView::Stop]),
            _ => (self, acknowledgment()),
        }
    }

    /// What the lines of a file, or the failure to have them, are shown as.
    pub open spec fn shown(lines: Result<Seq<Seq<char>>, crate::error::IoErrorView>) -> CmdView {
        match lines {
            Ok(lines) => CmdView::Content(join(lines, line_break())),
            Err(error) => CmdView::Error(error.message()),
        }
    }

    /// What an event leads to: the coordinator after it, and the actions to
    /// carry out, in their order.
    pub open spec fn step(self, event: EventView) -> (CoordinatorView, Seq<ActionView>) {
        match (self.phase, event) {
            (PhaseView::Stopped, _) => (self, Seq::empty()),
            (PhaseView::Idle, EventView::Request(request)) => self.on_request(request),
            (PhaseView::RawFile, EventView::FileRead { access, read }) => (
                self.in_phase(PhaseView::Idle),
                reply_with(Self::shown(self.config.read_outcome(access, read))),
            ),
            (PhaseView::PreviewAddress, EventView::Discovered(ran)) => match resolved(ran) {
                Ok(ip) => (
                    self.with_address(ip).in_phase(PhaseView::PreviewFile(ip)),
                    seq![ActionView::ReadFile(self.config.hosts_path)],
                ),
                Err(error) => (
                    self.in_phase(PhaseView::Idle),
                    reply_with(CmdView::Error(error.message())),
                ),
            },
            (PhaseView::PreviewFile(ip), EventView::FileRead { access, read }) => (
                self.in_phase(PhaseView::Idle),
                reply_with(Self::shown(self.config.preview_outcome(ip, access, read))),
            ),
            (PhaseView::Saving, EventView::Saved(saved)) => (
                self.in_phase(PhaseView::Idle),
                reply_with(
                    CmdView::Content(
                        match saved {
                            Ok(path) => SAVED_TO@ + path,
                            Err(cause) => cause,
                        },
                    ),
                ),
            ),
            (PhaseView::WriteAddress, EventView::Discovered(ran)) => match resolved(ran) {
                Ok(ip) => (
                    self.with_address(ip).in_phase(PhaseView::WriteHandOff(ip)),
                    seq![ActionView::HandOff(hand_off_for(ip, self.config))],
                ),
                Err(error) => (
                    self.in_phase(PhaseView::Idle),
                    reply_with(CmdView::Content(error.message())),
                ),
            },
            (PhaseView::WriteHandOff(ip), EventView::HandedOff(code)) => (
                self.in_phase(PhaseView::Idle),
                if code > LAST_FAILURE_CODE {
                    seq![
                        ActionView::Reply(seq![CmdView::Content(SAVED@)]),
                        ActionView::Notify(notice_of(ip, self.config.names)),
                    ]
                } else {
                    reply_with(CmdView::Content(HAND_OFF_FAILED@))
                },
            ),
            (PhaseView::StartAddress, EventView::Discovered(ran)) => match resolved(ran) {
                Ok(ip) => (
                    self.with_address(ip).in_phase(PhaseView::StartHandOff(ip)),
                    seq![ActionView::HandOff(hand_off_for(ip, self.config))],
                ),
                Err(error) => (self.in_phase(PhaseView::Idle), Seq::empty()),
            },
            (PhaseView::StartHandOff(ip), EventView::HandedOff(code)) => (
                self.in_phase(PhaseView::Idle),
                if code > LAST_FAILURE_CODE {
                    seq![ActionView::Notify(notice_of(ip, self.config.names))]
                } else {
                    Seq::empty()
                },
            ),
            _ => self.confused(),
        }
    }
}

impl CoordinatorView {
    /// What a row of events leads to: each is taken in its turn, by the
    /// coordinator that the events before it left, and the actions come in the
    /// order of the events that they answer.
    pub open spec fn run(self, events: Seq<EventView>) -> (CoordinatorView, Seq<ActionView>)
        decreases events.len(),
    {
        if events.len() == 0 {
            (self, Seq::empty())
        } else {
            let (between, earlier) = self.run(events.drop_last());
            let (after, last) = between.step(events.last());
            (after, earlier + last)
        }
    }
}

/// One action.
fn only(action: Action) -> (actions: Vec<Action>)
    ensures
        actions.deep_view() == seq![action@],
{
    let mut actions: Vec<Action> = Vec::new();
    actions.push(action);
    assert(actions.deep_view() =~= seq![action@]);
    actions
}

/// One reply with the one message `message`.
fn reply(message: Cmd) -> (actions: Vec<Action>)
    ensures
        actions.deep_view() == reply_with(message@),
{
    let mut messages: Vec<Cmd> = Vec::new();
    messages.push(message);
    assert(messages.deep_view() =~= seq![message@]);
    only(Action::Reply(messages))
}

/// One reply that only acknowledges.
fn acknowledge() -> (actions: Vec<Action>)
    ensures
        actions.deep_view() == acknowledgment(),
{
    reply(Cmd::Nothing)
}

/// No action.
fn nothing() -> (actions: Vec<Action>)
    ensures
        actions.deep_view() == Seq::<ActionView>::empty(),
{
    let actions: Vec<Action> = Vec::new();
    assert(actions.deep_view() =~= Seq::<ActionView>::empty());
    actions
}

/// What the lines of a file, or the failure to have them, are shown as.
fn show(lines: Result<Vec<String>, IoError>) -> (message: Cmd)
    ensures
        message@ == CoordinatorView::shown(
            match lines {
                Ok(l) => Ok(l.deep_view()),
                Err(e) => Err(e@),
            },
        ),
{
    proof {
        reveal_strlit("\r\n");
        assert("\r\n"@ =~= line_break());
    }
    match lines {
        Ok(l) => Cmd::Content(join_texts(l.as_slice(), "\r\n")),
        Err(e) => Cmd::Error(e.message()),
    }
}

/// Whether one of the words `args` of the command line asks for a write
/// right after the first request.
pub fn wants_run(args: &[String]) -> (r: bool)
    ensures
        r == exists|i: int| 0 <= i < args.len() && (#[trigger] args[i])@ == RUN_FLAG@,
{
    let mut i: usize = 0;
    while i < args.len()
        invariant
            i <= args.len(),
            forall|j: int| 0 <= j < i ==> (#[trigger] args[j])@ != RUN_FLAG@,
        decreases args.len() - i,
    {
        if same_text(args[i].as_str(), RUN_FLAG) {
            return true;
        }
        i += 1;
    }
    false
}

impl Coordinator {
    /// A coordinator that is idle and owns `config`.
    pub fn new(config: Config, distros: Vec<String>, auto_run: bool) -> (coordinator: Coordinator)
        ensures
            coordinator@ == (CoordinatorView {
                config: config@,
                distros: distros.deep_view(),
                auto_run,
                phase: PhaseView::Idle,
            }),
    {
        Coordinator { config, distros, auto_run, phase: Phase::Idle }
    }

    /// The configuration.
    pub fn config(&self) -> (config: &Config)
        ensures
            config@ == self@.config,
    {
        &self.config
    }

    /// The distributions of the machine.
    pub fn distros(&self) -> (distros: &Vec<String>)
        ensures
            distros.deep_view() == self@.distros,
    {
        &self.distros
    }

    /// Whether the coordinator has not stopped.
    pub fn is_running(&self) -> (r: bool)
        ensures
            r == !(self@.phase is Stopped),
    {
        match self.phase {
            Phase::Stopped => false,
            _ => true,
        }
    }

    /// Whether the coordinator takes a request next.
    pub fn is_idle(&self) -> (r: bool)
        ensures
            r == (self@.phase is Idle),
    {
        match self.phase {
            Phase::Idle => true,
            _ => false,
        }
    }

    /// One reply that tells of an event that does not fit; the coordinator is idle after it.
    fn confuse(&mut self) -> (actions: Vec<Action>)
        ensures
            (final(self)@, actions.deep_view()) == old(self)@.confused(),
    {
        self.phase = Phase::Idle;
        reply(Cmd::Error(STATE_ERROR.to_owned()))
    }

    /// One reply with the configuration; the coordinator is idle after it.
    fn tell_state(&mut self) -> (actions: Vec<Action>)
        ensures
            final(self)@ == old(self)@.in_phase(PhaseView::Idle),
            actions.deep_view() == reply_with(CmdView::State(old(self)@.config)),
    {
        self.phase = Phase::Idle;
        reply(Cmd::State(self.config.clone()))
    }

    /// Takes in a request while idle.
    fn take_request(&mut self, request: Cmd) -> (actions: Vec<Action>)
        requires
            old(self)@.phase is Idle,
        ensures
            (final(self)@, actions.deep_view()) == old(self)@.on_request(request@),
    {
        match request {
            Cmd::OnInit => {
                let mut messages: Vec<Cmd> = Vec::new();
                messages.push(Cmd::InitOk);
                messages.push(Cmd::Distros(copy_texts(self.distros.as_slice())));
                messages.push(Cmd::State(self.config.clone()));
                assert(messages.deep_view() =~= seq![
                    CmdView::InitOk,
                    CmdView::Distros(self@.distros),
                    CmdView::State(self@.config),
                ]);
                let mut actions: Vec<Action> = Vec::new();
                actions.push(Action::Reply(messages));
                if self.auto_run {
                    actions.push(Action::Discover(wsl_ip_args(&self.config.distro)));
                    self.phase = Phase::StartAddress;
                }
                assert(actions.deep_view() =~= old(self)@.on_request(request@).1);
                actions
            },
            Cmd::SetDistro(name) => {
                self.config.distro = Some(name);
                acknowledge()
            },
            Cmd::AddName(name) => {
                self.config.add_name(name);
                self.tell_state()
            },
            Cmd::RemoveName(name) => {
                self.config.remove_name(name);
                self.tell_state()
            },
            Cmd::SetHostsFile(path) => {
                self.config.set_hosts_path(path.as_str());
                self.tell_state()
            },
            Cmd::ReadFile => {
                self.phase = Phase::RawFile;
                only(Action::ReadFile(self.config.hosts_path.clone()))
            },
            Cmd::Preview => {
                self.phase = Phase::PreviewAddress;
                only(Action::Discover(wsl_ip_args(&self.config.distro)))
            },
            Cmd::SaveConfig => {
                self.phase = Phase::Saving;
                only(Action::Save(save_config(&self.config)))
            },
            Cmd::Write => {
                self.phase = Phase::WriteAddress;
                only(Action::Discover(wsl_ip_args(&self.config.distro)))
            },
            Cmd::Quit => {
                self.phase = Phase::Stopped;
                only(Action::Stop)
            },
            _ => acknowledge(),
        }
    }

    /// Takes in an event and says what is to be done.
    ///
    /// Once stopped, the coordinator does nothing. While idle it takes a
    /// request; while it waits, it takes what it waits for. Any other event
    /// is answered with one reply that tells of an error, and the coordinator
    /// is idle after it.
    pub fn handle(&mut self, event: Event) -> (actions: Vec<Action>)
        ensures
            (final(self)@, actions.deep_view()) == old(self)@.step(event@),
    {
        match &self.phase {
            Phase::Stopped => nothing(),
            Phase::Idle => match event {
                Event::Request(request) => self.take_request(request),
                _ => self.confuse(),
            },
            Phase::RawFile => match event {
                Event::FileRead { access, read } => {
                    let lines = self.config.read_file(&access, &read);
                    self.phase = Phase::Idle;
                    reply(show(lines))
                },
                _ => self.confuse(),
            },
            Phase::PreviewAddress => match event {
                Event::Discovered(ran) => match find_wsl_ip(ran) {
                    Ok(ip) => {
                        self.phase = Phase::PreviewFile(ip.clone());
                        self.config.last_address = Some(ip);
                        only(Action::ReadFile(self.config.hosts_path.clone()))
                    },
                    Err(error) => {
                        self.phase = Phase::Idle;
                        reply(Cmd::Error(error.message()))
                    },
                },
                _ => self.confuse(),
            },
            Phase::PreviewFile(ip) => match event {
                Event::FileRead { access, read } => {
                    let lines = self.config.preview(ip.as_str(), &access, &read);
                    self.phase = Phase::Idle;
                    reply(show(lines))
                },
                _ => self.confuse(),
            },
            Phase::Saving => match event {
                Event::Saved(saved) => {
                    self.phase = Phase::Idle;
                    match saved {
                        Ok(path) => {
                            let mut text = SAVED_TO.to_owned();
                            text.append(path.as_str());
                            reply(Cmd::Content(text))
                        },
                        Err(cause) => reply(Cmd::Content(cause)),
                    }
                },
                _ => self.confuse(),
            },
            Phase::WriteAddress => match event {
                Event::Discovered(ran) => match find_wsl_ip(ran) {
                    Ok(ip) => {
                        let hand_off = write_changes(ip.as_str(), &self.config);
                        self.phase = Phase::WriteHandOff(ip.clone());
                        self.config.last_address = Some(ip);
                        only(Action::HandOff(hand_off))
                    },
                    Err(error) => {
                        self.phase = Phase::Idle;
                        reply(Cmd::Content(error.message()))
                    },
                },
                _ => self.confuse(),
            },
            Phase::WriteHandOff(ip) => match event {
                Event::HandedOff(code) => {
                    if hand_off_succeeded(code) {
                        let mut messages: Vec<Cmd> = Vec::new();
                        messages.push(Cmd::Content(SAVED.to_owned()));
                        assert(messages.deep_view() =~= seq![CmdView::Content(SAVED@)]);
                        let mut actions: Vec<Action> = Vec::new();
                        actions.push(Action::Reply(messages));
                        actions.push(
                            Action::Notify(notify(ip.as_str(), self.config.names.as_slice())),
                        );
                        self.phase = Phase::Idle;
                        assert(actions.deep_view() =~= old(self)@.step(event@).1);
                        actions
                    } else {
                        self.phase = Phase::Idle;
                        reply(Cmd::Content(HAND_OFF_FAILED.to_owned()))
                    }
                },
                _ => self.confuse(),
            },
            Phase::StartAddress => match event {
                Event::Discovered(ran) => match find_wsl_ip(ran) {
                    Ok(ip) => {
                        let hand_off = write_changes(ip.as_str(), &self.config);
                        self.phase = Phase::StartHandOff(ip.clone());
                        self.config.last_address = Some(ip);
                        only(Action::HandOff(hand_off))
                    },
                    Err(error) => {
                        self.phase = Phase::Idle;
                        nothing()
                    },
                },
                _ => self.confuse(),
            },
            Phase::StartHandOff(ip) => match event {
                Event::HandedOff(code) => {
                    let actions = if hand_off_succeeded(code) {
                        only(Action::Notify(notify(ip.as_str(), self.config.names.as_slice())))
                    } else {
                        nothing()
                    };
                    self.phase = Phase::Idle;
                    actions
                },
                _ => self.confuse(),
            },
        }
    }
}

/// Has `coordinator` take the events `events`, one after the other, and
/// gives the actions to carry out, in the order of the events.
pub fn run(coordinator: &mut Coordinator, events: Vec<Event>) -> (actions: Vec<Action>)
    ensures
        (final(coordinator)@, actions.deep_view()) == old(coordinator)@.run(events.deep_view()),
{
    let mut actions: Vec<Action> = Vec::new();
    let ghost all = events.deep_view();
    assert(actions.deep_view() =~= Seq::<ActionView>::empty());
    assert(all.take(0) =~= Seq::<EventView>::empty());
    for event in it: events
        invariant
            it.seq().len() == all.len(),
            forall|k: int| 0 <= k < all.len() ==> (#[trigger] it.seq()[k])@ == all[k],
            (coordinator@, actions.deep_view()) == old(coordinator)@.run(
                all.take(it.index() as int),
            ),
    {
        let ghost before = actions.deep_view();
        let ghost index = it.index() as int;
        let mut next = coordinator.handle(event);
        let ghost added = next.deep_view();
        actions.append(&mut next);
        proof {
            assert(actions.deep_view() =~= before + added);
            assert(all.take(index + 1).drop_last() =~= all.take(index));
            assert(all.take(index + 1).last() == all[index]);
        }
    }
    assert(all.take(all.len() as int) =~= all);
    actions
}

} // verus!
