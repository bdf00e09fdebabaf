use wsl2_ip_host::coordinator::{wants_run, RUN_FLAG};
use wsl2_ip_host::handoff::{HandOff, Notice};
use wsl2_ip_host::resolver::CommandOutput;
use wsl2_ip_host::settings::SavedSettings;
use wsl2_ip_host::{run, Access, Action, Cmd, Config, Coordinator, Event};

fn words(items: &[&str]) -> Vec<String> {
    items.iter().map(|s| s.to_string()).collect()
}

fn config() -> Config {
    let mut config = Config::with_hosts_path("hosts");
    config.set_names(words(&["a.local"]));
    config
}

fn coordinator() -> Coordinator {
    Coordinator::new(config(), words(&["Ubuntu", "Debian"]), false)
}

fn with_address(address: &str) -> Config {
    let mut config = config();
    config.last_address = Some(address.to_string());
    config
}

fn query() -> Action {
    Action::Discover(words(&["--", "ip", "-4", "-br", "address", "show", "eth0"]))
}

fn found(address: &str) -> Event {
    Event::Discovered(Ok(CommandOutput {
        success: true,
        stdout: format!("eth0 UP {}/20 \n", address).into_bytes(),
        stderr: Vec::new(),
    }))
}

fn not_found() -> Event {
    Event::Discovered(Ok(CommandOutput {
        success: false,
        stdout: Vec::new(),
        stderr: b"no such distribution".to_vec(),
    }))
}

fn file(text: &str) -> Event {
    Event::FileRead {
        access: Access { path: "hosts".to_string(), read: true, write: false },
        read: Ok(text.as_bytes().to_vec()),
    }
}

fn reply(message: Cmd) -> Vec<Action> {
    vec![Action::Reply(vec![message])]
}

fn content(text: &str) -> Vec<Action> {
    reply(Cmd::Content(text.to_string()))
}

fn error(text: &str) -> Vec<Action> {
    reply(Cmd::Error(text.to_string()))
}

fn hand_off(address: &str) -> Action {
    Action::HandOff(HandOff {
        program: "wsl2-ip-host-writer.exe".to_string(),
        arguments: format!("{} a.local hosts", address),
    })
}

fn notice(address: &str) -> Action {
    Action::Notify(Notice {
        summary: "Wrote to hosts file".to_string(),
        body: format!(
            "Applied the following domains to the hosts file. \r\n\r\n{} a.local",
            address
        ),
        timeout: 5000,
    })
}

#[test]
fn a_new_coordinator_is_idle() {
    let c = coordinator();
    assert!(c.is_running());
    assert!(c.is_idle());
    assert_eq!(c.config(), &config());
    assert_eq!(c.distros(), &words(&["Ubuntu", "Debian"]));
}

#[test]
fn the_first_request_is_answered_with_what_is_configured() {
    let mut c = coordinator();
    assert_eq!(
        c.handle(Event::Request(Cmd::OnInit)),
        vec![Action::Reply(vec![
            Cmd::InitOk,
            Cmd::Distros(words(&["Ubuntu", "Debian"])),
            Cmd::State(config()),
        ])]
    );
    assert!(c.is_idle());
}

#[test]
fn a_write_at_the_start_follows_the_first_reply() {
    let mut c = Coordinator::new(config(), Vec::new(), true);
    assert_eq!(
        c.handle(Event::Request(Cmd::OnInit)),
        vec![
            Action::Reply(vec![Cmd::InitOk, Cmd::Distros(Vec::new()), Cmd::State(config())]),
            query(),
        ]
    );
    assert!(!c.is_idle());
    assert_eq!(c.handle(found("10.0.0.1")), vec![hand_off("10.0.0.1")]);
    assert_eq!(c.handle(Event::HandedOff(42)), vec![notice("10.0.0.1")]);
    assert!(c.is_idle());
    assert_eq!(c.config(), &with_address("10.0.0.1"));
}

#[test]
fn a_write_at_the_start_fails_without_a_word() {
    let mut c = Coordinator::new(config(), Vec::new(), true);
    c.handle(Event::Request(Cmd::OnInit));
    assert_eq!(c.handle(not_found()), Vec::new());
    assert!(c.is_idle());
    c.handle(Event::Request(Cmd::OnInit));
    c.handle(found("10.0.0.1"));
    assert_eq!(c.handle(Event::HandedOff(2)), Vec::new());
    assert!(c.is_idle());
}

#[test]
fn the_distribution_is_set_and_acknowledged() {
    let mut c = coordinator();
    assert_eq!(
        c.handle(Event::Request(Cmd::SetDistro("Debian".to_string()))),
        reply(Cmd::Nothing)
    );
    assert!(c.is_idle());
    assert_eq!(c.config().distro, Some("Debian".to_string()));
    assert_eq!(
        c.handle(Event::Request(Cmd::Preview)),
        vec![Action::Discover(words(&[
            "-d", "Debian", "--", "ip", "-4", "-br", "address", "show", "eth0"
        ]))]
    );
}

#[test]
fn a_name_is_added_and_the_configuration_sent_back() {
    let mut c = coordinator();
    let mut expected = config();
    expected.names = words(&["a.local", "b.local"]);
    assert_eq!(
        c.handle(Event::Request(Cmd::AddName("b.local".to_string()))),
        reply(Cmd::State(expected.clone()))
    );
    assert_eq!(
        c.handle(Event::Request(Cmd::AddName("a.local".to_string()))),
        reply(Cmd::State(expected.clone()))
    );
    assert_eq!(c.config(), &expected);
}

#[test]
fn a_name_is_removed_and_the_configuration_sent_back() {
    let mut c = coordinator();
    assert_eq!(
        c.handle(Event::Request(Cmd::RemoveName("x.local".to_string()))),
        reply(Cmd::State(config()))
    );
    let mut expected = config();
    expected.names = Vec::new();
    assert_eq!(
        c.handle(Event::Request(Cmd::RemoveName("a.local".to_string()))),
        reply(Cmd::State(expected))
    );
}

#[test]
fn the_path_is_set_and_the_configuration_sent_back() {
    let mut c = coordinator();
    let mut expected = config();
    expected.hosts_path = "/etc/hosts".to_string();
    assert_eq!(
        c.handle(Event::Request(Cmd::SetHostsFile("/etc/hosts".to_string()))),
        reply(Cmd::State(expected))
    );
    assert_eq!(
        c.handle(Event::Request(Cmd::ReadFile)),
        vec![Action::ReadFile("/etc/hosts".to_string())]
    );
}

#[test]
fn the_hosts_file_is_shown_line_by_line() {
    let mut c = coordinator();
    assert_eq!(c.handle(Event::Request(Cmd::ReadFile)), vec![Action::ReadFile("hosts".to_string())]);
    assert!(!c.is_idle());
    assert_eq!(
        c.handle(file("127.0.0.1 localhost\n1.1.1.1 x # added by wsl2-ip-host\n")),
        content("127.0.0.1 localhost\r\n1.1.1.1 x # added by wsl2-ip-host")
    );
    assert!(c.is_idle());
}

#[test]
fn a_hosts_file_that_cannot_be_read_is_an_error() {
    let mut c = coordinator();
    c.handle(Event::Request(Cmd::ReadFile));
    let closed = Event::FileRead {
        access: Access { path: "hosts".to_string(), read: false, write: false },
        read: Ok(Vec::new()),
    };
    assert_eq!(c.handle(closed), error("Unable to read file hosts"));
    c.handle(Event::Request(Cmd::ReadFile));
    let failed = Event::FileRead {
        access: Access { path: "hosts".to_string(), read: true, write: false },
        read: Err("file not found".to_string()),
    };
    assert_eq!(c.handle(failed), error("file not found"));
    assert!(c.is_idle());
}

#[test]
fn a_preview_asks_for_the_address_and_then_for_the_file() {
    let mut c = coordinator();
    assert_eq!(c.handle(Event::Request(Cmd::Preview)), vec![query()]);
    assert_eq!(c.handle(found("10.0.0.3")), vec![Action::ReadFile("hosts".to_string())]);
    assert_eq!(c.config(), &with_address("10.0.0.3"));
    assert_eq!(
        c.handle(file("127.0.0.1 localhost\n1.1.1.1 x # added by wsl2-ip-host\n")),
        content("127.0.0.1 localhost\r\n10.0.0.3 a.local # added by wsl2-ip-host")
    );
    assert!(c.is_idle());
}

#[test]
fn a_preview_without_an_address_is_an_error() {
    let mut c = coordinator();
    c.handle(Event::Request(Cmd::Preview));
    assert_eq!(c.handle(not_found()), error("no such distribution"));
    assert!(c.is_idle());
    assert_eq!(c.config(), &config());
    c.handle(Event::Request(Cmd::Preview));
    assert_eq!(
        c.handle(Event::Discovered(Err("wsl.exe not found".to_string()))),
        error("wsl.exe not found")
    );
}

#[test]
fn a_preview_of_a_file_that_cannot_be_read_is_an_error() {
    let mut c = coordinator();
    c.handle(Event::Request(Cmd::Preview));
    c.handle(found("10.0.0.3"));
    let closed = Event::FileRead {
        access: Access { path: "hosts".to_string(), read: false, write: false },
        read: Err("denied".to_string()),
    };
    assert_eq!(c.handle(closed), error("Unable to read file hosts"));
}

#[test]
fn saving_tells_where_the_settings_are() {
    let mut c = coordinator();
    assert_eq!(
        c.handle(Event::Request(Cmd::SaveConfig)),
        vec![Action::Save(SavedSettings {
            hosts_path: "hosts".to_string(),
            domains: words(&["a.local"]),
            distro: None,
        })]
    );
    assert_eq!(
        c.handle(Event::Saved(Ok("C:\\Users\\me\\.wsl2-ip-host.json".to_string()))),
        content("saved to C:\\Users\\me\\.wsl2-ip-host.json")
    );
    c.handle(Event::Request(Cmd::SaveConfig));
    assert_eq!(
        c.handle(Event::Saved(Err("Unable to locate home folder.".to_string()))),
        content("Unable to locate home folder.")
    );
    assert!(c.is_idle());
}

#[test]
fn a_write_is_handed_to_the_writer() {
    let mut c = coordinator();
    assert_eq!(c.handle(Event::Request(Cmd::Write)), vec![query()]);
    assert_eq!(c.handle(found("10.0.0.1")), vec![hand_off("10.0.0.1")]);
    assert_eq!(
        c.handle(Event::HandedOff(33)),
        vec![Action::Reply(vec![Cmd::Content("Saved.".to_string())]), notice("10.0.0.1")]
    );
    assert!(c.is_idle());
    assert_eq!(c.config(), &with_address("10.0.0.1"));
}

#[test]
fn a_write_that_fails_is_told_as_content() {
    let mut c = coordinator();
    c.handle(Event::Request(Cmd::Write));
    assert_eq!(c.handle(not_found()), content("no such distribution"));
    c.handle(Event::Request(Cmd::Write));
    c.handle(found("10.0.0.1"));
    assert_eq!(c.handle(Event::HandedOff(31)), content("Unable to run wsl2-ip-host-writer."));
    assert!(c.is_idle());
}

#[test]
fn a_message_that_is_no_request_is_acknowledged() {
    let mut c = coordinator();
    for message in [
        Cmd::Content("x".to_string()),
        Cmd::InitOk,
        Cmd::Distros(Vec::new()),
        Cmd::Error("x".to_string()),
        Cmd::Nothing,
        Cmd::State(Config::new()),
    ] {
        assert_eq!(c.handle(Event::Request(message)), reply(Cmd::Nothing));
        assert!(c.is_idle());
        assert_eq!(c.config(), &config());
    }
}

#[test]
fn the_request_to_quit_stops_the_coordinator_for_good() {
    let mut c = coordinator();
    assert_eq!(c.handle(Event::Request(Cmd::Quit)), vec![Action::Stop]);
    assert!(!c.is_running());
    assert_eq!(c.handle(Event::Request(Cmd::OnInit)), Vec::new());
    assert_eq!(c.handle(found("10.0.0.1")), Vec::new());
    assert_eq!(c.handle(Event::Request(Cmd::AddName("b".to_string()))), Vec::new());
    assert!(!c.is_running());
    assert_eq!(c.config(), &config());
}

#[test]
fn an_event_that_does_not_fit_is_answered_with_an_error() {
    let mut c = coordinator();
    assert_eq!(c.handle(found("10.0.0.1")), error("Unable to read app state."));
    assert!(c.is_idle());
    assert_eq!(c.config(), &config());
    c.handle(Event::Request(Cmd::Preview));
    assert_eq!(c.handle(Event::Request(Cmd::Quit)), error("Unable to read app state."));
    assert!(c.is_running());
    assert!(c.is_idle());
    c.handle(Event::Request(Cmd::Write));
    assert_eq!(c.handle(file("")), error("Unable to read app state."));
    assert!(c.is_idle());
}

#[test]
fn events_in_a_row_are_taken_in_their_order() {
    let mut c = coordinator();
    let actions = run(
        &mut c,
        vec![
            Event::Request(Cmd::AddName("b.local".to_string())),
            Event::Request(Cmd::Write),
            found("10.0.0.1"),
            Event::HandedOff(40),
            Event::Request(Cmd::Quit),
            Event::Request(Cmd::Preview),
        ],
    );
    let mut expected = config();
    expected.names = words(&["a.local", "b.local"]);
    assert_eq!(
        actions,
        vec![
            Action::Reply(vec![Cmd::State(expected)]),
            query(),
            Action::HandOff(HandOff {
                program: "wsl2-ip-host-writer.exe".to_string(),
                arguments: "10.0.0.1 a.local,b.local hosts".to_string(),
            }),
            Action::Reply(vec![Cmd::Content("Saved.".to_string())]),
            Action::Notify(Notice {
                summary: "Wrote to hosts file".to_string(),
                body: "Applied the following domains to the hosts file. \r\n\r\n10.0.0.1 a.local\r\n10.0.0.1 b.local".to_string(),
                timeout: 5000,
            }),
            Action::Stop,
        ]
    );
    assert!(!c.is_running());
}

#[test]
fn no_events_lead_to_no_actions() {
    let mut c = coordinator();
    assert_eq!(run(&mut c, Vec::new()), Vec::new());
    assert!(c.is_idle());
}

#[test]
fn the_word_for_a_write_at_the_start_is_looked_for() {
    assert_eq!(RUN_FLAG, "--run");
    assert!(wants_run(&words(&["app.exe", "--run"])));
    assert!(wants_run(&words(&["--run", "x"])));
    assert!(!wants_run(&words(&["app.exe", "--running", "run"])));
    assert!(!wants_run(&words(&[])));
}

#[test]
fn a_hosts_file_that_is_not_text_is_an_error() {
    let mut c = coordinator();
    c.handle(Event::Request(Cmd::ReadFile));
    let cause = String::from_utf8(b"a\n\xff\n".to_vec()).unwrap_err().to_string();
    let broken = Event::FileRead {
        access: Access { path: "hosts".to_string(), read: true, write: true },
        read: Ok(b"a\n\xff\n".to_vec()),
    };
    assert_eq!(c.handle(broken), error(&cause));
    assert!(c.is_idle());
}
