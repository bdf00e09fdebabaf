use wsl2_ip_host::cli::{help_text, parse_args, App};
use wsl2_ip_host::Config;

fn words(items: &[&str]) -> Vec<String> {
    items.iter().map(|s| s.to_string()).collect()
}

fn app(help: bool, names: &[&str], distro: Option<&str>) -> App {
    App { help, names: words(names), distro: distro.map(|d| d.to_string()) }
}

#[test]
fn without_words_the_default_name_is_used() {
    assert_eq!(parse_args(words(&[])), app(false, &["host.wsl.internal"], None));
}

#[test]
fn names_are_taken_in_their_order() {
    assert_eq!(
        parse_args(words(&["-n", "a.local", "--name", "b.local", "-n", "a.local"])),
        app(false, &["a.local", "b.local", "a.local"], None)
    );
}

#[test]
fn the_last_distribution_counts() {
    assert_eq!(
        parse_args(words(&["-d", "Ubuntu", "--distro", "Debian"])),
        app(false, &["host.wsl.internal"], Some("Debian"))
    );
}

#[test]
fn a_word_asking_for_help_wins() {
    assert_eq!(parse_args(words(&["-n", "a", "-h"])), app(true, &[], None));
    assert_eq!(parse_args(words(&["--help", "-d", "x"])), app(true, &[], None));
}

#[test]
fn an_option_does_not_take_an_option_as_its_value() {
    assert_eq!(
        parse_args(words(&["-n", "-d", "Ubuntu"])),
        app(false, &["host.wsl.internal"], Some("Ubuntu"))
    );
    assert_eq!(parse_args(words(&["-d", "--name"])), app(false, &["host.wsl.internal"], None));
}

#[test]
fn an_option_at_the_end_has_no_value() {
    assert_eq!(parse_args(words(&["-n", "a", "-d"])), app(false, &["a"], None));
    assert_eq!(parse_args(words(&["-n"])), app(false, &["host.wsl.internal"], None));
}

#[test]
fn other_words_are_passed_over() {
    assert_eq!(
        parse_args(words(&["x", "-n", "a", "y", "--run", "-d", "z"])),
        app(false, &["a"], Some("z"))
    );
}

#[test]
fn a_value_is_not_read_as_an_option_again() {
    assert_eq!(parse_args(words(&["-n", "x", "-n"])), app(false, &["x"], None));
    assert_eq!(parse_args(words(&["-d", "-h2", "-n", "b"])), app(false, &["b"], Some("-h2")));
}

#[test]
fn apply_takes_a_distribution_or_a_name() {
    let mut a = app(false, &["x"], None);
    a.apply("-d", Some("Ubuntu".to_string()));
    assert_eq!(a, app(false, &["x"], Some("Ubuntu")));
    a.apply("--distro", Some("Debian".to_string()));
    assert_eq!(a, app(false, &["x"], Some("Debian")));
    a.apply("-n", Some("y".to_string()));
    a.apply("--name", Some("x".to_string()));
    assert_eq!(a, app(false, &["x", "y", "x"], Some("Debian")));
}

#[test]
fn apply_changes_nothing_without_a_value_or_for_another_word() {
    let mut a = app(false, &["x"], Some("Ubuntu"));
    a.apply("-d", None);
    a.apply("-n", None);
    a.apply("-x", Some("y".to_string()));
    a.apply("", Some("y".to_string()));
    assert_eq!(a, app(false, &["x"], Some("Ubuntu")));
}

#[test]
fn the_configuration_of_the_command_line_is_for_the_default_file() {
    let config = app(false, &["a", "a"], Some("Ubuntu")).config();
    let mut expected = Config::new();
    expected.names = words(&["a", "a"]);
    expected.distro = Some("Ubuntu".to_string());
    assert_eq!(config, expected);
}

#[test]
fn the_help_text_names_the_version_and_the_default_name() {
    let text = help_text("1.2.3");
    assert!(text.starts_with("wsl2-ip-host 1.2.3\n\nUsage: wsl2-ip-host [-d distro] [-n <host-name>] ...\n"));
    assert!(text.contains("Host name to associate the ip to [default: host.wsl.internal]\n"));
    assert!(text.ends_with("-h, --help                  Display help text\n"));
}
