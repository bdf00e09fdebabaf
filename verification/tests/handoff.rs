use wsl2_ip_host::handoff::{
    config_for_writer, hand_off_succeeded, notify, report_write, save, writer_request, HandOff,
    Notice, SpawnFailure, WriterRequest, WRITER_EXE,
};
use wsl2_ip_host::{find_writer, write_changes, Access, Config, IoError};

fn words(items: &[&str]) -> Vec<String> {
    items.iter().map(|s| s.to_string()).collect()
}

fn open_access(path: &str) -> Access {
    Access { path: path.to_string(), read: true, write: true }
}

#[test]
fn the_writer_is_handed_address_names_and_path() {
    let mut config = Config::with_hosts_path("C:\\hosts");
    config.set_names(words(&["a.local", "b.local"]));
    assert_eq!(
        write_changes("10.0.0.1", &config),
        HandOff {
            program: "wsl2-ip-host-writer.exe".to_string(),
            arguments: "10.0.0.1 a.local,b.local C:\\hosts".to_string()
        }
    );
    assert_eq!(WRITER_EXE, "wsl2-ip-host-writer.exe");
}

#[test]
fn the_writer_is_handed_an_empty_list_where_there_are_no_names() {
    let config = Config::with_hosts_path("p");
    assert_eq!(write_changes("1.1.1.1", &config).arguments, "1.1.1.1  p");
}

#[test]
fn the_shell_started_the_writer_where_its_code_is_above_31() {
    assert!(hand_off_succeeded(32));
    assert!(hand_off_succeeded(42));
    assert!(hand_off_succeeded(i32::MAX));
    assert!(!hand_off_succeeded(31));
    assert!(!hand_off_succeeded(0));
    assert!(!hand_off_succeeded(2));
    assert!(!hand_off_succeeded(-1));
}

#[test]
fn the_writer_takes_three_words() {
    assert_eq!(
        writer_request(&words(&["writer.exe", "10.0.0.1", "a,b", "C:\\hosts"])),
        Ok(WriterRequest {
            ip: "10.0.0.1".to_string(),
            domains: "a,b".to_string(),
            path: "C:\\hosts".to_string()
        })
    );
}

#[test]
fn the_writer_refuses_other_numbers_of_words() {
    let refused = Err("Insufficient arguments provided.".to_string());
    assert_eq!(writer_request(&words(&[])), refused);
    assert_eq!(writer_request(&words(&["writer.exe", "10.0.0.1", "a,b"])), refused);
    assert_eq!(writer_request(&words(&["writer.exe", "1", "2", "3", "4"])), refused);
}

#[test]
fn the_writer_takes_each_name_once() {
    let config = config_for_writer("hosts", "a,b,a,c,b");
    assert_eq!(config.hosts_path, "hosts");
    assert_eq!(config.names, words(&["a", "b", "c"]));
    assert_eq!(config.distro, None);
}

#[test]
fn the_writer_takes_no_empty_name() {
    assert_eq!(config_for_writer("hosts", "").names, words(&[]));
    assert_eq!(config_for_writer("hosts", "a,").names, words(&["a"]));
    assert_eq!(config_for_writer("hosts", ",,a,,b,").names, words(&["a", "b"]));
    assert_eq!(config_for_writer("hosts", ",").names, words(&[]));
}

#[test]
fn the_writer_writes_no_line_for_no_names() {
    let file: Result<Vec<u8>, String> =
        Ok(b"127.0.0.1 localhost\r\n10.0.0.9 x # added by wsl2-ip-host\r\n".to_vec());
    assert_eq!(
        save("hosts", "", "10.0.0.3", &open_access("hosts"), &file),
        Ok(b"127.0.0.1 localhost\r\n".to_vec())
    );
}

#[test]
fn the_writer_gets_no_names_from_a_configuration_without_names() {
    let config = Config::with_hosts_path("hosts");
    let hand_off = write_changes("10.0.0.1", &config);
    let parts: Vec<&str> = hand_off.arguments.split(' ').collect();
    assert_eq!(parts, vec!["10.0.0.1", "", "hosts"]);
    assert_eq!(config_for_writer(parts[2], parts[1]).names, words(&[]));
}

#[test]
fn the_writer_gets_the_names_of_the_configuration() {
    let mut config = Config::with_hosts_path("hosts");
    config.set_names(words(&["a.local", "b.local", "c"]));
    let hand_off = write_changes("10.0.0.1", &config);
    let parts: Vec<&str> = hand_off.arguments.split(' ').collect();
    assert_eq!(parts.len(), 3);
    let received = config_for_writer(parts[2], parts[1]);
    assert_eq!(received.names, config.names);
    assert_eq!(received.hosts_path, config.hosts_path);
}

#[test]
fn save_gives_the_bytes_to_write() {
    let file: Result<Vec<u8>, String> =
        Ok(b"127.0.0.1 localhost\r\n10.0.0.9 x # added by wsl2-ip-host\r\n".to_vec());
    assert_eq!(
        save("hosts", "a.local,b.local", "10.0.0.3", &open_access("hosts"), &file),
        Ok(b"127.0.0.1 localhost\r\n10.0.0.3 a.local # added by wsl2-ip-host\r\n10.0.0.3 b.local # added by wsl2-ip-host\r\n".to_vec())
    );
}

#[test]
fn save_fails_as_a_write_does() {
    let file: Result<Vec<u8>, String> = Ok(Vec::new());
    let closed = Access { path: "hosts".to_string(), read: true, write: false };
    assert_eq!(
        save("hosts", "a", "10.0.0.3", &closed, &file),
        Err(IoError::NotWritable { path: "hosts".to_string() })
    );
    assert_eq!(
        save("hosts", "a", "10.0.0.3", &open_access("hosts"), &Err("gone".to_string())),
        Err(IoError::ReadFailed { path: "hosts".to_string(), cause: "gone".to_string() })
    );
}

#[test]
fn a_failed_write_is_reported_with_its_cause() {
    assert_eq!(report_write("hosts", Ok(())), Ok(()));
    let error = report_write("hosts", Err("disk full".to_string())).unwrap_err();
    assert_eq!(
        error,
        IoError::WriteFailed { path: "hosts".to_string(), cause: "disk full".to_string() }
    );
    assert_eq!(error.message(), "disk full");
}

#[test]
fn the_notice_lists_address_and_name_line_by_line() {
    assert_eq!(
        notify("10.0.0.1", &words(&["a.local", "b.local"])),
        Notice {
            summary: "Wrote to hosts file".to_string(),
            body: "Applied the following domains to the hosts file. \r\n\r\n10.0.0.1 a.local\r\n10.0.0.1 b.local"
                .to_string(),
            timeout: 5000
        }
    );
    assert_eq!(
        notify("10.0.0.1", &words(&[])).body,
        "Applied the following domains to the hosts file. \r\n\r\n"
    );
}

#[test]
fn a_writer_that_started_is_fine() {
    assert_eq!(find_writer(&Ok(())), None);
}

#[test]
fn a_writer_that_needs_more_rights_is_fine() {
    let failure = SpawnFailure {
        text: "The requested operation requires elevation. (os error 740)".to_string(),
        not_found: false,
    };
    assert_eq!(find_writer(&Err(failure)), None);
    let both = SpawnFailure { text: "requires elevation".to_string(), not_found: true };
    assert_eq!(find_writer(&Err(both)), None);
}

#[test]
fn a_writer_that_is_not_there_is_reported() {
    let failure = SpawnFailure { text: "program not found".to_string(), not_found: true };
    assert_eq!(
        find_writer(&Err(failure)),
        Some("wsl2-ip-host-writer.exe not found: program not found".to_string())
    );
}

#[test]
fn another_trouble_with_the_writer_is_reported_in_the_words_of_the_system() {
    let failure = SpawnFailure { text: "access denied".to_string(), not_found: false };
    assert_eq!(find_writer(&Err(failure)), Some("access denied".to_string()));
}
