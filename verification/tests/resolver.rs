use wsl2_ip_host::resolver::{
    distro_names, distro_of_entry, pair_units, parse_address, wsl_ip_args, wsl_list_args,
    CommandOutput, WSL_EXE,
};
use wsl2_ip_host::{find_wsl_distros, find_wsl_ip, DiscoveryError};

fn words(items: &[&str]) -> Vec<String> {
    items.iter().map(|s| s.to_string()).collect()
}

fn output(success: bool, stdout: &[u8], stderr: &[u8]) -> Result<CommandOutput, String> {
    Ok(CommandOutput { success, stdout: stdout.to_vec(), stderr: stderr.to_vec() })
}

fn utf16(text: &str) -> Vec<u8> {
    let mut bytes = Vec::new();
    for unit in text.encode_utf16() {
        bytes.push((unit & 0xff) as u8);
        bytes.push((unit >> 8) as u8);
    }
    bytes
}

#[test]
fn the_program_is_wsl() {
    assert_eq!(WSL_EXE, "wsl.exe");
}

#[test]
fn the_address_query_asks_for_eth0_in_brief_form() {
    assert_eq!(wsl_ip_args(&None), words(&["--", "ip", "-4", "-br", "address", "show", "eth0"]));
    assert_eq!(
        wsl_ip_args(&Some("Ubuntu-20.04".to_string())),
        words(&["-d", "Ubuntu-20.04", "--", "ip", "-4", "-br", "address", "show", "eth0"])
    );
}

#[test]
fn the_listing_asks_for_all_distributions() {
    assert_eq!(wsl_list_args(), words(&["-l", "--all"]));
}

#[test]
fn the_address_is_the_last_word_up_to_its_slash() {
    assert_eq!(parse_address("eth0 UP 172.20.10.5/20"), Ok("172.20.10.5".to_string()));
    assert_eq!(
        parse_address("eth0             UP             172.20.10.5/20 \n"),
        Ok("172.20.10.5".to_string())
    );
    assert_eq!(parse_address("172.20.10.5/20/30"), Ok("172.20.10.5".to_string()));
    assert_eq!(parse_address("eth0 /20"), Ok("".to_string()));
}

#[test]
fn the_last_word_counts_whatever_stands_before_it() {
    assert_eq!(
        parse_address("eth0 UP 172.20.10.5/20 fe80::1/64"),
        Ok("fe80::1".to_string())
    );
    assert_eq!(
        parse_address("eth0 UP fe80::1/64 172.20.10.5/20"),
        Ok("172.20.10.5".to_string())
    );
}

#[test]
fn an_output_without_a_word_has_no_address() {
    let error = parse_address(" \n\t").unwrap_err();
    assert_eq!(error, DiscoveryError::NoTokens);
    assert_eq!(error.message(), "Unable to split output text.");
    assert_eq!(parse_address(""), Err(DiscoveryError::NoTokens));
}

#[test]
fn a_last_word_without_a_slash_is_no_address() {
    let error = parse_address("eth0 UP 172.20.10.5").unwrap_err();
    assert_eq!(error, DiscoveryError::MalformedAddress);
    assert_eq!(error.message(), "Unable to separate IP from subnet");
    assert_eq!(parse_address("172.20.10.5/20 DOWN"), Err(DiscoveryError::MalformedAddress));
}

#[test]
fn find_wsl_ip_reads_the_output_of_the_query() {
    assert_eq!(
        find_wsl_ip(output(true, b"eth0             UP             172.29.192.157/20 \n", b"")),
        Ok("172.29.192.157".to_string())
    );
}

#[test]
fn find_wsl_ip_decodes_the_output() {
    assert_eq!(
        find_wsl_ip(output(true, "ñ €/20".as_bytes(), b"")),
        Ok("€".to_string())
    );
}

#[test]
fn find_wsl_ip_fails_where_the_query_did_not_start() {
    let error = find_wsl_ip(Err("program not found".to_string())).unwrap_err();
    assert_eq!(error, DiscoveryError::Launch("program not found".to_string()));
    assert_eq!(error.message(), "program not found");
}

#[test]
fn find_wsl_ip_reports_what_a_failed_query_wrote() {
    let error = find_wsl_ip(output(false, b"1.2.3.4/5", b"no such distribution")).unwrap_err();
    assert_eq!(error, DiscoveryError::ExitFailure("no such distribution".to_string()));
    assert_eq!(error.message(), "no such distribution");
}

#[test]
fn find_wsl_ip_reports_a_failed_query_that_wrote_no_text() {
    assert_eq!(
        find_wsl_ip(output(false, b"", b"\xff\xfe")),
        Err(DiscoveryError::ExitFailure("Unable to run ip command.".to_string()))
    );
}

#[test]
fn find_wsl_ip_fails_where_the_output_is_not_text() {
    let bytes = b"eth0 \xff 1.2.3.4/5".to_vec();
    let expected = String::from_utf8(bytes.clone()).unwrap_err().to_string();
    let error = find_wsl_ip(output(true, &bytes, b"")).unwrap_err();
    assert_eq!(error, DiscoveryError::InvalidText(expected.clone()));
    assert_eq!(error.message(), expected);
}

#[test]
fn find_wsl_ip_fails_on_empty_output() {
    assert_eq!(find_wsl_ip(output(true, b"", b"")), Err(DiscoveryError::NoTokens));
    assert_eq!(find_wsl_ip(output(true, b"eth0 DOWN", b"")), Err(DiscoveryError::MalformedAddress));
}

#[test]
fn units_are_paired_with_the_low_byte_first() {
    assert_eq!(pair_units(&[]), Vec::<u16>::new());
    assert_eq!(pair_units(&[0x41]), Vec::<u16>::new());
    assert_eq!(pair_units(&[0x41, 0x00, 0xac, 0x20]), vec![0x0041, 0x20ac]);
    assert_eq!(pair_units(&[0xff, 0xff, 0x01]), vec![0xffff]);
}

#[test]
fn the_names_of_a_listing_are_its_lines_after_the_heading() {
    assert_eq!(
        distro_names("Windows Subsystem for Linux Distributions:\r\nUbuntu-20.04 (Default)\r\nDebian\r\n"),
        words(&["Ubuntu-20.04 (Default)", "Debian"])
    );
    assert_eq!(distro_names("heading\n  a  \n\n b"), words(&["a", "", "b"]));
    assert_eq!(distro_names("heading"), words(&[]));
    assert_eq!(distro_names("heading\n"), words(&[]));
    assert_eq!(distro_names(""), words(&[]));
    assert_eq!(distro_names("\n"), words(&[]));
    assert_eq!(distro_names("\n\n"), words(&[""]));
}

#[test]
fn the_names_of_a_listing_agree_with_the_standard_library() {
    for text in ["", "\n", "a", "a\n", "a\nb", "a\r\nb\r\n", "a\n\n", "a\n b \r", "a\n\r\n\r"] {
        let expected: Vec<String> = text.lines().skip(1).map(|l| l.trim().to_string()).collect();
        assert_eq!(distro_names(text), expected, "{:?}", text);
    }
}

#[test]
fn find_wsl_distros_reads_a_listing_in_utf16() {
    let listing = utf16("Windows Subsystem for Linux Distributions:\r\nUbuntu (Default)\r\nñu\r\n");
    assert_eq!(
        find_wsl_distros(output(true, &listing, b"")),
        Ok(words(&["Ubuntu (Default)", "ñu"]))
    );
}

#[test]
fn find_wsl_distros_fails_where_the_listing_did_not_start() {
    assert_eq!(
        find_wsl_distros(Err("program not found".to_string())),
        Err(DiscoveryError::Launch("program not found".to_string()))
    );
}

#[test]
fn find_wsl_distros_reports_a_failed_listing() {
    assert_eq!(
        find_wsl_distros(output(false, b"", b"broken")),
        Err(DiscoveryError::ExitFailure("broken".to_string()))
    );
    assert_eq!(
        find_wsl_distros(output(false, b"", b"\xff")),
        Err(DiscoveryError::ExitFailure(
            "Unable to get a list of distros from wsl.exe.".to_string()
        ))
    );
}

#[test]
fn find_wsl_distros_fails_where_the_listing_is_not_text() {
    let units = [0xd800u16];
    let expected = String::from_utf16(&units).unwrap_err().to_string();
    assert_eq!(
        find_wsl_distros(output(true, &[0x00, 0xd8], b"")),
        Err(DiscoveryError::InvalidText(expected))
    );
}

#[test]
fn the_name_in_an_entry_is_the_entry_without_the_mark() {
    assert_eq!(distro_of_entry("Ubuntu-20.04 (Default)"), "Ubuntu-20.04");
    assert_eq!(distro_of_entry("  Debian "), "Debian");
    assert_eq!(distro_of_entry("(Default)"), "");
}

#[test]
fn find_wsl_distros_reads_characters_that_take_two_units() {
    let listing = utf16("heading\n😀 one\n𝄞\n");
    assert_eq!(find_wsl_distros(output(true, &listing, b"")), Ok(words(&["😀 one", "𝄞"])));
}

#[test]
fn find_wsl_distros_fails_on_a_half_character_without_its_partner() {
    for units in [vec![0xdc00u16, 0x41], vec![0x41, 0xd83d], vec![0xd83d, 0x41], vec![0xd83d, 0xd83d, 0xde00]] {
        let mut bytes = Vec::new();
        for unit in units.iter() {
            bytes.push((unit & 0xff) as u8);
            bytes.push((unit >> 8) as u8);
        }
        let expected = String::from_utf16(&units).unwrap_err().to_string();
        assert_eq!(
            find_wsl_distros(output(true, &bytes, b"")),
            Err(DiscoveryError::InvalidText(expected))
        );
    }
}
