use tracker::browser::Browser;
use tracker::cli::Cli;
use tracker::cli::CliErrorKind;
use tracker::cli::check_browser;
use tracker::cli::check_host;
use tracker::cli::check_port;
use tracker::cli::load_cfg_file;
use tracker::console::linux_parser::parse_histfile_contents;
use tracker::console::linux_parser::parse_line;
use tracker::console::linux_parser::ErrorKind;
use tracker::elastic::HostAddr;
use tracker::elastic::parser::parse_cfg_file;
use tracker::elastic::parser::ErrorKind as EsErrorKind;
use tracker::utils::PathError;
use tracker::utils::parse_inet;
use tracker::utils::path_expand;
use tracker::utils::replace_tilde;
use tracker::utils::trim_trailing_newlines;

fn addr(a: u8, b: u8, c: u8, d: u8) -> HostAddr {
    HostAddr { a, b, c, d }
}

#[test]
fn host_values_are_validated() {
    assert_eq!(check_host("localhost"), Some(addr(127, 0, 0, 1)));
    assert_eq!(check_host("10.1.2.3"), Some(addr(10, 1, 2, 3)));
    assert_eq!(check_host("0.0.0.0"), Some(addr(0, 0, 0, 0)));
    assert_eq!(check_host("255.255.255.255"), Some(addr(255, 255, 255, 255)));
    assert_eq!(check_host("256.1.1.1"), None);
    assert_eq!(check_host("01.2.3.4"), None);
    assert_eq!(check_host("1.2.3"), None);
    assert_eq!(check_host("1.2.3.4.5"), None);
    assert_eq!(check_host("a.b.c.d"), None);
    assert_eq!(check_host(""), None);
}

#[test]
fn port_values_are_validated() {
    assert_eq!(check_port("9200"), Some(9200));
    assert_eq!(check_port("0"), Some(0));
    assert_eq!(check_port("18446744073709551615"), Some(u64::MAX));
    assert_eq!(check_port("18446744073709551616"), None);
    assert_eq!(check_port(""), None);
    assert_eq!(check_port("12x"), None);
}

#[test]
fn browser_names_are_validated() {
    assert!(matches!(check_browser("chrome"), Some(Browser::Chrome)));
    assert!(matches!(check_browser("firefox"), Some(Browser::Firefox)));
    assert!(matches!(check_browser("firefox-esr"), Some(Browser::FirefoxEsr)));
    assert!(check_browser("opera").is_none());
    assert!(check_browser("").is_none());
}

#[test]
fn cfg_file_with_all_keys_loads() {
    let text = "# agent endpoint\n\nhost: 10.0.0.1\nport: 9300\nindex: visits\nbrowser: chrome\n";
    let cli: Cli = load_cfg_file(text).unwrap();
    assert_eq!(cli.host, addr(10, 0, 0, 1));
    assert_eq!(cli.port, 9300);
    assert_eq!(cli.index, "visits");
    assert!(matches!(cli.browser, Browser::Chrome));
}

#[test]
fn cfg_file_defaults_apply() {
    let cli = load_cfg_file("index: visits\n").unwrap();
    assert_eq!(cli.host, addr(127, 0, 0, 1));
    assert_eq!(cli.port, 9200);
    assert!(matches!(cli.browser, Browser::Firefox));
}

#[test]
fn cfg_file_later_lines_override_earlier_ones() {
    let cli = load_cfg_file("index: first\nindex: second\nport: 1\nport: 2\n").unwrap();
    assert_eq!(cli.index, "second");
    assert_eq!(cli.port, 2);
}

#[test]
fn cfg_file_errors_name_the_line() {
    assert_eq!(
        load_cfg_file("host: BAD\nindex: i\n").unwrap_err().kind,
        CliErrorKind::BadHost(0)
    );
    assert_eq!(
        load_cfg_file("index: i\nport: many\n").unwrap_err().kind,
        CliErrorKind::BadPort(1)
    );
    assert_eq!(load_cfg_file("index:nospace\n").unwrap_err().kind, CliErrorKind::BadIndex(0));
    assert_eq!(
        load_cfg_file("browser: opera\n").unwrap_err().kind,
        CliErrorKind::BadBrowser(0)
    );
    assert_eq!(load_cfg_file("hello world\n").unwrap_err().kind, CliErrorKind::BadLine(0));
    assert_eq!(load_cfg_file("").unwrap_err().kind, CliErrorKind::MissingIndex);
    assert_eq!(
        load_cfg_file("host: 1.2.3.4\n").unwrap_err().kind,
        CliErrorKind::MissingIndex
    );
}

#[test]
fn es_cfg_file_loads_and_builds_the_url() {
    let cfg = parse_cfg_file("host: 1.2.3.4\nport: 9200\nindex: visits\n").unwrap();
    assert_eq!(cfg.host(), addr(1, 2, 3, 4));
    assert_eq!(cfg.port(), 9200);
    assert_eq!(cfg.index(), "visits");
    assert_eq!(cfg.url(), "http://1.2.3.4:9200");
}

#[test]
fn es_cfg_file_requires_every_field() {
    let e = parse_cfg_file("port: 9200\nindex: visits\n").unwrap_err();
    match e.kind {
        EsErrorKind::FieldNotPresent(f) => assert_eq!(f, "host"),
        other => panic!("unexpected error: {:?}", other),
    }
    let e = parse_cfg_file("host: 1.2.3.4\nindex: visits\n").unwrap_err();
    match e.kind {
        EsErrorKind::FieldNotPresent(f) => assert_eq!(f, "port"),
        other => panic!("unexpected error: {:?}", other),
    }
    let e = parse_cfg_file("host: 1.2.3.4\nport: 9200\n").unwrap_err();
    match e.kind {
        EsErrorKind::FieldNotPresent(f) => assert_eq!(f, "index"),
        other => panic!("unexpected error: {:?}", other),
    }
}

#[test]
fn es_cfg_file_rejects_names_as_hosts() {
    let e = parse_cfg_file("host: localhost\nport: 1\nindex: i\n").unwrap_err();
    match e.kind {
        EsErrorKind::BadField(p, f, _) => {
            assert_eq!(p, 0);
            assert_eq!(f, "host");
        },
        other => panic!("unexpected error: {:?}", other),
    }
}

#[test]
fn es_cfg_file_rejects_unknown_lines() {
    let e = parse_cfg_file("browser: chrome\n").unwrap_err();
    match e.kind {
        EsErrorKind::BadLine(p, l) => {
            assert_eq!(p, 0);
            assert_eq!(l, "browser: chrome");
        },
        other => panic!("unexpected error: {:?}", other),
    }
}

#[test]
fn record_lines_parse_field_by_field() {
    let rec = parse_line(
        0,
        "status=\"2\"\tuser=\"alice\"\ttimestamp=\"1700000000\"\tcmd=\"cat a b\"\toutfile=\"/tmp/out.7\"",
    )
    .unwrap();
    assert_eq!(rec.status, 2);
    assert_eq!(rec.user, "alice");
    assert_eq!(rec.timestamp, 1700000000);
    assert_eq!(rec.cmd, "cat a b");
    assert_eq!(rec.outfile, "/tmp/out.7");
}

#[test]
fn record_lines_reject_bad_shapes() {
    let e = parse_line(3, "status=\"x\"\tuser=\"a\"\ttimestamp=\"1\"\tcmd=\"c\"\toutfile=\"o\"")
        .unwrap_err();
    match e.kind {
        ErrorKind::BadLine(p, _) => assert_eq!(p, 3),
        other => panic!("unexpected error: {:?}", other),
    }
    assert!(parse_line(0, "").is_err());
    assert!(parse_line(0, "status=\"1\"").is_err());
    // An overlong status does not fit and the line is refused whole.
    assert!(
        parse_line(
            0,
            "status=\"99999999999999999999\"\tuser=\"a\"\ttimestamp=\"1\"\tcmd=\"c\"\toutfile=\"o\"",
        )
        .is_err()
    );
}

#[test]
fn chunks_parse_all_lines_or_none() {
    let recs = parse_histfile_contents(
        "status=\"0\"\tuser=\"a\"\ttimestamp=\"1\"\tcmd=\"x\"\toutfile=\"o1\"\nstatus=\"1\"\tuser=\"b\"\ttimestamp=\"2\"\tcmd=\"y\"\toutfile=\"o2\"\n",
    )
    .unwrap();
    assert_eq!(recs.len(), 2);
    assert_eq!(recs[0].user, "a");
    assert_eq!(recs[1].status, 1);
    assert!(parse_histfile_contents("").unwrap().is_empty());
    let e = parse_histfile_contents(
        "status=\"0\"\tuser=\"a\"\ttimestamp=\"1\"\tcmd=\"x\"\toutfile=\"o1\"\nnope\n",
    )
    .unwrap_err();
    match e.kind {
        ErrorKind::BadLine(p, l) => {
            assert_eq!(p, 1);
            assert_eq!(l, "nope");
        },
        other => panic!("unexpected error: {:?}", other),
    }
}

#[test]
fn transcript_chunks_split_into_records() {
    let text = "header junk\nCommand start time: 20240101000000\n**********************\nPS C:\\Users> dir\nfile1\nfile2\nCommand start time: 20240101000130\nPS C:\\> echo hi\nhi";
    let recs = tracker::console::win_parser::parse_histfile(text).unwrap();
    assert_eq!(recs.len(), 2);
    assert_eq!(recs[0].timestamp, 1704067200);
    assert_eq!(recs[0].cmd, " dir");
    assert_eq!(recs[0].output, "file1\nfile2");
    assert_eq!(recs[1].timestamp, 1704067290);
    assert_eq!(recs[1].cmd, " echo hi");
    assert_eq!(recs[1].output, "hi");
}

#[test]
fn transcript_records_reject_bad_segments() {
    assert!(tracker::console::win_parser::parse_histfile("").unwrap().is_empty());
    let bad_date = "Command start time: notadate\nPS C:\\> x\n";
    match tracker::console::win_parser::parse_histfile(bad_date).unwrap_err().kind {
        ErrorKind::BadLine(p, _) => assert_eq!(p, 1),
        other => panic!("unexpected error: {:?}", other),
    }
    let no_prompt = "Command start time: 20240101000000\njust output\n";
    assert!(tracker::console::win_parser::parse_histfile(no_prompt).is_err());
}

#[test]
fn tilde_expansion_replaces_every_tilde() {
    assert_eq!(replace_tilde("~/logs/~x", "/home/u"), "/home/u/logs//home/ux");
    assert_eq!(replace_tilde("/plain", "/home/u"), "/plain");
}

#[test]
fn paths_without_tilde_expand_to_themselves() {
    assert_eq!(path_expand("/tmp/somewhere").unwrap(), "/tmp/somewhere");
}

#[test]
fn resolving_a_matchless_pattern_fails() {
    let e = tracker::utils::path_expand_and_resolve("/nonexistent-root-path/*/x").unwrap_err();
    assert_eq!(e, PathError::NoMatch);
}

#[test]
fn command_output_trimming_strips_trailing_newlines() {
    assert_eq!(trim_trailing_newlines("root\n"), "root");
    assert_eq!(trim_trailing_newlines("root\n\n\n"), "root");
    assert_eq!(trim_trailing_newlines("root"), "root");
    assert_eq!(trim_trailing_newlines("a\nb\n"), "a\nb");
    assert_eq!(trim_trailing_newlines(""), "");
}

#[test]
fn interface_listings_yield_the_first_inet_address() {
    let text = "2: eth0: <UP> mtu 1500\n    inet 192.168.1.7/24 brd 192.168.1.255\n";
    assert_eq!(parse_inet(text), Some(addr(192, 168, 1, 7)));
    assert_eq!(parse_inet("no address here"), None);
    assert_eq!(parse_inet("inet 999.1.1.1/8"), None);
}
