use torvpn_control::error::Error;
use torvpn_control::tor_control::{
    classify, conventional_cookie_paths, cookie_from_torrc, discover_control_cookie, health_keys,
    Candidate, ControlStep, CookieSetting, CookieSources, Pending, Progress, ReplyClass,
    TorControl,
};

fn owned(lines: &[&str]) -> Vec<String> {
    lines.iter().map(|l| l.to_string()).collect()
}

fn feed_all(ctl: &mut TorControl, lines: &[&str]) -> Progress {
    for l in lines {
        match ctl.feed(l) {
            Progress::More => {}
            other => return other,
        }
    }
    Progress::More
}

#[test]
fn lines_are_classified_by_their_beginning() {
    assert_eq!(classify("250 OK\r\n"), ReplyClass::Final);
    assert_eq!(classify("250 \r\n"), ReplyClass::Final);
    assert_eq!(classify("250-version=1\r\n"), ReplyClass::Continuation);
    assert_eq!(classify("515 Bad authentication\r\n"), ReplyClass::Failure);
    assert_eq!(classify("451 Resource exhausted\r\n"), ReplyClass::Failure);
    assert_eq!(classify("4"), ReplyClass::Failure);
    assert_eq!(classify("250+data\r\n"), ReplyClass::Other);
    assert_eq!(classify("250"), ReplyClass::Other);
    assert_eq!(classify(" 250 OK\r\n"), ReplyClass::Other);
    assert_eq!(classify("650 event\r\n"), ReplyClass::Other);
    assert_eq!(classify(""), ReplyClass::Other);
}

#[test]
fn connect_sends_the_cookie_in_hexadecimal() {
    let (ctl, cmd) = TorControl::connect(&[0x01, 0x02, 0xff, 0x00, 0xab]);
    assert_eq!(cmd, "AUTHENTICATE 0102ff00ab\r\n");
    assert!(!ctl.is_authenticated());
    assert_eq!(ctl.pending(), Pending::Auth);
    let (_, empty) = TorControl::connect(&[]);
    assert_eq!(empty, "AUTHENTICATE \r\n");
}

#[test]
fn authentication_succeeds_on_a_final_line() {
    let (mut ctl, _) = TorControl::connect(b"cookie");
    assert_eq!(ctl.feed("250 OK\r\n"), Progress::Done);
    assert!(ctl.is_authenticated());
    assert_eq!(ctl.pending(), Pending::Idle);
}

#[test]
fn authentication_fails_on_an_error_line() {
    let (mut ctl, _) = TorControl::connect(b"cookie");
    let r = ctl.feed("515 Authentication failed: Wrong length on authentication cookie.\r\n");
    assert_eq!(
        r,
        Progress::Failed(Error::Auth(
            "515 Authentication failed: Wrong length on authentication cookie.".to_string()
        ))
    );
    assert!(!ctl.is_authenticated());
    assert_eq!(ctl.pending(), Pending::Idle);
}

#[test]
fn commands_have_their_text() {
    let (mut ctl, _) = TorControl::connect(b"c");
    assert_eq!(ctl.feed("250 OK\r\n"), Progress::Done);
    assert_eq!(ctl.set_conf("ExitNodes", "{us},{de}"), "SETCONF ExitNodes={us},{de}\r\n");
    assert_eq!(ctl.pending(), Pending::Command);
    assert_eq!(ctl.feed("250 OK\r\n"), Progress::Done);
    assert_eq!(ctl.set_conf("ExitNodes", ""), "SETCONF ExitNodes=\r\n");
    assert_eq!(ctl.signal_newnym(), "SIGNAL NEWNYM\r\n");
    assert_eq!(ctl.pending(), Pending::Command);
    assert_eq!(ctl.get_info("version"), "GETINFO version\r\n");
    assert_eq!(ctl.pending(), Pending::Query);
    assert_eq!(ctl.circuits(), "GETINFO circuit-status\r\n");
    assert_eq!(ctl.pending(), Pending::Query);
    assert!(ctl.is_authenticated());
}

#[test]
fn query_value_concatenates_payloads_and_trims() {
    let lines = owned(&["250-a=1\r\n", "250-b=2\r\n", "250 OK\r\n"]);
    assert_eq!(TorControl::query_value(&lines), Ok("a=1\r\nb=2\r\nOK".to_string()));
}

#[test]
fn query_value_skips_a_blank_final_payload() {
    let lines = owned(&["250-version=0.4.8.9\r\n", "250 \r\n"]);
    assert_eq!(TorControl::query_value(&lines), Ok("version=0.4.8.9".to_string()));
    let only_final = owned(&["250   \r\n"]);
    assert_eq!(TorControl::query_value(&only_final), Ok("".to_string()));
}

#[test]
fn query_value_appends_a_final_payload() {
    let lines = owned(&["250 version=1\r\n"]);
    assert_eq!(TorControl::query_value(&lines), Ok("version=1".to_string()));
}

#[test]
fn query_value_ignores_other_lines() {
    let lines = owned(&["650 NOTICE\r\n", "250-x\r\n", "250+y\r\n", "junk\r\n", "250 \r\n"]);
    assert_eq!(TorControl::query_value(&lines), Ok("x".to_string()));
}

#[test]
fn query_value_stops_at_the_first_final_line() {
    let lines = owned(&["250-x\r\n", "250 OK\r\n", "250-y\r\n", "552 late\r\n"]);
    assert_eq!(TorControl::query_value(&lines), Ok("x\r\nOK".to_string()));
}

#[test]
fn an_error_line_fails_a_query() {
    let lines = owned(&["250-x\r\n", "552 Unrecognized key \"foo\"\r\n", "250 OK\r\n"]);
    assert_eq!(
        TorControl::query_value(&lines),
        Err(Error::ControlProtocol("552 Unrecognized key \"foo\"".to_string()))
    );
}

#[test]
fn an_error_line_fails_a_command() {
    for line in ["552 Unrecognized option\r\n", "451 busy\r\n", "5", "4xx"] {
        let lines = owned(&[line]);
        assert_eq!(
            TorControl::send_cmd(&lines),
            Err(Error::ControlProtocol(line.trim().to_string()))
        );
        assert_eq!(
            TorControl::query_value(&lines),
            Err(Error::ControlProtocol(line.trim().to_string()))
        );
    }
}

#[test]
fn send_cmd_succeeds_on_a_final_line() {
    assert_eq!(TorControl::send_cmd(&owned(&["250 OK\r\n"])), Ok(()));
    assert_eq!(TorControl::send_cmd(&owned(&["650 x\r\n", "250-y\r\n", "250 done\r\n"])), Ok(()));
}

#[test]
fn a_reply_that_ends_early_is_a_lost_connection() {
    assert_eq!(
        TorControl::send_cmd(&owned(&[])),
        Err(Error::Connect("control: EOF".to_string()))
    );
    assert_eq!(
        TorControl::query_value(&owned(&["250-x\r\n"])),
        Err(Error::Connect("control: EOF".to_string()))
    );
    let (mut ctl, _) = TorControl::connect(b"c");
    assert_eq!(ctl.closed(), Error::Connect("control: EOF".to_string()));
    assert_eq!(ctl.pending(), Pending::Idle);
}

#[test]
fn a_session_gathers_one_value_at_a_time() {
    let (mut ctl, _) = TorControl::connect(b"c");
    assert_eq!(ctl.feed("250 OK\r\n"), Progress::Done);
    ctl.get_info("a");
    assert_eq!(ctl.feed("250-one\r\n"), Progress::More);
    assert_eq!(ctl.feed("250 OK\r\n"), Progress::Value("one\r\nOK".to_string()));
    ctl.get_info("b");
    assert_eq!(feed_all(&mut ctl, &["250-two\r\n", "250 \r\n"]), Progress::Value("two".to_string()));
    assert_eq!(ctl.feed("250 OK\r\n"), Progress::More);
    assert_eq!(ctl.pending(), Pending::Idle);
}

#[test]
fn health_summary_lists_the_values_that_came() {
    assert_eq!(
        health_keys(),
        vec![
            "status/bootstrap-phase",
            "net/listeners/socks",
            "net/listeners/dns",
            "status/circuit-established",
            "traffic/read",
            "traffic/written"
        ]
    );
    let values = vec![
        Some("done".to_string()),
        None,
        Some("\"127.0.0.1:9053\"".to_string()),
        Some("1".to_string()),
        None,
        Some("42".to_string()),
    ];
    assert_eq!(
        TorControl::health_summary(&values),
        "status/bootstrap-phase=done\nnet/listeners/dns=\"127.0.0.1:9053\"\nstatus/circuit-established=1\ntraffic/written=42\n"
    );
    assert_eq!(TorControl::health_summary(&vec![None, None, None, None, None, None]), "");
    assert_eq!(TorControl::health_summary(&vec![Some("x".to_string())]), "status/bootstrap-phase=x\n");
    assert_eq!(TorControl::health_summary(&Vec::new()), "");
}

#[test]
fn cookie_auth_file_comes_before_data_directory() {
    let text = "DataDirectory /var/lib/tor\nCookieAuthFile /run/tor/cookie\n";
    assert_eq!(cookie_from_torrc(text), CookieSetting::File("/run/tor/cookie".to_string()));
    let other_order = "CookieAuthFile /run/tor/cookie\nDataDirectory /var/lib/tor\n";
    assert_eq!(cookie_from_torrc(other_order), CookieSetting::File("/run/tor/cookie".to_string()));
}

#[test]
fn data_directory_alone_names_the_directory() {
    assert_eq!(
        cookie_from_torrc("SocksPort 9050\r\ndatadirectory   data/tor  # here\r\n"),
        CookieSetting::InDataDirectory("data/tor".to_string())
    );
}

#[test]
fn torrc_comments_and_case_are_ignored() {
    let text = "# CookieAuthFile /commented\n  COOKIEAUTHFILE  C:\\Program Files\\tor   cookie #x\n";
    assert_eq!(
        cookie_from_torrc(text),
        CookieSetting::File("C:\\Program Files\\tor cookie".to_string())
    );
}

#[test]
fn torrc_last_setting_counts_and_empty_values_do_not() {
    assert_eq!(
        cookie_from_torrc("CookieAuthFile a\nCookieAuthFile b\nCookieAuthFile\n"),
        CookieSetting::File("b".to_string())
    );
    assert_eq!(cookie_from_torrc("DataDirectory\nCookieAuthFile #none\n"), CookieSetting::Unset);
    assert_eq!(cookie_from_torrc(""), CookieSetting::Unset);
    assert_eq!(cookie_from_torrc("CookieAuthFileX y\n"), CookieSetting::Unset);
}

fn candidate(path: &str, exists: bool) -> Candidate {
    Candidate { path: path.to_string(), exists }
}

#[test]
fn an_explicit_cookie_that_exists_wins() {
    let src = CookieSources {
        explicit: Some(candidate("/explicit", true)),
        configured: Some("/from/torrc".to_string()),
        conventional: vec![candidate("/s/tor-data/control_auth_cookie", true)],
    };
    assert_eq!(discover_control_cookie(&src, "/s"), Ok("/explicit".to_string()));
}

#[test]
fn a_configured_cookie_comes_next() {
    let src = CookieSources {
        explicit: Some(candidate("/explicit", false)),
        configured: Some("/from/torrc".to_string()),
        conventional: vec![candidate("/s/tor-data/control_auth_cookie", true)],
    };
    assert_eq!(discover_control_cookie(&src, "/s"), Ok("/from/torrc".to_string()));
    let none_explicit = CookieSources {
        explicit: None,
        configured: Some("/from/torrc".to_string()),
        conventional: Vec::new(),
    };
    assert_eq!(discover_control_cookie(&none_explicit, "/s"), Ok("/from/torrc".to_string()));
}

#[test]
fn conventional_places_are_tried_in_order() {
    assert_eq!(
        conventional_cookie_paths(),
        vec!["tor-data/control_auth_cookie", "control_auth_cookie", "data/control_auth_cookie"]
    );
    let src = CookieSources {
        explicit: None,
        configured: None,
        conventional: vec![
            candidate("/s/tor-data/control_auth_cookie", false),
            candidate("/s/control_auth_cookie", true),
            candidate("/s/data/control_auth_cookie", true),
        ],
    };
    assert_eq!(discover_control_cookie(&src, "/s"), Ok("/s/control_auth_cookie".to_string()));
}

#[test]
fn a_search_without_result_names_its_sources() {
    let src = CookieSources {
        explicit: Some(candidate("/explicit", false)),
        configured: None,
        conventional: vec![
            candidate("/s/tor-data/control_auth_cookie", false),
            candidate("/s/control_auth_cookie", false),
            candidate("/s/data/control_auth_cookie", false),
        ],
    };
    assert_eq!(
        discover_control_cookie(&src, "/var/state"),
        Err(Error::CookieNotFound(
            "could not locate Tor control_auth_cookie; tried TORVPN_COOKIE_PATH, TORVPN_TORRC_PATH, and common paths under /var/state".to_string()
        ))
    );
}

#[test]
fn only_a_step_that_must_succeed_is_required() {
    assert!(ControlStep::set("ExitNodes", "{us}", true).is_required());
    assert!(!ControlStep::set("ExitNodes", "", false).is_required());
    assert!(!ControlStep::SignalNewnym.is_required());
    assert!(!ControlStep::AdvanceProxy.is_required());
    assert!(!ControlStep::Settle { millis: 500 }.is_required());
    assert_eq!(
        ControlStep::set("k", "v", true),
        ControlStep::SetConf { key: "k".to_string(), value: "v".to_string(), required: true }
    );
}
