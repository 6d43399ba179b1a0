use torvpn_control::config::{
    Config, ExitConfig, HopConfig, HopItem, ProxyConfig, StatusConfig, TorConfig, TunConfig,
};
use torvpn_control::error::Error;
use torvpn_control::state::{read_hop_state, HopPlanSnapshot, HopStateFields};
use torvpn_control::status_server::{
    auth_check, authorize, configured_secret, exit_clear, exit_pattern, exit_set, handle,
    handle_text, listens_on_loopback, parse_query, plan_report, presented_credential, query_get,
    request_line, respond, seconds_remaining, status, status_plan, status_report, Action, Reply,
};
use torvpn_control::tor_control::{ControlStep, Progress, TorControl};

fn hop(duration: u64, country: &str) -> HopItem {
    HopItem { duration, exit_countries: vec![country.to_string()], proxy: None }
}

fn config(listen: &str) -> Config {
    Config {
        tor: TorConfig {
            socks_port: 9050,
            dns_port: 9053,
            control_port: 9051,
            use_bridges: false,
            bridges: Vec::new(),
            client_transport_plugin: None,
            tor_path_hint: None,
        },
        status: StatusConfig { enabled: true, listen: listen.to_string() },
        hop: HopConfig { sequence: vec![hop(60, "us"), hop(120, "de"), hop(180, "fr")] },
        exit: ExitConfig { countries: Vec::new(), strict: false },
        proxy: ProxyConfig { enabled: false },
        tun: TunConfig { interface: "wintun".to_string() },
    }
}

fn set(key: &str, value: &str, required: bool) -> ControlStep {
    ControlStep::SetConf { key: key.to_string(), value: value.to_string(), required }
}

#[test]
fn a_target_splits_at_the_first_question_mark() {
    assert_eq!(parse_query("/control/exitset?cc=US,de"), ("/control/exitset", Some("cc=US,de")));
    assert_eq!(parse_query("/status"), ("/status", None));
    assert_eq!(parse_query("/a?b?c"), ("/a", Some("b?c")));
    assert_eq!(parse_query("/a?"), ("/a", Some("")));
    assert_eq!(parse_query(""), ("", None));
}

#[test]
fn the_first_pair_with_the_key_gives_the_value() {
    assert_eq!(query_get(Some("cc=US&token=t"), "token"), Some("t"));
    assert_eq!(query_get(Some("a=1&a=2"), "a"), Some("1"));
    assert_eq!(query_get(Some("a&a=2"), "a"), Some("2"));
    assert_eq!(query_get(Some("a=1=2"), "a"), Some("1=2"));
    assert_eq!(query_get(Some("a="), "a"), Some(""));
    assert_eq!(query_get(Some("ab=1"), "a"), None);
    assert_eq!(query_get(Some(""), "a"), None);
    assert_eq!(query_get(None, "a"), None);
}

#[test]
fn the_request_line_has_defaults() {
    assert_eq!(request_line("POST /control/exitclear HTTP/1.1\r\nHost: x\r\n\r\n"), ("POST", "/control/exitclear"));
    assert_eq!(request_line("DELETE"), ("DELETE", "/"));
    assert_eq!(request_line(""), ("GET", "/"));
    assert_eq!(request_line("\r\nPOST /x HTTP/1.1\r\n"), ("GET", "/"));
}

#[test]
fn loopback_is_told_by_the_beginning_of_the_address() {
    assert!(listens_on_loopback("127.0.0.1:8787"));
    assert!(listens_on_loopback("localhost:8787"));
    assert!(!listens_on_loopback("0.0.0.0:8787"));
    assert!(!listens_on_loopback("192.168.1.2:80"));
    assert!(!listens_on_loopback(""));
}

#[test]
fn the_environment_comes_before_the_token_file() {
    assert_eq!(configured_secret(Some("env"), Some("file\n")), Some("env"));
    assert_eq!(configured_secret(None, Some("  file \r\n")), Some("file"));
    assert_eq!(configured_secret(None, None), None);
    assert_eq!(configured_secret(None, Some(" \n")), None);
    assert_eq!(configured_secret(Some(""), Some("file")), None);
    assert_eq!(configured_secret(Some(" env "), None), Some(" env "));
}

#[test]
fn the_bearer_header_comes_first() {
    let req = "GET /x?token=q HTTP/1.1\r\nX-Auth: x\r\nAuthorization: Bearer  b \r\n\r\n";
    assert_eq!(presented_credential(req, Some("token=q")), Some("b"));
}

#[test]
fn the_x_auth_header_comes_before_the_query() {
    let req = "GET /x?token=q HTTP/1.1\r\nHost: h\r\nX-Auth:   x  \r\n\r\n";
    assert_eq!(presented_credential(req, Some("token=q")), Some("x"));
    let basic = "GET /x HTTP/1.1\r\nAuthorization: Basic abc\r\nX-Auth: x\r\n\r\n";
    assert_eq!(presented_credential(basic, None), Some("x"));
}

#[test]
fn the_query_token_comes_last() {
    let req = "GET /x?token=q HTTP/1.1\r\nHost: h\r\n\r\n";
    assert_eq!(presented_credential(req, Some("token=q")), Some("q"));
    assert_eq!(presented_credential(req, None), None);
}

#[test]
fn headers_end_at_the_first_blank_line() {
    let req = "POST /x HTTP/1.1\r\nHost: h\r\n\r\nX-Auth: body\r\nAuthorization: Bearer body\r\n";
    assert_eq!(presented_credential(req, None), None);
    let first_line = "Authorization: Bearer first\r\n\r\n";
    assert_eq!(presented_credential(first_line, None), None);
}

#[test]
fn header_names_are_matched_exactly() {
    let req = "GET / HTTP/1.1\r\nauthorization: Bearer b\r\nx-auth: x\r\n\r\n";
    assert_eq!(presented_credential(req, None), None);
    let no_space = "GET / HTTP/1.1\r\nAuthorization:Bearer b\r\n\r\n";
    assert_eq!(presented_credential(no_space, None), Some("b"));
}

#[test]
fn loopback_is_always_allowed() {
    assert_eq!(authorize("127.0.0.1:8787", None, None), Ok(()));
    assert_eq!(authorize("localhost:1", Some("wrong"), Some("right")), Ok(()));
}

#[test]
fn elsewhere_the_credential_must_match_the_secret() {
    assert_eq!(authorize("0.0.0.0:8787", Some("s3cret"), Some("s3cret")), Ok(()));
    assert_eq!(authorize("0.0.0.0:8787", Some("s3cret "), Some("s3cret")), Err(Error::RequestForbidden));
    assert_eq!(authorize("0.0.0.0:8787", Some("S3CRET"), Some("s3cret")), Err(Error::RequestForbidden));
    assert_eq!(authorize("0.0.0.0:8787", None, Some("s3cret")), Err(Error::RequestForbidden));
    assert_eq!(authorize("0.0.0.0:8787", Some("s3cret"), None), Err(Error::RequestForbidden));
    assert_eq!(authorize("0.0.0.0:8787", None, None), Err(Error::RequestForbidden));
}

#[test]
fn auth_check_reads_credential_and_secret() {
    let open = config("0.0.0.0:8787");
    let req = "POST /control/exitclear HTTP/1.1\r\nAuthorization: Bearer tok\r\n\r\n";
    assert_eq!(auth_check(&open, req, None, Some("tok"), None), Ok(()));
    assert_eq!(auth_check(&open, req, None, None, Some("tok\n")), Ok(()));
    assert_eq!(auth_check(&open, req, None, Some("other"), Some("tok")), Err(Error::RequestForbidden));
    assert_eq!(auth_check(&open, req, None, None, None), Err(Error::RequestForbidden));
    assert_eq!(auth_check(&open, req, None, Some(""), Some("tok")), Err(Error::RequestForbidden));
    let plain = "POST /control/exitclear?token=tok HTTP/1.1\r\n\r\n";
    assert_eq!(auth_check(&open, plain, Some("token=tok"), Some("tok"), None), Ok(()));
    assert_eq!(auth_check(&open, plain, None, Some("tok"), None), Err(Error::RequestForbidden));
    let local = config("127.0.0.1:8787");
    assert_eq!(auth_check(&local, plain, None, None, None), Ok(()));
}

#[test]
fn exit_patterns_wrap_codes_in_braces() {
    assert_eq!(exit_pattern("us"), Some("{us}".to_string()));
    assert_eq!(exit_pattern(""), None);
}

#[test]
fn exit_set_lowers_trims_and_drops_empty_codes() {
    assert_eq!(
        exit_set("US,de"),
        vec![set("ExitNodes", "{us},{de}", true), set("StrictNodes", "1", true), ControlStep::SignalNewnym]
    );
    assert_eq!(
        exit_set(" Fr ,, SE,"),
        vec![set("ExitNodes", "{fr},{se}", true), set("StrictNodes", "1", true), ControlStep::SignalNewnym]
    );
}

#[test]
fn an_empty_exit_list_clears_the_policy() {
    let clear =
        vec![set("ExitNodes", "", false), set("StrictNodes", "0", false), ControlStep::SignalNewnym];
    assert_eq!(exit_clear(), clear);
    assert_eq!(exit_set(""), clear);
    assert_eq!(exit_set(" , ,"), clear);
}

#[test]
fn exitset_on_loopback_sets_exit_nodes_and_rotates() {
    let cfg = config("127.0.0.1:8787");
    let action = handle(&cfg, b"POST /control/exitset?cc=US,de HTTP/1.1\r\nHost: x\r\n\r\n", None, None);
    let steps = match action {
        Action::Control(steps) => steps,
        other => panic!("unexpected action {:?}", other),
    };
    assert_eq!(
        steps,
        vec![set("ExitNodes", "{us},{de}", true), set("StrictNodes", "1", true), ControlStep::SignalNewnym]
    );
    let (mut ctl, _) = TorControl::connect(b"cookie");
    assert_eq!(ctl.feed("250 OK\r\n"), Progress::Done);
    let mut sent: Vec<String> = Vec::new();
    for step in &steps {
        let cmd = match step {
            ControlStep::SetConf { key, value, .. } => ctl.set_conf(key, value),
            ControlStep::SignalNewnym => ctl.signal_newnym(),
            other => panic!("unexpected step {:?}", other),
        };
        sent.push(cmd);
        assert_eq!(ctl.feed("250 OK\r\n"), Progress::Done);
    }
    assert_eq!(
        sent,
        vec!["SETCONF ExitNodes={us},{de}\r\n", "SETCONF StrictNodes=1\r\n", "SIGNAL NEWNYM\r\n"]
    );
    assert_eq!(Reply::after_control(true), Reply::Done);
}

#[test]
fn exitclear_takes_its_steps() {
    let cfg = config("127.0.0.1:8787");
    assert_eq!(
        handle(&cfg, b"POST /control/exitclear HTTP/1.1\r\n\r\n", None, None),
        Action::Control(exit_clear())
    );
    assert_eq!(
        handle(&cfg, b"POST /control/exitset HTTP/1.1\r\n\r\n", None, None),
        Action::Control(exit_clear())
    );
}

#[test]
fn control_routes_refuse_other_methods() {
    let cfg = config("127.0.0.1:8787");
    assert_eq!(
        handle(&cfg, b"GET /control/exitclear HTTP/1.1\r\n\r\n", None, None),
        Action::Reply(Reply::MethodNotAllowed)
    );
    assert_eq!(
        handle(&cfg, b"GET /control/exitset?cc=us HTTP/1.1\r\n\r\n", None, None),
        Action::Reply(Reply::MethodNotAllowed)
    );
    assert_eq!(
        handle(&cfg, b"post /control/exitset?cc=us HTTP/1.1\r\n\r\n", None, None),
        Action::Reply(Reply::MethodNotAllowed)
    );
}

#[test]
fn control_routes_are_forbidden_without_the_secret() {
    let cfg = config("0.0.0.0:8787");
    let req = b"POST /control/exitclear HTTP/1.1\r\nX-Auth: nope\r\n\r\n";
    assert_eq!(handle(&cfg, req, Some("tok"), None), Action::Reply(Reply::Forbidden));
    assert_eq!(handle(&cfg, req, None, None), Action::Reply(Reply::Forbidden));
    let get = b"GET /control/exitset HTTP/1.1\r\n\r\n";
    assert_eq!(handle(&cfg, get, Some("tok"), None), Action::Reply(Reply::Forbidden));
    let good = b"POST /control/exitset?cc=nl&token=tok HTTP/1.1\r\n\r\n";
    assert_eq!(
        handle(&cfg, good, None, Some("tok\n")),
        Action::Control(vec![
            set("ExitNodes", "{nl}", true),
            set("StrictNodes", "1", true),
            ControlStep::SignalNewnym
        ])
    );
}

#[test]
fn status_routes_need_no_credential() {
    let open = config("0.0.0.0:8787");
    assert_eq!(handle(&open, b"GET /status/plan HTTP/1.1\r\n\r\n", None, None), Action::Plan);
    assert_eq!(handle(&open, b"POST /status/plan?x=1 HTTP/1.1\r\n\r\n", None, None), Action::Plan);
    assert_eq!(
        handle(&open, b"GET /status HTTP/1.1\r\n\r\n", None, None),
        Action::Status { limited: true }
    );
    let local = config("127.0.0.1:8787");
    assert_eq!(
        handle(&local, b"GET /status?x HTTP/1.1\r\n\r\n", None, None),
        Action::Status { limited: false }
    );
    let named = config("localhost:8787");
    assert_eq!(
        handle(&named, b"GET /status HTTP/1.1\r\n\r\n", None, None),
        Action::Status { limited: true }
    );
}

#[test]
fn other_paths_are_not_found() {
    let cfg = config("127.0.0.1:8787");
    for req in [
        &b"GET / HTTP/1.1\r\n\r\n"[..],
        &b"GET /status/ HTTP/1.1\r\n\r\n"[..],
        &b"GET /Status HTTP/1.1\r\n\r\n"[..],
        &b"POST /control HTTP/1.1\r\n\r\n"[..],
        &b""[..],
        &b"\xff\xfe"[..],
    ] {
        assert_eq!(handle(&cfg, req, None, None), Action::Reply(Reply::NotFound));
    }
}

#[test]
fn request_bytes_are_decoded_leniently() {
    let cfg = config("127.0.0.1:8787");
    assert_eq!(
        handle(&cfg, b"GET /status HTTP/1.1\r\nX-Junk: \xff\xfe\r\n\r\n", None, None),
        Action::Status { limited: false }
    );
    assert_eq!(
        handle(&cfg, b"GET /status\xff HTTP/1.1\r\n\r\n", None, None),
        Action::Reply(Reply::NotFound)
    );
    assert_eq!(
        handle_text(&cfg, "GET /status\u{fffd} HTTP/1.1\r\n\r\n", None, None),
        Action::Reply(Reply::NotFound)
    );
}

#[test]
fn fixed_replies() {
    assert_eq!((Reply::Done.code(), Reply::Done.body()), (200, "{\"ok\":true}"));
    assert_eq!((Reply::Forbidden.code(), Reply::Forbidden.body()), (403, "{\"error\":\"forbidden\"}"));
    assert_eq!(
        (Reply::MethodNotAllowed.code(), Reply::MethodNotAllowed.body()),
        (405, "{\"error\":\"method not allowed\"}")
    );
    assert_eq!((Reply::NotFound.code(), Reply::NotFound.body()), (404, "{\"error\":\"not found\"}"));
    assert_eq!(
        (Reply::TooManyRequests.code(), Reply::TooManyRequests.body()),
        (429, "{\"error\":\"too many requests\"}")
    );
    assert_eq!(Reply::Failed.code(), 500);
    assert_eq!(Reply::after_control(false), Reply::Failed);
    assert_eq!(Reply::Failed.body(), "{\"error\":\"internal error\"}");
    assert_eq!(Reply::after_rate_limit(true), None);
    assert_eq!(Reply::after_rate_limit(false), Some(Reply::TooManyRequests));
}

#[test]
fn responses_are_rendered_with_length_in_bytes() {
    assert_eq!(
        respond(200, "{\"ok\":true}"),
        "HTTP/1.1 200 OK\r\nContent-Type: application/json\r\nContent-Length: 11\r\nConnection: close\r\n\r\n{\"ok\":true}"
    );
    assert_eq!(
        respond(404, "{\"error\":\"not found\"}"),
        "HTTP/1.1 404 Not Found\r\nContent-Type: application/json\r\nContent-Length: 21\r\nConnection: close\r\n\r\n{\"error\":\"not found\"}"
    );
    assert_eq!(
        respond(403, "é"),
        "HTTP/1.1 403 OK\r\nContent-Type: application/json\r\nContent-Length: 2\r\nConnection: close\r\n\r\né"
    );
    assert_eq!(
        respond(429, ""),
        "HTTP/1.1 429 OK\r\nContent-Type: application/json\r\nContent-Length: 0\r\nConnection: close\r\n\r\n"
    );
}

#[test]
fn seconds_remaining_rounds_down_and_stops_at_zero() {
    assert_eq!(seconds_remaining(31_000, 1_000), 30);
    assert_eq!(seconds_remaining(31_999, 1_000), 30);
    assert_eq!(seconds_remaining(1_999, 1_000), 0);
    assert_eq!(seconds_remaining(1_000, 1_000), 0);
    assert_eq!(seconds_remaining(0, 1_000), 0);
    assert_eq!(seconds_remaining(500, 1_000), 0);
    assert_eq!(seconds_remaining(u64::MAX, 0), u64::MAX / 1000);
}

#[test]
fn plan_reports_the_hops_still_to_come() {
    let cfg = config("127.0.0.1:8787");
    let now: u64 = 1_700_000_000_000;
    let doc = format!(
        "{{\"order\":[2,0,1],\"randomized\":true,\"idx\":1,\"next_epoch_ms\":{}}}",
        now + 30_000
    );
    let snapshot = HopPlanSnapshot::load(Some(doc.as_bytes()));
    assert_eq!(
        snapshot,
        HopPlanSnapshot { order: vec![2, 0, 1], randomized: true, idx: 1, next_epoch_ms: now + 30_000 }
    );
    let report = plan_report(&cfg, snapshot, now);
    assert_eq!(report.seconds_remaining, 30);
    assert_eq!(report.current_index_in_order, 1);
    assert_eq!(report.order_indices, vec![2, 0, 1]);
    assert!(report.randomized);
    assert_eq!(report.total, 3);
    assert_eq!(report.upcoming.len(), 2);
    assert_eq!(report.upcoming[0].index, 0);
    assert_eq!(report.upcoming[0].item, &cfg.hop.sequence[0]);
    assert_eq!(report.upcoming[1].index, 1);
    assert_eq!(report.upcoming[1].item, &cfg.hop.sequence[1]);
}

#[test]
fn plan_passes_over_indices_outside_the_sequence() {
    let cfg = config("127.0.0.1:8787");
    let snapshot =
        HopPlanSnapshot { order: vec![7, 2, 3, 1], randomized: false, idx: 0, next_epoch_ms: 0 };
    let report = plan_report(&cfg, snapshot, 5);
    assert_eq!(report.order_indices, vec![7, 2, 3, 1]);
    assert_eq!(report.upcoming.iter().map(|u| u.index).collect::<Vec<u64>>(), vec![2, 1]);
    assert_eq!(report.seconds_remaining, 0);
    let beyond =
        HopPlanSnapshot { order: vec![0, 1], randomized: false, idx: 2, next_epoch_ms: 0 };
    assert!(!beyond.is_consistent());
    let report = plan_report(&cfg, beyond, 5);
    assert_eq!(report.current_index_in_order, 2);
    assert!(report.upcoming.is_empty());
}

#[test]
fn a_missing_or_corrupt_state_gives_defaults() {
    let cfg = config("127.0.0.1:8787");
    for file in [None, Some(&b"{not json"[..]), Some(&b""[..]), Some(&b"[1,2]"[..]), Some(&b"{}"[..])] {
        let report = status(&cfg, file, None);
        assert_eq!(report.current_index, 0);
        assert_eq!(report.total, 3);
        assert_eq!(report.seconds_remaining, 0);
        assert_eq!(report.next_epoch_ms, 0);
        assert_eq!(report.current_hop, Some(&cfg.hop.sequence[0]));
        assert_eq!(report.exit_ip, None);
        let plan = status_plan(&cfg, file);
        assert_eq!(plan.current_index_in_order, 0);
        assert_eq!(plan.total, 3);
        assert_eq!(plan.seconds_remaining, 0);
        assert!(plan.order_indices.is_empty());
        assert!(plan.upcoming.is_empty());
        assert!(!plan.randomized);
    }
}

#[test]
fn status_reports_the_current_hop_and_ports() {
    let cfg = config("127.0.0.1:8787");
    let snapshot = HopPlanSnapshot { order: Vec::new(), randomized: false, idx: 2, next_epoch_ms: 9_500 };
    assert!(snapshot.is_consistent());
    let report = status_report(&cfg, &snapshot, 2_000, Some("203.0.113.7".to_string()));
    assert_eq!(report.current_index, 2);
    assert_eq!(report.total, 3);
    assert_eq!(report.seconds_remaining, 7);
    assert_eq!(report.next_epoch_ms, 9_500);
    assert_eq!(report.current_hop, Some(&cfg.hop.sequence[2]));
    assert_eq!((report.socks_port, report.dns_port, report.control_port), (9050, 9053, 9051));
    assert_eq!(report.exit_ip, Some("203.0.113.7".to_string()));
    let beyond = HopPlanSnapshot { order: Vec::new(), randomized: false, idx: 3, next_epoch_ms: 0 };
    assert_eq!(status_report(&cfg, &beyond, 2_000, None).current_hop, None);
}

#[test]
fn status_reads_the_state_file_at_the_present_time() {
    let cfg = config("127.0.0.1:8787");
    let doc = b"{\"idx\":1,\"next_epoch_ms\":1000}";
    let report = status(&cfg, Some(&doc[..]), None);
    assert_eq!(report.current_index, 1);
    assert_eq!(report.next_epoch_ms, 1000);
    assert_eq!(report.seconds_remaining, 0);
    assert_eq!(report.current_hop, Some(&cfg.hop.sequence[1]));
    let far = format!("{{\"idx\":0,\"next_epoch_ms\":{}}}", u64::MAX);
    assert!(status(&cfg, Some(far.as_bytes()), None).seconds_remaining > 1_000_000);
}

#[test]
fn the_snapshot_tolerates_fields_of_other_types() {
    let doc = b"{\"order\":[1,\"x\",-2,3.5,4,null],\"randomized\":\"yes\",\"idx\":-1,\"next_epoch_ms\":\"soon\"}";
    assert_eq!(
        HopPlanSnapshot::load(Some(&doc[..])),
        HopPlanSnapshot { order: vec![1, 4], randomized: false, idx: 0, next_epoch_ms: 0 }
    );
    let not_array = b"{\"order\":{\"0\":1},\"randomized\":true,\"idx\":2}";
    assert_eq!(
        HopPlanSnapshot::load(Some(&not_array[..])),
        HopPlanSnapshot { order: Vec::new(), randomized: true, idx: 2, next_epoch_ms: 0 }
    );
    assert_eq!(HopPlanSnapshot::load(None), HopPlanSnapshot::empty());
    assert_eq!(
        HopPlanSnapshot::empty(),
        HopPlanSnapshot { order: Vec::new(), randomized: false, idx: 0, next_epoch_ms: 0 }
    );
}

#[test]
fn the_fields_of_a_document_are_read_as_they_are() {
    let doc = b"{\"order\":[2,\"x\",0],\"randomized\":true,\"idx\":7,\"extra\":1}";
    assert_eq!(
        read_hop_state(&doc[..]),
        Some(HopStateFields {
            order: Some(vec![Some(2), None, Some(0)]),
            randomized: Some(true),
            idx: Some(7),
            next_epoch_ms: None,
        })
    );
    assert_eq!(
        read_hop_state(b"[]"),
        Some(HopStateFields { order: None, randomized: None, idx: None, next_epoch_ms: None })
    );
    assert_eq!(read_hop_state(b"{\"order\":"), None);
    assert_eq!(read_hop_state(b"{} trailing"), None);
}

#[test]
fn the_snapshot_of_given_fields() {
    let fields = Some(HopStateFields {
        order: Some(vec![Some(2), None, Some(0)]),
        randomized: None,
        idx: Some(5),
        next_epoch_ms: None,
    });
    assert_eq!(
        HopPlanSnapshot::from_fields(&fields),
        HopPlanSnapshot { order: vec![2, 0], randomized: false, idx: 5, next_epoch_ms: 0 }
    );
    assert_eq!(HopPlanSnapshot::from_fields(&None), HopPlanSnapshot::empty());
}
