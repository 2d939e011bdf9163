use smtp_session::host::{StaticDirectory, StaticHost};
use smtp_session::session::{Action, Protocol, Session, SessionInstance, SessionParams, State};
use smtp_session::vars::{
    Variable, V_HELO_DOMAIN, V_PRIORITY, V_PROTOCOL, V_RECIPIENT, V_RECIPIENT_DOMAIN,
    V_RECIPIENTS, V_SENDER, V_SENDER_DOMAIN, V_TLS,
};

fn flow_instance(protocol: Protocol) -> SessionInstance {
    SessionInstance {
        id: b"smtp".to_vec(),
        protocol,
        hostname: "mx.example.org".to_string(),
        can_tls: false,
    }
}

fn flow_params() -> SessionParams {
    SessionParams {
        rcpt_max: 10,
        max_message_size: 1024,
        rcpt_dsn: false,
        rcpt_errors_max: 3,
        rcpt_errors_wait: 5,
        auth_directory: false,
    }
}

fn flow_session(protocol: Protocol, host: StaticHost) -> Session<StaticHost> {
    Session::new(
        flow_instance(protocol),
        flow_params(),
        host,
        1,
        false,
        b"10.0.0.9".to_vec(),
        49152,
        b"10.0.0.1".to_vec(),
        25,
    )
}

fn local_host() -> StaticHost {
    let mut host = StaticHost::open_relay("250 2.0.0 Message queued\r\n".to_string());
    host.relay = false;
    host.directory = Some(StaticDirectory {
        name: "default".to_string(),
        local_domains: vec![b"local".to_vec()],
        local_addresses: vec![b"r@local".to_vec()],
        domain_lookup_fails: false,
        address_lookup_fails: false,
    });
    host
}

fn written(s: &Session<StaticHost>) -> Vec<String> {
    let mut out = Vec::new();
    for a in &s.output {
        if let Action::Write(t) = a {
            out.push(t.clone());
        }
    }
    out
}

fn delays(s: &Session<StaticHost>) -> Vec<u64> {
    let mut out = Vec::new();
    for a in &s.output {
        if let Action::Delay(ms) = a {
            out.push(*ms);
        }
    }
    out
}

#[test]
fn smtp_transaction_end_to_end() {
    let mut s = flow_session(Protocol::Smtp, local_host());
    let r = s.ingest(b"EHLO a\r\nMAIL FROM:<s@x>\r\nRCPT TO:<r@local>\r\nDATA\r\nhi\r\n.\r\nQUIT\r\n");
    assert!(r.is_err(), "QUIT ends the session");
    let w = written(&s);
    assert_eq!(w.len(), 6);
    assert!(w[0].starts_with("250"), "EHLO greeting: {}", w[0]);
    assert_eq!(w[1], "250 2.1.0 OK\r\n");
    assert_eq!(w[2], "250 2.1.5 OK\r\n");
    assert_eq!(w[3], "354 Start mail input; end with <CRLF>.<CRLF>\r\n");
    assert_eq!(w[4], "250 2.0.0 Message queued\r\n");
    assert_eq!(w[5], "221 2.0.0 Bye.\r\n");
    assert!(s.data.mail_from.is_none(), "transaction cleared after queueing");
    assert_eq!(s.data.rcpt_to.len(), 0);
    assert_eq!(s.data.message.len(), 0);
}

#[test]
fn unknown_mailbox_is_rejected_with_tarpit() {
    let mut s = flow_session(Protocol::Smtp, local_host());
    s.ingest(b"EHLO a\r\nMAIL FROM:<s@x>\r\n").unwrap();
    let before = s.data.rcpt_to.len();
    s.ingest(b"RCPT TO:<nobody@local>\r\n").unwrap();
    let w = written(&s);
    assert_eq!(w.last().unwrap(), "550 5.1.2 Mailbox does not exist.\r\n");
    assert_eq!(delays(&s), vec![5], "tarpit delay precedes the rejection");
    assert_eq!(s.data.rcpt_errors, 1);
    assert_eq!(s.data.rcpt_to.len(), before, "envelope unchanged");
    assert!(s.data.mail_from.is_some());
}

#[test]
fn rcpt_requires_mail_first() {
    let mut s = flow_session(Protocol::Smtp, local_host());
    s.ingest(b"RCPT TO:<r@x>\r\n").unwrap();
    assert_eq!(written(&s), vec!["503 5.5.1 MAIL is required first.\r\n".to_string()]);
}

#[test]
fn bdat_chunks_are_accepted_and_queued() {
    let mut host = StaticHost::open_relay("250 2.0.0 Message queued\r\n".to_string());
    host.relay = true;
    host.directory = Some(StaticDirectory {
        name: "default".to_string(),
        local_domains: vec![b"local".to_vec()],
        local_addresses: vec![],
        domain_lookup_fails: false,
        address_lookup_fails: false,
    });
    let mut s = flow_session(Protocol::Smtp, host);
    s.ingest(b"EHLO a\r\nMAIL FROM:<s@x>\r\nRCPT TO:<r@x>\r\nBDAT 5\r\nhello").unwrap();
    let w = written(&s);
    assert_eq!(w.last().unwrap(), "250 2.6.0 Chunk accepted.\r\n");
    assert_eq!(s.data.message, b"hello".to_vec());
    s.ingest(b"BDAT 0 LAST\r\n").unwrap();
    let w = written(&s);
    assert_eq!(w.last().unwrap(), "250 2.0.0 Message queued\r\n");
    assert_eq!(s.data.message.len(), 0, "transaction cleared after queueing");
}

#[test]
fn dsn_parameters_refused_while_disabled() {
    let mut s = flow_session(Protocol::Smtp, local_host());
    s.ingest(b"EHLO a\r\nMAIL FROM:<s@x>\r\n").unwrap();
    s.ingest(b"RCPT TO:<r@x> NOTIFY=SUCCESS\r\n").unwrap();
    let w = written(&s);
    assert_eq!(w.last().unwrap(), "501 5.5.4 DSN extension has been disabled.\r\n");
    assert_eq!(s.data.rcpt_to.len(), 0);
}

#[test]
fn lmtp_writes_queue_reply_once_per_recipient() {
    let mut host = StaticHost::open_relay("250 2.6.0 ok\r\n".to_string());
    host.relay = true;
    let mut s = flow_session(Protocol::Lmtp, host);
    s.ingest(b"LHLO a\r\nMAIL FROM:<s@x>\r\nRCPT TO:<a@x>\r\nRCPT TO:<b@x>\r\n").unwrap();
    s.ingest(b"DATA\r\nbody\r\n.\r\n").unwrap();
    let w = written(&s);
    let copies = w.iter().filter(|t| t.as_str() == "250 2.6.0 ok\r\n").count();
    assert_eq!(copies, 2, "one copy of the queue reply per accepted recipient: {:?}", w);
}

#[test]
fn smtp_writes_queue_reply_once() {
    let mut host = StaticHost::open_relay("250 2.6.0 ok\r\n".to_string());
    host.relay = true;
    let mut s = flow_session(Protocol::Smtp, host);
    s.ingest(b"EHLO a\r\nMAIL FROM:<s@x>\r\nRCPT TO:<a@x>\r\nRCPT TO:<b@x>\r\n").unwrap();
    s.ingest(b"DATA\r\nbody\r\n.\r\n").unwrap();
    let w = written(&s);
    let copies = w.iter().filter(|t| t.as_str() == "250 2.6.0 ok\r\n").count();
    assert_eq!(copies, 1);
}

#[test]
fn pipelined_bytes_match_commands_sent_alone() {
    let script: &[u8] =
        b"EHLO a\r\nMAIL FROM:<s@x>\r\nRCPT TO:<r@local>\r\nRCPT TO:<r@local>\r\nNOOP\r\nDATA\r\nhi\r\nthere\r\n.\r\nRSET\r\nMAIL FROM:<t@y>\r\nVRFY who\r\n";
    let mut pipelined = flow_session(Protocol::Smtp, local_host());
    pipelined.ingest(script).unwrap();
    let mut dripped = flow_session(Protocol::Smtp, local_host());
    for b in script {
        dripped.ingest(std::slice::from_ref(b)).unwrap();
    }
    assert_eq!(written(&pipelined), written(&dripped));
}

#[test]
fn duplicate_recipient_is_collapsed() {
    let mut host = StaticHost::open_relay("250 2.0.0 Message queued\r\n".to_string());
    host.relay = true;
    let mut s = flow_session(Protocol::Smtp, host);
    s.ingest(b"EHLO a\r\nMAIL FROM:<s@x>\r\n").unwrap();
    s.ingest(b"RCPT TO:<R@X>\r\n").unwrap();
    s.ingest(b"RCPT TO:<r@x>\r\n").unwrap();
    let w = written(&s);
    assert_eq!(w.last().unwrap(), "250 2.1.5 OK\r\n");
    assert_eq!(s.data.rcpt_to.len(), 1, "duplicates collapse under lower-cased equality");
    assert_eq!(s.data.rcpt_to[0].address, b"R@X".to_vec());
    assert_eq!(s.data.rcpt_to[0].address_lcase, b"r@x".to_vec());
    assert_eq!(s.data.rcpt_to[0].domain, b"x".to_vec());
}

#[test]
fn too_many_recipient_errors_disconnect() {
    let mut host = StaticHost::open_relay("250 2.0.0 Message queued\r\n".to_string());
    host.relay = false;
    let mut s = flow_session(Protocol::Smtp, host);
    s.ingest(b"EHLO a\r\nMAIL FROM:<s@x>\r\n").unwrap();
    assert!(s.ingest(b"RCPT TO:<a@x>\r\n").is_ok());
    assert!(s.ingest(b"RCPT TO:<b@x>\r\n").is_ok());
    let r = s.ingest(b"RCPT TO:<c@x>\r\n");
    assert!(r.is_err(), "error budget of three exhausted");
    let w = written(&s);
    assert_eq!(w.last().unwrap(), "421 4.3.0 Too many errors, disconnecting.\r\n");
    assert_eq!(s.data.rcpt_errors, 3);
}

#[test]
fn rset_clears_the_transaction_only() {
    let mut host = StaticHost::open_relay("250 2.0.0 Message queued\r\n".to_string());
    host.relay = true;
    let mut s = flow_session(Protocol::Smtp, host);
    s.ingest(b"EHLO a\r\nMAIL FROM:<s@x> MT-PRIORITY=3\r\nRCPT TO:<r@x>\r\n").unwrap();
    assert!(s.data.mail_from.is_some());
    assert_eq!(s.data.priority, 3);
    s.ingest(b"RSET\r\n").unwrap();
    assert_eq!(written(&s).last().unwrap(), "250 2.0.0 OK\r\n");
    assert!(s.data.mail_from.is_none());
    assert_eq!(s.data.rcpt_to.len(), 0);
    assert_eq!(s.data.message.len(), 0);
    assert_eq!(s.data.priority, 0);
    assert_eq!(s.data.delivery_by, 0);
    assert_eq!(s.data.future_release, 0);
    assert_eq!(s.data.helo_domain, b"a".to_vec(), "session identity persists");
    assert_eq!(s.data.session_id, 1);
}

#[test]
fn oversized_message_is_dropped() {
    let mut host = StaticHost::open_relay("250 2.0.0 Message queued\r\n".to_string());
    host.relay = true;
    let mut s = flow_session(Protocol::Smtp, host);
    s.ingest(b"EHLO a\r\nMAIL FROM:<s@x>\r\nRCPT TO:<r@x>\r\nDATA\r\n").unwrap();
    let big = vec![b'x'; 2048];
    s.ingest(&big).unwrap();
    s.ingest(b"\r\n.\r\n").unwrap();
    let w = written(&s);
    assert_eq!(w.last().unwrap(), "552 5.3.4 Message too big for system.\r\n");
    assert_eq!(s.data.message.len(), 0, "no body bytes retained");
}

#[test]
fn oversized_bdat_chunk_is_drained() {
    let mut host = StaticHost::open_relay("250 2.0.0 Message queued\r\n".to_string());
    host.relay = true;
    let mut s = flow_session(Protocol::Smtp, host);
    s.ingest(b"EHLO a\r\nMAIL FROM:<s@x>\r\nRCPT TO:<r@x>\r\nBDAT 2000\r\n").unwrap();
    let big = vec![b'x'; 2000];
    s.ingest(&big).unwrap();
    let w = written(&s);
    assert_eq!(w.last().unwrap(), "552 5.3.4 Message too big for system.\r\n");
    assert_eq!(s.data.message.len(), 0);
}

#[test]
fn overlong_command_line_is_rejected() {
    let mut s = flow_session(Protocol::Smtp, local_host());
    let mut line = vec![b'N'; 5000];
    line.extend_from_slice(b"\r\n");
    s.ingest(&line).unwrap();
    let w = written(&s);
    assert_eq!(w, vec!["554 5.3.4 Line is too long.\r\n".to_string()]);
}

#[test]
fn transient_directory_failure_is_recoverable() {
    let mut host = local_host();
    if let Some(d) = host.directory.as_mut() {
        d.domain_lookup_fails = true;
    }
    let mut s = flow_session(Protocol::Smtp, host);
    s.ingest(b"EHLO a\r\nMAIL FROM:<s@x>\r\nRCPT TO:<r@local>\r\n").unwrap();
    let w = written(&s);
    assert_eq!(w.last().unwrap(), "451 4.4.3 Unable to verify address at this time.\r\n");
    assert_eq!(s.data.rcpt_errors, 0, "transient failures are not counted against the budget");
    assert_eq!(s.data.rcpt_to.len(), 0);
}

#[test]
fn rate_limit_rejects_recipient() {
    let mut host = StaticHost::open_relay("250 2.0.0 Message queued\r\n".to_string());
    host.relay = true;
    host.allowed = false;
    let mut s = flow_session(Protocol::Smtp, host);
    s.ingest(b"EHLO a\r\nMAIL FROM:<s@x>\r\nRCPT TO:<r@x>\r\n").unwrap();
    let w = written(&s);
    assert_eq!(w.last().unwrap(), "451 4.4.5 Rate limit exceeded, try again later.\r\n");
    assert_eq!(s.data.rcpt_to.len(), 0);
}

#[test]
fn relay_denied_for_foreign_domain() {
    let mut s = flow_session(Protocol::Smtp, local_host());
    s.ingest(b"EHLO a\r\nMAIL FROM:<s@x>\r\nRCPT TO:<r@elsewhere>\r\n").unwrap();
    let w = written(&s);
    assert_eq!(w.last().unwrap(), "550 5.1.2 Relay not allowed.\r\n");
    assert_eq!(s.data.rcpt_to.len(), 0);
    assert_eq!(s.data.rcpt_errors, 1);
}

#[test]
fn too_many_recipients_is_refused() {
    let mut host = StaticHost::open_relay("250 2.0.0 Message queued\r\n".to_string());
    host.relay = true;
    let mut s = flow_session(Protocol::Smtp, host);
    s.params.rcpt_max = 2;
    s.ingest(b"EHLO a\r\nMAIL FROM:<s@x>\r\nRCPT TO:<a@x>\r\nRCPT TO:<b@x>\r\nRCPT TO:<c@x>\r\n")
        .unwrap();
    let w = written(&s);
    assert_eq!(w.last().unwrap(), "451 4.5.3 Too many recipients.\r\n");
    assert_eq!(s.data.rcpt_to.len(), 2);
}

#[test]
fn lmtp_refuses_ehlo_and_smtp_refuses_lhlo() {
    let mut s = flow_session(Protocol::Lmtp, StaticHost::open_relay("250 ok\r\n".to_string()));
    s.ingest(b"EHLO a\r\n").unwrap();
    assert_eq!(written(&s).last().unwrap(), "500 5.5.1 Invalid command.\r\n");
    let mut t = flow_session(Protocol::Smtp, StaticHost::open_relay("250 ok\r\n".to_string()));
    t.ingest(b"LHLO a\r\n").unwrap();
    assert_eq!(written(&t).last().unwrap(), "502 5.5.1 Invalid command.\r\n");
}

#[test]
fn starttls_hands_over_and_drops_pipelined_cleartext() {
    let mut host = StaticHost::open_relay("250 ok\r\n".to_string());
    host.relay = true;
    let mut s = Session::new(
        SessionInstance {
            id: b"smtp".to_vec(),
            protocol: Protocol::Smtp,
            hostname: "mx.example.org".to_string(),
            can_tls: true,
        },
        flow_params(),
        host,
        1,
        false,
        b"10.0.0.9".to_vec(),
        49152,
        b"10.0.0.1".to_vec(),
        25,
    );
    let r = s.ingest(b"STARTTLS\r\nNOOP\r\n");
    assert_eq!(r, Ok(false), "hand the connection to the TLS acceptor");
    let w = written(&s);
    assert_eq!(w, vec!["220 2.0.0 Ready to start TLS.\r\n".to_string()]);
}

#[test]
fn starttls_without_acceptor_and_within_tls() {
    let mut s = flow_session(Protocol::Smtp, StaticHost::open_relay("250 ok\r\n".to_string()));
    s.ingest(b"STARTTLS\r\n").unwrap();
    assert_eq!(written(&s).last().unwrap(), "502 5.7.0 TLS not available.\r\n");
    let mut t = flow_session(Protocol::Smtp, StaticHost::open_relay("250 ok\r\n".to_string()));
    t.data.is_tls = true;
    t.ingest(b"STARTTLS\r\n").unwrap();
    assert_eq!(written(&t).last().unwrap(), "504 5.7.4 Already in TLS mode.\r\n");
}

#[test]
fn auth_gates_apply_in_order() {
    let mut s = flow_session(Protocol::Smtp, StaticHost::open_relay("250 ok\r\n".to_string()));
    s.ingest(b"AUTH PLAIN\r\n").unwrap();
    assert_eq!(written(&s).last().unwrap(), "503 5.5.1 AUTH not allowed.\r\n");
    let mut host = StaticHost::open_relay("250 ok\r\n".to_string());
    host.mechanisms = smtp_session::request::AUTH_PLAIN;
    let mut t = flow_session(Protocol::Smtp, host);
    t.params.auth_directory = true;
    t.ingest(b"AUTH LOGIN\r\n").unwrap();
    assert_eq!(
        written(&t).last().unwrap(),
        "554 5.7.8 Authentication mechanism not supported.\r\n"
    );
    t.data.authenticated_as = b"user".to_vec();
    t.ingest(b"AUTH PLAIN\r\n").unwrap();
    assert_eq!(written(&t).last().unwrap(), "503 5.5.1 Already authenticated.\r\n");
}

#[test]
fn sieve_reject_removes_recipient_and_writes_verbatim() {
    let mut host = StaticHost::open_relay("250 ok\r\n".to_string());
    host.relay = true;
    host.script_name = Some("rcpt".to_string());
    host.script_result =
        smtp_session::host::ScriptResult::Reject("554 5.7.1 No thanks.\r\n".to_string());
    let mut s = flow_session(Protocol::Smtp, host);
    s.ingest(b"EHLO a\r\nMAIL FROM:<s@x>\r\nRCPT TO:<r@x>\r\n").unwrap();
    assert_eq!(written(&s).last().unwrap(), "554 5.7.1 No thanks.\r\n");
    assert_eq!(s.data.rcpt_to.len(), 0);
}

#[test]
fn rewrite_changes_recipient_address() {
    let mut host = StaticHost::open_relay("250 ok\r\n".to_string());
    host.relay = true;
    host.rewrite_configured = true;
    host.rewrite_to = Some(b"Other@Else".to_vec());
    let mut s = flow_session(Protocol::Smtp, host);
    s.ingest(b"EHLO a\r\nMAIL FROM:<s@x>\r\nRCPT TO:<r@x>\r\n").unwrap();
    assert_eq!(written(&s).last().unwrap(), "250 2.1.5 OK\r\n");
    assert_eq!(s.data.rcpt_to.len(), 1);
    assert_eq!(s.data.rcpt_to[0].address, b"Other@Else".to_vec());
    assert_eq!(s.data.rcpt_to[0].address_lcase, b"other@else".to_vec());
    assert_eq!(s.data.rcpt_to[0].domain, b"else".to_vec());
}

#[test]
fn rewrite_without_at_sign_is_ignored() {
    let mut host = StaticHost::open_relay("250 ok\r\n".to_string());
    host.relay = true;
    host.rewrite_configured = true;
    host.rewrite_to = Some(b"justaname".to_vec());
    let mut s = flow_session(Protocol::Smtp, host);
    s.ingest(b"EHLO a\r\nMAIL FROM:<s@x>\r\nRCPT TO:<r@x>\r\n").unwrap();
    assert_eq!(s.data.rcpt_to[0].address, b"r@x".to_vec());
}

#[test]
fn milter_reject_is_written_verbatim() {
    let mut host = StaticHost::open_relay("250 ok\r\n".to_string());
    host.relay = true;
    host.filters_active = true;
    host.milter_reject = Some("550 5.7.1 Refused by policy.\r\n".to_string());
    let mut s = flow_session(Protocol::Smtp, host);
    s.ingest(b"EHLO a\r\nMAIL FROM:<s@x>\r\nRCPT TO:<r@x>\r\n").unwrap();
    assert_eq!(written(&s).last().unwrap(), "550 5.7.1 Refused by policy.\r\n");
    assert_eq!(s.data.rcpt_to.len(), 0);
}

#[test]
fn empty_queue_reply_disconnects() {
    let mut host = StaticHost::open_relay(String::new());
    host.relay = true;
    let mut s = flow_session(Protocol::Smtp, host);
    let r = s.ingest(b"EHLO a\r\nMAIL FROM:<s@x>\r\nRCPT TO:<r@x>\r\nDATA\r\nhi\r\n.\r\n");
    assert!(r.is_err(), "an empty queue reply means disconnect");
}

#[test]
fn multiple_mail_commands_are_refused() {
    let mut s = flow_session(Protocol::Smtp, local_host());
    s.ingest(b"EHLO a\r\nMAIL FROM:<s@x>\r\nMAIL FROM:<t@y>\r\n").unwrap();
    assert_eq!(
        written(&s).last().unwrap(),
        "503 5.5.1 Multiple MAIL commands not allowed.\r\n"
    );
}

#[test]
fn data_requires_recipients() {
    let mut s = flow_session(Protocol::Smtp, local_host());
    s.ingest(b"EHLO a\r\nDATA\r\n").unwrap();
    assert_eq!(written(&s).last().unwrap(), "503 5.5.1 MAIL is required first.\r\n");
    s.ingest(b"MAIL FROM:<s@x>\r\nDATA\r\n").unwrap();
    assert_eq!(written(&s).last().unwrap(), "503 5.5.1 RCPT is required first.\r\n");
}

#[test]
fn driver_state_is_always_resumable() {
    let mut s = flow_session(Protocol::Smtp, local_host());
    s.ingest(b"EHLO a\r\nMAIL FR").unwrap();
    assert!(matches!(s.state, State::Request(_)));
    s.ingest(b"OM:<s@x>\r\nRCPT TO:<r@local>\r\nDATA\r\npartial body").unwrap();
    assert!(matches!(s.state, State::Data(_)));
    s.ingest(b"\r\n.\r\n").unwrap();
    assert!(matches!(s.state, State::Request(_)));
    s.ingest(b"MAIL FROM:<s@x>\r\nRCPT TO:<r@local>\r\nBDAT 99\r\nshort").unwrap();
    assert!(matches!(s.state, State::Bdat(_)));
}

#[test]
fn variables_resolve_from_session_state() {
    let mut host = StaticHost::open_relay("250 ok\r\n".to_string());
    host.relay = true;
    let mut s = flow_session(Protocol::Smtp, host);
    s.ingest(b"EHLO Client.Example\r\nMAIL FROM:<S@X> MT-PRIORITY=-2\r\nRCPT TO:<A@B>\r\nRCPT TO:<c@d>\r\n")
        .unwrap();
    assert!(matches!(s.resolve_variable(V_RECIPIENT), Variable::Text(v) if v == b"c@d"));
    assert!(matches!(s.resolve_variable(V_RECIPIENT_DOMAIN), Variable::Text(v) if v == b"d"));
    assert!(
        matches!(s.resolve_variable(V_RECIPIENTS), Variable::List(l) if l == vec![b"a@b".to_vec(), b"c@d".to_vec()])
    );
    assert!(matches!(s.resolve_variable(V_SENDER), Variable::Text(v) if v == b"s@x"));
    assert!(matches!(s.resolve_variable(V_SENDER_DOMAIN), Variable::Text(v) if v == b"x"));
    assert!(matches!(s.resolve_variable(V_HELO_DOMAIN), Variable::Text(v) if v == b"Client.Example"));
    assert!(matches!(s.resolve_variable(V_TLS), Variable::Truth(false)));
    assert!(matches!(s.resolve_variable(V_PRIORITY), Variable::Text(v) if v == b"-2"));
    assert!(matches!(s.resolve_variable(V_PROTOCOL), Variable::Text(v) if v == b"smtp"));
    assert!(matches!(s.resolve_variable(999), Variable::Text(v) if v.is_empty()));
}

#[test]
fn parse_errors_map_to_their_status_lines() {
    let cases: &[(&[u8], &str)] = &[
        (b"FOO\r\n", "500 5.5.1 Invalid command.\r\n"),
        (b"\r\n", "500 5.5.1 Invalid command.\r\n"),
        (b"MAIL FROM:<.x@y>\r\n", "501 5.1.8 Bad sender's system address.\r\n"),
        (b"RCPT TO:<..x@y>\r\n", "501 5.1.3 Bad destination mailbox address syntax.\r\n"),
        (
            b"RCPT\r\n",
            "501 5.5.2 Syntax error, expected: RCPT TO:<forward-path> [parameters]\r\n",
        ),
        (b"EHLO\r\n", "501 5.5.2 Syntax error, expected: EHLO domain\r\n"),
        (b"MAIL FROM:<a@b> BODY=WEIRD\r\n", "501 5.5.4 Invalid parameter \"BODY\".\r\n"),
        (b"MAIL FROM:<a@b> FOO=1\r\n", "504 5.5.4 Unsupported parameter \"FOO=1\".\r\n"),
        (b"ETRN node\r\n", "502 5.5.1 Command not implemented.\r\n"),
    ];
    for (input, expected) in cases {
        let mut s = flow_session(Protocol::Smtp, local_host());
        s.ingest(input).unwrap();
        let w = written(&s);
        assert_eq!(w.last().unwrap(), expected, "for {:?}", String::from_utf8_lossy(input));
    }
}

#[test]
fn sasl_exchange_continues_and_completes() {
    let mut host = StaticHost::open_relay("250 ok\r\n".to_string());
    host.mechanisms = smtp_session::request::AUTH_PLAIN;
    host.sasl_continue = true;
    host.sasl_replies = vec!["334 \r\n".to_string()];
    let mut s = flow_session(Protocol::Smtp, host);
    s.params.auth_directory = true;
    s.ingest(b"AUTH PLAIN\r\n").unwrap();
    assert!(matches!(s.state, State::Sasl(..)), "exchange enters the SASL state");
    assert_eq!(written(&s).last().unwrap(), "334 \r\n");
    s.ingest(b"c29tZXRoaW5n\r\n").unwrap();
    assert!(matches!(s.state, State::Sasl(..)), "handler asked for another line");
    s.host.sasl_continue = false;
    s.host.sasl_replies = vec!["235 2.7.0 Authentication succeeded.\r\n".to_string()];
    s.host.sasl_authenticated_as = Some(b"user@local".to_vec());
    s.ingest(b"bW9yZQ==\r\n").unwrap();
    assert!(matches!(s.state, State::Request(_)), "exchange over, back to commands");
    assert_eq!(written(&s).last().unwrap(), "235 2.7.0 Authentication succeeded.\r\n");
    assert_eq!(s.data.authenticated_as, b"user@local".to_vec());
}

#[test]
fn overlong_sasl_line_is_rejected() {
    let mut host = StaticHost::open_relay("250 ok\r\n".to_string());
    host.mechanisms = smtp_session::request::AUTH_PLAIN;
    host.sasl_continue = true;
    let mut s = flow_session(Protocol::Smtp, host);
    s.params.auth_directory = true;
    s.ingest(b"AUTH PLAIN\r\n").unwrap();
    assert!(matches!(s.state, State::Sasl(..)));
    let mut line = vec![b'A'; 5000];
    line.extend_from_slice(b"\r\n");
    s.ingest(&line).unwrap();
    assert_eq!(
        written(&s).last().unwrap(),
        "500 5.5.6 Authentication Exchange line is too long.\r\n"
    );
    assert!(matches!(s.state, State::Request(_)));
}

#[test]
fn data_size_limit_is_pessimistic_about_the_read() {
    let mut host = StaticHost::open_relay("250 ok\r\n".to_string());
    host.relay = true;
    let mut s = flow_session(Protocol::Smtp, host);
    s.ingest(b"EHLO a\r\nMAIL FROM:<s@x>\r\nRCPT TO:<r@x>\r\nDATA\r\n").unwrap();
    let chunk = vec![b'y'; 600];
    s.ingest(&chunk).unwrap();
    assert_eq!(s.data.message.len(), 600);
    // The size check weighs the buffered bytes against the whole incoming
    // slice, and trips here before anything of the slice is appended.
    s.ingest(&chunk).unwrap();
    assert!(matches!(s.state, State::DataTooLarge(_)));
    assert_eq!(s.data.message.len(), 600, "nothing of the refused read is kept");
    s.ingest(b"\r\n.\r\n").unwrap();
    assert_eq!(written(&s).last().unwrap(), "552 5.3.4 Message too big for system.\r\n");
    assert_eq!(s.data.message.len(), 0);
}
