//! The session state machine. A session owns the envelope under
//! construction, the driver state that survives between reads, and the queue
//! of actions (status lines to write, tarpit delays to observe) that the
//! caller drains after every [`Session::ingest`] call. The session performs
//! no I/O of its own.

use vstd::prelude::*;

use vstd::string::StringExecFns;

use crate::addr::{SessionAddress, no_dup_rcpts};
use crate::host::{SaslToken, SessionHost, supported_mechanism};
use crate::receiver::{
    BdatReceiver, DataReceiver, DummyDataReceiver, DummyLineReceiver, LineEvent, LineReceiver,
    MAX_LINE_LENGTH, RequestReceiver, after_first_lf, data_run, lemma_data_run_growth, line_run,
};
use crate::request::{MailFrom, ParseError, Request, bare_command, parse_line};
use crate::text::{ascii_to_string, dec_string};

verus! {

/// Wire protocol selected by the listener.
#[derive(Clone, Copy, PartialEq, Eq, Structural)]
pub enum Protocol {
    Smtp,
    Lmtp,
}

/// One effect the session asks its caller to perform, in order.
pub enum Action {
    /// Write this status line (or multi-line reply) and flush it.
    Write(String),
    /// Sleep this many milliseconds before performing what follows.
    Delay(u64),
}

/// Ghost shape of an [`Action`]: the text written, or the delay observed.
pub enum ActionView {
    Write(Seq<char>),
    Delay(u64),
}

impl View for Action {
    type V = ActionView;

    open spec fn view(&self) -> ActionView {
        match self {
            Action::Write(s) => ActionView::Write(s@),
            Action::Delay(ms) => ActionView::Delay(*ms),
        }
    }
}

/// The actions as their ghost shapes, in order.
pub open spec fn out_view(out: Seq<Action>) -> Seq<ActionView> {
    out.map_values(|a: Action| a@)
}

/// `new_out` replays `old_out` and may append: nothing already recorded is
/// changed or dropped.
pub open spec fn extends(old_out: Seq<ActionView>, new_out: Seq<ActionView>) -> bool {
    &&& old_out.len() <= new_out.len()
    &&& forall|i: int| 0 <= i < old_out.len() ==> new_out[i] == old_out[i]
}

/// Connection-scoped identity, fixed for the session's lifetime.
pub struct SessionInstance {
    pub id: Vec<u8>,
    pub protocol: Protocol,
    pub hostname: String,
    /// Whether a TLS acceptor is configured for this listener.
    pub can_tls: bool,
}

/// Configuration, immutable for the connection.
pub struct SessionParams {
    pub rcpt_max: usize,
    pub max_message_size: usize,
    pub rcpt_dsn: bool,
    pub rcpt_errors_max: usize,
    /// Tarpit delay, in milliseconds, before a recipient rejection.
    pub rcpt_errors_wait: u64,
    /// Whether an authentication directory is configured.
    pub auth_directory: bool,
}

/// Transactional and connection state; the transactional part is cleared on
/// RSET and after a message is queued.
pub struct SessionData {
    pub session_id: u64,
    pub helo_domain: Vec<u8>,
    pub authenticated_as: Vec<u8>,
    pub mail_from: Option<SessionAddress>,
    pub rcpt_to: Vec<SessionAddress>,
    pub message: Vec<u8>,
    pub priority: i64,
    pub delivery_by: i64,
    pub future_release: u64,
    pub rcpt_errors: usize,
    pub is_tls: bool,
    pub remote_ip: Vec<u8>,
    pub remote_port: u16,
    pub local_ip: Vec<u8>,
    pub local_port: u16,
}

/// Driver state: where the resumable parse stands between two reads.
pub enum State {
    Request(RequestReceiver),
    Data(DataReceiver),
    Bdat(BdatReceiver),
    Sasl(LineReceiver, SaslToken),
    DataTooLarge(DummyDataReceiver),
    RequestTooLarge(DummyLineReceiver),
    /// Sentinel left while the driver owns the state; never observed between
    /// calls.
    Taken,
    /// Sentinel for a connection handed over after acceptance; never
    /// observed during ingest.
    Accepted,
}

/// The states a session may be left in between calls.
pub open spec fn state_ready(s: State) -> bool {
    !(s is Taken) && !(s is Accepted)
}

/// Bookkeeping the driver state carries: while a BDAT chunk is open, what is
/// buffered plus what is still announced stays within the size limit, and the
/// command reader never holds a full-length line.
pub open spec fn state_wf(state: State, data: SessionData, params: SessionParams) -> bool {
    match state {
        State::Bdat(r) => data.message@.len() + r.remaining <= params.max_message_size,
        State::Request(r) => r.buf@.len() < MAX_LINE_LENGTH,
        _ => true,
    }
}

impl SessionData {
    /// Every envelope address is internally consistent.
    pub open spec fn envelope_wf(self) -> bool {
        &&& (forall|i: int| 0 <= i < self.rcpt_to@.len() ==> self.rcpt_to@[i].wf())
        &&& (self.mail_from matches Some(a) ==> a.wf())
    }

    /// Envelope sanity: recipients well-formed and free of duplicates, their
    /// number within bounds, the buffered message within the size limit.
    pub open spec fn wf(self, params: SessionParams) -> bool {
        &&& self.envelope_wf()
        &&& no_dup_rcpts(self.rcpt_to@)
        &&& self.rcpt_to@.len() <= params.rcpt_max
        &&& self.message@.len() <= params.max_message_size
    }
}

/// The input is one complete command line that uses up the whole slice,
/// arriving while the reader is between commands: the line it carries, if
/// so.
pub open spec fn sole_line(state: State, bytes: Seq<u8>) -> Option<Seq<u8>> {
    match state {
        State::Request(rec) => {
            let run = line_run(Seq::empty(), bytes, MAX_LINE_LENGTH as nat);
            if rec.buf@.len() == 0 && run.line is Some && run.used == bytes.len()
                && !run.too_long {
                run.line
            } else {
                None
            }
        },
        _ => None,
    }
}

/// The transactional fields of `d` are at their initial values while the
/// session-scoped fields still read as in `o`.
pub open spec fn transaction_cleared(d: SessionData, o: SessionData) -> bool {
    &&& d.mail_from is None
    &&& d.rcpt_to@.len() == 0
    &&& d.message@.len() == 0
    &&& d.priority == 0
    &&& d.delivery_by == 0
    &&& d.future_release == 0
    &&& d.session_id == o.session_id
    &&& d.helo_domain == o.helo_domain
    &&& d.authenticated_as == o.authenticated_as
    &&& d.rcpt_errors == o.rcpt_errors
    &&& d.is_tls == o.is_tls
    &&& d.remote_ip == o.remote_ip
    &&& d.remote_port == o.remote_port
    &&& d.local_ip == o.local_ip
    &&& d.local_port == o.local_port
}

pub struct Session<H> {
    pub instance: SessionInstance,
    pub params: SessionParams,
    pub data: SessionData,
    pub state: State,
    pub host: H,
    pub output: Vec<Action>,
}

/// Rank used to show that the drive loop terminates: states that can hand
/// control back to the command reader without consuming input rank higher.
pub open spec fn state_rank(s: State) -> int {
    match s {
        State::Request(_) => 0,
        State::DataTooLarge(_) => 1,
        _ => 2,
    }
}

impl<H> Session<H> {
    pub open spec fn wf(self) -> bool {
        &&& self.data.wf(self.params)
        &&& state_wf(self.state, self.data, self.params)
    }
}

proof fn lemma_out_view_push(s: Seq<Action>, a: Action)
    ensures
        out_view(s.push(a)) =~= out_view(s).push(a@),
{
}

impl<H> Session<H> {
    /// Records one reply for the caller to write.
    pub fn emit(&mut self, line: String)
        ensures
            final(self).data == old(self).data,
            final(self).state == old(self).state,
            final(self).instance == old(self).instance,
            final(self).params == old(self).params,
            final(self).host == old(self).host,
            out_view(final(self).output@) =~= out_view(old(self).output@).push(
                ActionView::Write(line@),
            ),
    {
        let ghost out0 = self.output@;
        let ghost a = Action::Write(line);
        self.output.push(Action::Write(line));
        proof {
            lemma_out_view_push(out0, a);
        }
    }

    pub fn emit_str(&mut self, line: &str)
        ensures
            final(self).data == old(self).data,
            final(self).state == old(self).state,
            final(self).instance == old(self).instance,
            final(self).params == old(self).params,
            final(self).host == old(self).host,
            out_view(final(self).output@) =~= out_view(old(self).output@).push(
                ActionView::Write(line@),
            ),
    {
        self.emit(String::from_str(line));
    }

    /// Records a cooperative pause for the caller to observe.
    pub fn delay(&mut self, ms: u64)
        ensures
            final(self).data == old(self).data,
            final(self).state == old(self).state,
            final(self).instance == old(self).instance,
            final(self).params == old(self).params,
            final(self).host == old(self).host,
            out_view(final(self).output@) =~= out_view(old(self).output@).push(
                ActionView::Delay(ms),
            ),
    {
        let ghost out0 = self.output@;
        let ghost a = Action::Delay(ms);
        self.output.push(Action::Delay(ms));
        proof {
            lemma_out_view_push(out0, a);
        }
    }

    /// Clears the transactional state: sender, recipients, message buffer
    /// and per-message attributes. Session identity, HELO domain,
    /// authentication, counters and connection facts persist.
    pub fn reset(&mut self)
        requires
            old(self).wf(),
        ensures
            final(self).wf(),
            final(self).data.mail_from is None,
            final(self).data.rcpt_to@.len() == 0,
            final(self).data.message@.len() == 0,
            final(self).data.priority == 0,
            final(self).data.delivery_by == 0,
            final(self).data.future_release == 0,
            final(self).data.session_id == old(self).data.session_id,
            final(self).data.helo_domain == old(self).data.helo_domain,
            final(self).data.authenticated_as == old(self).data.authenticated_as,
            final(self).data.rcpt_errors == old(self).data.rcpt_errors,
            final(self).data.is_tls == old(self).data.is_tls,
            final(self).data.remote_ip == old(self).data.remote_ip,
            final(self).data.remote_port == old(self).data.remote_port,
            final(self).data.local_ip == old(self).data.local_ip,
            final(self).data.local_port == old(self).data.local_port,
            final(self).state == old(self).state,
            final(self).instance == old(self).instance,
            final(self).params == old(self).params,
            final(self).host == old(self).host,
            final(self).output == old(self).output,
    {
        self.data.mail_from = None;
        self.data.rcpt_to = Vec::new();
        self.data.message = Vec::new();
        self.data.priority = 0;
        self.data.delivery_by = 0;
        self.data.future_release = 0;
    }
}

/// The replies a completed message produces: the queue's reply once for
/// SMTP, once per accepted recipient for LMTP.
pub open spec fn queue_reply_views(protocol: Protocol, reply: Seq<char>, n: nat) -> Seq<
    ActionView,
> {
    if protocol == Protocol::Smtp {
        seq![ActionView::Write(reply)]
    } else {
        Seq::new(n, |i: int| ActionView::Write(reply))
    }
}

impl<H: SessionHost> Session<H> {
    /// Writes the queue's reply according to the protocol contract: exactly
    /// once for SMTP, exactly once per accepted recipient for LMTP, in
    /// recipient order.
    pub fn emit_queue_reply(&mut self, reply: &String, num_rcpts: usize)
        ensures
            final(self).data == old(self).data,
            final(self).state == old(self).state,
            final(self).instance == old(self).instance,
            final(self).params == old(self).params,
            final(self).host == old(self).host,
            out_view(final(self).output@) =~= out_view(old(self).output@) + queue_reply_views(
                old(self).instance.protocol,
                reply@,
                num_rcpts as nat,
            ),
    {
        if self.instance.protocol == Protocol::Smtp {
            self.emit(reply.clone());
            assert(out_view(self.output@) =~= out_view(old(self).output@) + queue_reply_views(
                self.instance.protocol,
                reply@,
                num_rcpts as nat,
            ));
        } else {
            let mut i: usize = 0;
            while i < num_rcpts
                invariant
                    i <= num_rcpts,
                    self.data == old(self).data,
                    self.state == old(self).state,
                    self.instance == old(self).instance,
                    self.params == old(self).params,
                    self.host == old(self).host,
                    out_view(self.output@) =~= out_view(old(self).output@) + Seq::new(
                        i as nat,
                        |j: int| ActionView::Write(reply@),
                    ),
                decreases num_rcpts - i,
            {
                self.emit(reply.clone());
                i = i + 1;
                assert(out_view(self.output@) =~= out_view(old(self).output@) + Seq::new(
                    i as nat,
                    |j: int| ActionView::Write(reply@),
                ));
            }
            assert(out_view(self.output@) =~= out_view(old(self).output@) + queue_reply_views(
                self.instance.protocol,
                reply@,
                num_rcpts as nat,
            ));
        }
    }

    /// Hands the completed envelope to the queue. A non-empty queue reply is
    /// written per the protocol contract and the transaction is cleared; an
    /// empty reply asks for disconnection and nothing is written.
    fn deliver_message(&mut self) -> (r: Result<(), ()>)
        requires
            old(self).wf(),
        ensures
            final(self).wf(),
            final(self).state == old(self).state,
            final(self).instance == old(self).instance,
            final(self).params == old(self).params,
            extends(out_view(old(self).output@), out_view(final(self).output@)),
            r is Ok ==> final(self).data.mail_from is None && final(self).data.rcpt_to@.len()
                == 0 && final(self).data.message@.len() == 0,
            r is Err ==> final(self).output == old(self).output && final(self).data == old(self).data,
            r is Ok ==> transaction_cleared(final(self).data, old(self).data),
            // A non-empty queue reply is written per the protocol contract:
            // once for SMTP, once per accepted recipient for LMTP.
            r is Ok ==> exists|rep: Seq<char>|
                rep.len() > 0 && out_view(final(self).output@) =~= out_view(old(self).output@)
                    + #[trigger] queue_reply_views(
                    old(self).instance.protocol,
                    rep,
                    old(self).data.rcpt_to@.len(),
                ),
    {
        let num_rcpts = self.data.rcpt_to.len();
        let reply = self.host.queue_message(&self.data, &self.instance, &self.params);
        if reply.as_str().is_empty() {
            return Err(());
        }
        self.emit_queue_reply(&reply, num_rcpts);
        self.reset();
        proof {
            assert(out_view(self.output@) =~= out_view(old(self).output@) + queue_reply_views(
                old(self).instance.protocol,
                reply@,
                old(self).data.rcpt_to@.len(),
            ));
        }
        Ok(())
    }

    /// DATA and BDAT are allowed only once the envelope has a sender and at
    /// least one accepted recipient; otherwise the matching rejection is
    /// written.
    pub fn can_send_data(&mut self) -> (r: bool)
        ensures
            r == (old(self).data.rcpt_to@.len() > 0),
            final(self).data == old(self).data,
            final(self).state == old(self).state,
            final(self).instance == old(self).instance,
            final(self).params == old(self).params,
            final(self).host == old(self).host,
            r ==> final(self).output == old(self).output,
            !r ==> out_view(final(self).output@) =~= out_view(old(self).output@).push(
                ActionView::Write(
                    if old(self).data.mail_from is None {
                        "503 5.5.1 MAIL is required first.\r\n"@
                    } else {
                        "503 5.5.1 RCPT is required first.\r\n"@
                    },
                ),
            ),
    {
        if self.data.rcpt_to.len() > 0 {
            true
        } else {
            if self.data.mail_from.is_none() {
                self.emit_str("503 5.5.1 MAIL is required first.\r\n");
            } else {
                self.emit_str("503 5.5.1 RCPT is required first.\r\n");
            }
            false
        }
    }

    /// Installs the sender and the per-message attributes carried by the
    /// MAIL parameters; a transaction that already has a sender, or an
    /// announced size beyond the limit, is rejected unchanged.
    pub fn handle_mail_from(&mut self, from: MailFrom)
        requires
            old(self).wf(),
        ensures
            final(self).wf(),
            final(self).state == old(self).state,
            final(self).instance == old(self).instance,
            final(self).params == old(self).params,
            final(self).host == old(self).host,
            old(self).data.mail_from is Some ==> final(self).data == old(self).data && out_view(
                final(self).output@,
            ) =~= out_view(old(self).output@).push(
                ActionView::Write("503 5.5.1 Multiple MAIL commands not allowed.\r\n"@),
            ),
            old(self).data.mail_from is None && from.size > old(self).params.max_message_size
                ==> final(self).data == old(self).data && out_view(final(self).output@)
                =~= out_view(old(self).output@).push(
                ActionView::Write("552 5.3.4 Message too big for system.\r\n"@),
            ),
            old(self).data.mail_from is None && from.size <= old(self).params.max_message_size
                ==> ({
                &&& final(self).data == (SessionData {
                    mail_from: final(self).data.mail_from,
                    priority: from.mt_priority,
                    delivery_by: from.by,
                    future_release: from.hold_for,
                    ..old(self).data
                })
                &&& final(self).data.mail_from matches Some(a) && a.wf() && a.address@
                    == from.address@ && a.flags == from.flags && a.dsn_info is None
                &&& out_view(final(self).output@) =~= out_view(old(self).output@).push(
                    ActionView::Write("250 2.1.0 OK\r\n"@),
                )
            }),
    {
        if self.data.mail_from.is_some() {
            self.emit_str("503 5.5.1 Multiple MAIL commands not allowed.\r\n");
            return ;
        }
        if from.size > self.params.max_message_size {
            self.emit_str("552 5.3.4 Message too big for system.\r\n");
            return ;
        }
        let sender = SessionAddress::new(from.address, from.flags, None);
        self.data.mail_from = Some(sender);
        self.data.priority = from.mt_priority;
        self.data.delivery_by = from.by;
        self.data.future_release = from.hold_for;
        self.emit_str("250 2.1.0 OK\r\n");
    }
}

/// The decimal digits of `n`, as text.
pub open spec fn dec_chars(n: nat) -> Seq<char> {
    Seq::new(crate::text::dec_bytes(n).len(), |i: int| crate::text::dec_bytes(n)[i] as char)
}

/// The full greeting the server advertises: the bare hostname for HELO, or
/// the extension list — status codes, 8BITMIME, pipelining, chunking,
/// STARTTLS while available and not yet in use, DSN and AUTH as configured,
/// and the size limit — for EHLO and LHLO.
pub open spec fn ehlo_reply_text(
    instance: SessionInstance,
    params: SessionParams,
    is_tls: bool,
    extended: bool,
) -> Seq<char> {
    if !extended {
        "250 "@ + instance.hostname@ + "\r\n"@
    } else {
        "250-"@ + instance.hostname@
            + "\r\n250-ENHANCEDSTATUSCODES\r\n250-8BITMIME\r\n250-PIPELINING\r\n250-CHUNKING\r\n"@
            + (if instance.can_tls && !is_tls {
            "250-STARTTLS\r\n"@
        } else {
            Seq::empty()
        }) + (if params.rcpt_dsn {
            "250-DSN\r\n"@
        } else {
            Seq::empty()
        }) + (if params.auth_directory {
            "250-AUTH PLAIN LOGIN\r\n"@
        } else {
            Seq::empty()
        }) + "250 SIZE "@ + dec_chars(params.max_message_size as nat) + "\r\n"@
    }
}

impl<H: SessionHost> Session<H> {
    /// Installs the HELO identity and advertises the server: exactly
    /// [`ehlo_reply_text`] is written.
    pub fn handle_ehlo(&mut self, host_name: Vec<u8>, extended: bool)
        requires
            old(self).wf(),
        ensures
            final(self).wf(),
            final(self).state == old(self).state,
            final(self).instance == old(self).instance,
            final(self).params == old(self).params,
            final(self).host == old(self).host,
            final(self).data == (SessionData { helo_domain: host_name, ..old(self).data }),
            out_view(final(self).output@).len() == out_view(old(self).output@).len() + 1,
            extends(out_view(old(self).output@), out_view(final(self).output@)),
            out_view(final(self).output@).last() == ActionView::Write(
                ehlo_reply_text(
                    old(self).instance,
                    old(self).params,
                    old(self).data.is_tls,
                    extended,
                ),
            ),
    {
        self.data.helo_domain = host_name;
        let mut reply: String = String::new();
        if !extended {
            reply.append("250 ");
            reply.append(self.instance.hostname.as_str());
            reply.append("\r\n");
        } else {
            reply.append("250-");
            reply.append(self.instance.hostname.as_str());
            reply.append("\r\n250-ENHANCEDSTATUSCODES\r\n250-8BITMIME\r\n250-PIPELINING\r\n250-CHUNKING\r\n");
            if self.instance.can_tls && !self.data.is_tls {
                reply.append("250-STARTTLS\r\n");
            }
            if self.params.rcpt_dsn {
                reply.append("250-DSN\r\n");
            }
            if self.params.auth_directory {
                reply.append("250-AUTH PLAIN LOGIN\r\n");
            }
            reply.append("250 SIZE ");
            let size = dec_string(self.params.max_message_size as u64);
            reply.append(size.as_str());
            reply.append("\r\n");
        }
        proof {
            assert(reply@ =~= ehlo_reply_text(
                self.instance,
                self.params,
                self.data.is_tls,
                extended,
            ));
        }
        self.emit(reply);
    }

    /// AUTH gates, in order: mechanisms must be offered by the
    /// configuration (`offered`, as the evaluator answered) and an
    /// authentication directory configured; the session must not already be
    /// authenticated; the intersection of the client's mechanism and the
    /// offer must be implemented. On success the SASL exchange either
    /// finishes inline or continues with the returned token.
    fn handle_auth(&mut self, mechanism: u64, initial_response: Vec<u8>, offered: u64) -> (r:
        Result<Option<SaslToken>, ()>)
        requires
            old(self).wf(),
        ensures
            final(self).wf(),
            final(self).state == old(self).state,
            final(self).instance == old(self).instance,
            final(self).params == old(self).params,
            extends(out_view(old(self).output@), out_view(final(self).output@)),
            final(self).data == (SessionData {
                authenticated_as: final(self).data.authenticated_as,
                ..old(self).data
            }),
            (offered == 0 || !old(self).params.auth_directory) ==> r == Ok::<
                Option<SaslToken>,
                (),
            >(None) && final(self).data == old(self).data && out_view(final(self).output@)
                =~= out_view(old(self).output@).push(
                ActionView::Write("503 5.5.1 AUTH not allowed.\r\n"@),
            ),
            (offered != 0 && old(self).params.auth_directory && old(self).data.authenticated_as@.len() > 0) ==> r == Ok::<Option<SaslToken>, ()>(None)
                && final(self).data == old(self).data && out_view(final(self).output@)
                =~= out_view(old(self).output@).push(
                ActionView::Write("503 5.5.1 Already authenticated.\r\n"@),
            ),
            (offered != 0 && old(self).params.auth_directory && old(self).data.authenticated_as@.len() == 0 && !supported_mechanism(mechanism & offered))
                ==> r == Ok::<Option<SaslToken>, ()>(None) && final(self).data == old(self).data
                && out_view(final(self).output@) =~= out_view(old(self).output@).push(
                ActionView::Write("554 5.7.8 Authentication mechanism not supported.\r\n"@),
            ),
            // The exchange continues only for an implemented mechanism; the
            // token itself is the SASL handler's to advance.
            r matches Ok(Some(_)) ==> supported_mechanism(mechanism & offered),
    {
        if offered == 0 || !self.params.auth_directory {
            self.emit_str("503 5.5.1 AUTH not allowed.\r\n");
            return Ok(None);
        }
        if self.data.authenticated_as.len() > 0 {
            self.emit_str("503 5.5.1 Already authenticated.\r\n");
            return Ok(None);
        }
        match SaslToken::from_mechanism(mechanism & offered) {
            Some(mut token) => {
                let outcome = self.host.handle_sasl(&mut token, &initial_response, &self.data);
                let mut i: usize = 0;
                while i < outcome.replies.len()
                    invariant
                        self.wf(),
                        self.state == old(self).state,
                        self.instance == old(self).instance,
                        self.params == old(self).params,
                        self.data == old(self).data,
                        extends(out_view(old(self).output@), out_view(self.output@)),
                    decreases outcome.replies@.len() - i,
                {
                    let line = outcome.replies[i].clone();
                    self.emit(line);
                    i = i + 1;
                }
                if outcome.fatal {
                    return Err(());
                }
                if let Some(id) = outcome.authenticated_as {
                    self.data.authenticated_as = id;
                }
                if outcome.continue_exchange {
                    Ok(Some(token))
                } else {
                    Ok(None)
                }
            },
            None => {
                self.emit_str("554 5.7.8 Authentication mechanism not supported.\r\n");
                Ok(None)
            },
        }
    }

    /// Applies one scripted envelope change: `from` rewrites the sender
    /// with the value, `to` the most recently added recipient; any other
    /// name changes nothing. A `to` rewrite may leave the last entry equal
    /// to an earlier one; the recipient pipeline collapses such duplicates
    /// before it answers.
    pub fn apply_envelope_modification(&mut self, name: &Vec<u8>, value: &Vec<u8>)
        requires
            old(self).data.envelope_wf(),
        ensures
            final(self).data.envelope_wf(),
            final(self).state == old(self).state,
            final(self).instance == old(self).instance,
            final(self).params == old(self).params,
            final(self).host == old(self).host,
            final(self).output == old(self).output,
            final(self).data == (SessionData {
                mail_from: final(self).data.mail_from,
                rcpt_to: final(self).data.rcpt_to,
                ..old(self).data
            }),
            final(self).data.rcpt_to@.len() == old(self).data.rcpt_to@.len(),
            (final(self).data.mail_from is Some) == (old(self).data.mail_from is Some),
            forall|i: int|
                0 <= i < old(self).data.rcpt_to@.len() - 1 ==> final(self).data.rcpt_to@[i]
                    == old(self).data.rcpt_to@[i],
            old(self).data.rcpt_to@.len() > 0 ==> final(self).data.rcpt_to@.last().flags == old(self).data.rcpt_to@.last().flags && final(self).data.rcpt_to@.last().dsn_info == old(self).data.rcpt_to@.last().dsn_info,
            name@ =~= seq![102u8, 114u8, 111u8, 109u8] ==> final(self).data.rcpt_to == old(self).data.rcpt_to && (match (old(self).data.mail_from, final(self).data.mail_from) {
                (Some(a), Some(b)) => b.wf() && b.address@ == value@ && b.flags == a.flags
                    && b.dsn_info == a.dsn_info,
                (None, None) => true,
                _ => false,
            }),
            name@ =~= seq![116u8, 111u8] ==> final(self).data.mail_from == old(self).data.mail_from && (old(self).data.rcpt_to@.len() == 0 ==> final(self).data.rcpt_to
                == old(self).data.rcpt_to) && (old(self).data.rcpt_to@.len() > 0 ==> {
                let nb = final(self).data.rcpt_to@.last();
                nb.wf() && nb.address@ == value@
            }),
            !(name@ =~= seq![102u8, 114u8, 111u8, 109u8]) && !(name@ =~= seq![116u8, 111u8])
                ==> final(self).data == old(self).data,
    {
        let is_from = crate::text::bytes_eq(name, &[102u8, 114u8, 111u8, 109u8]);
        let is_to = crate::text::bytes_eq(name, &[116u8, 111u8]);
        if is_from {
            let mut sender = None;
            core::mem::swap(&mut sender, &mut self.data.mail_from);
            match sender {
                Some(mut a) => {
                    a.rewrite(value.clone());
                    self.data.mail_from = Some(a);
                },
                None => {},
            }
        } else if is_to {
            let n = self.data.rcpt_to.len();
            if n > 0 {
                let mut entry = self.data.rcpt_to.pop().unwrap();
                entry.rewrite(value.clone());
                self.data.rcpt_to.push(entry);
            }
        }
    }

    /// A fresh session bound to one accepted connection, in the initial
    /// command-reading state with an empty envelope.
    pub fn new(
        instance: SessionInstance,
        params: SessionParams,
        host: H,
        session_id: u64,
        is_tls: bool,
        remote_ip: Vec<u8>,
        remote_port: u16,
        local_ip: Vec<u8>,
        local_port: u16,
    ) -> (s: Session<H>)
        ensures
            s.wf(),
            state_ready(s.state),
            s.state matches State::Request(rec) && rec.buf@.len() == 0,
            s.instance == instance,
            s.params == params,
            s.data.mail_from is None,
            s.data.rcpt_to@.len() == 0,
            s.data.message@.len() == 0,
            s.data.rcpt_errors == 0,
            s.data.session_id == session_id,
            s.data.is_tls == is_tls,
            s.output@.len() == 0,
    {
        Session {
            instance,
            params,
            data: SessionData {
                session_id,
                helo_domain: Vec::new(),
                authenticated_as: Vec::new(),
                mail_from: None,
                rcpt_to: Vec::new(),
                message: Vec::new(),
                priority: 0,
                delivery_by: 0,
                future_release: 0,
                rcpt_errors: 0,
                is_tls,
                remote_ip,
                remote_port,
                local_ip,
                local_port,
            },
            state: State::Request(RequestReceiver::new()),
            host,
            output: Vec::new(),
        }
    }

    /// Drives the session over one slice of connection bytes: commands are
    /// parsed and dispatched, message bodies collected, oversized input
    /// drained, until the slice is exhausted or the session ends.
    ///
    /// `Ok(true)` keeps the connection going, `Ok(false)` hands the
    /// connection to the listener for the TLS handshake, `Err` ends it.
    /// Whatever arrived, the session stays well-formed, and a session that
    /// keeps going is left in a resumable driver state.
    #[verifier::rlimit(100)]
    pub fn ingest(&mut self, bytes: &[u8]) -> (r: Result<bool, ()>)
        requires
            old(self).wf(),
            state_ready(old(self).state),
        ensures
            final(self).wf(),
            final(self).instance == old(self).instance,
            final(self).params == old(self).params,
            r is Ok ==> state_ready(final(self).state),
            r matches Ok(false) ==> final(self).state is Request && ({
                let out = out_view(final(self).output@);
                out.len() > 0 && out.last() == ActionView::Write(
                    "220 2.0.0 Ready to start TLS.\r\n"@,
                )
            }),
            extends(out_view(old(self).output@), out_view(final(self).output@)),
            // A slice carrying one bare QUIT ends the session with the
            // goodbye as its only reply.
            (sole_line(old(self).state, bytes@) matches Some(l) && bare_command(
                l,
                seq![81u8, 85u8, 73u8, 84u8],
            )) ==> r is Err && final(self).data == old(self).data && out_view(
                final(self).output@,
            ) =~= out_view(old(self).output@).push(ActionView::Write("221 2.0.0 Bye.\r\n"@)),
            // One bare RSET acknowledges and clears exactly the transaction.
            (sole_line(old(self).state, bytes@) matches Some(l) && bare_command(
                l,
                seq![82u8, 83u8, 69u8, 84u8],
            )) ==> r == Ok::<bool, ()>(true) && final(self).state is Request
                && transaction_cleared(final(self).data, old(self).data) && out_view(
                final(self).output@,
            ) =~= out_view(old(self).output@).push(ActionView::Write("250 2.0.0 OK\r\n"@)),
            // One bare STARTTLS on a plaintext stream with an acceptor asks
            // for the hand-over after exactly the ready reply.
            (sole_line(old(self).state, bytes@) matches Some(l) && bare_command(
                l,
                seq![83u8, 84u8, 65u8, 82u8, 84u8, 84u8, 76u8, 83u8],
            ) && !old(self).data.is_tls && old(self).instance.can_tls) ==> r == Ok::<bool, ()>(
                false,
            ) && final(self).data == old(self).data && out_view(final(self).output@) =~= out_view(
                old(self).output@,
            ).push(ActionView::Write("220 2.0.0 Ready to start TLS.\r\n"@)),
            // One bare NOOP is simply acknowledged.
            (sole_line(old(self).state, bytes@) matches Some(l) && bare_command(
                l,
                seq![78u8, 79u8, 79u8, 80u8],
            )) ==> r == Ok::<bool, ()>(true) && final(self).state is Request && final(self).data
                == old(self).data && out_view(final(self).output@) =~= out_view(
                old(self).output@,
            ).push(ActionView::Write("250 2.0.0 OK\r\n"@)),
            // One bare DATA without an accepted recipient is refused with
            // the matching ordering reply; with recipients it opens the
            // body, announcing the terminator, so long as this slice itself
            // fits the size limit.
            (sole_line(old(self).state, bytes@) matches Some(l) && bare_command(
                l,
                seq![68u8, 65u8, 84u8, 65u8],
            ) && old(self).data.rcpt_to@.len() == 0) ==> r == Ok::<bool, ()>(true) && final(self).state is Request && final(self).data == old(self).data && out_view(
                final(self).output@,
            ) =~= out_view(old(self).output@).push(
                ActionView::Write(
                    if old(self).data.mail_from is None {
                        "503 5.5.1 MAIL is required first.\r\n"@
                    } else {
                        "503 5.5.1 RCPT is required first.\r\n"@
                    },
                ),
            ),
            (sole_line(old(self).state, bytes@) matches Some(l) && bare_command(
                l,
                seq![68u8, 65u8, 84u8, 65u8],
            ) && old(self).data.rcpt_to@.len() > 0 && bytes@.len() < old(self).params.max_message_size) ==> r == Ok::<bool, ()>(true) && final(self).state is Data && final(self).data.message@.len() == 0 && final(self).data
                == (SessionData { message: final(self).data.message, ..old(self).data })
                && out_view(final(self).output@) =~= out_view(old(self).output@).push(
                ActionView::Write("354 Start mail input; end with <CRLF>.<CRLF>\r\n"@),
            ),
            // STARTTLS within TLS, or without an acceptor, is refused and
            // the session goes on.
            (sole_line(old(self).state, bytes@) matches Some(l) && bare_command(
                l,
                seq![83u8, 84u8, 65u8, 82u8, 84u8, 84u8, 76u8, 83u8],
            ) && old(self).data.is_tls) ==> r == Ok::<bool, ()>(true) && final(self).state is Request && final(self).data == old(self).data && out_view(
                final(self).output@,
            ) =~= out_view(old(self).output@).push(
                ActionView::Write("504 5.7.4 Already in TLS mode.\r\n"@),
            ),
            (sole_line(old(self).state, bytes@) matches Some(l) && bare_command(
                l,
                seq![83u8, 84u8, 65u8, 82u8, 84u8, 84u8, 76u8, 83u8],
            ) && !old(self).data.is_tls && !old(self).instance.can_tls) ==> r == Ok::<bool, ()>(
                true,
            ) && final(self).state is Request && final(self).data == old(self).data && out_view(
                final(self).output@,
            ) =~= out_view(old(self).output@).push(
                ActionView::Write("502 5.7.0 TLS not available.\r\n"@),
            ),
            // A slice that exactly drains an oversized BDAT body yields the
            // too-big reply, an empty buffer and a fresh command state.
            (old(self).state matches State::DataTooLarge(d) && d.is_bdat && d.remaining
                == bytes@.len()) ==> r == Ok::<bool, ()>(true) && final(self).state is Request
                && final(self).data.message@.len() == 0 && out_view(final(self).output@)
                =~= out_view(old(self).output@).push(
                ActionView::Write("552 5.3.4 Message too big for system.\r\n"@),
            ),
            // A slice that ends an overlong request line at its final line
            // feed yields the too-long reply and a fresh command state.
            (old(self).state matches State::RequestTooLarge(_) && after_first_lf(bytes@)
                == Some(bytes@.len() as int)) ==> r == Ok::<bool, ()>(true) && final(self).state is Request && final(self).data == old(self).data && out_view(
                final(self).output@,
            ) =~= out_view(old(self).output@).push(
                ActionView::Write("554 5.3.4 Line is too long.\r\n"@),
            ),
    {
        let mut pos: usize = 0;
        let mut state = State::Taken;
        core::mem::swap(&mut state, &mut self.state);
        let len: usize = bytes.len();
        loop
            invariant
                pos <= len == bytes@.len(),
                self.data.wf(self.params),
                state_wf(state, self.data, self.params),
                state_ready(state),
                self.state is Taken,
                self.instance == old(self).instance,
                self.params == old(self).params,
                extends(out_view(old(self).output@), out_view(self.output@)),
                (sole_line(old(self).state, bytes@) matches Some(l) && bare_command(
                    l,
                    seq![81u8, 85u8, 73u8, 84u8],
                )) ==> pos == 0 && state == old(self).state && self.output == old(self).output
                    && self.data == old(self).data,
                (sole_line(old(self).state, bytes@) matches Some(l) && bare_command(
                    l,
                    seq![82u8, 83u8, 69u8, 84u8],
                )) ==> (pos == 0 && state == old(self).state && self.output == old(self).output
                    && self.data == old(self).data) || (pos == len && state is Request
                    && transaction_cleared(self.data, old(self).data) && out_view(self.output@)
                    =~= out_view(old(self).output@).push(
                    ActionView::Write("250 2.0.0 OK\r\n"@),
                )),
                (sole_line(old(self).state, bytes@) matches Some(l) && bare_command(
                    l,
                    seq![83u8, 84u8, 65u8, 82u8, 84u8, 84u8, 76u8, 83u8],
                ) && !old(self).data.is_tls && old(self).instance.can_tls) ==> pos == 0 && state
                    == old(self).state && self.output == old(self).output && self.data == old(self).data,
                (sole_line(old(self).state, bytes@) matches Some(l) && bare_command(
                    l,
                    seq![78u8, 79u8, 79u8, 80u8],
                )) ==> (pos == 0 && state == old(self).state && self.output == old(self).output
                    && self.data == old(self).data) || (pos == len && state is Request
                    && self.data == old(self).data && out_view(self.output@) =~= out_view(
                    old(self).output@,
                ).push(ActionView::Write("250 2.0.0 OK\r\n"@))),
                (sole_line(old(self).state, bytes@) matches Some(l) && bare_command(
                    l,
                    seq![68u8, 65u8, 84u8, 65u8],
                ) && old(self).data.rcpt_to@.len() == 0) ==> (pos == 0 && state == old(self).state && self.output == old(self).output && self.data == old(self).data) || (
                pos == len && state is Request && self.data == old(self).data && out_view(
                    self.output@,
                ) =~= out_view(old(self).output@).push(
                    ActionView::Write(
                        if old(self).data.mail_from is None {
                            "503 5.5.1 MAIL is required first.\r\n"@
                        } else {
                            "503 5.5.1 RCPT is required first.\r\n"@
                        },
                    ),
                )),
                (sole_line(old(self).state, bytes@) matches Some(l) && bare_command(
                    l,
                    seq![68u8, 65u8, 84u8, 65u8],
                ) && old(self).data.rcpt_to@.len() > 0 && bytes@.len() < old(self).params.max_message_size) ==> (pos == 0 && state == old(self).state
                    && self.output == old(self).output && self.data == old(self).data) || (pos
                    == len && state is Data && self.data.message@.len() == 0 && self.data
                    == (SessionData { message: self.data.message, ..old(self).data })
                    && out_view(self.output@) =~= out_view(old(self).output@).push(
                    ActionView::Write("354 Start mail input; end with <CRLF>.<CRLF>\r\n"@),
                )),
                (sole_line(old(self).state, bytes@) matches Some(l) && bare_command(
                    l,
                    seq![83u8, 84u8, 65u8, 82u8, 84u8, 84u8, 76u8, 83u8],
                ) && old(self).data.is_tls) ==> (pos == 0 && state == old(self).state
                    && self.output == old(self).output && self.data == old(self).data) || (pos
                    == len && state is Request && self.data == old(self).data && out_view(
                    self.output@,
                ) =~= out_view(old(self).output@).push(
                    ActionView::Write("504 5.7.4 Already in TLS mode.\r\n"@),
                )),
                (sole_line(old(self).state, bytes@) matches Some(l) && bare_command(
                    l,
                    seq![83u8, 84u8, 65u8, 82u8, 84u8, 84u8, 76u8, 83u8],
                ) && !old(self).data.is_tls && !old(self).instance.can_tls) ==> (pos == 0
                    && state == old(self).state && self.output == old(self).output && self.data
                    == old(self).data) || (pos == len && state is Request && self.data == old(self).data && out_view(self.output@) =~= out_view(old(self).output@).push(
                    ActionView::Write("502 5.7.0 TLS not available.\r\n"@),
                )),
                (old(self).state matches State::DataTooLarge(d) && d.is_bdat && d.remaining
                    == bytes@.len()) ==> (pos == 0 && state == old(self).state && self.output
                    == old(self).output && self.data == old(self).data) || (pos == len
                    && state is Request && self.data.message@.len() == 0 && out_view(
                    self.output@,
                ) =~= out_view(old(self).output@).push(
                    ActionView::Write("552 5.3.4 Message too big for system.\r\n"@),
                )),
                (old(self).state matches State::RequestTooLarge(_) && after_first_lf(bytes@)
                    == Some(bytes@.len() as int)) ==> (pos == 0 && state == old(self).state
                    && self.output == old(self).output && self.data == old(self).data) || (pos
                    == len && state is Request && self.data == old(self).data && out_view(
                    self.output@,
                ) =~= out_view(old(self).output@).push(
                    ActionView::Write("554 5.3.4 Line is too long.\r\n"@),
                )),
            ensures
                pos == len,
                state matches State::DataTooLarge(d2) ==> !d2.is_bdat || d2.remaining > 0,
            decreases len - pos, state_rank(state),
        {
            match &mut state {
                State::Request(receiver) => {
                    let ghost buf0 = receiver.buf@;
                    let ghost pos0 = pos as int;
                    proof {
                        if pos0 == 0 {
                            assert(bytes@.subrange(0, len as int) =~= bytes@);
                        }
                        if buf0.len() == 0 {
                            assert(buf0 =~= Seq::<u8>::empty());
                        }
                    }
                    match receiver.ingest(bytes, &mut pos) {
                        LineEvent::More => {
                            break ;
                        },
                        LineEvent::TooLong => {
                            state = State::RequestTooLarge(DummyLineReceiver::new());
                        },
                        LineEvent::Line(line) => {
                            proof {
                                assert(bytes@.subrange(0, len as int) =~= bytes@);
                            }
                            match parse_line(&line) {
                                Ok(request) => match request {
                                    Request::Rcpt { to } => {
                                        if self.handle_rcpt_to(to).is_err() {
                                            return Err(());
                                        }
                                    },
                                    Request::Mail { from } => {
                                        self.handle_mail_from(from);
                                    },
                                    Request::Ehlo { host } => {
                                        if self.instance.protocol == Protocol::Smtp {
                                            self.handle_ehlo(host, true);
                                        } else {
                                            self.emit_str("500 5.5.1 Invalid command.\r\n");
                                        }
                                    },
                                    Request::Helo { host } => {
                                        if self.instance.protocol == Protocol::Smtp {
                                            self.handle_ehlo(host, false);
                                        } else {
                                            self.emit_str("500 5.5.1 Invalid command.\r\n");
                                        }
                                    },
                                    Request::Lhlo { host } => {
                                        if self.instance.protocol == Protocol::Lmtp {
                                            self.handle_ehlo(host, true);
                                        } else {
                                            self.emit_str("502 5.5.1 Invalid command.\r\n");
                                        }
                                    },
                                    Request::Data => {
                                        if self.can_send_data() {
                                            self.emit_str(
                                                "354 Start mail input; end with <CRLF>.<CRLF>\r\n",
                                            );
                                            self.data.message = Vec::new();
                                            state = State::Data(DataReceiver::new());
                                        }
                                    },
                                    Request::Bdat { chunk_size, is_last } => {
                                        if self.data.message.len() < self.params.max_message_size
                                            && chunk_size < self.params.max_message_size
                                            - self.data.message.len() {
                                            state = State::Bdat(
                                                BdatReceiver::new(chunk_size, is_last),
                                            );
                                        } else {
                                            state = State::DataTooLarge(
                                                DummyDataReceiver::new_bdat(chunk_size),
                                            );
                                        }
                                    },
                                    Request::Auth { mechanism, initial_response } => {
                                        let offered = self.host.auth_mechanisms(
                                            &self.data,
                                            &self.instance,
                                        );
                                        match self.handle_auth(
                                            mechanism,
                                            initial_response,
                                            offered,
                                        ) {
                                            Ok(Some(token)) => {
                                                state = State::Sasl(LineReceiver::new(), token);
                                            },
                                            Ok(None) => {},
                                            Err(_) => {
                                                return Err(());
                                            },
                                        }
                                    },
                                    Request::Noop { .. } => {
                                        self.emit_str("250 2.0.0 OK\r\n");
                                    },
                                    Request::Vrfy { .. } => {
                                        self.emit_str("252 2.5.1 VRFY is disabled.\r\n");
                                    },
                                    Request::Expn { .. } => {
                                        self.emit_str("252 2.5.1 EXPN is disabled.\r\n");
                                    },
                                    Request::StartTls => {
                                        if !self.data.is_tls {
                                            if self.instance.can_tls {
                                                self.emit_str("220 2.0.0 Ready to start TLS.\r\n");
                                                // Drop pipelined cleartext: the
                                                // handshake starts from a fresh
                                                // driver state.
                                                self.state = State::Request(
                                                    RequestReceiver::new(),
                                                );
                                                return Ok(false);
                                            } else {
                                                self.emit_str("502 5.7.0 TLS not available.\r\n");
                                            }
                                        } else {
                                            self.emit_str("504 5.7.4 Already in TLS mode.\r\n");
                                        }
                                    },
                                    Request::Rset => {
                                        self.reset();
                                        self.emit_str("250 2.0.0 OK\r\n");
                                    },
                                    Request::Quit => {
                                        self.emit_str("221 2.0.0 Bye.\r\n");
                                        return Err(());
                                    },
                                    Request::Help { .. } => {
                                        self.emit_str(
                                            "250 2.0.0 Help can be found at https://stalw.art/docs/\r\n",
                                        );
                                    },
                                    Request::Etrn { .. } => {
                                        self.emit_str("502 5.5.1 Command not implemented.\r\n");
                                    },
                                    Request::Atrn { .. } => {
                                        self.emit_str("502 5.5.1 Command not implemented.\r\n");
                                    },
                                    Request::Burl { .. } => {
                                        self.emit_str("502 5.5.1 Command not implemented.\r\n");
                                    },
                                },
                                Err(err) => match err {
                                    ParseError::UnknownCommand => {
                                        self.emit_str("500 5.5.1 Invalid command.\r\n");
                                    },
                                    ParseError::InvalidSenderAddress => {
                                        self.emit_str("501 5.1.8 Bad sender's system address.\r\n");
                                    },
                                    ParseError::InvalidRecipientAddress => {
                                        self.emit_str(
                                            "501 5.1.3 Bad destination mailbox address syntax.\r\n",
                                        );
                                    },
                                    ParseError::SyntaxError { syntax } => {
                                        let mut reply = String::from_str(
                                            "501 5.5.2 Syntax error, expected: ",
                                        );
                                        reply.append(syntax);
                                        reply.append("\r\n");
                                        self.emit(reply);
                                    },
                                    ParseError::InvalidParameter { param } => {
                                        let mut reply = String::from_str(
                                            "501 5.5.4 Invalid parameter \"",
                                        );
                                        reply.append(param);
                                        reply.append("\".\r\n");
                                        self.emit(reply);
                                    },
                                    ParseError::UnsupportedParameter { param } => {
                                        let mut reply = String::from_str(
                                            "504 5.5.4 Unsupported parameter \"",
                                        );
                                        let name = ascii_to_string(&param);
                                        reply.append(name.as_str());
                                        reply.append("\".\r\n");
                                        self.emit(reply);
                                    },
                                },
                            }
                        },
                    }
                },
                State::Data(receiver) => {
                    if bytes.len() < self.params.max_message_size && self.data.message.len()
                        < self.params.max_message_size - bytes.len() {
                        let ghost pos0 = pos as int;
                        let ghost msg0 = self.data.message@;
                        let ghost st0 = *receiver;
                        let done = receiver.ingest(bytes, &mut pos, &mut self.data.message);
                        proof {
                            lemma_data_run_growth(
                                st0,
                                msg0,
                                bytes@.subrange(pos0, bytes@.len() as int),
                            );
                        }
                        if done {
                            if self.deliver_message().is_err() {
                                return Err(());
                            }
                            state = State::Request(RequestReceiver::new());
                        } else {
                            break ;
                        }
                    } else {
                        state = State::DataTooLarge(DummyDataReceiver::new_data(receiver));
                    }
                },
                State::Bdat(receiver) => {
                    let is_last = receiver.is_last;
                    let done = receiver.ingest(bytes, &mut pos, &mut self.data.message);
                    if done {
                        if self.can_send_data() {
                            if is_last {
                                if self.deliver_message().is_err() {
                                    return Err(());
                                }
                            } else {
                                self.emit_str("250 2.6.0 Chunk accepted.\r\n");
                            }
                        } else {
                            self.data.message = Vec::new();
                        }
                        state = State::Request(RequestReceiver::new());
                    } else {
                        break ;
                    }
                },
                State::Sasl(receiver, token) => {
                    let done = receiver.ingest(bytes, &mut pos);
                    if done {
                        if receiver.buf.len() < MAX_LINE_LENGTH {
                            let outcome = self.host.handle_sasl(token, &receiver.buf, &self.data);
                            let mut i: usize = 0;
                            while i < outcome.replies.len()
                                invariant
                                    self.data.wf(self.params),
                                    self.state is Taken,
                                    self.instance == old(self).instance,
                                    self.params == old(self).params,
                                    extends(
                                        out_view(old(self).output@),
                                        out_view(self.output@),
                                    ),
                                decreases outcome.replies@.len() - i,
                            {
                                let line = outcome.replies[i].clone();
                                self.emit(line);
                                i = i + 1;
                            }
                            if outcome.fatal {
                                return Err(());
                            }
                            if let Some(id) = outcome.authenticated_as {
                                self.data.authenticated_as = id;
                            }
                            if outcome.continue_exchange {
                                receiver.buf.clear();
                            } else {
                                state = State::Request(RequestReceiver::new());
                            }
                        } else {
                            self.emit_str(
                                "500 5.5.6 Authentication Exchange line is too long.\r\n",
                            );
                            state = State::Request(RequestReceiver::new());
                        }
                    } else {
                        break ;
                    }
                },
                State::DataTooLarge(receiver) => {
                    let ghost pos0 = pos as int;
                    proof {
                        if pos0 == 0 {
                            assert(bytes@.subrange(0, len as int) =~= bytes@);
                        }
                    }
                    let done = receiver.ingest(bytes, &mut pos);
                    if done {
                        self.data.message = Vec::new();
                        self.emit_str("552 5.3.4 Message too big for system.\r\n");
                        state = State::Request(RequestReceiver::new());
                    } else {
                        break ;
                    }
                },
                State::RequestTooLarge(receiver) => {
                    let ghost pos0 = pos as int;
                    proof {
                        if pos0 == 0 {
                            assert(bytes@.subrange(0, len as int) =~= bytes@);
                        }
                    }
                    let done = receiver.ingest(bytes, &mut pos);
                    if done {
                        self.emit_str("554 5.3.4 Line is too long.\r\n");
                        state = State::Request(RequestReceiver::new());
                    } else {
                        break ;
                    }
                },
                State::Taken | State::Accepted => {
                    proof {
                        assert(false);
                    }
                    break ;
                },
            }
        }
        proof {
            // An empty slice carries no complete line and no line feed, so
            // none of the single-slice flows can end here untouched.
            assert(bytes@.len() == 0 ==> line_run(
                Seq::<u8>::empty(),
                bytes@,
                MAX_LINE_LENGTH as nat,
            ).line is None);
            assert(bytes@.len() == 0 ==> after_first_lf(bytes@) is None);
        }
        self.state = state;
        Ok(true)
    }
}

} // verus!
