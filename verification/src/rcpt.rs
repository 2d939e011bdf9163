//! The recipient policy pipeline: precondition gates, duplicate collapse,
//! scripted filtering, milter and MTA-hook consultation, optional address
//! rewriting, directory verification, relay permission and rate limiting.
//! Every rejection removes the tentatively appended recipient again.

use vstd::prelude::*;

use crate::addr::{SessionAddress, contains_rcpt, contains_rcpt_prefix, has_rcpt, no_dup_rcpts};
use crate::host::{ScriptModification, ScriptResult, SessionHost, Stage};
use crate::request::{
    RCPT_NOTIFY_DELAY, RCPT_NOTIFY_FAILURE, RCPT_NOTIFY_NEVER, RCPT_NOTIFY_SUCCESS, RcptTo,
};
use crate::session::{ActionView, Session, SessionData, out_view};
use crate::text::{contains_byte, lower_bytes};

verus! {

/// The DSN gate: NOTIFY flags or an ORCPT while the DSN extension is
/// disabled by configuration.
pub open spec fn dsn_refused(flags: u64, has_orcpt: bool, rcpt_dsn: bool) -> bool {
    ((flags & (RCPT_NOTIFY_DELAY | RCPT_NOTIFY_NEVER | RCPT_NOTIFY_SUCCESS | RCPT_NOTIFY_FAILURE))
        != 0 || has_orcpt) && !rcpt_dsn
}

impl<H: SessionHost> Session<H> {
    /// Tarpit, count and send one recipient rejection; once the error budget
    /// is exhausted the disconnection notice follows and the session ends.
    pub fn rcpt_error(&mut self, response: String) -> (r: Result<(), ()>)
        ensures
            final(self).state == old(self).state,
            final(self).instance == old(self).instance,
            final(self).params == old(self).params,
            final(self).data == (SessionData {
                rcpt_errors: final(self).data.rcpt_errors,
                ..old(self).data
            }),
            final(self).data.rcpt_to == old(self).data.rcpt_to,
            final(self).data.mail_from == old(self).data.mail_from,
            final(self).data.message == old(self).data.message,
            final(self).data.rcpt_errors == if old(self).data.rcpt_errors < usize::MAX {
                (old(self).data.rcpt_errors + 1) as usize
            } else {
                usize::MAX
            },
            r is Err <==> final(self).data.rcpt_errors >= old(self).params.rcpt_errors_max,
            r is Ok ==> out_view(final(self).output@) =~= out_view(old(self).output@) + seq![
                ActionView::Delay(old(self).params.rcpt_errors_wait),
                ActionView::Write(response@),
            ],
            r is Err ==> out_view(final(self).output@) =~= out_view(old(self).output@) + seq![
                ActionView::Delay(old(self).params.rcpt_errors_wait),
                ActionView::Write(response@),
                ActionView::Write("421 4.3.0 Too many errors, disconnecting.\r\n"@),
            ],
    {
        self.delay(self.params.rcpt_errors_wait);
        if self.data.rcpt_errors < usize::MAX {
            self.data.rcpt_errors = self.data.rcpt_errors + 1;
        }
        self.emit(response);
        if self.data.rcpt_errors < self.params.rcpt_errors_max {
            assert(out_view(self.output@) =~= out_view(old(self).output@) + seq![
                ActionView::Delay(old(self).params.rcpt_errors_wait),
                ActionView::Write(response@),
            ]);
            Ok(())
        } else {
            self.emit_str("421 4.3.0 Too many errors, disconnecting.\r\n");
            assert(out_view(self.output@) =~= out_view(old(self).output@) + seq![
                ActionView::Delay(old(self).params.rcpt_errors_wait),
                ActionView::Write(response@),
                ActionView::Write("421 4.3.0 Too many errors, disconnecting.\r\n"@),
            ]);
            Err(())
        }
    }

    /// One RCPT TO command, through the whole policy cascade.
    ///
    /// The exact gates: without a sender the command is refused outright;
    /// a full recipient list, and DSN parameters while DSN is disabled, are
    /// refused unchanged; a recipient already on the list is acknowledged
    /// without further policy. Whatever the collaborators answer, the list
    /// grows by at most the one recipient, existing entries are untouched,
    /// the list stays free of duplicates, and growth happens only under the
    /// acknowledgement reply.
    #[verifier::rlimit(100)]
    pub fn handle_rcpt_to(&mut self, to: RcptTo) -> (r: Result<(), ()>)
        requires
            old(self).wf(),
        ensures
            final(self).wf(),
            final(self).state == old(self).state,
            final(self).instance == old(self).instance,
            final(self).params == old(self).params,
            final(self).data.message == old(self).data.message,
            final(self).data.helo_domain == old(self).data.helo_domain,
            final(self).data.authenticated_as == old(self).data.authenticated_as,
            final(self).data == (SessionData {
                mail_from: final(self).data.mail_from,
                rcpt_to: final(self).data.rcpt_to,
                rcpt_errors: final(self).data.rcpt_errors,
                ..old(self).data
            }),
            (final(self).data.mail_from is Some) == (old(self).data.mail_from is Some),
            crate::session::extends(out_view(old(self).output@), out_view(final(self).output@)),
            ({
                let oldlen = old(self).data.rcpt_to@.len();
                let newlen = final(self).data.rcpt_to@.len();
                let out = out_view(final(self).output@);
                &&& (newlen == oldlen || newlen == oldlen + 1)
                &&& (forall|i: int|
                    0 <= i < oldlen ==> final(self).data.rcpt_to@[i] == old(self).data.rcpt_to@[i])
                &&& (newlen == oldlen + 1 ==> out.len() > 0 && out.last() == ActionView::Write(
                    "250 2.1.5 OK\r\n"@,
                ))
            }),
            final(self).data.rcpt_errors == old(self).data.rcpt_errors || final(self).data.rcpt_errors == old(self).data.rcpt_errors + 1,
            old(self).data.mail_from is None ==> r is Ok && final(self).data == old(self).data
                && out_view(final(self).output@) =~= out_view(old(self).output@).push(
                ActionView::Write("503 5.5.1 MAIL is required first.\r\n"@),
            ),
            old(self).data.mail_from is Some && old(self).data.rcpt_to@.len() >= old(self).params.rcpt_max ==> r is Ok && final(self).data == old(self).data && out_view(
                final(self).output@,
            ) =~= out_view(old(self).output@).push(
                ActionView::Write("451 4.5.3 Too many recipients.\r\n"@),
            ),
            old(self).data.mail_from is Some && old(self).data.rcpt_to@.len() < old(self).params.rcpt_max && dsn_refused(to.flags, to.orcpt is Some, old(self).params.rcpt_dsn)
                ==> r is Ok && final(self).data == old(self).data && out_view(
                final(self).output@,
            ) =~= out_view(old(self).output@).push(
                ActionView::Write("501 5.5.4 DSN extension has been disabled.\r\n"@),
            ),
            old(self).data.mail_from is Some && old(self).data.rcpt_to@.len() < old(self).params.rcpt_max && !dsn_refused(to.flags, to.orcpt is Some, old(self).params.rcpt_dsn)
                && has_rcpt(old(self).data.rcpt_to@, lower_bytes(to.address@)) ==> r is Ok
                && final(self).data == old(self).data && out_view(final(self).output@)
                =~= out_view(old(self).output@).push(ActionView::Write("250 2.1.5 OK\r\n"@)),
    {
        if self.data.mail_from.is_none() {
            self.emit_str("503 5.5.1 MAIL is required first.\r\n");
            return Ok(());
        }
        if self.data.rcpt_to.len() >= self.params.rcpt_max {
            self.emit_str("451 4.5.3 Too many recipients.\r\n");
            return Ok(());
        }
        if ((to.flags & (RCPT_NOTIFY_DELAY | RCPT_NOTIFY_NEVER | RCPT_NOTIFY_SUCCESS
            | RCPT_NOTIFY_FAILURE)) != 0 || to.orcpt.is_some()) && !self.params.rcpt_dsn {
            self.emit_str("501 5.5.4 DSN extension has been disabled.\r\n");
            return Ok(());
        }
        let ghost to_flags = to.flags;
        let ghost to_orcpt = to.orcpt;
        let rcpt = SessionAddress::new(to.address, to.flags, to.orcpt);
        if contains_rcpt(&self.data.rcpt_to, &rcpt.address_lcase) {
            self.emit_str("250 2.1.5 OK\r\n");
            return Ok(());
        }
        let ghost base = self.data.rcpt_to@;
        self.data.rcpt_to.push(rcpt);

        // Filtering stage: scripted filtering, milters, MTA hooks and
        // address rewriting, only when at least one of them is configured.
        let script = self.host.rcpt_script(&self.data, &self.instance);
        let stage_active = script.is_some() || self.host.has_rcpt_rewrite()
            || self.host.has_rcpt_filters();
        if stage_active {
            if let Some(name) = script {
                match self.host.run_script(&name, &self.data) {
                    ScriptResult::Accept { modifications } => {
                        let mut i: usize = 0;
                        while i < modifications.len()
                            invariant
                                self.data.envelope_wf(),
                                self.data.priority == old(self).data.priority,
                                self.data.delivery_by == old(self).data.delivery_by,
                                self.data.future_release == old(self).data.future_release,
                                self.data.session_id == old(self).data.session_id,
                                self.data.is_tls == old(self).data.is_tls,
                                self.data.remote_ip == old(self).data.remote_ip,
                                self.data.remote_port == old(self).data.remote_port,
                                self.data.local_ip == old(self).data.local_ip,
                                self.data.local_port == old(self).data.local_port,
                                (self.data.mail_from is Some) == (old(
                                    self,
                                ).data.mail_from is Some),
                                self.data.rcpt_to@.len() == base.len() + 1,
                                self.data.rcpt_to@.last().flags == to_flags,
                                self.data.rcpt_to@.last().dsn_info == to_orcpt,
                                forall|k: int|
                                    0 <= k < base.len() ==> self.data.rcpt_to@[k] == base[k],
                                self.data.message == old(self).data.message,
                                self.data.helo_domain == old(self).data.helo_domain,
                                self.data.authenticated_as == old(self).data.authenticated_as,
                                self.data.rcpt_errors == old(self).data.rcpt_errors,
                                self.state == old(self).state,
                                self.instance == old(self).instance,
                                self.params == old(self).params,
                                self.output == old(self).output,
                            decreases modifications@.len() - i,
                        {
                            match &modifications[i] {
                                ScriptModification::SetEnvelope { name, value } => {
                                    self.apply_envelope_modification(name, value);
                                },
                                ScriptModification::AddHeader { .. } => {},
                            }
                            i = i + 1;
                        }
                    },
                    ScriptResult::Reject(message) => {
                        self.data.rcpt_to.pop();
                        proof {
                            assert(self.data.rcpt_to@ =~= base);
                        }
                        self.emit(message);
                        return Ok(());
                    },
                    ScriptResult::Discard => {},
                    ScriptResult::Pass => {},
                }
            }
            if let Err(message) = self.host.run_milters(Stage::Rcpt, &self.data) {
                self.data.rcpt_to.pop();
                proof {
                    assert(self.data.rcpt_to@ =~= base);
                }
                self.emit(message);
                return Ok(());
            }
            if let Err(message) = self.host.run_mta_hooks(Stage::Rcpt, &self.data) {
                self.data.rcpt_to.pop();
                proof {
                    assert(self.data.rcpt_to@ =~= base);
                }
                self.emit(message);
                return Ok(());
            }
            if let Some(new_address) = self.host.eval_rcpt_rewrite(&self.data, &self.instance) {
                if contains_byte(&new_address, 64) {
                    let mut entry = self.data.rcpt_to.pop().unwrap();
                    entry.rewrite(new_address);
                    self.data.rcpt_to.push(entry);
                }
            }
        }
        // A script or a rewrite may have renamed the tentative recipient
        // into an existing one: collapse silently. (Without the filtering
        // stage the earlier membership test already rules this out.)
        let n = self.data.rcpt_to.len();
        if contains_rcpt_prefix(
            &self.data.rcpt_to,
            &self.data.rcpt_to[n - 1].address_lcase,
            n - 1,
        ) {
            self.data.rcpt_to.pop();
            proof {
                assert(self.data.rcpt_to@ =~= base);
            }
            self.emit_str("250 2.1.5 OK\r\n");
            return Ok(());
        }
        proof {
            let s = self.data.rcpt_to@;
            assert(s.len() == base.len() + 1);
            assert(forall|k: int|
                0 <= k < base.len() ==> s.subrange(0, base.len() as int)[k] == s[k]);
            assert forall|i: int, j: int|
                0 <= i < j < s.len() implies s[i].address_lcase@ != s[j].address_lcase@ by {
                if j < base.len() {
                    assert(s[i] == base[i] && s[j] == base[j]);
                    assert(base[i].address_lcase@ != base[j].address_lcase@);
                } else {
                    assert(s.subrange(0, base.len() as int)[i].address_lcase@
                        != s[j].address_lcase@);
                }
            }
            assert(no_dup_rcpts(s));
        }

        // Directory verification through the exact decision functions: the
        // lookup answers fix the reply and the tentative recipient's fate,
        // then the relay predicate where the recipient is not local or no
        // directory is configured, then the rate gate.
        let n = self.data.rcpt_to.len();
        let ghost before_lookup = self.data.rcpt_to@;
        proof {
            assert(before_lookup.drop_last() =~= base);
        }
        let directory = self.host.rcpt_directory(&self.data, &self.instance);
        let domain_local = match &directory {
            Some(name) => Some(self.host.is_local_domain(name, &self.data.rcpt_to[n - 1].domain)),
            None => None,
        };
        let address_known = match (&directory, &domain_local) {
            (Some(name), Some(Ok(true))) => Some(
                self.host.is_local_address(name, &self.data.rcpt_to[n - 1].address_lcase),
            ),
            _ => None,
        };
        match self.settle_rcpt_lookup(domain_local, address_known) {
            Err(()) => {
                proof {
                    assert(self.data.rcpt_to@ == before_lookup.drop_last());
                    assert(self.data.rcpt_to@ =~= base);
                }
                return Err(());
            },
            Ok(RcptCheck::Rejected) => {
                proof {
                    if domain_local matches Some(Ok(true)) {
                        assert(address_known is Some);
                        assert(address_known matches Some(Ok(false)) || address_known
                            matches Some(Err(_)));
                    } else if domain_local is None {
                        assert(false);
                    } else if domain_local matches Some(Ok(false)) {
                        assert(false);
                    }
                    assert(self.data.rcpt_to@ == before_lookup.drop_last());
                    assert(self.data.rcpt_to@ =~= base);
                }
                return Ok(());
            },
            Ok(RcptCheck::Accepted) => {},
            Ok(RcptCheck::RelayNeeded) => {
                let relay_allowed = self.host.eval_relay(&self.data, &self.instance);
                let settled = self.settle_relay(relay_allowed);
                if !relay_allowed {
                    proof {
                        assert(self.data.rcpt_to@ == before_lookup.drop_last());
                        assert(self.data.rcpt_to@ =~= base);
                    }
                }
                if settled.is_err() {
                    return Err(());
                }
                if !relay_allowed {
                    return Ok(());
                }
            },
        }
        let rate_allowed = self.host.is_allowed(&self.data, &self.instance);
        self.settle_rate(rate_allowed);
        if !rate_allowed {
            proof {
                assert(self.data.rcpt_to@ == before_lookup.drop_last());
                assert(self.data.rcpt_to@ =~= base);
            }
            return Ok(());
        }
        self.emit_str("250 2.1.5 OK\r\n");
        Ok(())
    }

    /// Settles directory verification from the lookup answers alone.
    /// `domain_local` is the domain lookup where a directory resolved;
    /// `address_known` is the address lookup where the domain proved local.
    /// For every combination of answers this fixes the reply, the tentative
    /// recipient's fate and what follows: a transient failure answers
    /// `451 4.4.3` plainly, a definitively unknown mailbox takes the tarpit
    /// path with `550 5.1.2 Mailbox does not exist.`, a known local address
    /// is accepted, and a non-local domain or missing directory defers to
    /// the relay predicate.
    fn settle_rcpt_lookup(
        &mut self,
        domain_local: Option<Result<bool, ()>>,
        address_known: Option<Result<bool, ()>>,
    ) -> (r: Result<RcptCheck, ()>)
        requires
            old(self).data.rcpt_to@.len() > 0,
            address_known is Some <==> domain_local == Some(Result::<bool, ()>::Ok(true)),
        ensures
            final(self).state == old(self).state,
            final(self).instance == old(self).instance,
            final(self).params == old(self).params,
            final(self).data == (SessionData {
                rcpt_to: final(self).data.rcpt_to,
                rcpt_errors: final(self).data.rcpt_errors,
                ..old(self).data
            }),
            crate::session::extends(out_view(old(self).output@), out_view(final(self).output@)),
            r == Ok::<RcptCheck, ()>(RcptCheck::Accepted) || r == Ok::<RcptCheck, ()>(
                RcptCheck::RelayNeeded,
            ) ==> final(self).data == old(self).data && final(self).output == old(self).output,
            r == Ok::<RcptCheck, ()>(RcptCheck::Accepted) <==> address_known == Some(
                Result::<bool, ()>::Ok(true),
            ),
            r == Ok::<RcptCheck, ()>(RcptCheck::RelayNeeded) <==> (domain_local is None
                || domain_local == Some(Result::<bool, ()>::Ok(false))),
            (domain_local matches Some(Err(_)) || address_known matches Some(Err(_))) ==> r
                == Ok::<RcptCheck, ()>(RcptCheck::Rejected) && final(self).data.rcpt_to@ == old(
                self,
            ).data.rcpt_to@.drop_last() && final(self).data.rcpt_errors == old(
                self,
            ).data.rcpt_errors && out_view(final(self).output@) =~= out_view(
                old(self).output@,
            ).push(ActionView::Write("451 4.4.3 Unable to verify address at this time.\r\n"@)),
            address_known == Some(Result::<bool, ()>::Ok(false)) ==> ({
                &&& final(self).data.rcpt_to@ == old(self).data.rcpt_to@.drop_last()
                &&& final(self).data.rcpt_errors == if old(self).data.rcpt_errors < usize::MAX {
                    (old(self).data.rcpt_errors + 1) as usize
                } else {
                    usize::MAX
                }
                &&& (r is Err <==> final(self).data.rcpt_errors >= old(
                    self,
                ).params.rcpt_errors_max)
                &&& (r is Ok ==> r == Ok::<RcptCheck, ()>(RcptCheck::Rejected) && out_view(
                    final(self).output@,
                ) =~= out_view(old(self).output@) + seq![
                    ActionView::Delay(old(self).params.rcpt_errors_wait),
                    ActionView::Write("550 5.1.2 Mailbox does not exist.\r\n"@),
                ])
                &&& (r is Err ==> out_view(final(self).output@) =~= out_view(old(self).output@)
                    + seq![
                    ActionView::Delay(old(self).params.rcpt_errors_wait),
                    ActionView::Write("550 5.1.2 Mailbox does not exist.\r\n"@),
                    ActionView::Write("421 4.3.0 Too many errors, disconnecting.\r\n"@),
                ])
            }),
            r is Err ==> address_known == Some(Result::<bool, ()>::Ok(false)),
    {
        match domain_local {
            Some(Ok(true)) => {
                match address_known {
                    Some(Ok(true)) => Ok(RcptCheck::Accepted),
                    Some(Ok(false)) => {
                        self.data.rcpt_to.pop();
                        match self.rcpt_error(
                            String::from_str("550 5.1.2 Mailbox does not exist.\r\n"),
                        ) {
                            Ok(()) => Ok(RcptCheck::Rejected),
                            Err(()) => Err(()),
                        }
                    },
                    Some(Err(())) => {
                        self.data.rcpt_to.pop();
                        self.emit_str("451 4.4.3 Unable to verify address at this time.\r\n");
                        Ok(RcptCheck::Rejected)
                    },
                    None => {
                        proof {
                            assert(false);
                        }
                        Ok(RcptCheck::Accepted)
                    },
                }
            },
            Some(Ok(false)) => Ok(RcptCheck::RelayNeeded),
            Some(Err(())) => {
                self.data.rcpt_to.pop();
                self.emit_str("451 4.4.3 Unable to verify address at this time.\r\n");
                Ok(RcptCheck::Rejected)
            },
            None => Ok(RcptCheck::RelayNeeded),
        }
    }

    /// Settles the relay predicate for a recipient the directory did not
    /// claim: permission keeps the tentative recipient pending; refusal
    /// removes it behind the tarpit reply `550 5.1.2 Relay not allowed.`.
    fn settle_relay(&mut self, relay_allowed: bool) -> (r: Result<(), ()>)
        requires
            old(self).data.rcpt_to@.len() > 0,
        ensures
            final(self).state == old(self).state,
            final(self).instance == old(self).instance,
            final(self).params == old(self).params,
            final(self).data == (SessionData {
                rcpt_to: final(self).data.rcpt_to,
                rcpt_errors: final(self).data.rcpt_errors,
                ..old(self).data
            }),
            crate::session::extends(out_view(old(self).output@), out_view(final(self).output@)),
            relay_allowed ==> final(self).data == old(self).data && final(self).output == old(
                self,
            ).output && r is Ok,
            !relay_allowed ==> ({
                &&& final(self).data.rcpt_to@ == old(self).data.rcpt_to@.drop_last()
                &&& final(self).data.rcpt_errors == if old(self).data.rcpt_errors < usize::MAX {
                    (old(self).data.rcpt_errors + 1) as usize
                } else {
                    usize::MAX
                }
                &&& (r is Err <==> final(self).data.rcpt_errors >= old(
                    self,
                ).params.rcpt_errors_max)
                &&& (r is Ok ==> out_view(final(self).output@) =~= out_view(old(self).output@)
                    + seq![
                    ActionView::Delay(old(self).params.rcpt_errors_wait),
                    ActionView::Write("550 5.1.2 Relay not allowed.\r\n"@),
                ])
                &&& (r is Err ==> out_view(final(self).output@) =~= out_view(old(self).output@)
                    + seq![
                    ActionView::Delay(old(self).params.rcpt_errors_wait),
                    ActionView::Write("550 5.1.2 Relay not allowed.\r\n"@),
                    ActionView::Write("421 4.3.0 Too many errors, disconnecting.\r\n"@),
                ])
            }),
    {
        if relay_allowed {
            Ok(())
        } else {
            self.data.rcpt_to.pop();
            self.rcpt_error(String::from_str("550 5.1.2 Relay not allowed.\r\n"))
        }
    }

    /// Settles the rate gate: refusal removes the tentative recipient with
    /// the plain retry reply — no tarpit, and nothing counted against the
    /// error budget.
    fn settle_rate(&mut self, rate_allowed: bool)
        requires
            old(self).data.rcpt_to@.len() > 0,
        ensures
            final(self).state == old(self).state,
            final(self).instance == old(self).instance,
            final(self).params == old(self).params,
            final(self).data == (SessionData {
                rcpt_to: final(self).data.rcpt_to,
                ..old(self).data
            }),
            crate::session::extends(out_view(old(self).output@), out_view(final(self).output@)),
            rate_allowed ==> final(self).data == old(self).data && final(self).output == old(
                self,
            ).output,
            !rate_allowed ==> final(self).data.rcpt_to@ == old(self).data.rcpt_to@.drop_last()
                && out_view(final(self).output@) =~= out_view(old(self).output@).push(
                ActionView::Write("451 4.4.5 Rate limit exceeded, try again later.\r\n"@),
            ),
    {
        if !rate_allowed {
            self.data.rcpt_to.pop();
            self.emit_str("451 4.4.5 Rate limit exceeded, try again later.\r\n");
        }
    }
}

/// How directory verification left one tentative recipient.
enum RcptCheck {
    /// The directory claims the address: proceed to the rate gate.
    Accepted,
    /// No directory claim: the relay predicate decides.
    RelayNeeded,
    /// Rejected; the reply is already recorded.
    Rejected,
}


} // verus!
