//! External collaborators of the session: directory, Sieve runtime, milter
//! and MTA-hook transports, rate limiter, queue and SASL credential
//! verification. The session reaches them only through [`SessionHost`]; a
//! data-driven implementation, [`StaticHost`], answers from fixed tables and
//! serves as the reference host for tests.

use vstd::prelude::*;

use crate::request::{AUTH_LOGIN, AUTH_OAUTHBEARER, AUTH_PLAIN, AUTH_XOAUTH2};
use crate::session::{SessionData, SessionInstance, SessionParams};
use crate::text::bytes_eq;

verus! {

/// Protocol stage a filter is bound to.
#[derive(Clone, Copy, PartialEq, Eq, Structural)]
pub enum Stage {
    Connect,
    Ehlo,
    Auth,
    Mail,
    Rcpt,
    Data,
}

/// What a Sieve script run decided.
#[derive(Clone)]
pub enum ScriptResult {
    Accept { modifications: Vec<ScriptModification> },
    Reject(String),
    Discard,
    Pass,
}

/// A change a script may request; only envelope changes are applied here.
#[derive(Clone)]
pub enum ScriptModification {
    SetEnvelope { name: Vec<u8>, value: Vec<u8> },
    AddHeader { name: Vec<u8>, value: Vec<u8> },
}

/// State of one SASL exchange: the mechanism that was selected.
pub struct SaslToken {
    pub mechanism: u64,
}

/// The SASL mechanisms this server implements.
pub open spec fn supported_mechanism(m: u64) -> bool {
    m == AUTH_PLAIN || m == AUTH_LOGIN || m == AUTH_OAUTHBEARER || m == AUTH_XOAUTH2
}

impl SaslToken {
    /// A token exists exactly for the mechanisms this server implements.
    pub fn from_mechanism(mechanism: u64) -> (r: Option<SaslToken>)
        ensures
            match r {
                Some(t) => t.mechanism == mechanism && supported_mechanism(mechanism),
                None => !supported_mechanism(mechanism),
            },
    {
        if mechanism == AUTH_PLAIN || mechanism == AUTH_LOGIN || mechanism == AUTH_OAUTHBEARER
            || mechanism == AUTH_XOAUTH2 {
            Some(SaslToken { mechanism })
        } else {
            None
        }
    }
}

/// What the SASL handler decided for one client response.
pub struct SaslOutcome {
    /// Status or challenge lines to write, in order.
    pub replies: Vec<String>,
    /// True when the exchange continues and another line is expected.
    pub continue_exchange: bool,
    /// True when the session must be dropped.
    pub fatal: bool,
    /// The identity that was just authenticated, if any.
    pub authenticated_as: Option<Vec<u8>>,
}

/// The collaborators the session consults. Every method answers from outside
/// the session's own state; the session is verified to behave correctly for
/// every possible answer.
pub trait SessionHost {
    /// Resolves the RCPT-stage Sieve script for the current state, by name.
    fn rcpt_script(&mut self, data: &SessionData, instance: &SessionInstance) -> Option<String>;

    /// True when an address rewrite rule is configured for the RCPT stage.
    fn has_rcpt_rewrite(&self) -> bool;

    /// True when a milter or MTA hook is bound to the RCPT stage.
    fn has_rcpt_filters(&self) -> bool;

    /// Runs the named Sieve script with the RCPT parameter bundle.
    fn run_script(&mut self, name: &String, data: &SessionData) -> ScriptResult;

    /// Consults the milters bound to `stage`; an error reply is written
    /// verbatim.
    fn run_milters(&mut self, stage: Stage, data: &SessionData) -> Result<(), String>;

    /// Consults the MTA hooks bound to `stage`; same contract as milters.
    fn run_mta_hooks(&mut self, stage: Stage, data: &SessionData) -> Result<(), String>;

    /// Evaluates the RCPT rewrite expression, if one is configured.
    fn eval_rcpt_rewrite(&mut self, data: &SessionData, instance: &SessionInstance) -> Option<
        Vec<u8>,
    >;

    /// Resolves the directory that verifies recipient addresses, by name.
    fn rcpt_directory(&mut self, data: &SessionData, instance: &SessionInstance) -> Option<String>;

    /// Asks the directory whether `domain` is local; `Err` is transient.
    fn is_local_domain(&mut self, directory: &String, domain: &Vec<u8>) -> Result<bool, ()>;

    /// Asks the directory whether the lower-cased `address` exists; `Err` is
    /// transient.
    fn is_local_address(&mut self, directory: &String, address: &Vec<u8>) -> Result<bool, ()>;

    /// Evaluates the relay predicate; an unresolved expression denies.
    fn eval_relay(&mut self, data: &SessionData, instance: &SessionInstance) -> bool;

    /// Rate-limit gate for an accepted recipient.
    fn is_allowed(&mut self, data: &SessionData, instance: &SessionInstance) -> bool;

    /// Hands the completed envelope and message to the queue and returns the
    /// status line to write; an empty reply means "disconnect now".
    fn queue_message(&mut self, data: &SessionData, instance: &SessionInstance, params: &SessionParams) -> (r: String)
        requires
            data.message@.len() <= params.max_message_size,
    ;

    /// The SASL mechanisms the configuration offers, as a bit set.
    fn auth_mechanisms(&mut self, data: &SessionData, instance: &SessionInstance) -> u64;

    /// Verifies one SASL response against the authentication directory.
    fn handle_sasl(&mut self, token: &mut SaslToken, response: &Vec<u8>, data: &SessionData) -> SaslOutcome;
}

/// Directory model answering from fixed tables.
pub struct StaticDirectory {
    pub name: String,
    pub local_domains: Vec<Vec<u8>>,
    pub local_addresses: Vec<Vec<u8>>,
    /// When set, domain lookups fail transiently.
    pub domain_lookup_fails: bool,
    /// When set, address lookups fail transiently.
    pub address_lookup_fails: bool,
}

/// A host whose every answer is fixed up front.
pub struct StaticHost {
    pub script_name: Option<String>,
    pub script_result: ScriptResult,
    pub rewrite_configured: bool,
    pub rewrite_to: Option<Vec<u8>>,
    pub filters_active: bool,
    pub milter_reject: Option<String>,
    pub mta_hook_reject: Option<String>,
    pub directory: Option<StaticDirectory>,
    pub relay: bool,
    pub allowed: bool,
    pub queue_reply: String,
    pub mechanisms: u64,
    pub sasl_replies: Vec<String>,
    /// When set, the SASL handler asks for another continuation line.
    pub sasl_continue: bool,
    pub sasl_authenticated_as: Option<Vec<u8>>,
}

impl StaticHost {
    /// A host that accepts everything: no filters, open relay, no rate
    /// limit, a fixed queue reply.
    pub fn open_relay(queue_reply: String) -> (r: StaticHost) {
        StaticHost {
            script_name: None,
            script_result: ScriptResult::Pass,
            rewrite_configured: false,
            rewrite_to: None,
            filters_active: false,
            milter_reject: None,
            mta_hook_reject: None,
            directory: None,
            relay: true,
            allowed: true,
            queue_reply,
            mechanisms: 0,
            sasl_replies: Vec::new(),
            sasl_continue: false,
            sasl_authenticated_as: None,
        }
    }
}

fn find_bytes(table: &Vec<Vec<u8>>, needle: &Vec<u8>) -> (r: bool)
    ensures
        r == exists|i: int| 0 <= i < table@.len() && table@[i]@ =~= needle@,
{
    let mut i: usize = 0;
    while i < table.len()
        invariant
            i <= table@.len(),
            forall|j: int| 0 <= j < i ==> !(table@[j]@ =~= needle@),
        decreases table@.len() - i,
    {
        if bytes_eq(&table[i], needle.as_slice()) {
            return true;
        }
        i = i + 1;
    }
    false
}

impl SessionHost for StaticHost {
    fn rcpt_script(&mut self, data: &SessionData, instance: &SessionInstance) -> Option<String> {
        match &self.script_name {
            Some(name) => Some(name.clone()),
            None => None,
        }
    }

    fn has_rcpt_rewrite(&self) -> bool {
        self.rewrite_configured
    }

    fn has_rcpt_filters(&self) -> bool {
        self.filters_active
    }

    fn run_script(&mut self, name: &String, data: &SessionData) -> ScriptResult {
        self.script_result.clone()
    }

    fn run_milters(&mut self, stage: Stage, data: &SessionData) -> Result<(), String> {
        match &self.milter_reject {
            Some(message) => Err(message.clone()),
            None => Ok(()),
        }
    }

    fn run_mta_hooks(&mut self, stage: Stage, data: &SessionData) -> Result<(), String> {
        match &self.mta_hook_reject {
            Some(message) => Err(message.clone()),
            None => Ok(()),
        }
    }

    fn eval_rcpt_rewrite(&mut self, data: &SessionData, instance: &SessionInstance) -> Option<
        Vec<u8>,
    > {
        match &self.rewrite_to {
            Some(v) => Some(v.clone()),
            None => None,
        }
    }

    fn rcpt_directory(&mut self, data: &SessionData, instance: &SessionInstance) -> Option<
        String,
    > {
        match &self.directory {
            Some(d) => Some(d.name.clone()),
            None => None,
        }
    }

    fn is_local_domain(&mut self, directory: &String, domain: &Vec<u8>) -> Result<bool, ()> {
        match &self.directory {
            Some(d) => {
                if d.domain_lookup_fails {
                    Err(())
                } else {
                    Ok(find_bytes(&d.local_domains, domain))
                }
            },
            None => Err(()),
        }
    }

    fn is_local_address(&mut self, directory: &String, address: &Vec<u8>) -> Result<bool, ()> {
        match &self.directory {
            Some(d) => {
                if d.address_lookup_fails {
                    Err(())
                } else {
                    Ok(find_bytes(&d.local_addresses, address))
                }
            },
            None => Err(()),
        }
    }

    fn eval_relay(&mut self, data: &SessionData, instance: &SessionInstance) -> bool {
        self.relay
    }

    fn is_allowed(&mut self, data: &SessionData, instance: &SessionInstance) -> bool {
        self.allowed
    }

    fn queue_message(&mut self, data: &SessionData, instance: &SessionInstance, params: &SessionParams) -> String {
        self.queue_reply.clone()
    }

    fn auth_mechanisms(&mut self, data: &SessionData, instance: &SessionInstance) -> u64 {
        self.mechanisms
    }

    fn handle_sasl(&mut self, token: &mut SaslToken, response: &Vec<u8>, data: &SessionData) -> SaslOutcome {
        let mut replies: Vec<String> = Vec::new();
        let mut i: usize = 0;
        while i < self.sasl_replies.len()
            invariant
                i <= self.sasl_replies@.len(),
            decreases self.sasl_replies@.len() - i,
        {
            replies.push(self.sasl_replies[i].clone());
            i = i + 1;
        }
        let authenticated_as = match &self.sasl_authenticated_as {
            Some(v) => Some(v.clone()),
            None => None,
        };
        SaslOutcome {
            replies,
            continue_exchange: self.sasl_continue,
            fatal: false,
            authenticated_as,
        }
    }
}

} // verus!
