//! The variable resolver: exposes session state under stable identifiers to
//! the policy expression evaluator.

use vstd::prelude::*;

use crate::session::{Protocol, Session, SessionData, SessionInstance};
use crate::text::signed_dec_bytes;

verus! {

pub const V_RECIPIENT: u32 = 0;

pub const V_RECIPIENT_DOMAIN: u32 = 1;

pub const V_RECIPIENTS: u32 = 2;

pub const V_SENDER: u32 = 3;

pub const V_SENDER_DOMAIN: u32 = 4;

pub const V_HELO_DOMAIN: u32 = 5;

pub const V_AUTHENTICATED_AS: u32 = 6;

pub const V_LISTENER: u32 = 7;

pub const V_REMOTE_IP: u32 = 8;

pub const V_REMOTE_PORT: u32 = 9;

pub const V_LOCAL_IP: u32 = 10;

pub const V_LOCAL_PORT: u32 = 11;

pub const V_TLS: u32 = 12;

pub const V_PRIORITY: u32 = 13;

pub const V_PROTOCOL: u32 = 14;

/// A value handed to the expression evaluator.
pub enum Variable {
    Text(Vec<u8>),
    Int(i64),
    Truth(bool),
    List(Vec<Vec<u8>>),
}

/// The text of a variable that holds the last recipient's attribute, or
/// empty without recipients.
pub open spec fn last_rcpt_lcase(data: SessionData) -> Seq<u8> {
    if data.rcpt_to@.len() > 0 {
        data.rcpt_to@.last().address_lcase@
    } else {
        Seq::empty()
    }
}

pub open spec fn last_rcpt_domain(data: SessionData) -> Seq<u8> {
    if data.rcpt_to@.len() > 0 {
        data.rcpt_to@.last().domain@
    } else {
        Seq::empty()
    }
}

pub open spec fn sender_lcase(data: SessionData) -> Seq<u8> {
    match data.mail_from {
        Some(a) => a.address_lcase@,
        None => Seq::empty(),
    }
}

pub open spec fn sender_domain(data: SessionData) -> Seq<u8> {
    match data.mail_from {
        Some(a) => a.domain@,
        None => Seq::empty(),
    }
}

pub open spec fn protocol_name(p: Protocol) -> Seq<u8> {
    if p == Protocol::Smtp {
        seq![115u8, 109u8, 116u8, 112u8]
    } else {
        seq![108u8, 109u8, 116u8, 112u8]
    }
}

/// Resolves one variable identifier against the current session state; an
/// unknown identifier resolves to the empty text.
pub fn resolve_session_variable(
    data: &SessionData,
    instance: &SessionInstance,
    variable: u32,
) -> (r: Variable)
    ensures
        variable == V_RECIPIENT ==> (r matches Variable::Text(v) && v@ == last_rcpt_lcase(*data)),
        variable == V_RECIPIENT_DOMAIN ==> (r matches Variable::Text(v) && v@ == last_rcpt_domain(*data)),
        variable == V_RECIPIENTS ==> (r matches Variable::List(l) && l@.len()
            == data.rcpt_to@.len() && (forall|i: int|
            0 <= i < l@.len() ==> l@[i]@ == data.rcpt_to@[i].address_lcase@)),
        variable == V_SENDER ==> (r matches Variable::Text(v) && v@ == sender_lcase(*data)),
        variable == V_SENDER_DOMAIN ==> (r matches Variable::Text(v) && v@ == sender_domain(*data)),
        variable == V_HELO_DOMAIN ==> (r matches Variable::Text(v) && v@ == data.helo_domain@),
        variable == V_AUTHENTICATED_AS ==> (r matches Variable::Text(v) && v@
            == data.authenticated_as@),
        variable == V_LISTENER ==> (r matches Variable::Text(v) && v@ == instance.id@),
        variable == V_REMOTE_IP ==> (r matches Variable::Text(v) && v@ == data.remote_ip@),
        variable == V_REMOTE_PORT ==> r == Variable::Int(data.remote_port as i64),
        variable == V_LOCAL_IP ==> (r matches Variable::Text(v) && v@ == data.local_ip@),
        variable == V_LOCAL_PORT ==> r == Variable::Int(data.local_port as i64),
        variable == V_TLS ==> r == Variable::Truth(data.is_tls),
        variable == V_PRIORITY ==> (r matches Variable::Text(v) && v@ == signed_dec_bytes(
            data.priority as int,
        )),
        variable == V_PROTOCOL ==> (r matches Variable::Text(v) && v@ == protocol_name(
            instance.protocol,
        )),
        variable > V_PROTOCOL ==> (r matches Variable::Text(v) && v@ == Seq::<u8>::empty()),
{
    if variable == V_RECIPIENT {
        let n = data.rcpt_to.len();
        if n > 0 {
            Variable::Text(data.rcpt_to[n - 1].address_lcase.clone())
        } else {
            Variable::Text(Vec::new())
        }
    } else if variable == V_RECIPIENT_DOMAIN {
        let n = data.rcpt_to.len();
        if n > 0 {
            Variable::Text(data.rcpt_to[n - 1].domain.clone())
        } else {
            Variable::Text(Vec::new())
        }
    } else if variable == V_RECIPIENTS {
        let mut l: Vec<Vec<u8>> = Vec::new();
        let mut i: usize = 0;
        while i < data.rcpt_to.len()
            invariant
                i <= data.rcpt_to@.len(),
                l@.len() == i,
                forall|j: int| 0 <= j < i ==> l@[j]@ == data.rcpt_to@[j].address_lcase@,
            decreases data.rcpt_to@.len() - i,
        {
            l.push(data.rcpt_to[i].address_lcase.clone());
            i = i + 1;
        }
        Variable::List(l)
    } else if variable == V_SENDER {
        match &data.mail_from {
            Some(a) => Variable::Text(a.address_lcase.clone()),
            None => Variable::Text(Vec::new()),
        }
    } else if variable == V_SENDER_DOMAIN {
        match &data.mail_from {
            Some(a) => Variable::Text(a.domain.clone()),
            None => Variable::Text(Vec::new()),
        }
    } else if variable == V_HELO_DOMAIN {
        Variable::Text(data.helo_domain.clone())
    } else if variable == V_AUTHENTICATED_AS {
        Variable::Text(data.authenticated_as.clone())
    } else if variable == V_LISTENER {
        Variable::Text(instance.id.clone())
    } else if variable == V_REMOTE_IP {
        Variable::Text(data.remote_ip.clone())
    } else if variable == V_REMOTE_PORT {
        Variable::Int(data.remote_port as i64)
    } else if variable == V_LOCAL_IP {
        Variable::Text(data.local_ip.clone())
    } else if variable == V_LOCAL_PORT {
        Variable::Int(data.local_port as i64)
    } else if variable == V_TLS {
        Variable::Truth(data.is_tls)
    } else if variable == V_PRIORITY {
        let mut v: Vec<u8> = Vec::new();
        crate::text::push_signed_dec(data.priority, &mut v);
        Variable::Text(v)
    } else if variable == V_PROTOCOL {
        let mut v: Vec<u8> = Vec::new();
        if instance.protocol == Protocol::Smtp {
            v.push(115);
            v.push(109);
            v.push(116);
            v.push(112);
        } else {
            v.push(108);
            v.push(109);
            v.push(116);
            v.push(112);
        }
        proof {
            assert(v@ =~= protocol_name(instance.protocol));
        }
        Variable::Text(v)
    } else {
        Variable::Text(Vec::new())
    }
}

impl<H> Session<H> {
    /// Resolves a variable against this session's state.
    pub fn resolve_variable(&self, variable: u32) -> (r: Variable)
        ensures
            variable == V_RECIPIENT ==> (r matches Variable::Text(v) && v@ == last_rcpt_lcase(
                self.data,
            )),
            variable == V_RECIPIENT_DOMAIN ==> (r matches Variable::Text(v) && v@
                == last_rcpt_domain(self.data)),
            variable == V_RECIPIENTS ==> (r matches Variable::List(l) && l@.len()
                == self.data.rcpt_to@.len() && (forall|i: int|
                0 <= i < l@.len() ==> l@[i]@ == self.data.rcpt_to@[i].address_lcase@)),
            variable == V_SENDER ==> (r matches Variable::Text(v) && v@ == sender_lcase(self.data)),
            variable == V_SENDER_DOMAIN ==> (r matches Variable::Text(v) && v@ == sender_domain(
                self.data,
            )),
            variable == V_HELO_DOMAIN ==> (r matches Variable::Text(v) && v@
                == self.data.helo_domain@),
            variable == V_AUTHENTICATED_AS ==> (r matches Variable::Text(v) && v@
                == self.data.authenticated_as@),
            variable == V_LISTENER ==> (r matches Variable::Text(v) && v@ == self.instance.id@),
            variable == V_REMOTE_IP ==> (r matches Variable::Text(v) && v@
                == self.data.remote_ip@),
            variable == V_REMOTE_PORT ==> r == Variable::Int(self.data.remote_port as i64),
            variable == V_LOCAL_IP ==> (r matches Variable::Text(v) && v@ == self.data.local_ip@),
            variable == V_LOCAL_PORT ==> r == Variable::Int(self.data.local_port as i64),
            variable == V_TLS ==> r == Variable::Truth(self.data.is_tls),
            variable == V_PRIORITY ==> (r matches Variable::Text(v) && v@ == signed_dec_bytes(
                self.data.priority as int,
            )),
            variable == V_PROTOCOL ==> (r matches Variable::Text(v) && v@ == protocol_name(
                self.instance.protocol,
            )),
            variable > V_PROTOCOL ==> (r matches Variable::Text(v) && v@ == Seq::<u8>::empty()),
    {
        resolve_session_variable(&self.data, &self.instance, variable)
    }
}

} // verus!
