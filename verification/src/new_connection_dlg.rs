//! The connect dialog's decision logic: turning the collected text fields
//! into a connect request. The dialog widgets themselves live outside the
//! library; the core performs no validation beyond this enum parsing.

use vstd::prelude::*;

use crate::model::ModelMessage;
use crate::types::{MessageSecurityMode, SecurityPolicy};

verus! {

/// The security policy a policy-combo text denotes, if any.
pub open spec fn spec_parse_security_policy(s: Seq<char>) -> Option<SecurityPolicy> {
    if s == "None"@ {
        Some(SecurityPolicy::NoSecurity)
    } else if s == "Basic128Rsa15"@ {
        Some(SecurityPolicy::Basic128Rsa15)
    } else if s == "Basic256"@ {
        Some(SecurityPolicy::Basic256)
    } else if s == "Basic256Sha256"@ {
        Some(SecurityPolicy::Basic256Sha256)
    } else {
        None
    }
}

/// The message security mode a mode-combo text denotes, if any.
pub open spec fn spec_parse_message_security_mode(s: Seq<char>) -> Option<MessageSecurityMode> {
    if s == "None"@ {
        Some(MessageSecurityMode::NoSecurity)
    } else if s == "Sign"@ {
        Some(MessageSecurityMode::Sign)
    } else if s == "SignAndEncrypt"@ {
        Some(MessageSecurityMode::SignAndEncrypt)
    } else {
        None
    }
}

/// Parse a security-policy name; unknown names are rejected.
pub fn parse_security_policy(s: &str) -> (r: Option<SecurityPolicy>)
    ensures
        r == spec_parse_security_policy(s@),
{
    let owned = s.to_owned();
    if owned == String::from_str("None") {
        Some(SecurityPolicy::NoSecurity)
    } else if owned == String::from_str("Basic128Rsa15") {
        Some(SecurityPolicy::Basic128Rsa15)
    } else if owned == String::from_str("Basic256") {
        Some(SecurityPolicy::Basic256)
    } else if owned == String::from_str("Basic256Sha256") {
        Some(SecurityPolicy::Basic256Sha256)
    } else {
        None
    }
}

/// Parse a message-security-mode name; unknown names are rejected.
pub fn parse_message_security_mode(s: &str) -> (r: Option<MessageSecurityMode>)
    ensures
        r == spec_parse_message_security_mode(s@),
{
    let owned = s.to_owned();
    if owned == String::from_str("None") {
        Some(MessageSecurityMode::NoSecurity)
    } else if owned == String::from_str("Sign") {
        Some(MessageSecurityMode::Sign)
    } else if owned == String::from_str("SignAndEncrypt") {
        Some(MessageSecurityMode::SignAndEncrypt)
    } else {
        None
    }
}

/// The connect button was pressed: build the connect request from the
/// dialog's fields. Exactly when both security names parse, the request
/// carries the endpoint and the parsed parameters; otherwise there is no
/// request.
pub fn connect_request(endpoint_url: &str, security_policy: &str, message_security_mode: &str) -> (r:
    Option<ModelMessage>)
    ensures
        match (
            spec_parse_security_policy(security_policy@),
            spec_parse_message_security_mode(message_security_mode@),
        ) {
            (Some(p), Some(m)) => r matches Some(msg) && msg matches ModelMessage::Connect(
                u,
                p2,
                m2,
            ) && u@ == endpoint_url@ && p2 == p && m2 == m,
            _ => r is None,
        },
{
    match (parse_security_policy(security_policy), parse_message_security_mode(
        message_security_mode,
    )) {
        (Some(p), Some(m)) => Some(ModelMessage::Connect(endpoint_url.to_owned(), p, m)),
        _ => None,
    }
}

} // verus!
