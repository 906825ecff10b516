//! What a session is made of.

use crate::felt::Felt;
use vstd::prelude::*;

verus! {

/// One permission: a method that the session may call on a target.
#[derive(Debug, Clone, PartialEq, Eq)]
pub struct Policy {
    /// The target contract address.
    pub target: Felt,
    /// The method name.
    pub method: String,
}

/// A policy as a number and a text.
pub struct PolicyText {
    pub target: nat,
    pub method: Seq<char>,
}

impl View for Policy {
    type V = PolicyText;

    open spec fn view(&self) -> PolicyText {
        PolicyText { target: self.target@, method: self.method@ }
    }
}

/// The policies of a list, each as a number and a text.
pub open spec fn policy_texts(policies: Seq<Policy>) -> Seq<PolicyText> {
    Seq::new(policies.len(), |i: int| policies[i]@)
}

/// The signing key of a session and the proofs that authorise it.
#[derive(Debug, Clone, PartialEq, Eq)]
pub struct SessionCredentials {
    /// The signing key of the session.
    pub private_key: String,
    /// The authorisation proofs, in order.
    pub authorization: Vec<String>,
}

/// An approved session: when it expires, what it may do, and its
/// credentials. The library never makes or changes one: it hands on the
/// value that it was given, and its contracts speak of that value itself.
#[derive(Debug, Clone, PartialEq, Eq)]
pub struct Session {
    /// The expiration date of the session.
    pub expires_at: String,
    /// The policies that the session is allowed to execute.
    pub policies: Vec<Policy>,
    /// The credentials of the session.
    pub credentials: SessionCredentials,
}

} // verus!
