//! The authorization decisions of the D-Bus methods. PolicyKit is asked with the action
//! `com.redhat.tuned.<method>`; where it cannot answer, only root is let through.
use vstd::prelude::*;

use crate::config::NAMESPACE;
use crate::text::concat3;

verus! {

/// The PolicyKit action id of the action `action` of the service `namespace`.
pub open spec fn action_id_spec(namespace: Seq<char>, action: Seq<char>) -> Seq<char> {
    namespace + "."@ + action
}

/// The PolicyKit action id of the TuneD D-Bus method `action`.
pub fn action_id(action: &str) -> (r: String)
    ensures
        r@ == action_id_spec("com.redhat.tuned"@, action@),
{
    concat3(NAMESPACE, ".", action)
}

/// What to do first on a call from `sender` (`None` where the message names none).
#[derive(Debug, PartialEq, Eq)]
pub enum AuthStep {
    /// A call without a sender comes from inside the bus connection: allowed.
    Allow,
    /// Ask PolicyKit whether `sender` may perform this action.
    Ask { sender: String, action_id: String },
}

/// The first step of authorizing `sender` for the action `action` of the service
/// `namespace`.
pub fn begin_authorize_in(namespace: &str, sender: Option<&str>, action: &str) -> (r: AuthStep)
    ensures
        match sender {
            None => r is Allow,
            Some(s) => r matches AuthStep::Ask { sender: t, action_id: a } && t@ == s@ && a@
                == action_id_spec(namespace@, action@),
        },
{
    match sender {
        None => AuthStep::Allow,
        Some(s) => AuthStep::Ask {
            sender: s.to_owned(),
            action_id: concat3(namespace, ".", action),
        },
    }
}

/// The first step of authorizing `sender` for the TuneD D-Bus method `action`.
pub fn begin_authorize(sender: Option<&str>, action: &str) -> (r: AuthStep)
    ensures
        match sender {
            None => r is Allow,
            Some(s) => r matches AuthStep::Ask { sender: t, action_id: a } && t@ == s@ && a@
                == action_id_spec("com.redhat.tuned"@, action@),
        },
{
    begin_authorize_in(NAMESPACE, sender, action)
}

/// The decision once PolicyKit has answered: its verdict where it gave one; where it failed
/// (`Err`), the caller's Unix user id as the bus reports it decides (`None` where that query
/// failed too): only root (uid 0) is allowed.
pub fn authorization(answer: Result<bool, ()>, fallback_uid: Option<u32>) -> (r: bool)
    ensures
        r == match answer {
            Ok(b) => b,
            Err(_) => fallback_uid == Some(0u32),
        },
{
    match answer {
        Ok(b) => b,
        Err(_) => match fallback_uid {
            Some(uid) => uid == 0,
            None => false,
        },
    }
}

/// The answer of a `(bool, string)` method to a caller that is not authorized.
pub fn unauthorized_pair() -> (r: (bool, String))
    ensures
        !r.0,
        r.1@ == "Unauthorized"@,
{
    (false, "Unauthorized".to_owned())
}

} // verus!
