//! The order in which a request is judged: the credential check first,
//! then the dispatcher; a request that is refused reaches no handler.
use vstd::prelude::*;
use vstd::string::*;
use crate::auth::authorized;
use crate::auth::hash_accepts;
use crate::auth::hash_readable;
use crate::auth::header_credential;
use crate::auth::is_authorized;
use crate::auth::password_ok;
use crate::auth::stored_view;
use crate::dispatch::dispatch;
use crate::dispatch::dispatched;
use crate::dispatch::Dispatch;
use crate::dispatch::Method;
use crate::dispatch::Route;

verus! {

/// What becomes of a request before any handler runs.
#[derive(Debug)]
pub enum Decision {
    /// Refused for want of valid credentials: 401 with an empty body.
    Unauthorized,
    /// Authorized and dispatched.
    Routed(Dispatch),
}

impl Decision {
    /// The response status of a decision, where the handler's own outcome
    /// does not decide it.
    pub open spec fn status_spec(self) -> u16 {
        match self {
            Decision::Unauthorized => 401,
            Decision::Routed(Dispatch::Found { .. }) => 200,
            Decision::Routed(_) => 404,
        }
    }

    /// The response body of a decision that reaches no handler.
    pub open spec fn body_spec(self) -> Seq<char> {
        match self {
            Decision::Routed(Dispatch::NotFound) => "Not Found"@,
            _ => Seq::empty(),
        }
    }

    pub fn status(&self) -> (r: u16)
        ensures
            r == self.status_spec(),
    {
        match self {
            Decision::Unauthorized => 401,
            Decision::Routed(Dispatch::Found { .. }) => 200,
            Decision::Routed(_) => 404,
        }
    }

    pub fn body(&self) -> (r: String)
        ensures
            r@ == self.body_spec(),
    {
        match self {
            Decision::Routed(Dispatch::NotFound) => String::from_str("Not Found"),
            _ => String::new(),
        }
    }
}

/// Judges a request whose credential check is done: refused unless it passed,
/// else dispatched.
pub fn decide(table: &Vec<Route>, passed: bool, m: Method, path: &str) -> (r: Decision)
    ensures
        !passed ==> r is Unauthorized,
        passed ==> (r matches Decision::Routed(d) && dispatched(table@, m, path@, d)),
{
    if !passed {
        Decision::Unauthorized
    } else {
        Decision::Routed(dispatch(table, m, path))
    }
}

/// Judges a request from its `Authorization` header, the stored hash looked
/// up for the header's user, its method and its path. A request without the
/// header, or whose header carries no well-formed Basic credential, is
/// refused whatever the lookup gave, and before the route table is consulted.
pub fn judge(
    table: &Vec<Route>,
    authorization: Option<&str>,
    stored: Option<String>,
    m: Method,
    path: &str,
) -> (r: Decision)
    ensures
        authorization is None ==> r is Unauthorized,
        (authorization matches Some(h) && header_credential(h@) is None) ==> r is Unauthorized,
        !authorized(
            match authorization {
                Some(h) => Some(h@),
                None => None,
            },
            stored_view(stored),
        ) ==> r is Unauthorized,
        authorized(
            match authorization {
                Some(h) => Some(h@),
                None => None,
            },
            stored_view(stored),
        ) ==> (r matches Decision::Routed(d) && dispatched(table@, m, path@, d)),
{
    let passed = is_authorized(authorization, stored);
    decide(table, passed, m, path)
}

/// A request refused for its credentials reaches no handler and gets status 401 with
/// an empty body, whatever its method and path.
pub proof fn lemma_refused_reaches_nothing(d: Decision)
    requires
        d is Unauthorized,
    ensures
        !(d matches Decision::Routed(_)),
        d.status_spec() == 401,
        d.body_spec() == Seq::<char>::empty(),
{
}

/// An unknown account and a wrong password are refused alike: the account
/// check gives the same answer for both, so neither the decision nor the response can
/// tell them apart.
pub proof fn lemma_unknown_account_as_wrong_password(password: Seq<char>, hash: Seq<char>)
    requires
        hash_readable(hash),
        !hash_accepts(password, hash),
    ensures
        password_ok(password, None) == password_ok(password, Some(hash)),
        !password_ok(password, None),
{
}

} // verus!
