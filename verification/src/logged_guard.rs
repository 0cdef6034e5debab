//! The guard in front of the board's pages: only logged-in sessions pass.

use vstd::prelude::*;

use crate::login::{redirect, Page, PageView};

verus! {

/// The guard that wraps a service of the board.
pub struct LoggedGuard;

/// A service behind the guard.
pub struct LoggedGuardMiddleware<S> {
    pub service: S,
}

impl LoggedGuard {
    /// Puts `service` behind the guard.
    pub fn new_transform<S>(&self, service: S) -> (m: LoggedGuardMiddleware<S>)
        ensures
            m.service == service,
    {
        LoggedGuardMiddleware { service }
    }
}

impl<S> LoggedGuardMiddleware<S> {
    /// Where a request goes: on to the service (none) when its session is
    /// logged in, else to the login page.
    pub fn route(&self, logged_in: bool) -> (r: Option<Page>)
        ensures
            logged_in ==> r is None,
            !logged_in ==> (r matches Some(p) && p@ == PageView::Redirect("/login"@)),
    {
        if logged_in {
            None
        } else {
            Some(redirect("/login"))
        }
    }
}

} // verus!
