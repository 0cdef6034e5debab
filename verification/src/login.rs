//! Who may in: the login form and the pages it leads to.

use vstd::prelude::*;

verus! {

/// A page the browser is sent to: a redirection, or a template to render
/// (with the flag that marks a rejected login).
#[derive(Debug, PartialEq, Eq)]
pub enum Page {
    Redirect(String),
    Render { template: String, invalid: bool },
}

/// A page, as sequences.
pub enum PageView {
    Redirect(Seq<char>),
    Render(Seq<char>, bool),
}

impl View for Page {
    type V = PageView;

    open spec fn view(&self) -> PageView {
        match self {
            Page::Redirect(location) => PageView::Redirect(location@),
            Page::Render { template, invalid } => PageView::Render(template@, *invalid),
        }
    }
}

/// A redirection to `location`.
pub fn redirect(location: &str) -> (p: Page)
    ensures
        p@ == PageView::Redirect(location@),
{
    Page::Redirect(location.to_owned())
}

/// The template `template`, with the rejected-login flag `invalid`.
pub fn render(template: &str, invalid: bool) -> (p: Page)
    ensures
        p@ == PageView::Render(template@, invalid),
{
    Page::Render { template: template.to_owned(), invalid }
}

/// A user name and password: the ones typed in, or the ones the board accepts.
#[derive(Debug, PartialEq, Eq)]
pub struct GarbageLogin {
    pub user: String,
    pub pass: String,
}

impl GarbageLogin {
    /// The typed-in `self` names the same user with the same password as `stored`.
    pub open spec fn same_as(&self, stored: &GarbageLogin) -> bool {
        self.user@ == stored.user@ && self.pass@ == stored.pass@
    }

    /// Whether `self` names the same user with the same password as `stored`.
    pub fn matches(&self, stored: &GarbageLogin) -> (r: bool)
        ensures
            r == self.same_as(stored),
    {
        self.user == stored.user && self.pass == stored.pass
    }
}

/// The identity that a successful login remembers.
pub open spec fn remembered_identity() -> Seq<char> {
    "epik gazda"@
}

/// The login page: whoever is logged in already goes to the board.
pub fn login_page(logged_in: bool) -> (p: Page)
    ensures
        logged_in ==> p@ == PageView::Redirect("/"@),
        !logged_in ==> p@ == PageView::Render("login"@, false),
{
    if logged_in {
        redirect("/")
    } else {
        render("login", false)
    }
}

/// What a login attempt leads to: the identity to remember, if any, and the page.
#[derive(Debug, PartialEq, Eq)]
pub struct LoginOutcome {
    pub remember: Option<String>,
    pub page: Page,
}

/// A login attempt: the right user and password, or a session already logged in,
/// remember the identity and go to the board; anything else shows the login
/// page again, marked as rejected.
pub fn login_attempt(form: &GarbageLogin, stored: &GarbageLogin, logged_in: bool) -> (r:
    LoginOutcome)
    ensures
        (form.same_as(stored) || logged_in) ==> (r.remember matches Some(id) && id@
            == remembered_identity() && r.page@ == PageView::Redirect("/"@)),
        !(form.same_as(stored) || logged_in) ==> (r.remember is None && r.page@ == PageView::Render(
            "login"@,
            true,
        )),
{
    if form.matches(stored) || logged_in {
        LoginOutcome { remember: Some("epik gazda".to_owned()), page: redirect("/") }
    } else {
        LoginOutcome { remember: None, page: render("login", true) }
    }
}

/// A login attempt from a session not yet logged in succeeds exactly when the
/// typed user name is the stored one and the typed password is the stored one:
/// another user name, or another password, is rejected.
pub proof fn law_login_needs_user_and_password(form: &GarbageLogin, stored: &GarbageLogin)
    ensures
        form.same_as(stored) <==> (form.user@ == stored.user@ && form.pass@ == stored.pass@),
        form.user@ != stored.user@ ==> !form.same_as(stored),
        form.pass@ != stored.pass@ ==> !form.same_as(stored),
{
}

} // verus!
