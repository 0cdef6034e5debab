//! The hidden corner of the board: its own login, and the ban page it guards
//! by the page the browser comes from.

use vstd::prelude::*;

use crate::login::{redirect, render, Page, PageView};
use crate::text::{
    contains_seq, contains_str, law_contains_anywhere, law_contains_only_where_it_occurs,
};

verus! {

/// A user name and password for the hidden corner.
#[derive(Debug, PartialEq, Eq)]
pub struct LoginZnidaric {
    pub user: String,
    pub pass: String,
}

/// The page after a login to the hidden corner: the ban page for the right user
/// and password, else the login page again, marked as rejected.
pub fn login_znidaric_page(form: &LoginZnidaric, stored: &LoginZnidaric) -> (p: Page)
    ensures
        (form.user@ == stored.user@ && form.pass@ == stored.pass@) ==> p@ == PageView::Redirect(
            "/banajMatijosa"@,
        ),
        !(form.user@ == stored.user@ && form.pass@ == stored.pass@) ==> p@ == PageView::Render(
            "loginZnidaric"@,
            true,
        ),
{
    if form.user == stored.user && form.pass == stored.pass {
        redirect("/banajMatijosa")
    } else {
        render("loginZnidaric", true)
    }
}

/// The referring page, if any, mentions `marker`.
pub open spec fn referred_from(referer: Option<&str>, marker: Seq<char>) -> bool {
    match referer {
        Some(r) => contains_seq(r@, marker),
        None => false,
    }
}

/// Whether the referring page, if any, mentions `marker`.
fn comes_from(referer: Option<&str>, marker: &str) -> (r: bool)
    ensures
        r == referred_from(referer, marker@),
{
    match referer {
        Some(r) => contains_str(r, marker),
        None => false,
    }
}

/// The ban page, shown only to a browser that comes from the hidden login;
/// any other is sent to that login.
pub fn banaj_matijosa_page(referer: Option<&str>) -> (p: Page)
    ensures
        referred_from(referer, "loginZnidaric"@) ==> p@ == PageView::Render("banajMatijosa"@, false),
        !referred_from(referer, "loginZnidaric"@) ==> p@ == PageView::Redirect("/loginZnidaric"@),
{
    if comes_from(referer, "loginZnidaric") {
        render("banajMatijosa", false)
    } else {
        redirect("/loginZnidaric")
    }
}

/// Whether a ban may be sent: only from the ban page itself.
pub fn banaj_allowed(referer: Option<&str>) -> (r: bool)
    ensures
        r == referred_from(referer, "banajMatijosa"@),
{
    comes_from(referer, "banajMatijosa")
}

/// The referer check holds exactly when the marker occurs in the referer, at any
/// position, however long the referer is.
pub proof fn law_referer_marker_anywhere(referer: &str, marker: Seq<char>)
    ensures
        referred_from(Some(referer), marker) <==> exists|i: int|
            0 <= i && i + marker.len() <= referer@.len() && #[trigger] referer@.subrange(
                i,
                i + marker.len(),
            ) == marker,
{
    if referred_from(Some(referer), marker) {
        law_contains_only_where_it_occurs(referer@, marker);
    }
    if exists|i: int|
        0 <= i && i + marker.len() <= referer@.len() && #[trigger] referer@.subrange(
            i,
            i + marker.len(),
        ) == marker {
        let i = choose|i: int|
            0 <= i && i + marker.len() <= referer@.len() && #[trigger] referer@.subrange(
                i,
                i + marker.len(),
            ) == marker;
        law_contains_anywhere(referer@, marker, i);
    }
}

} // verus!
