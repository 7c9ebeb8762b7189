//! The notification request: what the desktop notification service is
//! asked to show, and the icon policy that picks the cover art when
//! there is any.

use vstd::prelude::*;
use vstd::string::StringExecFns;

verus! {

/// A notification to be shown: a summary line, a body, and the name or
/// path of an icon.
pub struct NotifyRequest {
    pub summary: String,
    pub body: String,
    pub icon: String,
}

/// The stock icon shown when no cover art was resolved.
pub open spec fn stock_icon() -> Seq<char> {
    "applications-multimedia"@
}

/// Build the notification request: title and message pass through
/// unchanged, and the icon is the resolved cover path when there is one,
/// the stock media icon otherwise.
pub fn notify(title: &str, msg: &str, cover: Option<String>) -> (r: NotifyRequest)
    ensures
        r.summary@ == title@,
        r.body@ == msg@,
        cover matches Some(c) ==> r.icon@ == c@,
        cover is None ==> r.icon@ == stock_icon(),
{
    let icon = match cover {
        Some(c) => c,
        None => String::from_str("applications-multimedia"),
    };
    NotifyRequest { summary: String::from_str(title), body: String::from_str(msg), icon }
}

} // verus!
