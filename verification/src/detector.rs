//! The change detector: whether a newly fetched text counts as a change
//! against the capture before it, and what is written down about it.

use crate::models::opt_text;
use crate::text::same_text;
use vstd::prelude::*;
use vstd::string::StringExecFns;

verus! {

/// What the first capture of a document counts as. A document that is met
/// for the first time has no capture to differ from; whether that is a
/// change is a matter of policy.
#[derive(Clone, Copy, Debug, PartialEq, Eq, Structural)]
pub enum FirstCapture {
    /// The first capture is a change like any other.
    CountsAsChange,
    /// The first capture only starts the history.
    IsNoChange,
}

/// Whether a text with fingerprint `checksum` counts as changed against the
/// capture before it: its fingerprint is another; or there is no capture
/// before it and the policy counts that as a change.
pub open spec fn differs(
    policy: FirstCapture,
    previous: Option<Seq<char>>,
    checksum: Seq<char>,
) -> bool {
    match previous {
        Some(p) => p != checksum,
        None => policy == FirstCapture::CountsAsChange,
    }
}

/// The sentence that a change record carries.
pub open spec fn summary_text(previous: Option<Seq<char>>, checksum: Seq<char>) -> Seq<char> {
    "Content changed from checksum "@ + (match previous {
        Some(p) => p,
        None => "none"@,
    }) + " to "@ + checksum
}

/// The name under which a capture's method is recorded.
pub open spec fn method_name(api_enabled: bool) -> Seq<char> {
    if api_enabled {
        "api"@
    } else {
        "scraper"@
    }
}

/// The sentence that a change record carries.
pub fn change_summary(previous_checksum: &Option<String>, checksum: &str) -> (summary: String)
    ensures
        summary@ == summary_text(opt_text(*previous_checksum), checksum@),
{
    let mut summary = "Content changed from checksum ".to_owned();
    match previous_checksum {
        Some(p) => summary.append(p.as_str()),
        None => summary.append("none"),
    }
    summary.append(" to ");
    summary.append(checksum);
    summary
}

/// Whether a text with fingerprint `checksum` counts as changed against the
/// capture before it.
pub fn change_detected(
    policy: FirstCapture,
    previous_checksum: &Option<String>,
    checksum: &str,
) -> (changed: bool)
    ensures
        changed == differs(policy, opt_text(*previous_checksum), checksum@),
{
    match previous_checksum {
        Some(p) => !same_text(p.as_str(), checksum),
        None => match policy {
            FirstCapture::CountsAsChange => true,
            FirstCapture::IsNoChange => false,
        },
    }
}

/// The name under which a capture's method is recorded.
pub fn capture_method(api_enabled: bool) -> (name: &'static str)
    ensures
        name@ == method_name(api_enabled),
{
    if api_enabled {
        "api"
    } else {
        "scraper"
    }
}

} // verus!
