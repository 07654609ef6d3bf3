//! The detail-lookup text rules: what the details pane shows for each outcome
//! of the external `show` command, and when nothing is selected.

use vstd::prelude::*;
use vstd::string::StringExecFns;

verus! {

/// Maps the outcome of the external detail command to the text the details
/// pane shows: `None` (the command could not be launched) becomes the
/// failure text, empty output becomes the fallback text, and anything else
/// is returned verbatim.
pub fn fetch_package_details(output: Option<String>) -> (r: String)
    ensures
        match output {
            None => r@ == "Failed to fetch package details"@,
            Some(s) => if s@.len() == 0 {
                r@ == "No details available"@
            } else {
                r@ == s@
            },
        },
{
    match output {
        None => String::from_str("Failed to fetch package details"),
        Some(s) => {
            if s.as_str().is_empty() {
                String::from_str("No details available")
            } else {
                s
            }
        },
    }
}

/// The details pane's text when no package is selected; shown without any
/// external command being run.
pub fn no_selection_text() -> (r: String)
    ensures
        r@ == "No package selected"@,
{
    String::from_str("No package selected")
}

} // verus!
