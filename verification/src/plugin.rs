//! The page-view plugin's own part: what it reports for a page view.

use vstd::prelude::*;

verus! {

/// The line above the report.
pub open spec fn banner_head() -> Seq<char> {
    "###### COMPONENT ######\nPage viewed: "@
}

/// The line below the report.
pub open spec fn banner_tail() -> Seq<char> {
    "\n#######################\n"@
}

/// The text that the plugin writes when the page at `url` was viewed.
pub fn page_viewed_text(url: &str) -> (text: String)
    ensures
        text@ == banner_head() + url@ + banner_tail(),
{
    let mut text = String::from_str("###### COMPONENT ######\nPage viewed: ");
    text.append(url);
    text.append("\n#######################\n");
    text
}

} // verus!
