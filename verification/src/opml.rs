//! Feed lists extracted from an OPML document.
//!
//! The extraction itself is handed to the opaque text-transform
//! collaborator; this module holds the extracted list as plain values and
//! the exact text of the extraction request.

use vstd::prelude::*;
use vstd::string::StringExecFns;

verus! {

/// The feed addresses extracted from an OPML document.
pub struct FeedList {
    pub feeds: Vec<String>,
}

/// The prompt asking for the feed addresses of an OPML document.
pub open spec fn opml_prompt_chars(opml_content: Seq<char>) -> Seq<char> {
    "Extract all RSS/Atom feed URLs from this OPML file. Respond in JSON format with a single 'feeds' array containing the URLs. OPML content:\n\n"@
        + opml_content
}

/// Builds the prompt asking for the feed addresses of an OPML document.
pub fn opml_prompt(opml_content: &str) -> (r: String)
    ensures
        r@ == opml_prompt_chars(opml_content@),
{
    let mut out = String::new();
    out.append(
        "Extract all RSS/Atom feed URLs from this OPML file. Respond in JSON format with a single 'feeds' array containing the URLs. OPML content:\n\n",
    );
    out.append(opml_content);
    out
}

} // verus!
