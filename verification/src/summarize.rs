//! The prompts handed to the text-summarization collaborator.
//!
//! Summarization itself is an opaque external service; what is owed here is
//! only the exact text of the requests sent to it.

use vstd::prelude::*;
use vstd::string::StringExecFns;

use crate::rss::FeedItem;

verus! {

/// One item's block in the combined feed text handed to the summarizer.
pub open spec fn item_block_chars(item: FeedItem) -> Seq<char> {
    "Title: "@ + (match item.title {
        Some(t) => t@,
        None => "No title"@,
    }) + "\nDescription: "@ + (match item.description {
        Some(d) => d@,
        None => "No description"@,
    }) + "\n"@
}

/// The item blocks joined with separator lines, in item order.
pub open spec fn joined_item_blocks(items: Seq<FeedItem>) -> Seq<char>
    decreases items.len(),
{
    if items.len() == 0 {
        Seq::empty()
    } else if items.len() == 1 {
        item_block_chars(items[0])
    } else {
        joined_item_blocks(items.drop_last()) + "\n---\n"@ + item_block_chars(items.last())
    }
}

/// The full prompt asking for a summary of the feed items.
pub open spec fn feed_prompt_chars(items: Seq<FeedItem>) -> Seq<char> {
    "Please provide a concise summary of these RSS feed items in 2-3 sentences. Don't include links or other external references. This should only be text.\n\n"@
        + joined_item_blocks(items)
}

/// The prompt asking for a summary of one plain text.
pub open spec fn text_prompt_chars(text: Seq<char>) -> Seq<char> {
    "Please provide a concise summary of the following text in 2-3 sentences:\n\n"@ + text
}

/// Appends one item's title-and-description block.
fn append_item_block(out: &mut String, item: &FeedItem)
    ensures
        final(out)@ == old(out)@ + item_block_chars(*item),
{
    out.append("Title: ");
    match &item.title {
        Some(t) => out.append(t.as_str()),
        None => out.append("No title"),
    }
    out.append("\nDescription: ");
    match &item.description {
        Some(d) => out.append(d.as_str()),
        None => out.append("No description"),
    }
    out.append("\n");
}

/// Builds the prompt asking for a summary of the feed items: each item's
/// title and description, separator lines between items.
pub fn feed_prompt(items: &Vec<FeedItem>) -> (r: String)
    ensures
        r@ == feed_prompt_chars(items@),
{
    let mut out = String::new();
    out.append(
        "Please provide a concise summary of these RSS feed items in 2-3 sentences. Don't include links or other external references. This should only be text.\n\n",
    );
    let ghost prefix = out@;
    let mut i: usize = 0;
    while i < items.len()
        invariant
            i <= items@.len(),
            out@ == prefix + joined_item_blocks(items@.take(i as int)),
        decreases items@.len() - i,
    {
        if i > 0 {
            out.append("\n---\n");
        }
        append_item_block(&mut out, &items[i]);
        proof {
            assert(items@.take(i + 1).drop_last() =~= items@.take(i as int));
            assert(items@.take(i + 1).last() == items@[i as int]);
        }
        i = i + 1;
    }
    proof {
        assert(items@.take(items@.len() as int) =~= items@);
    }
    out
}

/// Builds the prompt asking for a summary of one plain text.
pub fn text_prompt(text: &str) -> (r: String)
    ensures
        r@ == text_prompt_chars(text@),
{
    let mut out = String::new();
    out.append("Please provide a concise summary of the following text in 2-3 sentences:\n\n");
    out.append(text);
    out
}

} // verus!
