//! Feed items as plain values, and the note text built from them.
//!
//! Fetching and parsing the feed itself is a collaborator's job: this
//! module only holds the configured feed address and turns the fetched
//! items into the text and tags of a note.

use vstd::prelude::*;
use vstd::string::StringExecFns;

verus! {

/// One fetched feed item, reduced to the plain fields the note text uses.
pub struct FeedItem {
    pub title: Option<String>,
    pub link: Option<String>,
    pub description: Option<String>,
}

/// Holds the address of the feed to poll.
pub struct FeedReader {
    url: String,
}

impl FeedReader {
    /// The configured feed address.
    pub closed spec fn spec_url(&self) -> Seq<char> {
        self.url@
    }

    /// A reader for the given feed address.
    pub fn new(url: String) -> (r: FeedReader)
        ensures
            r.spec_url() == url@,
    {
        FeedReader { url }
    }

    /// The configured feed address.
    pub fn url(&self) -> (r: &String)
        ensures
            r@ == self.spec_url(),
    {
        &self.url
    }
}

/// One line pair of the plain note text: the item's title and link, with
/// fixed stand-ins where a field is missing.
pub open spec fn item_line_chars(item: FeedItem) -> Seq<char> {
    (match item.title {
        Some(t) => t@,
        None => "No title"@,
    }) + "\n"@ + (match item.link {
        Some(l) => l@,
        None => "No link"@,
    })
}

/// The item lines joined with blank lines, in item order.
pub open spec fn joined_item_lines(items: Seq<FeedItem>) -> Seq<char>
    decreases items.len(),
{
    if items.len() == 0 {
        Seq::empty()
    } else if items.len() == 1 {
        item_line_chars(items[0])
    } else {
        joined_item_lines(items.drop_last()) + "\n\n"@ + item_line_chars(items.last())
    }
}

/// The plain note text for a feed update when no summary is available.
pub open spec fn latest_items_chars(items: Seq<FeedItem>) -> Seq<char> {
    "Latest items:\n\n"@ + joined_item_lines(items)
}

/// The present links of the items, in item order.
pub open spec fn link_list(items: Seq<FeedItem>) -> Seq<Seq<char>>
    decreases items.len(),
{
    if items.len() == 0 {
        Seq::empty()
    } else {
        link_list(items.drop_last()) + (match items.last().link {
            Some(l) => seq![l@],
            None => Seq::empty(),
        })
    }
}

/// Texts joined with newlines.
pub open spec fn joined_lines(lines: Seq<Seq<char>>) -> Seq<char>
    decreases lines.len(),
{
    if lines.len() == 0 {
        Seq::empty()
    } else if lines.len() == 1 {
        lines[0]
    } else {
        joined_lines(lines.drop_last()) + "\n"@ + lines.last()
    }
}

/// The note text for a feed update with a summary: the summary followed by
/// the items' links as sources.
pub open spec fn summary_note_chars(summary: Seq<char>, items: Seq<FeedItem>) -> Seq<char> {
    "Feed Summary:\n\n"@ + summary + "\n\nSources:\n"@ + joined_lines(link_list(items))
}

/// Appends one item's line pair.
fn append_item_line(out: &mut String, item: &FeedItem)
    ensures
        final(out)@ == old(out)@ + item_line_chars(*item),
{
    match &item.title {
        Some(t) => out.append(t.as_str()),
        None => out.append("No title"),
    }
    out.append("\n");
    match &item.link {
        Some(l) => out.append(l.as_str()),
        None => out.append("No link"),
    }
}

/// Builds the plain note text for a feed update when no summary is
/// available: each item's title and link, blank lines between items.
pub fn latest_items_text(items: &Vec<FeedItem>) -> (r: String)
    ensures
        r@ == latest_items_chars(items@),
{
    let mut out = String::new();
    out.append("Latest items:\n\n");
    let mut i: usize = 0;
    while i < items.len()
        invariant
            i <= items@.len(),
            out@ == "Latest items:\n\n"@ + joined_item_lines(items@.take(i as int)),
        decreases items@.len() - i,
    {
        if i > 0 {
            out.append("\n\n");
        }
        append_item_line(&mut out, &items[i]);
        proof {
            assert(items@.take(i + 1).drop_last() =~= items@.take(i as int));
            assert(items@.take(i + 1).last() == items@[i as int]);
        }
        i = i + 1;
    }
    proof {
        assert(items@.take(items@.len() as int) =~= items@);
    }
    out
}

/// Builds the note text for a feed update with a summary: the summary, then
/// each item's link on a line of its own as sources.
pub fn summary_note_text(summary: &str, items: &Vec<FeedItem>) -> (r: String)
    ensures
        r@ == summary_note_chars(summary@, items@),
{
    let mut out = String::new();
    out.append("Feed Summary:\n\n");
    out.append(summary);
    out.append("\n\nSources:\n");
    let ghost prefix = out@;
    let mut any: bool = false;
    let mut i: usize = 0;
    while i < items.len()
        invariant
            i <= items@.len(),
            any == (link_list(items@.take(i as int)).len() > 0),
            out@ == prefix + joined_lines(link_list(items@.take(i as int))),
        decreases items@.len() - i,
    {
        proof {
            assert(items@.take(i + 1).drop_last() =~= items@.take(i as int));
            assert(items@.take(i + 1).last() == items@[i as int]);
        }
        match &items[i].link {
            Some(l) => {
                if any {
                    out.append("\n");
                }
                out.append(l.as_str());
                any = true;
                proof {
                    let ls = link_list(items@.take(i as int));
                    assert(link_list(items@.take(i + 1)) =~= ls.push(l@));
                    if ls.len() > 0 {
                        assert(ls.push(l@).drop_last() =~= ls);
                        assert(joined_lines(ls.push(l@)) == joined_lines(ls) + "\n"@ + l@);
                    } else {
                        assert(joined_lines(ls.push(l@)) == l@);
                        assert(prefix + joined_lines(ls) + l@ =~= prefix + l@);
                    }
                }
            },
            None => {
                proof {
                    assert(link_list(items@.take(i + 1)) =~= link_list(items@.take(i as int)));
                }
            },
        }
        i = i + 1;
    }
    proof {
        assert(items@.take(items@.len() as int) =~= items@);
    }
    out
}

/// The fixed tags of a feed-update note, with the optional lightning
/// address tags when one is configured.
pub open spec fn note_tags_chars(lightning: Option<Seq<char>>) -> Seq<Seq<Seq<char>>> {
    let fixed = seq![
        seq!["client"@, "hyper-uppercut"@],
        seq!["alt"@, "RSS Feed Summary"@],
    ];
    match lightning {
        Some(addr) => fixed + seq![
            seq!["lud06"@, addr],
            seq!["lud16"@, addr],
            seq!["zap"@, addr],
        ],
        None => fixed,
    }
}

/// Assembles the tags of a feed-update note: the fixed client and alt
/// tags, and the lightning address tags when an address is configured.
pub fn note_tags(lightning: &Option<String>) -> (r: Vec<Vec<String>>)
    ensures
        r.deep_view() == note_tags_chars(match lightning {
            Some(addr) => Some(addr@),
            None => None::<Seq<char>>,
        }),
{
    let mut tags: Vec<Vec<String>> = Vec::new();
    let mut client_tag: Vec<String> = Vec::new();
    client_tag.push(String::from_str("client"));
    client_tag.push(String::from_str("hyper-uppercut"));
    tags.push(client_tag);
    let mut alt_tag: Vec<String> = Vec::new();
    alt_tag.push(String::from_str("alt"));
    alt_tag.push(String::from_str("RSS Feed Summary"));
    tags.push(alt_tag);
    match lightning {
        Some(addr) => {
            let mut lud06_tag: Vec<String> = Vec::new();
            lud06_tag.push(String::from_str("lud06"));
            lud06_tag.push(addr.clone());
            tags.push(lud06_tag);
            let mut lud16_tag: Vec<String> = Vec::new();
            lud16_tag.push(String::from_str("lud16"));
            lud16_tag.push(addr.clone());
            tags.push(lud16_tag);
            let mut zap_tag: Vec<String> = Vec::new();
            zap_tag.push(String::from_str("zap"));
            zap_tag.push(addr.clone());
            tags.push(zap_tag);
            proof {
                assert(tags.deep_view() =~~= note_tags_chars(Some(addr@)));
            }
        },
        None => {
            proof {
                assert(tags.deep_view() =~~= note_tags_chars(None::<Seq<char>>));
            }
        },
    }
    tags
}

} // verus!
