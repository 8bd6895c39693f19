use hyper_uppercut::encoding::{append_dec_u64, append_json_string, hex_decode, hex_encode};
use hyper_uppercut::nostr::profile_content;
use hyper_uppercut::opml::opml_prompt;
use hyper_uppercut::rss::{latest_items_text, note_tags, summary_note_text, FeedItem};
use hyper_uppercut::summarize::{feed_prompt, text_prompt};

#[test]
fn hex_encode_is_lowercase_two_digits_per_byte() {
    assert_eq!(hex_encode(&vec![]), "");
    assert_eq!(hex_encode(&vec![0x00, 0xff, 0x1a]), "00ff1a");
}

#[test]
fn hex_encode_matches_reference() {
    let bytes: Vec<u8> = (0u8..=255).collect();
    assert_eq!(hex_encode(&bytes), hex::encode(&bytes));
}

#[test]
fn hex_decode_round_trips() {
    let bytes: Vec<u8> = (0u8..=255).collect();
    assert_eq!(hex_decode(&hex_encode(&bytes)), Some(bytes));
}

#[test]
fn hex_decode_accepts_uppercase() {
    assert_eq!(hex_decode("AB0f"), Some(vec![0xab, 0x0f]));
}

#[test]
fn hex_decode_refuses_odd_length_and_bad_digits() {
    assert_eq!(hex_decode("abc"), None);
    assert_eq!(hex_decode("zz"), None);
    assert_eq!(hex_decode("0g"), None);
    assert_eq!(hex_decode("aé"), None);
    assert_eq!(hex_decode(""), Some(vec![]));
}

#[test]
fn decimal_text_is_exact() {
    let mut out = String::new();
    append_dec_u64(&mut out, 0);
    assert_eq!(out, "0");
    let mut out = String::new();
    append_dec_u64(&mut out, 1700000000);
    assert_eq!(out, "1700000000");
    let mut out = String::new();
    append_dec_u64(&mut out, u64::MAX);
    assert_eq!(out, "18446744073709551615");
}

#[test]
fn json_escaping_matches_reference() {
    let tricky = "a\"b\\c\nd\re\tf\u{8}g\u{c}h\u{1}i\u{1f}j plain é 日本語";
    let mut out = String::new();
    append_json_string(&mut out, tricky);
    assert_eq!(out, serde_json::to_string(tricky).unwrap());
}

#[test]
fn json_escaping_uses_lowercase_unicode_escapes() {
    let mut out = String::new();
    append_json_string(&mut out, "\u{1f}");
    assert_eq!(out, "\"\\u001f\"");
}

#[test]
fn profile_content_is_the_documented_object() {
    let content = profile_content("RSS Bot", "I post \"updates\"", "", "bot@example.com");
    assert_eq!(
        content,
        "{\"name\":\"RSS Bot\",\"about\":\"I post \\\"updates\\\"\",\"picture\":\"\",\"nip05\":\"bot@example.com\"}"
    );
}

fn item(title: Option<&str>, link: Option<&str>, description: Option<&str>) -> FeedItem {
    FeedItem {
        title: title.map(|t| t.to_string()),
        link: link.map(|l| l.to_string()),
        description: description.map(|d| d.to_string()),
    }
}

#[test]
fn latest_items_text_lists_titles_and_links() {
    let items = vec![
        item(Some("First"), Some("https://a.example/1"), None),
        item(None, None, None),
    ];
    assert_eq!(
        latest_items_text(&items),
        "Latest items:\n\nFirst\nhttps://a.example/1\n\nNo title\nNo link"
    );
}

#[test]
fn latest_items_text_of_no_items_is_just_the_header() {
    assert_eq!(latest_items_text(&vec![]), "Latest items:\n\n");
}

#[test]
fn summary_note_lists_only_present_links() {
    let items = vec![
        item(Some("First"), Some("https://a.example/1"), None),
        item(Some("No link here"), None, None),
        item(None, Some("https://a.example/3"), None),
    ];
    assert_eq!(
        summary_note_text("All quiet.", &items),
        "Feed Summary:\n\nAll quiet.\n\nSources:\nhttps://a.example/1\nhttps://a.example/3"
    );
}

#[test]
fn feed_prompt_joins_item_blocks() {
    let items = vec![
        item(Some("First"), None, Some("One thing happened.")),
        item(None, None, None),
    ];
    assert_eq!(
        feed_prompt(&items),
        "Please provide a concise summary of these RSS feed items in 2-3 sentences. Don't include links or other external references. This should only be text.\n\nTitle: First\nDescription: One thing happened.\n\n---\nTitle: No title\nDescription: No description\n"
    );
}

#[test]
fn text_prompt_wraps_the_text() {
    assert_eq!(
        text_prompt("hello"),
        "Please provide a concise summary of the following text in 2-3 sentences:\n\nhello"
    );
}

#[test]
fn opml_prompt_wraps_the_document() {
    assert_eq!(
        opml_prompt("<opml/>"),
        "Extract all RSS/Atom feed URLs from this OPML file. Respond in JSON format with a single 'feeds' array containing the URLs. OPML content:\n\n<opml/>"
    );
}

#[test]
fn note_tags_without_lightning_address() {
    let tags = note_tags(&None);
    assert_eq!(
        tags,
        vec![
            vec!["client".to_string(), "hyper-uppercut".to_string()],
            vec!["alt".to_string(), "RSS Feed Summary".to_string()],
        ]
    );
}

#[test]
fn note_tags_with_lightning_address() {
    let tags = note_tags(&Some("pay@example.com".to_string()));
    assert_eq!(
        tags,
        vec![
            vec!["client".to_string(), "hyper-uppercut".to_string()],
            vec!["alt".to_string(), "RSS Feed Summary".to_string()],
            vec!["lud06".to_string(), "pay@example.com".to_string()],
            vec!["lud16".to_string(), "pay@example.com".to_string()],
            vec!["zap".to_string(), "pay@example.com".to_string()],
        ]
    );
}
