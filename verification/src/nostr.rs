//! Events: signed, content-addressed messages.
//!
//! An event carries its author's x-only public key, a creation time, a kind,
//! an ordered list of tags, a content string, a content-addressed identifier
//! and a signature. The identifier is the lowercase-hex SHA-256 digest of the
//! canonical preimage, a JSON array `[0,pubkey,created_at,kind,tags,content]`
//! serialized without any extra whitespace; the signature is a BIP-340
//! Schnorr signature over the 32 raw digest bytes, verifiable against the
//! public key.

use vstd::prelude::*;
use vstd::string::StringExecFns;

use crate::crypto::pubkey_of;
use crate::crypto::schnorr_sig_of;
use crate::crypto::schnorr_verifies;
use crate::crypto::sha256;
use crate::crypto::sha256_of;
use crate::crypto::valid_seckey;
use crate::crypto::derive_xonly_pubkey;
use crate::crypto::schnorr_sign;
use crate::crypto::schnorr_verify;
use crate::crypto::seckey_is_valid;
use crate::encoding::dec_chars;
use crate::encoding::hex_chars;
use crate::encoding::hex_decode;
use crate::encoding::hex_decode_chars;
use crate::encoding::json_string_chars;
use crate::encoding::append_dec_u64;
use crate::encoding::append_json_string;
use crate::encoding::hex_encode;
use crate::encoding::lemma_hex_round_trip;

verus! {

/// Event kind for identity metadata.
pub const KIND_METADATA: u32 = 0;

/// Event kind for a plain content note.
pub const KIND_TEXT_NOTE: u32 = 1;

/// The comma-separated JSON strings inside an array, without the brackets.
pub open spec fn joined_strings(items: Seq<Seq<char>>) -> Seq<char>
    decreases items.len(),
{
    if items.len() == 0 {
        Seq::empty()
    } else if items.len() == 1 {
        json_string_chars(items[0])
    } else {
        joined_strings(items.drop_last()) + seq![','] + json_string_chars(items.last())
    }
}

/// The JSON array of strings for one tag.
pub open spec fn string_array_chars(items: Seq<Seq<char>>) -> Seq<char> {
    seq!['['] + joined_strings(items) + seq![']']
}

/// The comma-separated tag arrays, without the brackets.
pub open spec fn joined_tags(tags: Seq<Seq<Seq<char>>>) -> Seq<char>
    decreases tags.len(),
{
    if tags.len() == 0 {
        Seq::empty()
    } else if tags.len() == 1 {
        string_array_chars(tags[0])
    } else {
        joined_tags(tags.drop_last()) + seq![','] + string_array_chars(tags.last())
    }
}

/// The JSON array of tag arrays.
pub open spec fn tags_chars(tags: Seq<Seq<Seq<char>>>) -> Seq<char> {
    seq!['['] + joined_tags(tags) + seq![']']
}

/// The canonical preimage: the exact text whose UTF-8 bytes are hashed into
/// an event's identifier, `[0,pubkey,created_at,kind,tags,content]` with no
/// whitespace inserted anywhere.
pub open spec fn preimage_chars(
    pubkey: Seq<char>,
    created_at: u64,
    kind: u32,
    tags: Seq<Seq<Seq<char>>>,
    content: Seq<char>,
) -> Seq<char> {
    seq!['[', '0', ','] + json_string_chars(pubkey) + seq![','] + dec_chars(created_at as nat)
        + seq![','] + dec_chars(kind as nat) + seq![','] + tags_chars(tags) + seq![',']
        + json_string_chars(content) + seq![']']
}

/// Appends a JSON array holding the strings of one tag.
fn append_string_array(out: &mut String, items: &Vec<String>)
    ensures
        final(out)@ == old(out)@ + string_array_chars(items.deep_view()),
{
    proof {
        reveal_strlit("[");
        reveal_strlit("]");
        reveal_strlit(",");
    }
    out.append("[");
    let ghost d = items.deep_view();
    let mut i: usize = 0;
    while i < items.len()
        invariant
            i <= items@.len(),
            d == items.deep_view(),
            d.len() == items@.len(),
            out@ == old(out)@ + seq!['['] + joined_strings(d.take(i as int)),
        decreases items@.len() - i,
    {
        if i > 0 {
            out.append(",");
        }
        append_json_string(out, items[i].as_str());
        proof {
            reveal_strlit("[");
            reveal_strlit(",");
            assert(d[i as int] == items@[i as int]@);
            assert(d.take(i + 1).drop_last() =~= d.take(i as int));
            assert(d.take(i + 1).last() == d[i as int]);
            if i == 0 {
                assert(joined_strings(d.take(1)) == json_string_chars(d[0]));
                assert(out@ =~= old(out)@ + seq!['['] + joined_strings(d.take(1)));
            } else {
                assert(joined_strings(d.take(i + 1)) == joined_strings(d.take(i as int)) + seq![
                    ',',
                ] + json_string_chars(d[i as int]));
                assert(out@ =~= old(out)@ + seq!['['] + joined_strings(d.take(i + 1)));
            }
        }
        i = i + 1;
    }
    out.append("]");
    proof {
        assert(d.take(d.len() as int) =~= d);
        assert(out@ =~= old(out)@ + string_array_chars(d));
    }
}

/// Appends the JSON array of tag arrays, exactly in the given order.
pub fn append_tags(out: &mut String, tags: &Vec<Vec<String>>)
    ensures
        final(out)@ == old(out)@ + tags_chars(tags.deep_view()),
{
    proof {
        reveal_strlit("[");
        reveal_strlit("]");
        reveal_strlit(",");
    }
    out.append("[");
    let ghost d = tags.deep_view();
    let mut i: usize = 0;
    while i < tags.len()
        invariant
            i <= tags@.len(),
            d == tags.deep_view(),
            d.len() == tags@.len(),
            out@ == old(out)@ + seq!['['] + joined_tags(d.take(i as int)),
        decreases tags@.len() - i,
    {
        if i > 0 {
            out.append(",");
        }
        append_string_array(out, &tags[i]);
        proof {
            reveal_strlit("[");
            reveal_strlit(",");
            assert(d[i as int] == tags@[i as int].deep_view());
            assert(d.take(i + 1).drop_last() =~= d.take(i as int));
            assert(d.take(i + 1).last() == d[i as int]);
            if i == 0 {
                assert(joined_tags(d.take(1)) == string_array_chars(d[0]));
                assert(out@ =~= old(out)@ + seq!['['] + joined_tags(d.take(1)));
            } else {
                assert(joined_tags(d.take(i + 1)) == joined_tags(d.take(i as int)) + seq![',']
                    + string_array_chars(d[i as int]));
                assert(out@ =~= old(out)@ + seq!['['] + joined_tags(d.take(i + 1)));
            }
        }
        i = i + 1;
    }
    out.append("]");
    proof {
        assert(d.take(d.len() as int) =~= d);
        assert(out@ =~= old(out)@ + tags_chars(d));
    }
}

/// Builds the canonical preimage text for the given event fields.
pub fn canonical_preimage(
    pubkey: &str,
    created_at: u64,
    kind: u32,
    tags: &Vec<Vec<String>>,
    content: &str,
) -> (r: String)
    ensures
        r@ == preimage_chars(pubkey@, created_at, kind, tags.deep_view(), content@),
{
    proof {
        reveal_strlit("[0,");
        reveal_strlit(",");
        reveal_strlit("]");
    }
    let mut out = String::new();
    out.append("[0,");
    append_json_string(&mut out, pubkey);
    out.append(",");
    append_dec_u64(&mut out, created_at);
    out.append(",");
    append_dec_u64(&mut out, kind as u64);
    out.append(",");
    append_tags(&mut out, tags);
    out.append(",");
    append_json_string(&mut out, content);
    out.append("]");
    proof {
        assert(out@ =~= preimage_chars(pubkey@, created_at, kind, tags.deep_view(), content@));
    }
    out
}

/// The identity key is malformed: not a well-formed 32-byte secret key.
#[derive(Debug, PartialEq, Eq, Structural)]
pub struct KeyError;

/// A long-lived identity secret key, held as its 32 bytes and known to be
/// well formed.
pub struct IdentityKey {
    bytes: Vec<u8>,
}

impl View for IdentityKey {
    type V = Seq<u8>;

    closed spec fn view(&self) -> Seq<u8> {
        self.bytes@
    }
}

impl IdentityKey {
    /// The held bytes are a well-formed secret key.
    pub open spec fn wf(&self) -> bool {
        self@.len() == 32 && valid_seckey(self@)
    }

    /// Accepts exactly the well-formed secret keys; anything else is a
    /// `KeyError`.
    pub fn from_bytes(bytes: Vec<u8>) -> (r: Result<IdentityKey, KeyError>)
        ensures
            match r {
                Ok(k) => k@ == bytes@ && k.wf(),
                Err(_) => !valid_seckey(bytes@),
            },
    {
        if seckey_is_valid(&bytes) {
            Ok(IdentityKey { bytes })
        } else {
            Err(KeyError)
        }
    }
}

/// A signed, content-addressed event. Immutable once signed: it is only
/// transmitted or discarded.
#[derive(Debug, Clone)]
pub struct Event {
    /// Lowercase-hex SHA-256 digest of the canonical preimage.
    pub id: String,
    /// Lowercase-hex 32-byte x-only public key of the author.
    pub pubkey: String,
    /// Unix timestamp in seconds, captured at signing time.
    pub created_at: u64,
    /// Unsigned integer classifying event semantics.
    pub kind: u32,
    /// Ordered tag records, each an ordered sequence of strings. Preserved
    /// exactly as given: never reordered or deduplicated.
    pub tags: Vec<Vec<String>>,
    /// UTF-8 text payload.
    pub content: String,
    /// Lowercase-hex 64-byte Schnorr signature over the raw digest bytes.
    pub sig: String,
}

/// The canonical preimage of an event's own fields.
pub open spec fn event_preimage(e: Event) -> Seq<char> {
    preimage_chars(e.pubkey@, e.created_at, e.kind, e.tags.deep_view(), e.content@)
}

/// The identifier is the lowercase-hex digest of the canonical preimage:
/// recomputing the digest from the fields reproduces `id` exactly.
pub open spec fn id_correct(e: Event) -> bool {
    e.id@ == hex_chars(sha256_of(event_preimage(e)))
}

/// The signature verifies against the author's public key over the raw
/// bytes of the identifier.
pub open spec fn sig_correct(e: Event) -> bool {
    match (hex_decode_chars(e.pubkey@), hex_decode_chars(e.id@), hex_decode_chars(e.sig@)) {
        (Some(pk), Some(msg), Some(sig)) => schnorr_verifies(pk, msg, sig),
        _ => false,
    }
}

impl Event {
    /// Builds and signs an event with an explicit creation time: a pure
    /// function of its arguments.
    ///
    /// The returned event carries the key's x-only public key, the given
    /// fields verbatim (tags in their exact order), the identifier computed
    /// from the canonical preimage, and a deterministic Schnorr signature
    /// over the identifier's raw bytes which verifies against the public
    /// key.
    pub fn new_at(
        key: &IdentityKey,
        content: String,
        kind: u32,
        tags: Vec<Vec<String>>,
        created_at: u64,
    ) -> (r: Event)
        requires
            key.wf(),
        ensures
            r.pubkey@ == hex_chars(pubkey_of(key@)),
            r.created_at == created_at,
            r.kind == kind,
            r.tags.deep_view() == tags.deep_view(),
            r.content@ == content@,
            r.id@ == hex_chars(sha256_of(event_preimage(r))),
            r.sig@ == hex_chars(schnorr_sig_of(key@, sha256_of(event_preimage(r)))),
            r.pubkey@.len() == 64,
            r.id@.len() == 64,
            r.sig@.len() == 128,
            id_correct(r),
            sig_correct(r),
    {
        let pubkey_bytes = derive_xonly_pubkey(&key.bytes);
        let pubkey = hex_encode(&pubkey_bytes);
        let preimage = canonical_preimage(pubkey.as_str(), created_at, kind, &tags, content.as_str());
        let digest = sha256(preimage.as_str());
        let id = hex_encode(&digest);
        let sig_bytes = schnorr_sign(&key.bytes, &digest);
        let sig = hex_encode(&sig_bytes);
        let event = Event { id, pubkey, created_at, kind, tags, content, sig };
        proof {
            lemma_hex_round_trip(pubkey_bytes@);
            lemma_hex_round_trip(digest@);
            lemma_hex_round_trip(sig_bytes@);
        }
        event
    }

    /// Builds and signs an event, capturing the current Unix time as its
    /// creation time. Apart from the captured time the result is pinned the
    /// same way as with an explicit time.
    pub fn new(key: &IdentityKey, content: String, kind: u32, tags: Vec<Vec<String>>) -> (r: Event)
        requires
            key.wf(),
        ensures
            r.pubkey@ == hex_chars(pubkey_of(key@)),
            r.kind == kind,
            r.tags.deep_view() == tags.deep_view(),
            r.content@ == content@,
            r.id@ == hex_chars(sha256_of(event_preimage(r))),
            r.sig@ == hex_chars(schnorr_sig_of(key@, sha256_of(event_preimage(r)))),
            r.pubkey@.len() == 64,
            r.id@.len() == 64,
            r.sig@.len() == 128,
            id_correct(r),
            sig_correct(r),
    {
        let created_at = now_unix_seconds();
        Event::new_at(key, content, kind, tags, created_at)
    }

    /// Recomputes the identifier from the event's own fields.
    pub fn calculate_id(&self) -> (r: String)
        ensures
            r@ == hex_chars(sha256_of(event_preimage(*self))),
    {
        let preimage = canonical_preimage(
            self.pubkey.as_str(),
            self.created_at,
            self.kind,
            &self.tags,
            self.content.as_str(),
        );
        let digest = sha256(preimage.as_str());
        hex_encode(&digest)
    }

    /// Checks the signature against the public key over the identifier's
    /// raw bytes.
    pub fn verify_signature(&self) -> (r: bool)
        ensures
            r == sig_correct(*self),
    {
        let pk = hex_decode(self.pubkey.as_str());
        let msg = hex_decode(self.id.as_str());
        let sig = hex_decode(self.sig.as_str());
        match (pk, msg, sig) {
            (Some(pk), Some(msg), Some(sig)) => schnorr_verify(&pk, &msg, &sig),
            _ => false,
        }
    }
}

/// Signing is deterministic: no auxiliary randomness enters, so two
/// events signed with the same key over the same canonical preimage carry
/// identical signature text.
pub proof fn lemma_sign_deterministic(e1: Event, e2: Event, key: Seq<u8>)
    requires
        e1.sig@ == hex_chars(schnorr_sig_of(key, sha256_of(event_preimage(e1)))),
        e2.sig@ == hex_chars(schnorr_sig_of(key, sha256_of(event_preimage(e2)))),
        event_preimage(e1) == event_preimage(e2),
    ensures
        e1.sig@ == e2.sig@,
{
}

/// The content of an identity-metadata event: a JSON object with the
/// recognized profile keys.
pub open spec fn profile_content_chars(
    name: Seq<char>,
    about: Seq<char>,
    picture: Seq<char>,
    nip05: Seq<char>,
) -> Seq<char> {
    "{\"name\":"@ + json_string_chars(name) + ",\"about\":"@ + json_string_chars(about)
        + ",\"picture\":"@ + json_string_chars(picture) + ",\"nip05\":"@ + json_string_chars(nip05)
        + "}"@
}

/// Builds the content of an identity-metadata event.
pub fn profile_content(name: &str, about: &str, picture: &str, nip05: &str) -> (r: String)
    ensures
        r@ == profile_content_chars(name@, about@, picture@, nip05@),
{
    let mut out = String::new();
    out.append("{\"name\":");
    append_json_string(&mut out, name);
    out.append(",\"about\":");
    append_json_string(&mut out, about);
    out.append(",\"picture\":");
    append_json_string(&mut out, picture);
    out.append(",\"nip05\":");
    append_json_string(&mut out, nip05);
    out.append("}");
    proof {
        assert(out@ =~= profile_content_chars(name@, about@, picture@, nip05@));
    }
    out
}

/// Relies on std::time::SystemTime::now: the current Unix time in whole
/// seconds. Nothing is promised of the clock's value.
#[verifier::external_body]
fn now_unix_seconds() -> u64 {
    match std::time::SystemTime::now().duration_since(std::time::UNIX_EPOCH) {
        Ok(elapsed) => elapsed.as_secs(),
        Err(_) => 0,
    }
}

} // verus!

