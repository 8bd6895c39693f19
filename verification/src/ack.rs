//! Parsing a relay's reply frame.
//!
//! After publishing, a relay answers with one text frame. The only shape
//! that matters is the four-element acknowledgment array
//! `["OK",<event-id>,<accepted>,<message>]`: when `accepted` is false the
//! event was refused with the given reason. Every other frame (a notice,
//! another array shape, malformed text) is no acknowledgment and is
//! ignored.
//!
//! The grammar is JSON restricted to that shape: optional whitespace
//! between tokens, strings with the simple escapes (`\"` `\\` `\/` `\b`
//! `\f` `\n` `\r` `\t`), and `\uXXXX` escapes carried through verbatim
//! rather than decoded.

use vstd::prelude::*;
use vstd::string::StrSliceExecFns;
use vstd::string::StringExecFns;

use crate::encoding::hex_val;

verus! {

/// JSON whitespace.
pub open spec fn is_ws(c: char) -> bool {
    c == ' ' || c == '\t' || c == '\n' || c == '\r'
}

/// The first position at or after `i` that holds no whitespace.
pub open spec fn skip_ws(s: Seq<char>, i: int) -> int
    decreases s.len() - i,
{
    if 0 <= i < s.len() && is_ws(s[i]) {
        skip_ws(s, i + 1)
    } else {
        i
    }
}

/// Skipping whitespace stays within the text.
pub proof fn lemma_skip_ws_bounds(s: Seq<char>, i: int)
    requires
        0 <= i <= s.len(),
    ensures
        i <= skip_ws(s, i) <= s.len(),
    decreases s.len() - i,
{
    if i < s.len() && is_ws(s[i]) {
        lemma_skip_ws_bounds(s, i + 1);
    }
}

/// Four hex digits stand at `i`.
pub open spec fn four_hex_at(s: Seq<char>, i: int) -> bool {
    &&& hex_val(s[i]) is Some
    &&& hex_val(s[i + 1]) is Some
    &&& hex_val(s[i + 2]) is Some
    &&& hex_val(s[i + 3]) is Some
}

/// Scans a JSON string body starting at `i` (just after the opening
/// quote), accumulating the unescaped content onto `acc`: the position
/// after the closing quote and the content, or `None` if the text to the
/// end of input is no well-formed string body. A `\uXXXX` escape is kept
/// verbatim in the content.
pub open spec fn scan_string(s: Seq<char>, i: int, acc: Seq<char>) -> Option<(int, Seq<char>)>
    decreases s.len() - i,
{
    if i < 0 || i >= s.len() {
        None
    } else {
        let c = s[i];
        if c == '"' {
            Some((i + 1, acc))
        } else if c == '\\' {
            if i + 1 < s.len() {
                let e = s[i + 1];
                if e == '"' {
                    scan_string(s, i + 2, acc.push('"'))
                } else if e == '\\' {
                    scan_string(s, i + 2, acc.push('\\'))
                } else if e == '/' {
                    scan_string(s, i + 2, acc.push('/'))
                } else if e == 'b' {
                    scan_string(s, i + 2, acc.push('\u{8}'))
                } else if e == 'f' {
                    scan_string(s, i + 2, acc.push('\u{c}'))
                } else if e == 'n' {
                    scan_string(s, i + 2, acc.push('\n'))
                } else if e == 'r' {
                    scan_string(s, i + 2, acc.push('\r'))
                } else if e == 't' {
                    scan_string(s, i + 2, acc.push('\t'))
                } else if e == 'u' && i + 6 <= s.len() && four_hex_at(s, i + 2) {
                    scan_string(s, i + 6, acc + s.subrange(i, i + 6))
                } else {
                    None
                }
            } else {
                None
            }
        } else if (c as u32) < 0x20 {
            None
        } else {
            scan_string(s, i + 1, acc.push(c))
        }
    }
}

/// A scanned string ends after its starting point and within the text.
pub proof fn lemma_scan_string_bounds(s: Seq<char>, i: int, acc: Seq<char>)
    requires
        0 <= i <= s.len(),
        scan_string(s, i, acc) is Some,
    ensures
        i < scan_string(s, i, acc).unwrap().0 <= s.len(),
    decreases s.len() - i,
{
    if i < s.len() {
        let c = s[i];
        if c == '"' {
        } else if c == '\\' {
            if i + 1 < s.len() {
                let e = s[i + 1];
                if e == 'u' && i + 6 <= s.len() && four_hex_at(s, i + 2) {
                    lemma_scan_string_bounds(s, i + 6, acc + s.subrange(i, i + 6));
                } else if e == '"' {
                    lemma_scan_string_bounds(s, i + 2, acc.push('"'));
                } else if e == '\\' {
                    lemma_scan_string_bounds(s, i + 2, acc.push('\\'));
                } else if e == '/' {
                    lemma_scan_string_bounds(s, i + 2, acc.push('/'));
                } else if e == 'b' {
                    lemma_scan_string_bounds(s, i + 2, acc.push('\u{8}'));
                } else if e == 'f' {
                    lemma_scan_string_bounds(s, i + 2, acc.push('\u{c}'));
                } else if e == 'n' {
                    lemma_scan_string_bounds(s, i + 2, acc.push('\n'));
                } else if e == 'r' {
                    lemma_scan_string_bounds(s, i + 2, acc.push('\r'));
                } else if e == 't' {
                    lemma_scan_string_bounds(s, i + 2, acc.push('\t'));
                }
            }
        } else if (c as u32) < 0x20 {
        } else {
            lemma_scan_string_bounds(s, i + 1, acc.push(c));
        }
    }
}

/// Position after one expected punctuation character, whitespace allowed
/// before it.
pub open spec fn after_char(s: Seq<char>, i: int, c: char) -> Option<int> {
    let j = skip_ws(s, i);
    if j < s.len() && s[j] == c {
        Some(j + 1)
    } else {
        None
    }
}

/// Position after a JSON string element, and its content, whitespace
/// allowed before it.
pub open spec fn next_string(s: Seq<char>, i: int) -> Option<(int, Seq<char>)> {
    let j = skip_ws(s, i);
    if j < s.len() && s[j] == '"' {
        scan_string(s, j + 1, Seq::empty())
    } else {
        None
    }
}

/// Position after a JSON boolean, and its value, whitespace allowed before
/// it.
pub open spec fn next_bool(s: Seq<char>, i: int) -> Option<(int, bool)> {
    let j = skip_ws(s, i);
    if j + 4 <= s.len() && s.subrange(j, j + 4) == seq!['t', 'r', 'u', 'e'] {
        Some((j + 4, true))
    } else if j + 5 <= s.len() && s.subrange(j, j + 5) == seq!['f', 'a', 'l', 's', 'e'] {
        Some((j + 5, false))
    } else {
        None
    }
}

/// Reads a whole frame as the acknowledgment array
/// `["OK",<id string>,<boolean>,<message string>]` with nothing but
/// whitespace around the tokens: the accepted flag and the message, or
/// `None` for a frame of any other shape.
pub open spec fn parse_ok_frame(s: Seq<char>) -> Option<(bool, Seq<char>)> {
    match after_char(s, 0, '[') {
        None => None,
        Some(i) => match next_string(s, i) {
            None => None,
            Some((i, name)) => if name != seq!['O', 'K'] {
                None
            } else {
                match after_char(s, i, ',') {
                    None => None,
                    Some(i) => match next_string(s, i) {
                        None => None,
                        Some((i, _id)) => match after_char(s, i, ',') {
                            None => None,
                            Some(i) => match next_bool(s, i) {
                                None => None,
                                Some((i, accepted)) => match after_char(s, i, ',') {
                                    None => None,
                                    Some(i) => match next_string(s, i) {
                                        None => None,
                                        Some((i, msg)) => match after_char(s, i, ']') {
                                            None => None,
                                            Some(i) => if skip_ws(s, i) == s.len() {
                                                Some((accepted, msg))
                                            } else {
                                                None
                                            },
                                        },
                                    },
                                },
                            },
                        },
                    },
                }
            },
        },
    }
}

/// How a relay's reply frame bears on the published event.
#[derive(Debug, Clone)]
pub enum AckVerdict {
    /// The acknowledgment says the event was accepted.
    Accepted,
    /// The acknowledgment says the event was refused, with the relay's
    /// reason.
    Rejected(String),
    /// The frame is no acknowledgment: another shape, or malformed. It is
    /// ignored.
    NotAnAck,
}

/// The first position at or after `from` that holds no whitespace.
fn skip_ws_exec(s: &str, from: usize) -> (r: usize)
    requires
        from <= s@.len(),
    ensures
        r == skip_ws(s@, from as int),
        from <= r <= s@.len(),
{
    let n = s.unicode_len();
    let mut i = from;
    while i < n
        invariant
            from <= i <= n == s@.len(),
            skip_ws(s@, from as int) == skip_ws(s@, i as int),
        decreases n - i,
    {
        let c = s.get_char(i);
        if !(c == ' ' || c == '\t' || c == '\n' || c == '\r') {
            return i;
        }
        i = i + 1;
    }
    i
}

/// Scans a JSON string body starting just after the opening quote,
/// returning the position after the closing quote and the unescaped
/// content.
fn scan_string_exec(s: &str, start: usize) -> (r: Option<(usize, String)>)
    requires
        start <= s@.len(),
    ensures
        match r {
            Some(p) => scan_string(s@, start as int, Seq::empty()) == Some((p.0 as int, p.1@))
                && start < p.0 <= s@.len(),
            None => scan_string(s@, start as int, Seq::empty()) is None,
        },
{
    let n = s.unicode_len();
    let mut content = String::new();
    let mut i: usize = start;
    let mut run_start: usize = start;
    while i < n
        invariant
            start <= run_start <= i <= n == s@.len(),
            forall|k: int|
                run_start <= k < i ==> (#[trigger] s@[k]) != '"' && s@[k] != '\\' && (s@[k] as u32)
                    >= 0x20,
            scan_string(s@, start as int, Seq::empty()) == scan_string(
                s@,
                i as int,
                content@ + s@.subrange(run_start as int, i as int),
            ),
        decreases n - i,
    {
        let c = s.get_char(i);
        let u = c as u32;
        if c == '"' {
            let flushed = s.substring_char(run_start, i);
            content.append(flushed);
            return Some((i + 1, content));
        } else if c == '\\' {
            if i + 1 >= n {
                return None;
            }
            let ghost acc0 = content@ + s@.subrange(run_start as int, i as int);
            let e = s.get_char(i + 1);
            let flushed = s.substring_char(run_start, i);
            content.append(flushed);
            proof {
                assert(content@ == acc0);
            }
            if e == '"' {
                content.append("\"");
                proof {
                    reveal_strlit("\"");
                    assert(content@ =~= acc0.push('"'));
                }
            } else if e == '\\' {
                content.append("\\");
                proof {
                    reveal_strlit("\\");
                    assert(content@ =~= acc0.push('\\'));
                }
            } else if e == '/' {
                content.append("/");
                proof {
                    reveal_strlit("/");
                    assert(content@ =~= acc0.push('/'));
                }
            } else if e == 'b' {
                content.append("\u{8}");
                proof {
                    reveal_strlit("\u{8}");
                    assert(content@ =~= acc0.push('\u{8}'));
                }
            } else if e == 'f' {
                content.append("\u{c}");
                proof {
                    reveal_strlit("\u{c}");
                    assert(content@ =~= acc0.push('\u{c}'));
                }
            } else if e == 'n' {
                content.append("\n");
                proof {
                    reveal_strlit("\n");
                    assert(content@ =~= acc0.push('\n'));
                }
            } else if e == 'r' {
                content.append("\r");
                proof {
                    reveal_strlit("\r");
                    assert(content@ =~= acc0.push('\r'));
                }
            } else if e == 't' {
                content.append("\t");
                proof {
                    reveal_strlit("\t");
                    assert(content@ =~= acc0.push('\t'));
                }
            } else if e == 'u' {
                if n - i < 6 {
                    return None;
                }
                let h0 = crate::encoding::hex_val_exec(s.get_char(i + 2));
                let h1 = crate::encoding::hex_val_exec(s.get_char(i + 3));
                let h2 = crate::encoding::hex_val_exec(s.get_char(i + 4));
                let h3 = crate::encoding::hex_val_exec(s.get_char(i + 5));
                if !(h0.is_some() && h1.is_some() && h2.is_some() && h3.is_some()) {
                    return None;
                }
                let verbatim = s.substring_char(i, i + 6);
                content.append(verbatim);
                proof {
                    assert(content@ =~= acc0 + s@.subrange(i as int, i + 6));
                }
                i = i + 6;
                run_start = i;
                proof {
                    assert(content@ + s@.subrange(run_start as int, i as int) =~= content@);
                }
                continue;
            } else {
                return None;
            }
            i = i + 2;
            run_start = i;
            proof {
                assert(content@ + s@.subrange(run_start as int, i as int) =~= content@);
            }
        } else if u < 0x20 {
            return None;
        } else {
            proof {
                assert(content@ + s@.subrange(run_start as int, i + 1) =~= (content@ + s@.subrange(
                    run_start as int,
                    i as int,
                )).push(s@[i as int]));
            }
            i = i + 1;
        }
    }
    None
}

/// Position after one expected punctuation character, whitespace allowed
/// before it.
fn after_char_exec(s: &str, from: usize, c: char) -> (r: Option<usize>)
    requires
        from <= s@.len(),
    ensures
        match r {
            Some(j) => after_char(s@, from as int, c) == Some(j as int) && j <= s@.len(),
            None => after_char(s@, from as int, c) is None,
        },
{
    let j = skip_ws_exec(s, from);
    if j < s.unicode_len() {
        if s.get_char(j) == c {
            return Some(j + 1);
        }
    }
    None
}

/// Position after a JSON string element, and its content, whitespace
/// allowed before it.
fn next_string_exec(s: &str, from: usize) -> (r: Option<(usize, String)>)
    requires
        from <= s@.len(),
    ensures
        match r {
            Some(p) => next_string(s@, from as int) == Some((p.0 as int, p.1@)) && p.0 <= s@.len(),
            None => next_string(s@, from as int) is None,
        },
{
    let j = skip_ws_exec(s, from);
    if j < s.unicode_len() && s.get_char(j) == '"' {
        scan_string_exec(s, j + 1)
    } else {
        None
    }
}

/// Position after a JSON boolean, and its value, whitespace allowed before
/// it.
fn next_bool_exec(s: &str, from: usize) -> (r: Option<(usize, bool)>)
    requires
        from <= s@.len(),
    ensures
        match r {
            Some(p) => next_bool(s@, from as int) == Some((p.0 as int, p.1)) && p.0 <= s@.len(),
            None => next_bool(s@, from as int) is None,
        },
{
    let j = skip_ws_exec(s, from);
    let n = s.unicode_len();
    if n - j >= 4 && s.get_char(j) == 't' && s.get_char(j + 1) == 'r' && s.get_char(j + 2) == 'u'
        && s.get_char(j + 3) == 'e' {
        proof {
            assert(s@.subrange(j as int, j + 4) =~= seq!['t', 'r', 'u', 'e']);
        }
        Some((j + 4, true))
    } else if n - j >= 5 && s.get_char(j) == 'f' && s.get_char(j + 1) == 'a' && s.get_char(j + 2)
        == 'l' && s.get_char(j + 3) == 's' && s.get_char(j + 4) == 'e' {
        proof {
            assert(s@.subrange(j as int, j + 5) =~= seq!['f', 'a', 'l', 's', 'e']);
            if j + 4 <= s@.len() && s@.subrange(j as int, j + 4) == seq!['t', 'r', 'u', 'e'] {
                assert(s@.subrange(j as int, j + 4)[0] == 't');
                assert(false);
            }
        }
        Some((j + 5, false))
    } else {
        proof {
            if j + 4 <= s@.len() && s@.subrange(j as int, j + 4) == seq!['t', 'r', 'u', 'e'] {
                assert(s@.subrange(j as int, j + 4)[0] == 't');
                assert(s@.subrange(j as int, j + 4)[1] == 'r');
                assert(s@.subrange(j as int, j + 4)[2] == 'u');
                assert(s@.subrange(j as int, j + 4)[3] == 'e');
                assert(false);
            }
            if j + 5 <= s@.len() && s@.subrange(j as int, j + 5) == seq!['f', 'a', 'l', 's', 'e'] {
                assert(s@.subrange(j as int, j + 5)[0] == 'f');
                assert(s@.subrange(j as int, j + 5)[1] == 'a');
                assert(s@.subrange(j as int, j + 5)[2] == 'l');
                assert(s@.subrange(j as int, j + 5)[3] == 's');
                assert(s@.subrange(j as int, j + 5)[4] == 'e');
                assert(false);
            }
        }
        None
    }
}

/// Reads a relay's reply frame and says how it bears on the published
/// event: `Accepted` or `Rejected` with the relay's reason exactly when the
/// frame is the four-element acknowledgment array, `NotAnAck` for every
/// other frame.
pub fn classify_ack(text: &str) -> (r: AckVerdict)
    ensures
        match parse_ok_frame(text@) {
            Some(p) => if p.0 {
                r is Accepted
            } else {
                r matches AckVerdict::Rejected(m) && m@ == p.1
            },
            None => r is NotAnAck,
        },
{
    proof {
        reveal_strlit("OK");
    }
    let i = match after_char_exec(text, 0, '[') {
        Some(i) => i,
        None => {
            return AckVerdict::NotAnAck;
        },
    };
    let (i, name) = match next_string_exec(text, i) {
        Some(p) => p,
        None => {
            return AckVerdict::NotAnAck;
        },
    };
    if !(name.as_str().unicode_len() == 2 && name.as_str().get_char(0) == 'O'
        && name.as_str().get_char(1) == 'K') {
        proof {
            if name@ == seq!['O', 'K'] {
                assert(name@.len() == 2);
                assert(name@[0] == 'O');
                assert(name@[1] == 'K');
            }
        }
        return AckVerdict::NotAnAck;
    }
    proof {
        assert(name@ =~= seq!['O', 'K']);
    }
    let i = match after_char_exec(text, i, ',') {
        Some(i) => i,
        None => {
            return AckVerdict::NotAnAck;
        },
    };
    let (i, _event_id) = match next_string_exec(text, i) {
        Some(p) => p,
        None => {
            return AckVerdict::NotAnAck;
        },
    };
    let i = match after_char_exec(text, i, ',') {
        Some(i) => i,
        None => {
            return AckVerdict::NotAnAck;
        },
    };
    let (i, accepted) = match next_bool_exec(text, i) {
        Some(p) => p,
        None => {
            return AckVerdict::NotAnAck;
        },
    };
    let i = match after_char_exec(text, i, ',') {
        Some(i) => i,
        None => {
            return AckVerdict::NotAnAck;
        },
    };
    let (i, message) = match next_string_exec(text, i) {
        Some(p) => p,
        None => {
            return AckVerdict::NotAnAck;
        },
    };
    let i = match after_char_exec(text, i, ']') {
        Some(i) => i,
        None => {
            return AckVerdict::NotAnAck;
        },
    };
    if skip_ws_exec(text, i) != text.unicode_len() {
        return AckVerdict::NotAnAck;
    }
    if accepted {
        AckVerdict::Accepted
    } else {
        AckVerdict::Rejected(message)
    }
}

} // verus!
