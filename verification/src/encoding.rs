//! Text encodings used on the wire: lowercase hexadecimal for byte strings,
//! decimal for integers, and JSON string escaping.
//!
//! Identifiers, public keys and signatures travel as lowercase hex strings.
//! The JSON escaping here is the canonical one required of the hash
//! preimage: `"` and `\` get a backslash, control characters below 0x20 get
//! their short escape (`\b`, `\t`, `\n`, `\f`, `\r`) or `\u00XX` with
//! lowercase hex digits, and every other character stands verbatim.

use vstd::prelude::*;
use vstd::string::StrSliceExecFns;
use vstd::string::StringExecFns;

verus! {

/// The lowercase hex digit for a value below 16.
pub open spec fn hex_digit_char(d: u8) -> char
    recommends
        d < 16,
{
    if d == 0 {
        '0'
    } else if d == 1 {
        '1'
    } else if d == 2 {
        '2'
    } else if d == 3 {
        '3'
    } else if d == 4 {
        '4'
    } else if d == 5 {
        '5'
    } else if d == 6 {
        '6'
    } else if d == 7 {
        '7'
    } else if d == 8 {
        '8'
    } else if d == 9 {
        '9'
    } else if d == 10 {
        'a'
    } else if d == 11 {
        'b'
    } else if d == 12 {
        'c'
    } else if d == 13 {
        'd'
    } else if d == 14 {
        'e'
    } else {
        'f'
    }
}

/// Lowercase hex text of a byte string: two digits per byte, high nibble
/// first.
pub open spec fn hex_chars(bytes: Seq<u8>) -> Seq<char>
    decreases bytes.len(),
{
    if bytes.len() == 0 {
        Seq::empty()
    } else {
        hex_chars(bytes.drop_last()) + seq![
            hex_digit_char(bytes.last() / 16),
            hex_digit_char(bytes.last() % 16),
        ]
    }
}

/// A one-character string slice for a hex digit value.
fn hex_digit_str(d: u8) -> (r: &'static str)
    requires
        d < 16,
    ensures
        r@ == seq![hex_digit_char(d)],
{
    proof {
        reveal_strlit("0");
        reveal_strlit("1");
        reveal_strlit("2");
        reveal_strlit("3");
        reveal_strlit("4");
        reveal_strlit("5");
        reveal_strlit("6");
        reveal_strlit("7");
        reveal_strlit("8");
        reveal_strlit("9");
        reveal_strlit("a");
        reveal_strlit("b");
        reveal_strlit("c");
        reveal_strlit("d");
        reveal_strlit("e");
        reveal_strlit("f");
    }
    if d == 0 {
        "0"
    } else if d == 1 {
        "1"
    } else if d == 2 {
        "2"
    } else if d == 3 {
        "3"
    } else if d == 4 {
        "4"
    } else if d == 5 {
        "5"
    } else if d == 6 {
        "6"
    } else if d == 7 {
        "7"
    } else if d == 8 {
        "8"
    } else if d == 9 {
        "9"
    } else if d == 10 {
        "a"
    } else if d == 11 {
        "b"
    } else if d == 12 {
        "c"
    } else if d == 13 {
        "d"
    } else if d == 14 {
        "e"
    } else {
        "f"
    }
}

/// Encodes a byte string as lowercase hex text.
pub fn hex_encode(bytes: &Vec<u8>) -> (r: String)
    ensures
        r@ == hex_chars(bytes@),
        r@.len() == 2 * bytes@.len(),
{
    let mut out = String::new();
    let mut i: usize = 0;
    proof {
        assert(bytes@.take(0) =~= Seq::<u8>::empty());
    }
    while i < bytes.len()
        invariant
            i <= bytes@.len(),
            out@ == hex_chars(bytes@.take(i as int)),
            out@.len() == 2 * i,
        decreases bytes@.len() - i,
    {
        let b = bytes[i];
        out.append(hex_digit_str(b / 16));
        out.append(hex_digit_str(b % 16));
        i = i + 1;
        proof {
            assert(bytes@.take(i as int).drop_last() =~= bytes@.take(i - 1));
            assert(bytes@.take(i as int).last() == bytes@[i - 1]);
        }
    }
    proof {
        assert(bytes@.take(bytes@.len() as int) =~= bytes@);
    }
    out
}

/// The value of a hex digit character; both cases are accepted.
pub open spec fn hex_val(c: char) -> Option<u8> {
    let u = c as u32;
    if 48 <= u <= 57 {
        Some((u - 48) as u8)
    } else if 97 <= u <= 102 {
        Some((u - 87) as u8)
    } else if 65 <= u <= 70 {
        Some((u - 55) as u8)
    } else {
        None
    }
}

/// The byte string a hex text stands for: `None` unless the text has even
/// length and holds hex digits only.
pub open spec fn hex_decode_chars(s: Seq<char>) -> Option<Seq<u8>>
    decreases s.len(),
{
    if s.len() % 2 != 0 {
        None
    } else if s.len() == 0 {
        Some(Seq::empty())
    } else {
        match (hex_decode_chars(s.take(s.len() - 2)), hex_val(s[s.len() - 2]), hex_val(
            s.last(),
        )) {
            (Some(prefix), Some(hi), Some(lo)) => Some(prefix.push((16 * hi + lo) as u8)),
            _ => None,
        }
    }
}

/// Decoding undoes encoding: the hex text of a byte string decodes back to
/// that byte string.
pub proof fn lemma_hex_round_trip(bytes: Seq<u8>)
    ensures
        hex_decode_chars(hex_chars(bytes)) == Some(bytes),
    decreases bytes.len(),
{
    if bytes.len() == 0 {
        assert(hex_chars(bytes).len() == 0);
    } else {
        lemma_hex_round_trip(bytes.drop_last());
        let s = hex_chars(bytes);
        let b = bytes.last();
        assert(s == hex_chars(bytes.drop_last()) + seq![
            hex_digit_char(b / 16),
            hex_digit_char(b % 16),
        ]);
        lemma_hex_chars_len(bytes.drop_last());
        lemma_hex_chars_len(bytes);
        assert(s.take(s.len() - 2) =~= hex_chars(bytes.drop_last()));
        assert(s[s.len() - 2] == hex_digit_char(b / 16));
        assert(s.last() == hex_digit_char(b % 16));
        assert(hex_val(hex_digit_char(b / 16)) == Some((b / 16) as u8));
        assert(hex_val(hex_digit_char(b % 16)) == Some((b % 16) as u8));
        assert(16 * (b / 16) + (b % 16) == b) by {
            assert(b == 16 * (b / 16) + b % 16);
        }
        assert(hex_decode_chars(s) == Some(bytes.drop_last().push(b)));
        assert(bytes.drop_last().push(b) =~= bytes);
    }
}

/// The hex text of a byte string is twice as long.
pub proof fn lemma_hex_chars_len(bytes: Seq<u8>)
    ensures
        hex_chars(bytes).len() == 2 * bytes.len(),
    decreases bytes.len(),
{
    if bytes.len() > 0 {
        lemma_hex_chars_len(bytes.drop_last());
    }
}

/// A decode of any even-length prefix that fails makes the decode of the
/// whole text fail.
proof fn lemma_hex_decode_none_prefix(s: Seq<char>, j: int)
    requires
        s.len() % 2 == 0,
        0 <= j <= s.len(),
        j % 2 == 0,
        hex_decode_chars(s.take(j)) is None,
    ensures
        hex_decode_chars(s) is None,
    decreases s.len() - j,
{
    if j == s.len() {
        assert(s.take(j) =~= s);
    } else {
        assert(hex_decode_chars(s.take(j + 2)) is None) by {
            assert(s.take(j + 2).take(j) =~= s.take(j));
        }
        lemma_hex_decode_none_prefix(s, j + 2);
    }
}

/// The value of a hex digit character; both cases are accepted.
pub(crate) fn hex_val_exec(c: char) -> (r: Option<u8>)
    ensures
        r == hex_val(c),
{
    let u = c as u32;
    if 48 <= u && u <= 57 {
        Some((u - 48) as u8)
    } else if 97 <= u && u <= 102 {
        Some((u - 87) as u8)
    } else if 65 <= u && u <= 70 {
        Some((u - 55) as u8)
    } else {
        None
    }
}

/// Decodes hex text to the byte string it stands for, or `None` if the text
/// is not hex of even length.
pub fn hex_decode(s: &str) -> (r: Option<Vec<u8>>)
    ensures
        match r {
            Some(bytes) => hex_decode_chars(s@) == Some(bytes@),
            None => hex_decode_chars(s@) is None,
        },
{
    let n = s.unicode_len();
    if n % 2 != 0 {
        return None;
    }
    let mut out: Vec<u8> = Vec::new();
    let mut i: usize = 0;
    proof {
        assert(s@.take(0) =~= Seq::<char>::empty());
    }
    while i < n
        invariant
            i % 2 == 0,
            i <= n == s@.len(),
            n % 2 == 0,
            hex_decode_chars(s@.take(i as int)) == Some(out@),
        decreases n - i,
    {
        let hi = hex_val_exec(s.get_char(i));
        let lo = hex_val_exec(s.get_char(i + 1));
        match (hi, lo) {
            (Some(h), Some(l)) => {
                out.push(16 * h + l);
                i = i + 2;
                proof {
                    assert(s@.take(i as int).take(i - 2) =~= s@.take(i - 2));
                    assert(s@.take(i as int)[i - 2] == s@[i - 2]);
                    assert(s@.take(i as int).last() == s@[i - 1]);
                }
            },
            _ => {
                proof {
                    assert(hex_decode_chars(s@.take(i + 2)) is None) by {
                        assert(s@.take(i + 2).take(i as int) =~= s@.take(i as int));
                    }
                    lemma_hex_decode_none_prefix(s@, i + 2);
                }
                return None;
            },
        }
    }
    proof {
        assert(s@.take(n as int) =~= s@);
    }
    Some(out)
}

/// Decimal text of an integer, most significant digit first, no leading
/// zeros.
pub open spec fn dec_chars(n: nat) -> Seq<char>
    decreases n,
{
    if n < 10 {
        seq![hex_digit_char(n as u8)]
    } else {
        dec_chars(n / 10) + seq![hex_digit_char((n % 10) as u8)]
    }
}

/// Appends the decimal text of `n`.
pub fn append_dec_u64(out: &mut String, n: u64)
    ensures
        final(out)@ == old(out)@ + dec_chars(n as nat),
    decreases n,
{
    if n < 10 {
        out.append(hex_digit_str(n as u8));
    } else {
        append_dec_u64(out, n / 10);
        out.append(hex_digit_str((n % 10) as u8));
    }
}

/// A character the canonical JSON encoding escapes: the quote, the
/// backslash, and every control character below 0x20.
pub open spec fn is_json_escaped(c: char) -> bool {
    c == '"' || c == '\\' || (c as u32) < 0x20
}

/// The canonical JSON encoding of one character.
pub open spec fn escaped_char(c: char) -> Seq<char> {
    if c == '"' {
        seq!['\\', '"']
    } else if c == '\\' {
        seq!['\\', '\\']
    } else if c == '\u{8}' {
        seq!['\\', 'b']
    } else if c == '\t' {
        seq!['\\', 't']
    } else if c == '\n' {
        seq!['\\', 'n']
    } else if c == '\u{c}' {
        seq!['\\', 'f']
    } else if c == '\r' {
        seq!['\\', 'r']
    } else if (c as u32) < 0x20 {
        seq!['\\', 'u', '0', '0', hex_digit_char((c as u32 / 16) as u8), hex_digit_char(
            (c as u32 % 16) as u8,
        )]
    } else {
        seq![c]
    }
}

/// The canonical JSON encoding of a character sequence, escapes applied,
/// without the surrounding quotes.
pub open spec fn escape_chars(s: Seq<char>) -> Seq<char>
    decreases s.len(),
{
    if s.len() == 0 {
        Seq::empty()
    } else {
        escape_chars(s.drop_last()) + escaped_char(s.last())
    }
}

/// The canonical JSON string for a character sequence: quoted and escaped.
pub open spec fn json_string_chars(s: Seq<char>) -> Seq<char> {
    seq!['"'] + escape_chars(s) + seq!['"']
}

/// Appends the escape sequence of one character that needs escaping.
fn append_escape(out: &mut String, c: char)
    requires
        is_json_escaped(c),
    ensures
        final(out)@ == old(out)@ + escaped_char(c),
{
    proof {
        reveal_strlit("\\\"");
        reveal_strlit("\\\\");
        reveal_strlit("\\b");
        reveal_strlit("\\t");
        reveal_strlit("\\n");
        reveal_strlit("\\f");
        reveal_strlit("\\r");
        reveal_strlit("\\u00");
    }
    if c == '"' {
        out.append("\\\"");
    } else if c == '\\' {
        out.append("\\\\");
    } else if c == '\u{8}' {
        out.append("\\b");
    } else if c == '\t' {
        out.append("\\t");
    } else if c == '\n' {
        out.append("\\n");
    } else if c == '\u{c}' {
        out.append("\\f");
    } else if c == '\r' {
        out.append("\\r");
    } else {
        out.append("\\u00");
        out.append(hex_digit_str((c as u32 / 16) as u8));
        out.append(hex_digit_str((c as u32 % 16) as u8));
    }
}

/// Splitting a sequence splits its escaped text.
proof fn lemma_escape_chars_snoc(s: Seq<char>, i: int)
    requires
        0 <= i < s.len(),
    ensures
        escape_chars(s.take(i + 1)) == escape_chars(s.take(i)) + escaped_char(s[i]),
{
    assert(s.take(i + 1).drop_last() =~= s.take(i));
    assert(s.take(i + 1).last() == s[i]);
}

/// A run of characters that need no escape stands verbatim in the escaped
/// text.
proof fn lemma_escape_chars_plain_run(s: Seq<char>, from: int, to: int)
    requires
        0 <= from <= to <= s.len(),
        forall|k: int| from <= k < to ==> !is_json_escaped(#[trigger] s[k]),
    ensures
        escape_chars(s.take(to)) == escape_chars(s.take(from)) + s.subrange(from, to),
    decreases to - from,
{
    if from == to {
        assert(escape_chars(s.take(to)) =~= escape_chars(s.take(from)) + s.subrange(from, to));
    } else {
        lemma_escape_chars_plain_run(s, from, to - 1);
        lemma_escape_chars_snoc(s, to - 1);
        assert(escaped_char(s[to - 1]) == seq![s[to - 1]]);
        assert(escape_chars(s.take(from)) + s.subrange(from, to - 1) + seq![s[to - 1]]
            =~= escape_chars(s.take(from)) + s.subrange(from, to));
    }
}

/// Appends the canonical JSON string for `s`: quoted, with escapes applied.
pub fn append_json_string(out: &mut String, s: &str)
    ensures
        final(out)@ == old(out)@ + json_string_chars(s@),
{
    proof {
        reveal_strlit("\"");
    }
    out.append("\"");
    let n = s.unicode_len();
    let mut i: usize = 0;
    let mut run_start: usize = 0;
    proof {
        assert(s@.take(0) =~= Seq::<char>::empty());
        assert(out@ =~= old(out)@ + seq!['"'] + escape_chars(s@.take(0)));
    }
    while i < n
        invariant
            run_start <= i <= n == s@.len(),
            forall|k: int| run_start <= k < i ==> !is_json_escaped(#[trigger] s@[k]),
            out@ == old(out)@ + seq!['"'] + escape_chars(s@.take(run_start as int)),
        decreases n - i,
    {
        let c = s.get_char(i);
        let u = c as u32;
        if c == '"' || c == '\\' || u < 0x20 {
            let flushed = s.substring_char(run_start, i);
            out.append(flushed);
            append_escape(out, c);
            proof {
                lemma_escape_chars_plain_run(s@, run_start as int, i as int);
                lemma_escape_chars_snoc(s@, i as int);
                assert(out@ =~= old(out)@ + seq!['"'] + escape_chars(s@.take(i + 1)));
            }
            run_start = i + 1;
        }
        i = i + 1;
    }
    let tail = s.substring_char(run_start, n);
    out.append(tail);
    out.append("\"");
    proof {
        lemma_escape_chars_plain_run(s@, run_start as int, n as int);
        assert(s@.take(n as int) =~= s@);
        assert(out@ =~= old(out)@ + json_string_chars(s@));
    }
}

} // verus!
