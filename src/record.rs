use vstd::prelude::*;

use crate::frame::{LONG_FRAME_LEN, SHORT_FRAME_LEN};
use crate::hex::{
    decode_hex, hex_bytes, hex_text, is_hex_text, lemma_hex_round_trip, lemma_hex_text_len,
    push_hex,
};

verus! {

/// The wire form of a frame: `*`, the lowercase hex of its bytes, `;` and a newline.
pub open spec fn record_text(frame: Seq<u8>) -> Seq<char> {
    seq!['*'] + hex_text(frame) + seq![';', '\n']
}

/// Renders a frame as its wire record.
pub fn render_record(frame: &[u8]) -> (r: String)
    ensures
        r@ == record_text(frame@),
{
    let mut out = String::from_str("*");
    proof {
        reveal_strlit("*");
    }
    push_hex(&mut out, frame);
    out.append(";\n");
    proof {
        reveal_strlit(";\n");
        assert(out@ =~= record_text(frame@));
    }
    out
}

/// The hex digits between the leading `*` and the trailing `;` and newline.
pub open spec fn record_body(s: Seq<char>) -> Seq<char> {
    s.subrange(1, s.len() - 2)
}

/// Whether the text is a well-formed wire record: `*`, the hex of a short or
/// long frame, `;` and a newline.
pub open spec fn is_record(s: Seq<char>) -> bool {
    &&& s.len() >= 3
    &&& s[0] == '*'
    &&& s[s.len() - 2] == ';'
    &&& s[s.len() - 1] == '\n'
    &&& is_hex_text(record_body(s))
    &&& (record_body(s).len() == 2 * SHORT_FRAME_LEN || record_body(s).len() == 2 * LONG_FRAME_LEN)
}

/// The frame a wire record carries, if it is well formed.
pub open spec fn record_frame(s: Seq<char>) -> Option<Seq<u8>> {
    if is_record(s) {
        Some(hex_bytes(record_body(s)))
    } else {
        None
    }
}

/// Reads a wire record back into the frame it carries.
pub fn parse_record(s: &str) -> (r: Option<Vec<u8>>)
    ensures
        r is Some <==> is_record(s@),
        r matches Some(v) ==> Some(v@) == record_frame(s@),
{
    let n = s.unicode_len();
    if n < 3 || s.get_char(0) != '*' || s.get_char(n - 2) != ';' || s.get_char(n - 1) != '\n' {
        return None;
    }
    let body = s.substring_char(1, n - 2);
    let digits = body.unicode_len();
    if digits != 2 * SHORT_FRAME_LEN && digits != 2 * LONG_FRAME_LEN {
        return None;
    }
    decode_hex(body)
}

/// Parsing the wire record of a short or long frame gives back that frame.
pub proof fn lemma_record_round_trip(frame: Seq<u8>)
    requires
        frame.len() == SHORT_FRAME_LEN || frame.len() == LONG_FRAME_LEN,
    ensures
        is_record(record_text(frame)),
        record_frame(record_text(frame)) == Some(frame),
{
    let t = record_text(frame);
    lemma_hex_text_len(frame);
    lemma_hex_round_trip(frame);
    assert(record_body(t) =~= hex_text(frame));
}

} // verus!
