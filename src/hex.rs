use vstd::prelude::*;

verus! {

/// The sixteen lowercase hexadecimal digits, in order of value.
pub open spec fn hex_alphabet() -> Seq<char> {
    seq!['0', '1', '2', '3', '4', '5', '6', '7', '8', '9', 'a', 'b', 'c', 'd', 'e', 'f']
}

/// The lowercase digit for a value below sixteen.
pub open spec fn hex_digit(n: int) -> char {
    hex_alphabet()[n]
}

/// The two lowercase hexadecimal digits of a byte, high nibble first.
pub open spec fn hex_byte(b: u8) -> Seq<char> {
    seq![hex_digit(b as int / 16), hex_digit(b as int % 16)]
}

/// The lowercase hexadecimal text of a byte sequence, two digits per byte.
pub open spec fn hex_text(bytes: Seq<u8>) -> Seq<char>
    decreases bytes.len(),
{
    if bytes.len() == 0 {
        Seq::empty()
    } else {
        hex_text(bytes.drop_last()) + hex_byte(bytes.last())
    }
}

/// The value of a hexadecimal digit, upper or lower case.
pub open spec fn digit_value(c: char) -> Option<u8> {
    if '0' <= c && c <= '9' {
        Some((c as u32 - '0' as u32) as u8)
    } else if 'a' <= c && c <= 'f' {
        Some((c as u32 - 'a' as u32 + 10) as u8)
    } else if 'A' <= c && c <= 'F' {
        Some((c as u32 - 'A' as u32 + 10) as u8)
    } else {
        None
    }
}

/// Hexadecimal text has two characters per byte.
pub proof fn lemma_hex_text_len(bytes: Seq<u8>)
    ensures
        hex_text(bytes).len() == 2 * bytes.len(),
    decreases bytes.len(),
{
    if bytes.len() > 0 {
        lemma_hex_text_len(bytes.drop_last());
    }
}

/// Each byte occupies the two characters at twice its position.
pub proof fn lemma_hex_text_index(bytes: Seq<u8>, i: int)
    requires
        0 <= i < bytes.len(),
    ensures
        hex_text(bytes).len() == 2 * bytes.len(),
        hex_text(bytes)[2 * i] == hex_digit(bytes[i] as int / 16),
        hex_text(bytes)[2 * i + 1] == hex_digit(bytes[i] as int % 16),
    decreases bytes.len(),
{
    lemma_hex_text_len(bytes);
    lemma_hex_text_len(bytes.drop_last());
    if i < bytes.len() - 1 {
        lemma_hex_text_index(bytes.drop_last(), i);
    }
}

/// Reading a digit written for a value below sixteen gives that value.
proof fn lemma_digit_value(n: int)
    requires
        0 <= n < 16,
    ensures
        digit_value(hex_digit(n)) == Some(n as u8),
{
    assert(hex_alphabet()[n] == hex_alphabet().index(n));
}

/// Appends the lowercase digit of `n` to `out`.
fn push_hex_digit(out: &mut String, n: u8)
    requires
        n < 16,
    ensures
        final(out)@ == old(out)@.push(hex_digit(n as int)),
{
    let digits = "0123456789abcdef";
    proof {
        reveal_strlit("0123456789abcdef");
        assert(digits@ =~= hex_alphabet());
    }
    assert(digits.is_ascii());
    let d = digits.substring_ascii(n as usize, n as usize + 1);
    assert(d@ =~= seq![hex_digit(n as int)]);
    out.append(d);
}

/// Appends the two lowercase hexadecimal digits of each byte to `out`.
pub fn push_hex(out: &mut String, bytes: &[u8])
    ensures
        final(out)@ == old(out)@ + hex_text(bytes@),
{
    let mut i: usize = 0;
    while i < bytes.len()
        invariant
            i <= bytes@.len(),
            out@ == old(out)@ + hex_text(bytes@.subrange(0, i as int)),
        decreases bytes@.len() - i,
    {
        let b = bytes[i];
        push_hex_digit(out, b / 16);
        push_hex_digit(out, b % 16);
        proof {
            let next = bytes@.subrange(0, i + 1);
            assert(next.drop_last() =~= bytes@.subrange(0, i as int));
            assert(next.last() == b);
        }
        i = i + 1;
    }
    assert(bytes@.subrange(0, bytes@.len() as int) =~= bytes@);
}

/// Text made of whole pairs of hexadecimal digits.
pub open spec fn is_hex_text(s: Seq<char>) -> bool {
    &&& s.len() % 2 == 0
    &&& forall|i: int| 0 <= i < s.len() ==> #[trigger] digit_value(s[i]) is Some
}

/// The byte written by the digit pair at `2 * j`.
pub open spec fn hex_pair(s: Seq<char>, j: int) -> u8 {
    (digit_value(s[2 * j])->0 * 16 + digit_value(s[2 * j + 1])->0) as u8
}

/// The bytes written by hexadecimal text, one per digit pair.
pub open spec fn hex_bytes(s: Seq<char>) -> Seq<u8> {
    Seq::new((s.len() / 2) as nat, |j: int| hex_pair(s, j))
}

/// The value of a hexadecimal digit, upper or lower case.
pub fn hex_digit_value(c: char) -> (r: Option<u8>)
    ensures
        r == digit_value(c),
{
    if '0' <= c && c <= '9' {
        Some((c as u32 - '0' as u32) as u8)
    } else if 'a' <= c && c <= 'f' {
        Some((c as u32 - 'a' as u32 + 10) as u8)
    } else if 'A' <= c && c <= 'F' {
        Some((c as u32 - 'A' as u32 + 10) as u8)
    } else {
        None
    }
}

/// Reads hexadecimal text back into bytes; `None` when the text has an odd
/// number of characters or a character that is not a hexadecimal digit.
pub fn decode_hex(s: &str) -> (r: Option<Vec<u8>>)
    ensures
        r is Some <==> is_hex_text(s@),
        r matches Some(v) ==> v@ == hex_bytes(s@),
{
    let n = s.unicode_len();
    if n % 2 != 0 {
        return None;
    }
    let mut out: Vec<u8> = Vec::with_capacity(n / 2);
    let mut i: usize = 0;
    while i < n
        invariant
            n == s@.len(),
            n % 2 == 0,
            i % 2 == 0,
            i <= n,
            out@ =~= Seq::new((i / 2) as nat, |j: int| hex_pair(s@, j)),
            forall|j: int| 0 <= j < i ==> #[trigger] digit_value(s@[j]) is Some,
        decreases n - i,
    {
        let hi = hex_digit_value(s.get_char(i));
        let lo = hex_digit_value(s.get_char(i + 1));
        match (hi, lo) {
            (Some(h), Some(l)) => {
                assert(2 * (i as int / 2) == i);
                out.push(h * 16 + l);
            },
            _ => {
                assert(!is_hex_text(s@));
                return None;
            },
        }
        i = i + 2;
    }
    Some(out)
}

/// Reading back the hexadecimal text of any bytes gives those bytes.
pub proof fn lemma_hex_round_trip(bytes: Seq<u8>)
    ensures
        is_hex_text(hex_text(bytes)),
        hex_bytes(hex_text(bytes)) == bytes,
{
    let t = hex_text(bytes);
    lemma_hex_text_len(bytes);
    assert forall|i: int| 0 <= i < t.len() implies #[trigger] digit_value(t[i]) is Some by {
        let j = i / 2;
        lemma_hex_text_index(bytes, j);
        lemma_digit_value(bytes[j] as int / 16);
        lemma_digit_value(bytes[j] as int % 16);
    }
    assert forall|j: int| 0 <= j < bytes.len() implies hex_pair(t, j) == bytes[j] by {
        lemma_hex_text_index(bytes, j);
        lemma_digit_value(bytes[j] as int / 16);
        lemma_digit_value(bytes[j] as int % 16);
    }
    assert(hex_bytes(t) =~= bytes);
}

} // verus!
