use vstd::prelude::*;

use crate::record::{record_text, render_record};

verus! {

/// Bytes in one acquisition burst.
pub const BUFFER_SIZE: usize = 4096;

/// Bytes in one slot; one candidate frame is looked for per slot.
pub const SLOT_WIDTH: usize = 16;

/// Where a frame's bytes begin within its slot.
pub const FRAME_OFFSET: usize = 2;

/// Bytes in a short frame.
pub const SHORT_FRAME_LEN: usize = 7;

/// Bytes in a long frame.
pub const LONG_FRAME_LEN: usize = 14;

/// The two frame lengths a valid slot can carry.
#[derive(PartialEq, Eq, Structural, Clone, Copy, Debug)]
pub enum FrameLength {
    Short,
    Long,
}

impl FrameLength {
    /// The number of bytes in a frame of this length class.
    pub open spec fn spec_len(self) -> nat {
        match self {
            FrameLength::Short => SHORT_FRAME_LEN as nat,
            FrameLength::Long => LONG_FRAME_LEN as nat,
        }
    }

    /// The number of bytes in a frame of this length class.
    pub fn len(self) -> (r: usize)
        ensures
            r == self.spec_len(),
    {
        match self {
            FrameLength::Short => SHORT_FRAME_LEN,
            FrameLength::Long => LONG_FRAME_LEN,
        }
    }
}

/// The number of whole slots in a buffer of `len` bytes.
pub open spec fn spec_slot_count(len: nat) -> nat {
    len / SLOT_WIDTH as nat
}

/// The first byte of slot `k`.
pub open spec fn slot_start(k: int) -> int {
    k * SLOT_WIDTH as int
}

/// A slot carries a frame when bit 0 of its first byte is set.
pub open spec fn slot_valid(buf: Seq<u8>, k: int) -> bool {
    buf[slot_start(k)] & 1u8 == 1u8
}

/// The length class read from bit 7 of the slot's third byte.
pub open spec fn slot_length(buf: Seq<u8>, k: int) -> FrameLength {
    if buf[slot_start(k) + FRAME_OFFSET as int] & 0x80u8 == 0x80u8 {
        FrameLength::Long
    } else {
        FrameLength::Short
    }
}

/// The frame bytes of slot `k`: its length class's worth, from the slot's third byte on.
pub open spec fn slot_frame(buf: Seq<u8>, k: int) -> Seq<u8> {
    let start = slot_start(k) + FRAME_OFFSET as int;
    buf.subrange(start, start + slot_length(buf, k).spec_len() as int)
}

/// The frames of the first `n` slots, in slot order, invalid slots skipped.
pub open spec fn frames_upto(buf: Seq<u8>, n: nat) -> Seq<Seq<u8>>
    decreases n,
{
    if n == 0 {
        Seq::empty()
    } else {
        let before = frames_upto(buf, (n - 1) as nat);
        if slot_valid(buf, n - 1) {
            before.push(slot_frame(buf, n - 1))
        } else {
            before
        }
    }
}

/// The frames of every whole slot of the buffer.
pub open spec fn extracted_frames(buf: Seq<u8>) -> Seq<Seq<u8>> {
    frames_upto(buf, spec_slot_count(buf.len()))
}

/// The wire records of every frame of the buffer, in slot order.
pub open spec fn extracted_records(buf: Seq<u8>) -> Seq<Seq<char>> {
    extracted_frames(buf).map_values(|f: Seq<u8>| record_text(f))
}

/// The number of whole slots in a buffer of `len` bytes.
pub fn slot_count(len: usize) -> (r: usize)
    ensures
        r == spec_slot_count(len as nat),
{
    len / SLOT_WIDTH
}

/// Whether the slot beginning at `offset` carries a frame.
pub fn slot_is_valid(buf: &[u8], offset: usize) -> (r: bool)
    requires
        offset < buf@.len(),
        offset % SLOT_WIDTH == 0,
    ensures
        r == slot_valid(buf@, (offset / SLOT_WIDTH) as int),
{
    buf[offset] & 1u8 == 1u8
}

/// The length class of the frame in the slot beginning at `offset`.
pub fn classify_slot(buf: &[u8], offset: usize) -> (r: FrameLength)
    requires
        offset + SLOT_WIDTH <= buf@.len(),
        offset % SLOT_WIDTH == 0,
    ensures
        r == slot_length(buf@, (offset / SLOT_WIDTH) as int),
        r.spec_len() == LONG_FRAME_LEN <==> buf@[offset + FRAME_OFFSET] & 0x80u8 == 0x80u8,
        r.spec_len() == SHORT_FRAME_LEN <==> buf@[offset + FRAME_OFFSET] & 0x80u8 != 0x80u8,
{
    if buf[offset + FRAME_OFFSET] & 0x80u8 == 0x80u8 {
        FrameLength::Long
    } else {
        FrameLength::Short
    }
}

/// The frame carried by the slot beginning at `offset`, if the slot is valid.
pub fn extract_frame(buf: &[u8], offset: usize) -> (r: Option<Vec<u8>>)
    requires
        offset + SLOT_WIDTH <= buf@.len(),
        offset % SLOT_WIDTH == 0,
    ensures
        r is Some <==> slot_valid(buf@, (offset / SLOT_WIDTH) as int),
        r matches Some(f) ==> f@ == slot_frame(buf@, (offset / SLOT_WIDTH) as int),
{
    if !slot_is_valid(buf, offset) {
        return None;
    }
    let len = classify_slot(buf, offset).len();
    let start = offset + FRAME_OFFSET;
    let n_bytes = buf.len();
    let mut frame: Vec<u8> = Vec::with_capacity(len);
    let mut i: usize = 0;
    while i < len
        invariant
            len == SHORT_FRAME_LEN || len == LONG_FRAME_LEN,
            start + len <= buf@.len() == n_bytes,
            i <= len,
            frame@ == buf@.subrange(start as int, start + i),
        decreases len - i,
    {
        frame.push(buf[start + i]);
        i = i + 1;
        assert(frame@ =~= buf@.subrange(start as int, start + i));
    }
    Some(frame)
}

/// Scans every whole slot of the buffer and renders the frame of each valid one
/// as a wire record, in slot order.
pub fn extract_records(buf: &[u8]) -> (r: Vec<String>)
    ensures
        r.deep_view() == extracted_records(buf@),
{
    let n_bytes = buf.len();
    let n = slot_count(n_bytes);
    let mut out: Vec<String> = Vec::new();
    let mut k: usize = 0;
    while k < n
        invariant
            n == spec_slot_count(buf@.len()),
            n_bytes == buf@.len(),
            k <= n,
            out.deep_view() == frames_upto(buf@, k as nat).map_values(|f: Seq<u8>| record_text(f)),
        decreases n - k,
    {
        assert(k * 16 + 16 <= buf@.len()) by (nonlinear_arith)
            requires
                k < n,
                n == buf@.len() / 16,
        ;
        let offset = k * SLOT_WIDTH;
        assert(offset % SLOT_WIDTH == 0 && (offset / SLOT_WIDTH) as int == k) by (nonlinear_arith)
            requires
                offset == k * 16,
        ;
        let ghost before = out.deep_view();
        match extract_frame(buf, offset) {
            Some(frame) => {
                let rec = render_record(frame.as_slice());
                out.push(rec);
                assert(out.deep_view() =~= before.push(record_text(frame@)));
            },
            None => {
                assert(out.deep_view() =~= before);
            },
        }
        k = k + 1;
        assert(out.deep_view() =~= frames_upto(buf@, k as nat).map_values(|f: Seq<u8>| record_text(f)));
    }
    out
}

/// A slot's validity, length class and frame depend only on the bytes of that
/// slot, and the frame lies within the slot.
pub proof fn lemma_slot_locality(a: Seq<u8>, b: Seq<u8>, k: int)
    requires
        0 <= k,
        slot_start(k) + SLOT_WIDTH <= a.len(),
        slot_start(k) + SLOT_WIDTH <= b.len(),
        a.subrange(slot_start(k), slot_start(k) + SLOT_WIDTH) == b.subrange(
            slot_start(k),
            slot_start(k) + SLOT_WIDTH,
        ),
    ensures
        slot_valid(a, k) == slot_valid(b, k),
        slot_length(a, k) == slot_length(b, k),
        slot_frame(a, k) == slot_frame(b, k),
        slot_frame(a, k) == a.subrange(slot_start(k), slot_start(k) + SLOT_WIDTH).subrange(
            FRAME_OFFSET as int,
            FRAME_OFFSET + slot_length(a, k).spec_len(),
        ),
{
    let s = slot_start(k);
    let wa = a.subrange(s, s + SLOT_WIDTH);
    let wb = b.subrange(s, s + SLOT_WIDTH);
    assert(a[s] == wa[0] && b[s] == wb[0]);
    assert(a[s + 2] == wa[2] && b[s + 2] == wb[2]);
    let n = slot_length(a, k).spec_len() as int;
    assert(slot_frame(a, k) =~= wa.subrange(2, 2 + n));
    assert(slot_frame(b, k) =~= wb.subrange(2, 2 + n));
}

proof fn lemma_frames_upto_agree(a: Seq<u8>, b: Seq<u8>, n: nat)
    requires
        slot_start(n as int) <= a.len(),
        slot_start(n as int) <= b.len(),
        a.subrange(0, slot_start(n as int)) == b.subrange(0, slot_start(n as int)),
    ensures
        frames_upto(a, n) == frames_upto(b, n),
    decreases n,
{
    if n > 0 {
        let k = n - 1;
        let s = slot_start(k);
        let e = slot_start(n as int);
        assert(e == s + SLOT_WIDTH);
        assert(a.subrange(0, s) =~= a.subrange(0, e).subrange(0, s));
        assert(b.subrange(0, s) =~= b.subrange(0, e).subrange(0, s));
        lemma_frames_upto_agree(a, b, (n - 1) as nat);
        assert(a.subrange(s, e) =~= a.subrange(0, e).subrange(s, e));
        assert(b.subrange(s, e) =~= b.subrange(0, e).subrange(s, e));
        lemma_slot_locality(a, b, k);
    }
}

/// Extraction is a function of the whole slots of the buffer alone: two buffers
/// with as many whole slots and the same bytes in them give the same records,
/// so extracting twice from an unchanged buffer gives the same records.
pub proof fn lemma_extraction_deterministic(a: Seq<u8>, b: Seq<u8>)
    requires
        spec_slot_count(a.len()) == spec_slot_count(b.len()),
        a.subrange(0, slot_start(spec_slot_count(a.len()) as int)) == b.subrange(
            0,
            slot_start(spec_slot_count(b.len()) as int),
        ),
    ensures
        extracted_frames(a) == extracted_frames(b),
        extracted_records(a) == extracted_records(b),
{
    let n = spec_slot_count(a.len());
    assert(slot_start(n as int) <= a.len()) by (nonlinear_arith)
        requires
            n == a.len() / 16,
            slot_start(n as int) == n * 16,
    ;
    assert(slot_start(n as int) <= b.len()) by (nonlinear_arith)
        requires
            n == b.len() / 16,
            slot_start(n as int) == n * 16,
    ;
    lemma_frames_upto_agree(a, b, n);
}

/// Every extracted frame is 7 or 14 bytes long, and there is at most one per slot.
pub proof fn lemma_frame_lengths(buf: Seq<u8>, n: nat)
    requires
        slot_start(n as int) <= buf.len(),
    ensures
        frames_upto(buf, n).len() <= n,
        forall|i: int|
            0 <= i < frames_upto(buf, n).len() ==> #[trigger] frames_upto(buf, n)[i].len()
                == SHORT_FRAME_LEN || frames_upto(buf, n)[i].len() == LONG_FRAME_LEN,
    decreases n,
{
    if n > 0 {
        lemma_frame_lengths(buf, (n - 1) as nat);
    }
}

/// The number of valid slots among the first `n`.
pub open spec fn valid_slots_upto(buf: Seq<u8>, n: nat) -> nat
    decreases n,
{
    if n == 0 {
        0
    } else {
        valid_slots_upto(buf, (n - 1) as nat) + if slot_valid(buf, n - 1) {
            1nat
        } else {
            0nat
        }
    }
}

/// Extraction examines exactly the whole slots of the buffer, one candidate per
/// slot, and yields one frame for each valid slot among them.
pub proof fn lemma_one_frame_per_valid_slot(buf: Seq<u8>)
    ensures
        extracted_frames(buf).len() == valid_slots_upto(buf, spec_slot_count(buf.len())),
        extracted_records(buf).len() == extracted_frames(buf).len(),
{
    lemma_frames_count(buf, spec_slot_count(buf.len()));
}

proof fn lemma_frames_count(buf: Seq<u8>, n: nat)
    ensures
        frames_upto(buf, n).len() == valid_slots_upto(buf, n),
    decreases n,
{
    if n > 0 {
        lemma_frames_count(buf, (n - 1) as nat);
    }
}

} // verus!
