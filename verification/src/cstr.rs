//! Assembling a null-terminated byte string out of machine words.
//!
//! The tracee's memory is only reachable through a debugging primitive that
//! hands back one machine word per call. A string is therefore rebuilt one
//! word at a time: each word is serialized into its little-endian bytes,
//! the bytes are scanned left to right for the first zero, and the
//! accumulated buffer ends exactly at that zero.

use vstd::prelude::*;

verus! {

/// The number of bytes taken from each word, matching the little-endian
/// serialization width used for the scan.
pub const WORD_BYTES: usize = 4;

/// The little-endian bytes of a 32-bit word, lowest byte first.
pub open spec fn le_bytes32(w: u32) -> Seq<u8> {
    seq![
        (w & 0xff) as u8,
        ((w >> 8) & 0xff) as u8,
        ((w >> 16) & 0xff) as u8,
        ((w >> 24) & 0xff) as u8,
    ]
}

/// Index of the first occurrence of `b` in `p`, or `p.len()` if absent.
pub open spec fn first_byte(p: Seq<u8>, b: u8) -> int
    decreases p.len(),
{
    if p.len() == 0 {
        0
    } else if p[0] == b {
        0
    } else {
        1 + first_byte(p.skip(1), b)
    }
}

/// What `first_byte` finds: it is in range, nothing before it matches,
/// and it points at a match when one exists.
pub proof fn lemma_first_byte(p: Seq<u8>, b: u8)
    ensures
        0 <= first_byte(p, b) <= p.len(),
        forall|i: int| 0 <= i < first_byte(p, b) ==> p[i] != b,
        first_byte(p, b) < p.len() ==> p[first_byte(p, b)] == b,
    decreases p.len(),
{
    if p.len() > 0 && p[0] != b {
        lemma_first_byte(p.skip(1), b);
        assert forall|i: int| 0 <= i < first_byte(p, b) implies p[i] != b by {
            if i > 0 {
                assert(p.skip(1)[i - 1] == p[i]);
            }
        }
        if first_byte(p, b) < p.len() {
            assert(p.skip(1)[first_byte(p, b) - 1] == p[first_byte(p, b)]);
        }
    }
}

/// The bytes of a remembered string: scan the memory image word by word,
/// keeping whole words until a word carries a zero byte, and cutting the
/// string exactly at that zero. `None` means the image ran out before any
/// terminator appeared.
pub open spec fn cstr_scan(mem: Seq<u8>) -> Option<Seq<u8>>
    decreases mem.len(),
{
    if mem.len() < WORD_BYTES {
        Option::None
    } else {
        let k = first_byte(mem.take(WORD_BYTES as int), 0);
        if k < WORD_BYTES {
            Option::Some(mem.take(k))
        } else {
            match cstr_scan(mem.skip(WORD_BYTES as int)) {
                Option::None => Option::None,
                Option::Some(s) => Option::Some(mem.take(WORD_BYTES as int) + s),
            }
        }
    }
}

/// Reading reconstructs the original string exactly: if the memory image
/// holds `l` non-zero bytes and then a zero, the word-by-word scan returns
/// precisely those first `l` bytes, wherever inside a word the zero falls.
pub proof fn lemma_cstr_scan_exact(mem: Seq<u8>, l: int)
    requires
        mem.len() as int % (WORD_BYTES as int) == 0,
        0 <= l < mem.len(),
        mem[l] == 0,
        forall|i: int| 0 <= i < l ==> mem[i] != 0,
    ensures
        cstr_scan(mem) == Option::Some(mem.take(l)),
    decreases mem.len(),
{
    let w = WORD_BYTES as int;
    assert(mem.len() >= w);
    let head = mem.take(w);
    let k = first_byte(head, 0);
    lemma_first_byte(head, 0);
    if l < w {
        assert(head[l] == 0);
        assert(k <= l);
        assert(head[k] == 0 ==> mem[k] == 0);
        assert(k == l);
        assert(mem.take(k) == mem.take(l));
    } else {
        assert forall|i: int| 0 <= i < w implies head[i] != 0 by {
            assert(head[i] == mem[i]);
        }
        assert(k == w);
        let tail = mem.skip(w);
        assert(tail.len() as int % w == 0);
        assert(tail[l - w] == mem[l]);
        assert forall|i: int| 0 <= i < l - w implies tail[i] != 0 by {
            assert(tail[i] == mem[i + w]);
        }
        lemma_cstr_scan_exact(tail, l - w);
        assert(cstr_scan(mem) == Option::Some(head + tail.take(l - w)));
        assert(head + tail.take(l - w) =~= mem.take(l));
    }
}

/// Append one word's bytes to the buffer, stopping at the first zero.
/// Returns whether the terminator was found inside this word.
pub fn push_word(buf: &mut Vec<u8>, w: u32) -> (done: bool)
    ensures
        ({
            let bs = le_bytes32(w);
            let k = first_byte(bs, 0);
            &&& done == (k < 4)
            &&& final(buf)@ == old(buf)@ + bs.take(
                if k < 4 {
                    k
                } else {
                    4
                },
            )
            &&& forall|i: int| old(buf)@.len() <= i < final(buf)@.len() ==> final(buf)@[i] != 0
        }),
{
    let b0 = (w & 0xff) as u8;
    let b1 = ((w >> 8) & 0xff) as u8;
    let b2 = ((w >> 16) & 0xff) as u8;
    let b3 = ((w >> 24) & 0xff) as u8;
    proof {
        assert(w & 0xff < 256 && (w >> 8) & 0xff < 256 && (w >> 16) & 0xff < 256 && (w >> 24)
            & 0xff < 256) by (bit_vector);
        assert(le_bytes32(w) == seq![b0, b1, b2, b3]);
        lemma_first_byte(le_bytes32(w), 0);
        let bs = le_bytes32(w);
        assert(bs.skip(1) =~= seq![b1, b2, b3]);
        assert(bs.skip(1).skip(1) =~= seq![b2, b3]);
        assert(bs.skip(1).skip(1).skip(1) =~= seq![b3]);
        assert(seq![b3].skip(1) =~= Seq::<u8>::empty());
    }
    let ghost bs = le_bytes32(w);
    let ghost start = buf@;
    if b0 == 0 {
        proof {
            assert(first_byte(bs, 0) == 0);
            assert(start + bs.take(0) =~= start);
        }
        return true;
    }
    buf.push(b0);
    if b1 == 0 {
        proof {
            assert(first_byte(bs, 0) == 1);
            assert(start + bs.take(1) =~= buf@);
        }
        return true;
    }
    buf.push(b1);
    if b2 == 0 {
        proof {
            assert(first_byte(bs, 0) == 2);
            assert(start + bs.take(2) =~= buf@);
        }
        return true;
    }
    buf.push(b2);
    if b3 == 0 {
        proof {
            assert(first_byte(bs, 0) == 3);
            assert(start + bs.take(3) =~= buf@);
        }
        return true;
    }
    buf.push(b3);
    proof {
        assert(first_byte(bs, 0) == 4);
        assert(start + bs.take(4) =~= buf@);
    }
    false
}

} // verus!
