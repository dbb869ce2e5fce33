//! WebSocket frames (RFC 6455, section 5.2): building a frame from its parts,
//! and reading one back from the bytes received so far.

use rand::Rng;
use vstd::prelude::*;

verus! {

/// A frame as read from a client: its opcode, its FIN bit and its payload,
/// already unmasked.
pub struct FrameUtils {
    pub opcode: u8,
    pub finished: bool,
    pub data: Vec<u8>,
}

/// The first byte of a frame: the opcode's low four bits, with the top bit
/// set when the frame is the last of its message.
pub open spec fn first_byte(opcode: u8, finished: bool) -> u8 {
    if finished {
        (opcode & 15) | 128
    } else {
        opcode & 15
    }
}

/// `n` as two bytes, most significant first.
pub open spec fn be16_bytes(n: u16) -> Seq<u8> {
    seq![(n >> 8u16) as u8, n as u8]
}

/// `n` as eight bytes, most significant first.
pub open spec fn be64_bytes(n: u64) -> Seq<u8> {
    seq![
        (n >> 56u64) as u8,
        (n >> 48u64) as u8,
        (n >> 40u64) as u8,
        (n >> 32u64) as u8,
        (n >> 24u64) as u8,
        (n >> 16u64) as u8,
        (n >> 8u64) as u8,
        n as u8,
    ]
}

/// The two bytes of `buf` at `pos`, read as a big-endian number.
pub open spec fn be16_at(buf: Seq<u8>, pos: int) -> u16 {
    ((buf[pos] as u16) << 8u16) | (buf[pos + 1] as u16)
}

/// The eight bytes of `buf` at `pos`, read as a big-endian number.
pub open spec fn be64_at(buf: Seq<u8>, pos: int) -> u64 {
    ((buf[pos] as u64) << 56u64) | ((buf[pos + 1] as u64) << 48u64) | ((buf[pos + 2] as u64)
        << 40u64) | ((buf[pos + 3] as u64) << 32u64) | ((buf[pos + 4] as u64) << 24u64) | ((buf[pos
        + 5] as u64) << 16u64) | ((buf[pos + 6] as u64) << 8u64) | (buf[pos + 7] as u64)
}

/// The length field that `create` writes for a payload of `len` bytes. The
/// mask bit is always set: a one-byte length carries it on top of the
/// length, and the marker bytes 254 and 255 are 126 and 127 with that bit.
pub open spec fn length_bytes(len: nat) -> Seq<u8> {
    if len > 65535 {
        seq![255u8] + be64_bytes(len as u64)
    } else if len > 125 {
        seq![254u8] + be16_bytes(len as u16)
    } else {
        seq![(len + 128) as u8]
    }
}

/// Each byte of `data` xor-ed with the byte of `mask` at its index modulo 4.
pub open spec fn apply_mask(data: Seq<u8>, mask: Seq<u8>) -> Seq<u8> {
    Seq::new(data.len(), |i: int| data[i] ^ mask[i % 4])
}

/// The bytes of a frame as `create` builds it. Without a mask the four mask
/// bytes are zero and the payload goes out unchanged.
pub open spec fn frame_bytes(opcode: u8, finished: bool, data: Seq<u8>, mask: Option<[u8; 4]>) -> Seq<u8> {
    seq![first_byte(opcode, finished)] + length_bytes(data.len()) + match mask {
        Some(m) => m@ + apply_mask(data, m@),
        None => seq![0u8, 0u8, 0u8, 0u8] + data,
    }
}

/// The payload length announced at the start of `buf`, and the index just
/// past the length field, once enough bytes are there to know them.
/// As the reader does, a 16-bit extended length of 127 is followed by a
/// 64-bit extended length, which then counts.
pub open spec fn read_length(buf: Seq<u8>) -> Option<(u64, int)> {
    if buf.len() < 2 {
        None
    } else {
        let len7 = (buf[1] & 127u8) as u64;
        if len7 == 126 {
            if buf.len() < 4 {
                None
            } else if be16_at(buf, 2) == 127 {
                if buf.len() < 12 {
                    None
                } else {
                    Some((be64_at(buf, 4), 12))
                }
            } else {
                Some((be16_at(buf, 2) as u64, 4))
            }
        } else if len7 == 127 {
            if buf.len() < 10 {
                None
            } else {
                Some((be64_at(buf, 2), 10))
            }
        } else {
            Some((len7, 2))
        }
    }
}

/// Whether the mask bit of the frame at the start of `buf` is set.
pub open spec fn is_masked(buf: Seq<u8>) -> bool {
    buf[1] & 128u8 != 0
}

/// The frame at the start of `buf`: its opcode, FIN bit, unmasked payload and
/// the number of bytes it takes; `None` while `buf` holds only part of it.
pub open spec fn read_frame(buf: Seq<u8>) -> Option<(u8, bool, Seq<u8>, int)> {
    match read_length(buf) {
        None => None,
        Some((len, pos)) => {
            let start = if is_masked(buf) { pos + 4 } else { pos };
            if buf.len() < start + len {
                None
            } else {
                let mask = if is_masked(buf) {
                    buf.subrange(pos, pos + 4)
                } else {
                    seq![0u8, 0u8, 0u8, 0u8]
                };
                Some(
                    (
                        buf[0] & 15u8,
                        buf[0] & 128u8 != 0,
                        apply_mask(buf.subrange(start, start + len), mask),
                        start + len,
                    ),
                )
            }
        },
    }
}

impl FrameUtils {
    /// Four bytes from the thread's random number generator, to mask a
    /// frame with. Trusted: `rand::thread_rng` and `Rng::gen`; nothing is
    /// promised of the bytes.
    #[verifier::external_body]
    pub(crate) fn random_mask() -> [u8; 4] {
        let mut rng = rand::thread_rng();
        [rng.gen(), rng.gen(), rng.gen(), rng.gen()]
    }

    /// Builds the bytes of a frame with the given opcode, FIN bit and payload,
    /// masking the payload with `mask` when one is given.
    pub fn create(opcode: u8, finished: bool, data: Vec<u8>, mask: Option<[u8; 4]>) -> (buffer: Vec<u8>)
        ensures
            buffer@ == frame_bytes(opcode, finished, data@, mask),
    {
        let mut buffer: Vec<u8> = Vec::new();
        let mut first: u8 = opcode & 15;
        if finished {
            first = first | 128;
        }
        buffer.push(first);
        let ghost head = buffer@;
        let len = data.len();
        if len > 65535 {
            let length = len as u64;
            buffer.push(255);
            buffer.push((length >> 56u64) as u8);
            buffer.push((length >> 48u64) as u8);
            buffer.push((length >> 40u64) as u8);
            buffer.push((length >> 32u64) as u8);
            buffer.push((length >> 24u64) as u8);
            buffer.push((length >> 16u64) as u8);
            buffer.push((length >> 8u64) as u8);
            buffer.push(length as u8);
        } else if len > 125 {
            let length = len as u16;
            buffer.push(254);
            buffer.push((length >> 8u16) as u8);
            buffer.push(length as u8);
        } else {
            buffer.push((len as u8) + 128);
        }
        assert(buffer@ == head + length_bytes(data@.len()));
        let ghost prefix = buffer@;
        match mask {
            Some(m) => {
                buffer.push(m[0]);
                buffer.push(m[1]);
                buffer.push(m[2]);
                buffer.push(m[3]);
                assert(buffer@ == prefix + m@);
                let ghost prefix2 = buffer@;
                let mut index: usize = 0;
                while index < len
                    invariant
                        len == data@.len(),
                        index <= len,
                        buffer@ == prefix2 + apply_mask(data@, m@).subrange(0, index as int),
                    decreases len - index,
                {
                    buffer.push(data[index] ^ m[index % 4]);
                    index = index + 1;
                    assert(apply_mask(data@, m@).subrange(0, index as int) == apply_mask(
                        data@,
                        m@,
                    ).subrange(0, index - 1).push(data@[index - 1] ^ m@[(index - 1) % 4]));
                }
                assert(apply_mask(data@, m@).subrange(0, len as int) == apply_mask(data@, m@));
            },
            None => {
                buffer.push(0);
                buffer.push(0);
                buffer.push(0);
                buffer.push(0);
                let ghost prefix2 = buffer@;
                let mut index: usize = 0;
                while index < len
                    invariant
                        len == data@.len(),
                        index <= len,
                        buffer@ == prefix2 + data@.subrange(0, index as int),
                    decreases len - index,
                {
                    buffer.push(data[index]);
                    index = index + 1;
                    assert(data@.subrange(0, index as int) == data@.subrange(0, index - 1).push(
                        data@[index - 1],
                    ));
                }
                assert(data@.subrange(0, len as int) == data@);
            },
        }
        assert(first == first_byte(opcode, finished)) by (bit_vector)
            requires
                first == (if finished { (opcode & 15) | 128 } else { opcode & 15 }),
        ;
        buffer
    }

    /// Reads the frame at the start of `buf`, the bytes received so far.
    /// Returns the frame and the number of bytes it took, or `None` while
    /// `buf` holds only part of it; a caller reads more and tries again.
    pub fn read(buf: &[u8]) -> (res: Option<(FrameUtils, usize)>)
        ensures
            match read_frame(buf@) {
                None => res is None,
                Some((opcode, finished, data, consumed)) => res matches Some((frame, n)) && frame.opcode
                    == opcode && frame.finished == finished && frame.data@ == data && n == consumed,
            },
    {
        let total = buf.len();
        if total < 2 {
            return None;
        }
        let first = buf[0];
        let second = buf[1];
        let mut msg_len: u64 = (second & 127) as u64;
        let mut pos: usize = 2;
        if msg_len == 126 {
            if total < 4 {
                return None;
            }
            msg_len = (((buf[2] as u16) << 8u16) | (buf[3] as u16)) as u64;
            pos = 4;
        }
        if msg_len == 127 {
            if total < pos + 8 {
                return None;
            }
            msg_len = ((buf[pos] as u64) << 56u64) | ((buf[pos + 1] as u64) << 48u64) | ((buf[pos
                + 2] as u64) << 40u64) | ((buf[pos + 3] as u64) << 32u64) | ((buf[pos + 4] as u64)
                << 24u64) | ((buf[pos + 5] as u64) << 16u64) | ((buf[pos + 6] as u64) << 8u64) | (buf[pos
                + 7] as u64);
            pos = pos + 8;
        }
        assert(read_length(buf@) == Some((msg_len, pos as int)));
        let masked = (second & 128) != 0;
        let mut mask: [u8; 4] = [0, 0, 0, 0];
        if masked {
            if total - pos < 4 {
                return None;
            }
            mask = [buf[pos], buf[pos + 1], buf[pos + 2], buf[pos + 3]];
            pos = pos + 4;
        }
        if ((total - pos) as u64) < msg_len {
            return None;
        }
        let len = msg_len as usize;
        let ghost expected_mask = if masked {
            buf@.subrange(pos - 4, pos as int)
        } else {
            seq![0u8, 0u8, 0u8, 0u8]
        };
        assert(mask@ == expected_mask);
        let mut data: Vec<u8> = Vec::new();
        let mut index: usize = 0;
        while index < len
            invariant
                total == buf@.len(),
                pos + len <= total,
                index <= len,
                data@ == apply_mask(buf@.subrange(pos as int, pos + len), mask@).subrange(0, index as int),
            decreases len - index,
        {
            data.push(buf[pos + index] ^ mask[index % 4]);
            index = index + 1;
            assert(apply_mask(buf@.subrange(pos as int, pos + len), mask@).subrange(0, index as int)
                == apply_mask(buf@.subrange(pos as int, pos + len), mask@).subrange(0, index - 1).push(
                buf@[pos + index - 1] ^ mask@[(index - 1) % 4]));
        }
        assert(apply_mask(buf@.subrange(pos as int, pos + len), mask@).subrange(0, len as int)
            == apply_mask(buf@.subrange(pos as int, pos + len), mask@));
        Some((FrameUtils { opcode: first & 15, finished: (first & 128) != 0, data }, pos + len))
    }
}

proof fn lemma_first_byte_fields(opcode: u8, finished: bool)
    ensures
        first_byte(opcode, finished) & 15u8 == opcode & 15u8,
        (first_byte(opcode, finished) & 128u8 != 0) == finished,
{
    let b = first_byte(opcode, finished);
    assert(b & 15u8 == opcode & 15u8 && ((b & 128u8 != 0) == finished)) by (bit_vector)
        requires
            b == (if finished { (opcode & 15) | 128 } else { opcode & 15 }),
    ;
}

proof fn lemma_short_length_byte(len: u8)
    requires
        len <= 125,
    ensures
        ((len + 128) as u8) & 127u8 == len,
        ((len + 128) as u8) & 128u8 != 0,
{
    assert(((len + 128) as u8) & 127u8 == len && ((len + 128) as u8) & 128u8 != 0) by (bit_vector)
        requires
            len <= 125,
    ;
}

proof fn lemma_marker_bytes()
    ensures
        254u8 & 127u8 == 126,
        255u8 & 127u8 == 127,
        254u8 & 128u8 != 0,
        255u8 & 128u8 != 0,
{
    assert(254u8 & 127u8 == 126 && 255u8 & 127u8 == 127 && 254u8 & 128u8 != 0 && 255u8 & 128u8
        != 0) by (bit_vector);
}

proof fn lemma_be16_roundtrip(n: u16, buf: Seq<u8>, pos: int)
    requires
        0 <= pos,
        pos + 2 <= buf.len(),
        buf.subrange(pos, pos + 2) == be16_bytes(n),
    ensures
        be16_at(buf, pos) == n,
{
    let b0 = buf[pos];
    let b1 = buf[pos + 1];
    assert(b0 == buf.subrange(pos, pos + 2)[0]);
    assert(b1 == buf.subrange(pos, pos + 2)[1]);
    assert(((b0 as u16) << 8u16) | (b1 as u16) == n) by (bit_vector)
        requires
            b0 == (n >> 8u16) as u8,
            b1 == n as u8,
    ;
}

proof fn lemma_be64_roundtrip(n: u64, buf: Seq<u8>, pos: int)
    requires
        0 <= pos,
        pos + 8 <= buf.len(),
        buf.subrange(pos, pos + 8) == be64_bytes(n),
    ensures
        be64_at(buf, pos) == n,
{
    let s = buf.subrange(pos, pos + 8);
    let b0 = buf[pos];
    let b1 = buf[pos + 1];
    let b2 = buf[pos + 2];
    let b3 = buf[pos + 3];
    let b4 = buf[pos + 4];
    let b5 = buf[pos + 5];
    let b6 = buf[pos + 6];
    let b7 = buf[pos + 7];
    assert(b0 == s[0] && b1 == s[1] && b2 == s[2] && b3 == s[3]);
    assert(b4 == s[4] && b5 == s[5] && b6 == s[6] && b7 == s[7]);
    assert(((b0 as u64) << 56u64) | ((b1 as u64) << 48u64) | ((b2 as u64) << 40u64) | ((b3 as u64)
        << 32u64) | ((b4 as u64) << 24u64) | ((b5 as u64) << 16u64) | ((b6 as u64) << 8u64) | (b7 as u64)
        == n) by (bit_vector)
        requires
            b0 == (n >> 56u64) as u8,
            b1 == (n >> 48u64) as u8,
            b2 == (n >> 40u64) as u8,
            b3 == (n >> 32u64) as u8,
            b4 == (n >> 24u64) as u8,
            b5 == (n >> 16u64) as u8,
            b6 == (n >> 8u64) as u8,
            b7 == n as u8,
    ;
}

proof fn lemma_unmask(data: Seq<u8>, mask: Seq<u8>)
    requires
        mask.len() == 4,
    ensures
        apply_mask(apply_mask(data, mask), mask) == data,
        apply_mask(data, seq![0u8, 0u8, 0u8, 0u8]) == data,
{
    assert forall|i: int| 0 <= i < data.len() implies #[trigger] apply_mask(
        apply_mask(data, mask),
        mask,
    )[i] == data[i] by {
        let d = data[i];
        let m = mask[i % 4];
        assert((d ^ m) ^ m == d) by (bit_vector);
    }
    let zeros = seq![0u8, 0u8, 0u8, 0u8];
    assert forall|i: int| 0 <= i < data.len() implies #[trigger] apply_mask(data, zeros)[i]
        == data[i] by {
        let d = data[i];
        assert(zeros[i % 4] == 0u8);
        assert(d ^ 0u8 == d) by (bit_vector);
    }
    assert(apply_mask(apply_mask(data, mask), mask) =~= data);
    assert(apply_mask(data, seq![0u8, 0u8, 0u8, 0u8]) =~= data);
}

/// Reading back what `create` built gives the opcode's low four bits, the FIN
/// bit and the payload, and takes exactly the frame's bytes, whatever follows
/// them. A payload of 127 bytes is the exception: its 16-bit length field
/// holds 127, which the reader takes as the sign of a 64-bit length.
pub proof fn law_create_then_read(
    opcode: u8,
    finished: bool,
    data: Seq<u8>,
    mask: Option<[u8; 4]>,
    rest: Seq<u8>,
)
    requires
        data.len() <= u64::MAX,
        data.len() != 127,
    ensures
        read_frame(frame_bytes(opcode, finished, data, mask) + rest) == Some(
            (opcode & 15u8, finished, data, frame_bytes(opcode, finished, data, mask).len() as int),
        ),
{
    let frame = frame_bytes(opcode, finished, data, mask);
    let buf = frame + rest;
    let lb = length_bytes(data.len());
    let tail = match mask {
        Some(m) => m@ + apply_mask(data, m@),
        None => seq![0u8, 0u8, 0u8, 0u8] + data,
    };
    let mseq = match mask {
        Some(m) => m@,
        None => seq![0u8, 0u8, 0u8, 0u8],
    };
    assert(frame == seq![first_byte(opcode, finished)] + lb + tail);
    lemma_first_byte_fields(opcode, finished);
    lemma_marker_bytes();
    lemma_unmask(data, mseq);
    assert(buf[0] == first_byte(opcode, finished));
    let pos: int = if data.len() > 65535 {
        10
    } else if data.len() > 125 {
        4
    } else {
        2
    };
    assert(lb.len() == pos - 1);
    assert forall|i: int| 0 <= i < lb.len() implies buf[1 + i] == #[trigger] lb[i] by {}
    assert forall|i: int| 0 <= i < tail.len() implies buf[pos + i] == #[trigger] tail[i] by {}
    if data.len() > 65535 {
        assert(buf[1] == 255u8);
        assert(buf.subrange(2, 10) =~= be64_bytes(data.len() as u64));
        lemma_be64_roundtrip(data.len() as u64, buf, 2);
        assert(read_length(buf) == Some((data.len() as u64, 10int)));
    } else if data.len() > 125 {
        assert(buf[1] == 254u8);
        assert(buf.subrange(2, 4) =~= be16_bytes(data.len() as u16));
        lemma_be16_roundtrip(data.len() as u16, buf, 2);
        assert(read_length(buf) == Some((data.len() as u64, 4int)));
    } else {
        lemma_short_length_byte(data.len() as u8);
        assert(buf[1] == (data.len() + 128) as u8);
        assert(read_length(buf) == Some((data.len() as u64, 2int)));
    }
    assert(is_masked(buf));
    assert(buf.subrange(pos, pos + 4) =~= mseq);
    match mask {
        Some(m) => {
            assert(buf.subrange(pos + 4, pos + 4 + data.len()) =~= apply_mask(data, m@));
        },
        None => {
            assert(buf.subrange(pos + 4, pos + 4 + data.len()) =~= data);
        },
    }
}

/// Once the bytes at hand hold a whole frame, more bytes after them change
/// nothing of what is read.
pub proof fn law_read_ignores_what_follows(buf: Seq<u8>, more: Seq<u8>)
    requires
        read_frame(buf) is Some,
    ensures
        read_frame(buf + more) == read_frame(buf),
{
    let all = buf + more;
    assert forall|i: int| 0 <= i < buf.len() implies all[i] == #[trigger] buf[i] by {}
    let (len, pos) = read_length(buf).unwrap();
    assert(read_length(all) == read_length(buf));
    let start = if is_masked(buf) { pos + 4 } else { pos };
    assert(all.subrange(start, start + len) =~= buf.subrange(start, start + len));
    if is_masked(buf) {
        assert(all.subrange(pos, pos + 4) =~= buf.subrange(pos, pos + 4));
    }
}

} // verus!
