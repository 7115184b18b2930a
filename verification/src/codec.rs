use crate::message::{MessageType, MessageView};
use vstd::prelude::*;
use vstd::utf8::{
    decode_utf8, decode_utf8_encode_utf8, encode_utf8, encode_utf8_decode_utf8,
    encode_utf8_valid_utf8, valid_utf8,
};

verus! {

/// Raised by `MessageType::deserialize_message` when the payload is not
/// exactly the encoding of one message; such corruption is connection-fatal.
#[derive(Debug, Clone, PartialEq)]
pub struct DecodeError;

pub const TAG_TEXT: u8 = 0;
pub const TAG_IMAGE: u8 = 1;
pub const TAG_FILE: u8 = 2;

/// Largest value the 4-byte big-endian length field of a frame can carry.
pub const MAX_FRAME_LEN: u32 = 0xFFFF_FFFF;

/// The four big-endian bytes of a 32-bit length field.
pub open spec fn be32_seq(n: u32) -> Seq<u8> {
    seq![(n >> 24) as u8, (n >> 16) as u8, (n >> 8) as u8, n as u8]
}

/// The 32-bit value carried by four big-endian bytes.
pub open spec fn be32_of(b: Seq<u8>) -> u32
    recommends
        b.len() == 4,
{
    (((b[0] as u32) << 24) | ((b[1] as u32) << 16) | ((b[2] as u32) << 8) | (b[3] as u32)) as u32
}

pub proof fn lemma_be32_round_trip(n: u32)
    ensures
        be32_of(be32_seq(n)) == n,
{
    assert((((((n >> 24) as u8) as u32) << 24) | ((((n >> 16) as u8) as u32) << 16) | ((((n
        >> 8) as u8) as u32) << 8) | ((n as u8) as u32)) as u32 == n) by (bit_vector);
}

/// Four bytes are determined by the 32-bit value they carry.
pub proof fn lemma_be32_inverse(b: Seq<u8>)
    requires
        b.len() == 4,
    ensures
        be32_seq(be32_of(b)) =~= b,
{
    let b0 = b[0];
    let b1 = b[1];
    let b2 = b[2];
    let b3 = b[3];
    let n = be32_of(b);
    assert({
        let m = (((b0 as u32) << 24) | ((b1 as u32) << 16) | ((b2 as u32) << 8) | (b3 as u32))
            as u32;
        (m >> 24) as u8 == b0 && (m >> 16) as u8 == b1 && (m >> 8) as u8 == b2 && m as u8 == b3
    }) by (bit_vector);
}

/// The byte sequence one message encodes to: a tag byte, then each
/// variable-length field prefixed by its 4-byte big-endian byte length.
/// Text and file names travel as UTF-8.
pub open spec fn encode_spec(m: MessageView) -> Seq<u8> {
    match m {
        MessageView::Text(t) => seq![TAG_TEXT] + be32_seq(encode_utf8(t).len() as u32)
            + encode_utf8(t),
        MessageView::Image(d) => seq![TAG_IMAGE] + be32_seq(d.len() as u32) + d,
        MessageView::File(n, d) => seq![TAG_FILE] + be32_seq(encode_utf8(n).len() as u32)
            + encode_utf8(n) + be32_seq(d.len() as u32) + d,
    }
}

/// A message is well formed when its encoding fits one frame, whose length
/// field is 4 bytes.
pub open spec fn wf_message(m: MessageView) -> bool {
    match m {
        MessageView::Text(t) => 5 + encode_utf8(t).len() <= MAX_FRAME_LEN,
        MessageView::Image(d) => 5 + d.len() <= MAX_FRAME_LEN,
        MessageView::File(n, d) => 9 + encode_utf8(n).len() + d.len() <= MAX_FRAME_LEN,
    }
}

/// Relies on String::from_utf8: returns Ok exactly on valid UTF-8 input,
/// and then holds the characters those bytes encode.
#[verifier::external_body]
fn string_from_utf8(v: Vec<u8>) -> (r: Option<String>)
    ensures
        r is Some <==> valid_utf8(v@),
        r matches Some(s) ==> s@ == decode_utf8(v@),
{
    String::from_utf8(v).ok()
}

/// Appends a slice to a byte vector.
fn push_bytes(dst: &mut Vec<u8>, src: &[u8])
    ensures
        final (dst)@ == old(dst)@ + src@,
{
    let mut i: usize = 0;
    while i < src.len()
        invariant
            i <= src@.len(),
            dst@ == old(dst)@ + src@.subrange(0, i as int),
        decreases src@.len() - i,
    {
        dst.push(src[i]);
        i = i + 1;
        assert(old(dst)@ + src@.subrange(0, i as int) =~= dst@);
    }
    assert(old(dst)@ + src@.subrange(0, src@.len() as int) =~= old(dst)@ + src@);
}

/// Appends the four big-endian bytes of a length field.
fn push_be32(dst: &mut Vec<u8>, n: u32)
    ensures
        final (dst)@ == old(dst)@ + be32_seq(n),
{
    dst.push((n >> 24) as u8);
    dst.push((n >> 16) as u8);
    dst.push((n >> 8) as u8);
    dst.push(n as u8);
    assert(dst@ =~= old(dst)@ + be32_seq(n));
}

/// Copies `s[from..to]` into a fresh vector.
fn copy_range(s: &[u8], from: usize, to: usize) -> (r: Vec<u8>)
    requires
        from <= to <= s@.len(),
    ensures
        r@ == s@.subrange(from as int, to as int),
{
    let mut out: Vec<u8> = Vec::new();
    let mut i: usize = from;
    while i < to
        invariant
            from <= i <= to <= s@.len(),
            out@ == s@.subrange(from as int, i as int),
        decreases to - i,
    {
        out.push(s[i]);
        i = i + 1;
        assert(out@ =~= s@.subrange(from as int, i as int));
    }
    out
}

/// Reads the big-endian length field at `s[at..at + 4]`.
fn read_be32(s: &[u8], at: usize) -> (r: u32)
    requires
        at + 4 <= s@.len(),
    ensures
        r == be32_of(s@.subrange(at as int, at + 4)),
{
    let r = ((s[at] as u32) << 24) | ((s[at + 1] as u32) << 16) | ((s[at + 2] as u32) << 8) | (s[at
        + 3] as u32);
    proof {
        let sub = s@.subrange(at as int, at + 4);
        assert(sub[0] == s@[at as int] && sub[1] == s@[at + 1] && sub[2] == s@[at + 2] && sub[3]
            == s@[at + 3]);
    }
    r
}

impl MessageType {
    /// Whether this message fits one frame.
    pub fn is_wf(&self) -> (r: bool)
        ensures
            r == wf_message(self@),
    {
        match self {
            MessageType::Text(s) => 5 + s.as_str().as_bytes_vec().len() as u128 <= MAX_FRAME_LEN
                as u128,
            MessageType::Image(d) => 5 + d.len() as u128 <= MAX_FRAME_LEN as u128,
            MessageType::File(n, d) => 9 + n.as_str().as_bytes_vec().len() as u128 + d.len()
                as u128 <= MAX_FRAME_LEN as u128,
        }
    }

    /// Encodes this message to its wire payload.
    pub fn serialize_message(&self) -> (r: Vec<u8>)
        requires
            wf_message(self@),
        ensures
            r@ == encode_spec(self@),
            r@.len() <= MAX_FRAME_LEN,
    {
        let mut out: Vec<u8> = Vec::new();
        match self {
            MessageType::Text(s) => {
                out.push(TAG_TEXT);
                let bytes = s.as_str().as_bytes_vec();
                push_be32(&mut out, bytes.len() as u32);
                push_bytes(&mut out, bytes.as_slice());
                assert(out@ =~= encode_spec(self@));
            },
            MessageType::Image(d) => {
                out.push(TAG_IMAGE);
                push_be32(&mut out, d.len() as u32);
                push_bytes(&mut out, d.as_slice());
                assert(out@ =~= encode_spec(self@));
            },
            MessageType::File(n, d) => {
                out.push(TAG_FILE);
                let name_bytes = n.as_str().as_bytes_vec();
                push_be32(&mut out, name_bytes.len() as u32);
                push_bytes(&mut out, name_bytes.as_slice());
                push_be32(&mut out, d.len() as u32);
                push_bytes(&mut out, d.as_slice());
                assert(out@ =~= encode_spec(self@));
            },
        }
        out
    }

    /// Decodes one wire payload. Fails exactly when the bytes are not the
    /// encoding of any well-formed message: a short read, an unknown tag,
    /// a length field that disagrees with the payload, or ill-formed UTF-8.
    pub fn deserialize_message(data: &[u8]) -> (r: Result<MessageType, DecodeError>)
        requires
            data@.len() <= MAX_FRAME_LEN,
        ensures
            r matches Ok(m) ==> wf_message(m@) && data@ == encode_spec(m@),
            r is Err ==> forall|m: MessageView| wf_message(m) ==> encode_spec(m) != data@,
            forall|m: MessageView|
                wf_message(m) && encode_spec(m) == data@ ==> (r matches Ok(x) && x@ == m),
    {
        if data.len() < 5 {
            proof {
                assert forall|m: MessageView| wf_message(m) implies encode_spec(m) != data@ by {
                    lemma_shape(m);
                }
            }
            return Err(DecodeError);
        }
        let tag = data[0];
        let n = read_be32(data, 1);
        proof {
            lemma_be32_inverse(data@.subrange(1, 5));
        }
        if tag == TAG_TEXT {
            if data.len() - 5 != n as usize {
                proof {
                    assert forall|m: MessageView| wf_message(m) implies encode_spec(m)
                        != data@ by {
                        if encode_spec(m) == data@ {
                            lemma_shape(m);
                            let t = encode_utf8(m->Text_0);
                            lemma_be32_round_trip(n);
                            lemma_be32_round_trip(t.len() as u32);
                        }
                    }
                }
                return Err(DecodeError);
            }
            let body = copy_range(data, 5, data.len());
            match string_from_utf8(body) {
                Some(s) => {
                    proof {
                        decode_utf8_encode_utf8(body@);
                        assert(encode_utf8(s@) == body@);
                        assert(data@ =~= encode_spec(MessageView::Text(s@)));
                        assert forall|m: MessageView|
                            wf_message(m) && encode_spec(m) == data@ implies m == MessageView::Text(
                            s@,
                        ) by {
                            lemma_encode_injective(m, MessageView::Text(s@));
                        }
                    }
                    Ok(MessageType::Text(s))
                },
                None => {
                    proof {
                        broadcast use encode_utf8_valid_utf8;

                        assert forall|m: MessageView| wf_message(m) implies encode_spec(m)
                            != data@ by {
                            if encode_spec(m) == data@ {
                                lemma_shape(m);
                                assert(encode_spec(m).subrange(5, encode_spec(m).len() as int)
                                    == body@);
                            }
                        }
                    }
                    Err(DecodeError)
                },
            }
        } else if tag == TAG_IMAGE {
            if data.len() - 5 != n as usize {
                proof {
                    assert forall|m: MessageView| wf_message(m) implies encode_spec(m)
                        != data@ by {
                        if encode_spec(m) == data@ {
                            lemma_shape(m);
                            lemma_be32_round_trip(n);
                            lemma_be32_round_trip(m->Image_0.len() as u32);
                        }
                    }
                }
                return Err(DecodeError);
            }
            let body = copy_range(data, 5, data.len());
            proof {
                assert(data@ =~= encode_spec(MessageView::Image(body@)));
                assert forall|m: MessageView|
                    wf_message(m) && encode_spec(m) == data@ implies m == MessageView::Image(
                    body@,
                ) by {
                    lemma_encode_injective(m, MessageView::Image(body@));
                }
            }
            Ok(MessageType::Image(body))
        } else if tag == TAG_FILE {
            let name_len = n as usize;
            if data.len() < 9 || name_len > data.len() - 9 {
                proof {
                    assert forall|m: MessageView| wf_message(m) implies encode_spec(m)
                        != data@ by {
                        if encode_spec(m) == data@ {
                            lemma_shape(m);
                            let t = encode_utf8(m->File_0);
                            lemma_be32_round_trip(n);
                            lemma_be32_round_trip(t.len() as u32);
                        }
                    }
                }
                return Err(DecodeError);
            }
            let m2 = read_be32(data, 5 + name_len);
            proof {
                lemma_be32_inverse(data@.subrange(5 + name_len as int, 9 + name_len as int));
            }
            if data.len() - 9 - name_len != m2 as usize {
                proof {
                    assert forall|m: MessageView| wf_message(m) implies encode_spec(m)
                        != data@ by {
                        if encode_spec(m) == data@ {
                            lemma_shape(m);
                            let t = encode_utf8(m->File_0);
                            let d = m->File_1;
                            lemma_be32_round_trip(n);
                            lemma_be32_round_trip(t.len() as u32);
                            lemma_be32_round_trip(m2);
                            lemma_be32_round_trip(d.len() as u32);
                        }
                    }
                }
                return Err(DecodeError);
            }
            let name_bytes = copy_range(data, 5, 5 + name_len);
            let body = copy_range(data, 9 + name_len, data.len());
            match string_from_utf8(name_bytes) {
                Some(s) => {
                    proof {
                        decode_utf8_encode_utf8(name_bytes@);
                        assert(encode_utf8(s@) == name_bytes@);
                        assert(data@ =~= encode_spec(MessageView::File(s@, body@)));
                        assert forall|m: MessageView|
                            wf_message(m) && encode_spec(m) == data@ implies m
                            == MessageView::File(s@, body@) by {
                            lemma_encode_injective(m, MessageView::File(s@, body@));
                        }
                    }
                    Ok(MessageType::File(s, body))
                },
                None => {
                    proof {
                        broadcast use encode_utf8_valid_utf8;

                        assert forall|m: MessageView| wf_message(m) implies encode_spec(m)
                            != data@ by {
                            if encode_spec(m) == data@ {
                                lemma_shape(m);
                                let t = encode_utf8(m->File_0);
                                lemma_be32_round_trip(n);
                                lemma_be32_round_trip(t.len() as u32);
                                assert(encode_spec(m).subrange(5, 5 + t.len() as int)
                                    == name_bytes@);
                            }
                        }
                    }
                    Err(DecodeError)
                },
            }
        } else {
            proof {
                assert forall|m: MessageView| wf_message(m) implies encode_spec(m) != data@ by {
                    lemma_shape(m);
                }
            }
            Err(DecodeError)
        }
    }
}

/// One message never encodes to the bytes of another: the encoding is
/// injective, so a decoded message is the one that was sent.
pub proof fn lemma_encode_injective(m1: MessageView, m2: MessageView)
    requires
        wf_message(m1),
        wf_message(m2),
        encode_spec(m1) == encode_spec(m2),
    ensures
        m1 == m2,
{
    lemma_shape(m1);
    lemma_shape(m2);
    match m1 {
        MessageView::Text(t1) => {
            let t2 = m2->Text_0;
            lemma_be32_round_trip(encode_utf8(t1).len() as u32);
            lemma_be32_round_trip(encode_utf8(t2).len() as u32);
            assert(encode_utf8(t1) =~= encode_utf8(t2));
            encode_utf8_decode_utf8(t1);
            encode_utf8_decode_utf8(t2);
        },
        MessageView::Image(d1) => {
            assert(d1 =~= m2->Image_0);
        },
        MessageView::File(n1, d1) => {
            let n2 = m2->File_0;
            let d2 = m2->File_1;
            lemma_be32_round_trip(encode_utf8(n1).len() as u32);
            lemma_be32_round_trip(encode_utf8(n2).len() as u32);
            assert(encode_utf8(n1) =~= encode_utf8(n2));
            encode_utf8_decode_utf8(n1);
            encode_utf8_decode_utf8(n2);
            assert(d1 =~= d2);
        },
    }
}

/// No encoding is a proper prefix of another: a frame that carries more or
/// fewer bytes than one whole encoding never decodes, so framing is exact.
pub proof fn lemma_prefix_free(m1: MessageView, m2: MessageView)
    requires
        wf_message(m1),
        wf_message(m2),
        encode_spec(m1).len() <= encode_spec(m2).len(),
        encode_spec(m1) == encode_spec(m2).subrange(0, encode_spec(m1).len() as int),
    ensures
        m1 == m2,
{
    lemma_shape(m1);
    lemma_shape(m2);
    let e1 = encode_spec(m1);
    let e2 = encode_spec(m2);
    assert forall|i: int| 0 <= i < e1.len() implies e1[i] == e2[i] by {
        assert(e1[i] == e2.subrange(0, e1.len() as int)[i]);
    }
    assert(e1[0] == e2[0]);
    assert(e1.subrange(1, 5) =~= e2.subrange(1, 5));
    match m1 {
        MessageView::Text(t1) => {
            let t2 = m2->Text_0;
            lemma_be32_round_trip(encode_utf8(t1).len() as u32);
            lemma_be32_round_trip(encode_utf8(t2).len() as u32);
            assert(e1 =~= e2);
        },
        MessageView::Image(d1) => {
            lemma_be32_round_trip(d1.len() as u32);
            lemma_be32_round_trip(m2->Image_0.len() as u32);
            assert(e1 =~= e2);
        },
        MessageView::File(n1, d1) => {
            let t1 = encode_utf8(n1);
            let t2 = encode_utf8(m2->File_0);
            lemma_be32_round_trip(t1.len() as u32);
            lemma_be32_round_trip(t2.len() as u32);
            assert(e1.subrange(5 + t1.len() as int, 9 + t1.len() as int) =~= e2.subrange(
                5 + t1.len() as int,
                9 + t1.len() as int,
            ));
            lemma_be32_round_trip(d1.len() as u32);
            lemma_be32_round_trip(m2->File_1.len() as u32);
            assert(e1 =~= e2);
        },
    }
    lemma_encode_injective(m1, m2);
}

/// Shape facts every encoding satisfies: its tag, its length, and the
/// placement of each field.
proof fn lemma_shape(m: MessageView)
    ensures
        encode_spec(m).len() >= 5,
        m is Text ==> {
            let t = encode_utf8(m->Text_0);
            &&& encode_spec(m).len() == 5 + t.len()
            &&& encode_spec(m)[0] == TAG_TEXT
            &&& encode_spec(m).subrange(1, 5) =~= be32_seq(t.len() as u32)
            &&& encode_spec(m).subrange(5, encode_spec(m).len() as int) =~= t
        },
        m is Image ==> {
            let d = m->Image_0;
            &&& encode_spec(m).len() == 5 + d.len()
            &&& encode_spec(m)[0] == TAG_IMAGE
            &&& encode_spec(m).subrange(1, 5) =~= be32_seq(d.len() as u32)
            &&& encode_spec(m).subrange(5, encode_spec(m).len() as int) =~= d
        },
        m is File ==> {
            let t = encode_utf8(m->File_0);
            let d = m->File_1;
            &&& encode_spec(m).len() == 9 + t.len() + d.len()
            &&& encode_spec(m)[0] == TAG_FILE
            &&& encode_spec(m).subrange(1, 5) =~= be32_seq(t.len() as u32)
            &&& encode_spec(m).subrange(5, 5 + t.len() as int) =~= t
            &&& encode_spec(m).subrange(5 + t.len() as int, 9 + t.len() as int) =~= be32_seq(
                d.len() as u32,
            )
            &&& encode_spec(m).subrange(9 + t.len() as int, encode_spec(m).len() as int) =~= d
        },
{
}

/// One whole frame as it goes onto the wire: the payload's 4-byte big-endian
/// length, then the payload.
pub fn make_frame(m: &MessageType) -> (r: Vec<u8>)
    requires
        wf_message(m@),
    ensures
        r@ == be32_seq(encode_spec(m@).len() as u32) + encode_spec(m@),
{
    let payload = m.serialize_message();
    let mut out: Vec<u8> = Vec::new();
    push_be32(&mut out, payload.len() as u32);
    push_bytes(&mut out, payload.as_slice());
    out
}

/// The payload length a 4-byte frame header declares.
pub fn payload_len(header: &[u8]) -> (r: u32)
    requires
        header@.len() == 4,
    ensures
        r == be32_of(header@),
    {
    let r = read_be32(header, 0);
    proof {
        assert(header@.subrange(0, 4) =~= header@);
    }
    r
}

} // verus!
