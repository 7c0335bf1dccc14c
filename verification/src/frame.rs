//! Type-length-value frames of the exec tunnel.
//!
//! Each frame is one stream identifier byte, the payload length as four
//! big-endian bytes, and the payload itself.
use vstd::prelude::*;

verus! {

/// Stream identifier of a chunk of the command's standard output.
pub const STDOUT_STREAM_ID: u8 = 1;

/// Stream identifier of a chunk of the command's standard error.
pub const STDERR_STREAM_ID: u8 = 2;

/// Stream identifier of the frame that carries the command's exit code.
pub const EXIT_CODE_STREAM_ID: u8 = 3;

/// Stream identifier of the frame that carries the signal that ended the command.
pub const SIGNAL_STREAM_ID: u8 = 4;

/// Length of the identifier byte and the length field that open every frame.
pub const FRAME_HEADER_LEN: usize = 5;

/// The output streams of a command run through the tunnel.
#[derive(Clone, Copy, Debug, PartialEq, Eq, Structural)]
pub enum OutputStream {
    Stdout,
    Stderr,
}

impl OutputStream {
    pub open spec fn spec_id(self) -> u8 {
        match self {
            OutputStream::Stdout => STDOUT_STREAM_ID,
            OutputStream::Stderr => STDERR_STREAM_ID,
        }
    }

    /// The stream identifier byte that frames of this stream carry.
    pub fn id(self) -> (id: u8)
        ensures
            id == self.spec_id(),
    {
        match self {
            OutputStream::Stdout => STDOUT_STREAM_ID,
            OutputStream::Stderr => STDERR_STREAM_ID,
        }
    }
}

/// The four bytes of `x`, most significant first.
pub open spec fn be_bytes(x: u32) -> Seq<u8> {
    seq![
        (x / 0x100_0000) as u8,
        (x / 0x1_0000 % 0x100) as u8,
        (x / 0x100 % 0x100) as u8,
        (x % 0x100) as u8,
    ]
}

/// The number that four big-endian bytes stand for.
pub open spec fn be_value(b: Seq<u8>) -> int {
    b[0] * 0x100_0000 + b[1] * 0x1_0000 + b[2] * 0x100 + b[3]
}

/// The frame that carries `payload` on stream `id`.
pub open spec fn spec_frame(id: u8, payload: Seq<u8>) -> Seq<u8> {
    seq![id] + be_bytes(payload.len() as u32) + payload
}

/// The value that a status word of the exit frame carries: the two's
/// complement bits of `v` read as an unsigned number.
pub open spec fn status_word(v: i32) -> u32 {
    if v >= 0 {
        v as u32
    } else {
        (v + 0x1_0000_0000) as u32
    }
}

/// The frame that reports how the command ended: its exit code on stream 3,
/// else the signal that ended it on stream 4, else nothing.
pub open spec fn spec_exit_frame(code: Option<i32>, signal: Option<i32>) -> Option<Seq<u8>> {
    match code {
        Some(c) => Some(seq![EXIT_CODE_STREAM_ID] + be_bytes(4) + be_bytes(status_word(c))),
        None => match signal {
            Some(s) => Some(seq![SIGNAL_STREAM_ID] + be_bytes(4) + be_bytes(status_word(s))),
            None => None,
        },
    }
}

/// The big-endian bytes of `x`.
pub fn u32_to_be_bytes(x: u32) -> (bytes: [u8; 4])
    ensures
        bytes@ == be_bytes(x),
{
    let b0 = (x >> 24) as u8;
    let b1 = (x >> 16) as u8;
    let b2 = (x >> 8) as u8;
    let b3 = x as u8;
    assert(b0 == (x / 0x100_0000) as u8) by (bit_vector)
        requires
            b0 == (x >> 24) as u8,
    ;
    assert(b1 == (x / 0x1_0000 % 0x100) as u8) by (bit_vector)
        requires
            b1 == (x >> 16) as u8,
    ;
    assert(b2 == (x / 0x100 % 0x100) as u8) by (bit_vector)
        requires
            b2 == (x >> 8) as u8,
    ;
    assert(b3 == (x % 0x100) as u8) by (bit_vector)
        requires
            b3 == x as u8,
    ;
    let bytes = [b0, b1, b2, b3];
    assert(bytes@ =~= be_bytes(x));
    bytes
}

/// Appends the four big-endian bytes of `x` to `out`.
fn push_be_u32(out: &mut Vec<u8>, x: u32)
    ensures
        final(out)@ == old(out)@ + be_bytes(x),
{
    let bytes = u32_to_be_bytes(x);
    out.push(bytes[0]);
    out.push(bytes[1]);
    out.push(bytes[2]);
    out.push(bytes[3]);
    assert(final(out)@ =~= old(out)@ + be_bytes(x));
}

/// Appends `data` to `out`.
fn push_all(out: &mut Vec<u8>, data: &[u8])
    ensures
        final(out)@ == old(out)@ + data@,
{
    let mut i: usize = 0;
    while i < data.len()
        invariant
            i <= data@.len(),
            out@ == old(out)@ + data@.subrange(0, i as int),
        decreases data@.len() - i,
    {
        out.push(data[i]);
        i = i + 1;
        assert(out@ =~= old(out)@ + data@.subrange(0, i as int));
    }
    assert(data@.subrange(0, i as int) =~= data@);
}

/// The frame that carries `payload` on stream `id`.
pub fn encode_frame(id: u8, payload: &[u8]) -> (frame: Vec<u8>)
    requires
        payload@.len() <= u32::MAX,
    ensures
        frame@ == spec_frame(id, payload@),
{
    let mut frame: Vec<u8> = Vec::with_capacity(FRAME_HEADER_LEN);
    frame.push(id);
    push_be_u32(&mut frame, payload.len() as u32);
    push_all(&mut frame, payload);
    frame
}

/// The frame that carries a chunk of a command's output on its stream.
pub fn encode_output_frame(stream: OutputStream, chunk: &[u8]) -> (frame: Vec<u8>)
    requires
        chunk@.len() <= u32::MAX,
    ensures
        frame@ == spec_frame(stream.spec_id(), chunk@),
{
    encode_frame(stream.id(), chunk)
}

/// The status word of an exit code or signal number.
pub fn to_status_word(v: i32) -> (w: u32)
    ensures
        w == status_word(v),
{
    let w = v as u32;
    assert(w == (if v >= 0 { v as u32 } else { (v + 0x1_0000_0000) as u32 })) by (bit_vector)
        requires
            w == v as u32,
    ;
    w
}

/// The frame that reports how the command ended: the exit code if there is
/// one, else the signal that ended the command, else no frame.
pub fn encode_exit_frame(code: Option<i32>, signal: Option<i32>) -> (frame: Option<Vec<u8>>)
    ensures
        match frame {
            Some(f) => spec_exit_frame(code, signal) == Some(f@),
            None => spec_exit_frame(code, signal) is None,
        },
{
    let (id, value) = match code {
        Some(c) => (EXIT_CODE_STREAM_ID, c),
        None => match signal {
            Some(s) => (SIGNAL_STREAM_ID, s),
            None => {
                return None;
            },
        },
    };
    let mut frame: Vec<u8> = Vec::with_capacity(FRAME_HEADER_LEN + 4);
    frame.push(id);
    push_be_u32(&mut frame, 4);
    push_be_u32(&mut frame, to_status_word(value));
    Some(frame)
}

/// The length field reads back as the number it was written from.
pub proof fn lemma_be_bytes_round_trip(x: u32)
    ensures
        be_bytes(x).len() == 4,
        be_value(be_bytes(x)) == x,
{
    assert(((x / 0x100_0000) as u8) as u32 == x / 0x100_0000) by (bit_vector);
    assert(((x / 0x1_0000 % 0x100) as u8) as u32 == x / 0x1_0000 % 0x100) by (bit_vector);
    assert(((x / 0x100 % 0x100) as u8) as u32 == x / 0x100 % 0x100) by (bit_vector);
    assert(((x % 0x100) as u8) as u32 == x % 0x100) by (bit_vector);
    assert((x / 0x100_0000) * 0x100_0000 + (x / 0x1_0000 % 0x100) * 0x1_0000 + (x / 0x100
        % 0x100) * 0x100 + x % 0x100 == x) by (bit_vector);
}

/// Frames are self-delimiting: in a stream that starts with a frame, the
/// first byte is its stream identifier, the next four give the payload's
/// length, the payload follows, and what comes after it is left untouched.
pub proof fn lemma_frame_self_delimiting(id: u8, payload: Seq<u8>, rest: Seq<u8>)
    requires
        payload.len() <= u32::MAX,
    ensures
        ({
            let s = spec_frame(id, payload) + rest;
            &&& s[0] == id
            &&& be_value(s.subrange(1, 5)) == payload.len()
            &&& s.subrange(5, 5 + payload.len() as int) == payload
            &&& s.subrange(5 + payload.len() as int, s.len() as int) == rest
        }),
{
    let s = spec_frame(id, payload) + rest;
    lemma_be_bytes_round_trip(payload.len() as u32);
    assert(s.subrange(1, 5) =~= be_bytes(payload.len() as u32));
    assert(s.subrange(5, 5 + payload.len() as int) =~= payload);
    assert(s.subrange(5 + payload.len() as int, s.len() as int) =~= rest);
}

/// The report of how a command ended is itself a frame, whose payload is
/// the four-byte status word.
pub proof fn lemma_exit_report_is_frame(code: Option<i32>, signal: Option<i32>)
    ensures
        code matches Some(c) ==> spec_exit_frame(code, signal) == Some(
            spec_frame(EXIT_CODE_STREAM_ID, be_bytes(status_word(c))),
        ),
        code is None ==> (signal matches Some(s) ==> spec_exit_frame(code, signal) == Some(
            spec_frame(SIGNAL_STREAM_ID, be_bytes(status_word(s))),
        )),
        code is None && signal is None ==> spec_exit_frame(code, signal) is None,
{
    match code {
        Some(c) => {
            assert(be_bytes(status_word(c)).len() == 4);
            assert(spec_frame(EXIT_CODE_STREAM_ID, be_bytes(status_word(c))) =~= seq![
                EXIT_CODE_STREAM_ID,
            ] + be_bytes(4) + be_bytes(status_word(c)));
        },
        None => match signal {
            Some(s) => {
                assert(spec_frame(SIGNAL_STREAM_ID, be_bytes(status_word(s))) =~= seq![
                    SIGNAL_STREAM_ID,
                ] + be_bytes(4) + be_bytes(status_word(s)));
            },
            None => {},
        },
    }
}

/// The two's-complement reading of a 32-bit signed value as an unsigned one.
pub open spec fn unsigned_reading(v: i32) -> int {
    if v >= 0 {
        v as int
    } else {
        v + 0x1_0000_0000
    }
}

/// The status word keeps every bit of the value: it is the value's bit
/// pattern (`v as u32`), so it reads back as the value itself when that is
/// not negative, and as the value plus 2^32 when it is.
pub proof fn lemma_status_word_keeps_value(v: i32)
    ensures
        status_word(v) == v as u32,
        status_word(v) as int == unsigned_reading(v),
        v >= 0 ==> be_value(be_bytes(status_word(v))) == v,
        be_value(be_bytes(status_word(v))) == unsigned_reading(v),
{
    let w = v as u32;
    assert(w == (if v >= 0 { v as u32 } else { (v + 0x1_0000_0000) as u32 })) by (bit_vector)
        requires
            w == v as u32,
    ;
    lemma_be_bytes_round_trip(status_word(v));
}

/// Whatever code a command exits with, zero or not, the report is nine
/// bytes: stream 3, a length of four, and the code's unsigned reading; when
/// there is no code but a signal, the same on stream 4 with the signal.
pub proof fn lemma_exit_report_carries_status(code: Option<i32>, signal: Option<i32>)
    ensures
        code matches Some(c) ==> (spec_exit_frame(code, signal) matches Some(r) && {
            &&& r.len() == 9
            &&& r[0] == 3
            &&& be_value(r.subrange(1, 5)) == 4
            &&& be_value(r.subrange(5, 9)) == unsigned_reading(c)
        }),
        code is None ==> (signal matches Some(s) ==> (spec_exit_frame(code, signal) matches Some(r)
            && {
            &&& r.len() == 9
            &&& r[0] == 4
            &&& be_value(r.subrange(1, 5)) == 4
            &&& be_value(r.subrange(5, 9)) == unsigned_reading(s)
        })),
        code is None && signal is None ==> spec_exit_frame(code, signal) is None,
{
    lemma_be_bytes_round_trip(4);
    match code {
        Some(c) => {
            lemma_status_word_keeps_value(c);
            let r = seq![EXIT_CODE_STREAM_ID] + be_bytes(4) + be_bytes(status_word(c));
            assert(r.subrange(1, 5) =~= be_bytes(4));
            assert(r.subrange(5, 9) =~= be_bytes(status_word(c)));
        },
        None => match signal {
            Some(s) => {
                lemma_status_word_keeps_value(s);
                let r = seq![SIGNAL_STREAM_ID] + be_bytes(4) + be_bytes(status_word(s));
                assert(r.subrange(1, 5) =~= be_bytes(4));
                assert(r.subrange(5, 9) =~= be_bytes(status_word(s)));
            },
            None => {},
        },
    }
}

} // verus!
