//! Messages on a byte stream: each is preceded by its length, four bytes, most
//! significant first.

use vstd::prelude::*;

verus! {

/// The bytes that announce a message of `n` bytes; `n` counts modulo 2^32.
pub open spec fn length_prefix(n: int) -> Seq<u8> {
    let m = n % 0x1_0000_0000;
    seq![
        (m / 0x100 / 0x100 / 0x100) as u8,
        (m / 0x100 / 0x100 % 0x100) as u8,
        (m / 0x100 % 0x100) as u8,
        (m % 0x100) as u8,
    ]
}

/// The length that the first four bytes announce.
pub open spec fn announced_length(buf: Seq<u8>) -> int
    recommends
        4 <= buf.len(),
{
    buf[0] * 0x100_0000 + buf[1] * 0x1_0000 + buf[2] * 0x100 + buf[3]
}

/// A message as it travels: prefix, then payload.
pub open spec fn frame(payload: Seq<u8>) -> Seq<u8> {
    length_prefix(payload.len() as int) + payload
}

/// Whether `buf` starts with a whole message.
pub open spec fn has_frame(buf: Seq<u8>) -> bool {
    4 <= buf.len() && 4 + announced_length(buf) <= buf.len()
}

/// The payload of the message that `buf` starts with.
pub open spec fn first_payload(buf: Seq<u8>) -> Seq<u8>
    recommends
        has_frame(buf),
{
    buf.subrange(4, 4 + announced_length(buf))
}

/// What follows the message that `buf` starts with.
pub open spec fn after_frame(buf: Seq<u8>) -> Seq<u8>
    recommends
        has_frame(buf),
{
    buf.subrange(4 + announced_length(buf), buf.len() as int)
}

/// The payloads of all whole messages at the start of `buf`, in order.
pub open spec fn payloads(buf: Seq<u8>) -> Seq<Seq<u8>>
    decreases buf.len(),
{
    if has_frame(buf) {
        seq![first_payload(buf)] + payloads(after_frame(buf))
    } else {
        Seq::empty()
    }
}

/// What is left of `buf` after all whole messages at its start.
pub open spec fn leftover(buf: Seq<u8>) -> Seq<u8>
    decreases buf.len(),
{
    if has_frame(buf) {
        leftover(after_frame(buf))
    } else {
        buf
    }
}

/// The stream that carries the given payloads, one message each.
pub open spec fn stream(messages: Seq<Seq<u8>>) -> Seq<u8>
    decreases messages.len(),
{
    if messages.len() == 0 {
        Seq::empty()
    } else {
        frame(messages[0]) + stream(messages.drop_first())
    }
}

/// Why a buffer holds no whole message.
#[derive(Debug, Clone, Copy, PartialEq, Eq, Structural)]
pub enum DecodeError {
    /// Fewer than four bytes.
    ShortPrefix,
    /// Fewer bytes than the prefix announces.
    ShortMessage,
}

impl DecodeError {
    /// The text shown to a user.
    pub fn message(&self) -> (r: &'static str)
        ensures
            r@ == (match *self {
                DecodeError::ShortPrefix => "Buffer too small for length prefix"@,
                DecodeError::ShortMessage => "Buffer too small for message"@,
            }),
    {
        match self {
            DecodeError::ShortPrefix => "Buffer too small for length prefix",
            DecodeError::ShortMessage => "Buffer too small for message",
        }
    }
}

/// Wraps an encoded message with its length prefix.
pub fn encode_message(payload: &[u8]) -> (r: Vec<u8>)
    ensures
        r@ == frame(payload@),
{
    let len: u32 = (payload.len() as u64 % 0x1_0000_0000) as u32;
    let mut result: Vec<u8> = Vec::new();
    result.push((len / 0x100 / 0x100 / 0x100) as u8);
    result.push((len / 0x100 / 0x100 % 0x100) as u8);
    result.push((len / 0x100 % 0x100) as u8);
    result.push((len % 0x100) as u8);
    result.extend_from_slice(payload);
    assert(result@ =~= frame(payload@));
    result
}

/// The length that the first four bytes of `buf` announce.
fn read_length(buf: &[u8]) -> (r: u64)
    requires
        4 <= buf@.len(),
    ensures
        r == announced_length(buf@),
{
    buf[0] as u64 * 0x100_0000 + buf[1] as u64 * 0x1_0000 + buf[2] as u64 * 0x100 + buf[3] as u64
}

/// Finds the message at the start of `buf`: its payload, and the number of
/// bytes that it takes up.
pub fn decode_message(buf: &[u8]) -> (r: Result<(Vec<u8>, usize), DecodeError>)
    ensures
        match r {
            Ok((payload, used)) => has_frame(buf@) && payload@ == first_payload(buf@) && used == 4
                + announced_length(buf@),
            Err(DecodeError::ShortPrefix) => buf@.len() < 4,
            Err(DecodeError::ShortMessage) => 4 <= buf@.len() < 4 + announced_length(buf@),
        },
{
    if buf.len() < 4 {
        return Err(DecodeError::ShortPrefix);
    }
    let len: u64 = read_length(buf);
    let available: u64 = (buf.len() - 4) as u64;
    if available < len {
        return Err(DecodeError::ShortMessage);
    }
    let end: usize = 4 + len as usize;
    let mut payload: Vec<u8> = Vec::new();
    payload.extend_from_slice(&buf[4..end]);
    assert(payload@ =~= first_payload(buf@));
    Ok((payload, end))
}

/// Collects the bytes of a connection and hands out whole messages.
#[derive(Debug)]
pub struct FrameReader {
    pub buf: Vec<u8>,
}

impl View for FrameReader {
    type V = Seq<u8>;

    open spec fn view(&self) -> Seq<u8> {
        self.buf@
    }
}

/// What a list of byte vectors holds.
pub open spec fn byte_views(v: Seq<Vec<u8>>) -> Seq<Seq<u8>> {
    Seq::new(v.len(), |i: int| v[i]@)
}

impl FrameReader {
    /// A reader that has received nothing.
    pub fn new() -> (r: Self)
        ensures
            r@ == Seq::<u8>::empty(),
    {
        FrameReader { buf: Vec::new() }
    }

    /// Takes in received bytes.
    pub fn feed(&mut self, data: &[u8])
        ensures
            final(self)@ == old(self)@ + data@,
    {
        self.buf.extend_from_slice(data);
        assert(self.buf@ =~= old(self)@ + data@);
    }

    /// Removes the first message and returns its payload, or leaves everything
    /// in place where no message is whole yet.
    pub fn next_payload(&mut self) -> (r: Option<Vec<u8>>)
        ensures
            match r {
                Some(p) => has_frame(old(self)@) && p@ == first_payload(old(self)@)
                    && final(self)@ == after_frame(old(self)@),
                None => !has_frame(old(self)@) && final(self)@ == old(self)@,
            },
    {
        if self.buf.len() < 4 {
            return None;
        }
        let len: u64 = read_length(self.buf.as_slice());
        let available: u64 = (self.buf.len() - 4) as u64;
        if available < len {
            return None;
        }
        let end: usize = 4 + len as usize;
        let rest: Vec<u8> = self.buf.split_off(end);
        let payload: Vec<u8> = self.buf.split_off(4);
        self.buf = rest;
        assert(payload@ =~= first_payload(old(self)@));
        assert(self.buf@ =~= after_frame(old(self)@));
        Some(payload)
    }

    /// Removes all whole messages and returns their payloads in order.
    pub fn take_payloads(&mut self) -> (r: Vec<Vec<u8>>)
        ensures
            byte_views(r@) == payloads(old(self)@),
            final(self)@ == leftover(old(self)@),
    {
        let mut out: Vec<Vec<u8>> = Vec::new();
        assert(byte_views(out@) + payloads(self@) =~= payloads(old(self)@));
        loop
            invariant
                byte_views(out@) + payloads(self@) == payloads(old(self)@),
                leftover(self@) == leftover(old(self)@),
            ensures
                !has_frame(self@),
            decreases self@.len(),
        {
            let ghost before = self@;
            let ghost taken = out@;
            match self.next_payload() {
                Some(p) => {
                    out.push(p);
                    proof {
                        assert(byte_views(out@) =~= byte_views(taken) + seq![p@]);
                        assert(byte_views(out@) + payloads(self@) =~= byte_views(taken) + (seq![p@]
                            + payloads(self@)));
                    }
                },
                None => {
                    break;
                },
            }
        }
        assert(byte_views(out@) =~= payloads(old(self)@));
        out
    }
}

/// A message that was framed is the first one read back, whatever follows it,
/// and what follows is left untouched.
pub proof fn law_frame_is_read_back(payload: Seq<u8>, rest: Seq<u8>)
    requires
        payload.len() < 0x1_0000_0000,
    ensures
        has_frame(frame(payload) + rest),
        first_payload(frame(payload) + rest) == payload,
        after_frame(frame(payload) + rest) == rest,
{
    let buf = frame(payload) + rest;
    let n = payload.len() as int;
    assert(buf[0] == length_prefix(n)[0]);
    assert(buf[1] == length_prefix(n)[1]);
    assert(buf[2] == length_prefix(n)[2]);
    assert(buf[3] == length_prefix(n)[3]);
    assert(announced_length(buf) == n);
    assert(first_payload(buf) =~= payload);
    assert(after_frame(buf) =~= rest);
}

/// A stream of framed messages is read back as exactly those messages, and
/// nothing is left over.
pub proof fn law_stream_is_read_back(messages: Seq<Seq<u8>>)
    requires
        forall|i: int| 0 <= i < messages.len() ==> (#[trigger] messages[i]).len() < 0x1_0000_0000,
    ensures
        payloads(stream(messages)) == messages,
        leftover(stream(messages)) == Seq::<u8>::empty(),
    decreases messages.len(),
{
    if messages.len() == 0 {
        assert(payloads(stream(messages)) =~= messages);
    } else {
        let rest = messages.drop_first();
        assert forall|i: int| 0 <= i < rest.len() implies (#[trigger] rest[i]).len()
            < 0x1_0000_0000 by {
            assert(rest[i] == messages[i + 1]);
        }
        law_stream_is_read_back(rest);
        law_frame_is_read_back(messages[0], stream(rest));
        assert(seq![messages[0]] + rest =~= messages);
    }
}

/// How the bytes of a connection are cut into pieces does not matter: reading
/// the whole messages of a first piece, and then those of what is left of it
/// together with a second piece, gives what reading both pieces at once gives.
pub proof fn law_pieces_do_not_matter(a: Seq<u8>, b: Seq<u8>)
    ensures
        payloads(a + b) == payloads(a) + payloads(leftover(a) + b),
        leftover(a + b) == leftover(leftover(a) + b),
    decreases a.len(),
{
    if has_frame(a) {
        let n = announced_length(a);
        assert(announced_length(a + b) == n);
        assert(first_payload(a + b) =~= first_payload(a));
        assert(after_frame(a + b) =~= after_frame(a) + b);
        law_pieces_do_not_matter(after_frame(a), b);
        assert(payloads(a + b) =~= payloads(a) + payloads(leftover(a) + b));
    } else {
        assert(payloads(a + b) =~= payloads(a) + payloads(leftover(a) + b));
    }
}

/// The bytes of all pieces, one after the other.
pub open spec fn joined(pieces: Seq<Seq<u8>>) -> Seq<u8>
    decreases pieces.len(),
{
    if pieces.len() == 0 {
        Seq::empty()
    } else {
        pieces[0] + joined(pieces.drop_first())
    }
}

/// The payloads that a reader hands out, with some bytes already received, where
/// it is asked for all of them after each piece.
pub open spec fn read_in_pieces(buf: Seq<u8>, pieces: Seq<Seq<u8>>) -> Seq<Seq<u8>>
    decreases pieces.len(),
{
    if pieces.len() == 0 {
        Seq::empty()
    } else {
        payloads(buf + pieces[0]) + read_in_pieces(
            leftover(buf + pieces[0]),
            pieces.drop_first(),
        )
    }
}

proof fn lemma_leftover(buf: Seq<u8>)
    ensures
        !has_frame(leftover(buf)),
    decreases buf.len(),
{
    if has_frame(buf) {
        lemma_leftover(after_frame(buf));
    }
}

proof fn lemma_read_in_pieces(buf: Seq<u8>, pieces: Seq<Seq<u8>>)
    requires
        !has_frame(buf),
    ensures
        read_in_pieces(buf, pieces) == payloads(buf + joined(pieces)),
    decreases pieces.len(),
{
    if pieces.len() == 0 {
        assert(buf + joined(pieces) =~= buf);
    } else {
        let rest = pieces.drop_first();
        let first = buf + pieces[0];
        lemma_leftover(first);
        lemma_read_in_pieces(leftover(first), rest);
        law_pieces_do_not_matter(first, joined(rest));
        assert(first + joined(rest) =~= buf + joined(pieces));
    }
}

/// The messages that are written to a connection are read from it, each once and
/// in their order, into whatever pieces the connection cuts them.
pub proof fn law_connection_keeps_messages(messages: Seq<Seq<u8>>, pieces: Seq<Seq<u8>>)
    requires
        forall|i: int| 0 <= i < messages.len() ==> (#[trigger] messages[i]).len() < 0x1_0000_0000,
        joined(pieces) == stream(messages),
    ensures
        read_in_pieces(Seq::empty(), pieces) == messages,
{
    lemma_read_in_pieces(Seq::empty(), pieces);
    assert(Seq::<u8>::empty() + joined(pieces) =~= stream(messages));
    law_stream_is_read_back(messages);
}

/// A framed message is the length of its payload, as four bytes with the largest
/// part first, and then the payload.
pub proof fn law_frame_is_length_and_payload(payload: Seq<u8>)
    requires
        payload.len() < 0x1_0000_0000,
    ensures
        frame(payload).len() == 4 + payload.len(),
        frame(payload)[0] * 0x100_0000 + frame(payload)[1] * 0x1_0000 + frame(payload)[2] * 0x100
            + frame(payload)[3] == payload.len(),
        frame(payload).skip(4) == payload,
{
    law_frame_is_read_back(payload, Seq::empty());
    assert(frame(payload) + Seq::<u8>::empty() =~= frame(payload));
    assert(frame(payload).skip(4) =~= payload);
}

} // verus!
