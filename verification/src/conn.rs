use crate::errors::{Error, UnknownError};
use crate::model::{
    ValueModel, json_decoding, json_empty_object, json_encoding, json_from_slice, json_to_vec,
    json_u64, value_model,
};
use crate::stream::{ByteStream, read_exact, read_until_nul, utf8_to_string};
use crate::term::{Reql, array3};
use vstd::bytes::{
    lemma_auto_spec_u32_to_from_le_bytes, lemma_auto_spec_u64_to_from_le_bytes,
    spec_u32_from_le_bytes, spec_u32_to_le_bytes, spec_u64_from_le_bytes, spec_u64_to_le_bytes,
    u32_from_le_bytes, u32_to_le_bytes, u64_from_le_bytes, u64_to_le_bytes,
};
use vstd::prelude::*;
use vstd::string::StringExecFns;
use vstd::utf8::{decode_utf8, valid_utf8};

verus! {

/// The protocol-version magic the handshake sends first.
pub const PROTOCOL_VERSION_MAGIC: u32 = 0x400c2d20;

/// The wire-format magic the handshake sends last.
pub const WIRE_FORMAT_MAGIC: u32 = 0x7e6970c7;

/// The twelve bytes the handshake writes: the protocol-version magic, a
/// reserved zero field, and the wire-format magic, each as four
/// little-endian bytes.
pub open spec fn handshake_bytes() -> Seq<u8> {
    spec_u32_to_le_bytes(PROTOCOL_VERSION_MAGIC) + spec_u32_to_le_bytes(0u32)
        + spec_u32_to_le_bytes(WIRE_FORMAT_MAGIC)
}

/// The bytes of the ASCII success marker `SUCCESS` that the server must
/// reply with.
pub open spec fn success_reply() -> Seq<u8> {
    seq![83u8, 85u8, 67u8, 67u8, 69u8, 83u8, 83u8]
}

/// The envelope a rendered term is wrapped in: `[1, term, {}]` — the
/// start-query type code, the term, and empty global options.
pub open spec fn envelope_model(term: ValueModel) -> ValueModel {
    ValueModel::Arr(seq![ValueModel::Num(1), term, ValueModel::Obj(Seq::empty())])
}

/// The wire form of one frame: the token as eight little-endian bytes, the
/// payload length as four little-endian bytes, then the payload itself.
pub open spec fn frame_bytes(token: u64, payload: Seq<u8>) -> Seq<u8>
    recommends
        payload.len() <= u32::MAX,
{
    spec_u64_to_le_bytes(token) + spec_u32_to_le_bytes(payload.len() as u32) + payload
}

/// The log `post` extends `pre`: what was recorded stays, new bytes only
/// follow it.
pub open spec fn extends(post: Seq<u8>, pre: Seq<u8>) -> bool {
    post.len() >= pre.len() && post.subrange(0, pre.len() as int) == pre
}

/// The bytes a log gained over its earlier state.
pub open spec fn gained(post: Seq<u8>, pre: Seq<u8>) -> Seq<u8> {
    post.skip(pre.len() as int)
}

/// Appending `delta` to a log extends it, and the gain is exactly `delta`.
proof fn lemma_log_extends(pre: Seq<u8>, delta: Seq<u8>)
    ensures
        extends(pre + delta, pre),
        gained(pre + delta, pre) == delta,
{
    assert((pre + delta).subrange(0, pre.len() as int) =~= pre);
    assert((pre + delta).skip(pre.len() as int) =~= delta);
}

/// Wrap a rendered term in the query envelope.
pub fn make_envelope(term: serde_json::Value) -> (r: serde_json::Value)
    ensures
        value_model(r) == envelope_model(value_model(term)),
{
    let qtype = json_u64(1);
    let options = json_empty_object();
    array3(qtype, term, options)
}

/// Build one frame around a payload.
pub fn build_frame(token: u64, payload: Vec<u8>) -> (r: Vec<u8>)
    requires
        payload@.len() <= u32::MAX,
    ensures
        r@ == frame_bytes(token, payload@),
{
    let ghost pl = payload@;
    let len = payload.len() as u32;
    let mut r = u64_to_le_bytes(token);
    let mut lenb = u32_to_le_bytes(len);
    r.append(&mut lenb);
    let mut p = payload;
    r.append(&mut p);
    proof {
        assert(r@ =~= frame_bytes(token, pl));
    }
    r
}

/// The twelve handshake bytes, in the order they go on the wire.
fn handshake_hello() -> (r: Vec<u8>)
    ensures
        r@ == handshake_bytes(),
{
    let mut r = u32_to_le_bytes(PROTOCOL_VERSION_MAGIC);
    let mut mid = u32_to_le_bytes(0);
    let mut tail = u32_to_le_bytes(WIRE_FORMAT_MAGIC);
    r.append(&mut mid);
    r.append(&mut tail);
    proof {
        assert(r@ =~= handshake_bytes());
    }
    r
}

/// Whether the reply is exactly the success marker.
fn is_success_reply(b: &Vec<u8>) -> (r: bool)
    ensures
        r == (b@ == success_reply()),
{
    proof {
        assert(success_reply().len() == 7);
    }
    if b.len() != 7 {
        return false;
    }
    if b[0] == 83 && b[1] == 85 && b[2] == 67 && b[3] == 67 && b[4] == 69 && b[5] == 83
        && b[6] == 83 {
        proof {
            assert(b@ =~= success_reply());
        }
        true
    } else {
        proof {
            assert(b@ != success_reply()) by {
                if b@ == success_reply() {
                    assert(b@[0] == 83);
                    assert(b@[1] == 85);
                    assert(b@[2] == 67);
                    assert(b@[3] == 67);
                    assert(b@[4] == 69);
                    assert(b@[5] == 83);
                    assert(b@[6] == 83);
                }
            }
        }
        false
    }
}

/// Decide the handshake from the server's reply: exactly the success marker
/// accepts the connection; any other reply is rejected, with the server's
/// message preserved, and a reply that is not UTF-8 is an encoding error.
pub fn check_greeting(reply: Vec<u8>) -> (r: Result<(), Error>)
    ensures
        r is Ok <==> reply@ == success_reply(),
        r matches Err(e) ==> e is HandshakeRejected || e is Encoding,
        r matches Err(Error::HandshakeRejected(m)) ==> valid_utf8(reply@) && m@ == decode_utf8(
            reply@,
        ),
        (r matches Err(e) && e is Encoding) ==> !valid_utf8(reply@),
{
    if is_success_reply(&reply) {
        return Ok(());
    }
    match utf8_to_string(reply) {
        Ok(s) => Err(Error::HandshakeRejected(s)),
        Err(e) => Err(e),
    }
}

/// The lifecycle of a connection: handshaking at construction, ready once the
/// server accepts, failed once the stream can no longer be trusted.
pub enum ConnState {
    Handshaking,
    Ready,
    Failed,
}

/// A connection: the exclusive owner of its byte stream and of the token
/// counter that correlates each request frame with its response frame.
pub struct Connection<S: ByteStream> {
    stream: S,
    query_count: u64,
    state: ConnState,
    sent: Ghost<Seq<u64>>,
    wire_log: Ghost<Seq<u8>>,
    read_log: Ghost<Seq<u8>>,
}

impl<S: ByteStream> Connection<S> {
    /// How many queries this connection has sent; the last token used.
    pub closed spec fn count(&self) -> u64 {
        self.query_count
    }

    /// Every token this connection has sent, in order.
    pub closed spec fn tokens(&self) -> Seq<u64> {
        self.sent@
    }

    pub closed spec fn is_ready(&self) -> bool {
        self.state is Ready
    }

    pub closed spec fn is_failed(&self) -> bool {
        self.state is Failed
    }

    /// The stream the connection owns.
    pub closed spec fn spec_stream(&self) -> S {
        self.stream
    }

    /// Every byte this connection has handed to its stream, in order.
    pub closed spec fn wire(&self) -> Seq<u8> {
        self.wire_log@
    }

    /// Every byte this connection has received from its stream, in order.
    pub closed spec fn reads(&self) -> Seq<u8> {
        self.read_log@
    }

    /// Well-formed: the token trail is exactly 1, 2, …, count.
    pub closed spec fn wf(&self) -> bool {
        &&& self.sent@.len() == self.query_count
        &&& forall|i: int| 0 <= i < self.sent@.len() ==> self.sent@[i] == i + 1
    }

    /// The number of queries sent so far.
    pub fn query_count(&self) -> (r: u64)
        ensures
            r == self.count(),
    {
        self.query_count
    }

    /// Whether the connection is ready for queries.
    pub fn ready(&self) -> (r: bool)
        ensures
            r == self.is_ready(),
    {
        match self.state {
            ConnState::Ready => true,
            _ => false,
        }
    }

    /// A view of the stream, for inspection.
    pub fn stream_ref(&self) -> (r: &S)
        ensures
            *r == self.spec_stream(),
    {
        &self.stream
    }

    /// Open a connection over an already-connected byte stream: run the
    /// handshake once, and hand the connection out only if the server
    /// accepted it.
    pub fn connect(stream: S) -> (r: Result<Connection<S>, Error>)
        ensures
            r matches Ok(c) ==> c.wf() && c.count() == 0 && c.tokens() == Seq::<u64>::empty()
                && c.is_ready() && c.wire() == handshake_bytes() && c.reads() == success_reply()
                + seq![0u8] && c.spec_stream().consumed() == stream.consumed() + success_reply()
                + seq![0u8],
            r matches Err(e) ==> e is Transport || e is Encoding || e is HandshakeRejected,
    {
        let mut conn = Connection {
            stream,
            query_count: 0,
            state: ConnState::Handshaking,
            sent: Ghost(Seq::empty()),
            wire_log: Ghost(Seq::empty()),
            read_log: Ghost(Seq::empty()),
        };
        match conn.handshake() {
            Ok(()) => Ok(conn),
            Err(e) => Err(e),
        }
    }

    /// Write the three fixed handshake fields, read the server's
    /// zero-terminated reply, and accept exactly the success marker.
    fn handshake(&mut self) -> (r: Result<(), Error>)
        ensures
            final(self).count() == old(self).count(),
            final(self).tokens() == old(self).tokens(),
            r is Ok ==> final(self).is_ready(),
            r is Ok ==> final(self).wire() == old(self).wire() + handshake_bytes(),
            r matches Err(e) ==> final(self).is_failed() && (e is Transport || e is Encoding
                || e is HandshakeRejected),
            (r matches Err(e) && (e is HandshakeRejected || e is Encoding)) ==> final(self).wire()
                == old(self).wire() + handshake_bytes(),
            r is Ok ==> final(self).reads() == old(self).reads() + success_reply() + seq![0u8]
                && final(self).spec_stream().consumed() == old(self).spec_stream().consumed()
                + success_reply() + seq![0u8],
            r matches Err(Error::HandshakeRejected(m)) ==> exists|b: Seq<u8>|
                final(self).reads() == old(self).reads() + b + seq![0u8] && valid_utf8(b) && m@
                    == decode_utf8(b) && b != success_reply(),
    {
        let hello = handshake_hello();
        match self.stream.bs_write(&hello) {
            Ok(()) => {
                self.wire_log = Ghost(self.wire_log@ + hello@);
            },
            Err(e) => {
                self.state = ConnState::Failed;
                return Err(e);
            },
        }
        let reply = match read_until_nul(&mut self.stream) {
            Ok(b) => b,
            Err(e) => {
                self.state = ConnState::Failed;
                return Err(e);
            },
        };
        let ghost rv = reply@;
        self.read_log = Ghost(self.read_log@ + rv + seq![0u8]);
        match check_greeting(reply) {
            Ok(()) => {
                self.state = ConnState::Ready;
                Ok(())
            },
            Err(e) => {
                self.state = ConnState::Failed;
                Err(e)
            },
        }
    }

    /// Execute a query: wrap its rendered term in the envelope, serialize,
    /// and exchange one frame. Only a ready connection may execute; a failed
    /// or still-handshaking one is refused unchanged.
    pub fn exec<Q: Reql>(&mut self, query: Q) -> (r: Result<serde_json::Value, Error>)
        requires
            old(self).wf(),
            old(self).count() < u64::MAX,
        ensures
            final(self).wf(),
            !old(self).is_ready() ==> *final(self) == *old(self) && (r matches Err(e)
                && e is Unknown),
            old(self).is_ready() ==> (r is Ok || (r matches Err(e) && (e is Transport
                || e is TokenMismatch || e is Decoding || e is Unknown))),
            old(self).is_ready() ==> final(self).count() == old(self).count() + 1
                && final(self).tokens() == old(self).tokens().push((old(self).count() + 1) as u64),
            (old(self).is_ready() && r is Ok) ==> final(self).is_ready(),
            (old(self).is_ready() && (r is Ok || (r matches Err(e) && (e is TokenMismatch
                || e is Decoding)))) ==> final(self).wire() == old(self).wire() + frame_bytes(
                (old(self).count() + 1) as u64,
                json_encoding(envelope_model(query.term())),
            ),
            (r matches Err(e) && e is Transport) ==> final(self).is_failed() && extends(
                final(self).reads(),
                old(self).reads(),
            ) && (gained(final(self).reads(), old(self).reads()).len() == 0 || gained(
                final(self).reads(),
                old(self).reads(),
            ).len() == 8 || gained(final(self).reads(), old(self).reads()).len() == 12),
            r matches Err(Error::TokenMismatch { expected: ex, got: g })
                ==> final(self).is_failed() && ex == old(self).count() + 1 && g != ex && extends(
                final(self).reads(),
                old(self).reads(),
            ) && gained(final(self).reads(), old(self).reads()).len() == 8
                && spec_u64_from_le_bytes(gained(final(self).reads(), old(self).reads())) == g,
            (old(self).is_ready() && (r matches Err(e) && e is Decoding)) ==> final(self).is_ready(),
            (old(self).is_ready() && (r is Ok || (r matches Err(e) && e is Decoding)))
                ==> extends(final(self).reads(), old(self).reads()) && gained(
                final(self).reads(),
                old(self).reads(),
            ).len() >= 12 && spec_u64_from_le_bytes(
                gained(final(self).reads(), old(self).reads()).subrange(0, 8),
            ) == (old(self).count() + 1) as u64 && spec_u32_from_le_bytes(
                gained(final(self).reads(), old(self).reads()).subrange(8, 12),
            ) == gained(final(self).reads(), old(self).reads()).len() - 12,
            r matches Ok(v) ==> value_model(v) == json_decoding(
                gained(final(self).reads(), old(self).reads()).skip(12),
            ),
            (r is Ok || (r matches Err(e) && (e is TokenMismatch || e is Decoding))) ==> gained(
                final(self).spec_stream().consumed(),
                old(self).spec_stream().consumed(),
            ) == gained(final(self).reads(), old(self).reads()),
            (old(self).is_ready() && (r matches Err(e) && e is Unknown)) ==> json_encoding(
                envelope_model(query.term()),
            ).len() > u32::MAX && final(self).wire() == old(self).wire() && final(self).reads()
                == old(self).reads() && final(self).spec_stream().consumed() == old(
                self,
            ).spec_stream().consumed() && final(self).is_ready(),
            (old(self).is_ready() && json_encoding(envelope_model(query.term())).len()
                > u32::MAX) ==> (r matches Err(e) && e is Unknown),
    {
        match self.state {
            ConnState::Ready => {},
            _ => {
                return Err(
                    Error::Unknown(
                        UnknownError::new(
                            String::from_str("connection is not ready for queries"),
                        ),
                    ),
                );
            },
        }
        let term = query.as_json();
        let envelope = make_envelope(term);
        let payload = match json_to_vec(&envelope) {
            Ok(p) => p,
            Err(e) => {
                return Err(e);
            },
        };
        self.send_payload(payload)
    }

    /// Send one serialized envelope as a frame under the next token and read
    /// back the matching response frame: the counter moves exactly once, the
    /// response token must echo the one sent, and the declared length is read
    /// in full before the payload is parsed.
    fn send_payload(&mut self, payload: Vec<u8>) -> (r: Result<serde_json::Value, Error>)
        requires
            old(self).wf(),
            old(self).is_ready(),
            old(self).count() < u64::MAX,
        ensures
            final(self).wf(),
            final(self).count() == old(self).count() + 1,
            final(self).tokens() == old(self).tokens().push((old(self).count() + 1) as u64),
            r matches Ok(v) ==> final(self).is_ready(),
            (r is Ok || (r matches Err(e) && e is Decoding)) ==> extends(
                final(self).reads(),
                old(self).reads(),
            ) && gained(final(self).reads(), old(self).reads()).len() >= 12
                && spec_u64_from_le_bytes(
                gained(final(self).reads(), old(self).reads()).subrange(0, 8),
            ) == (old(self).count() + 1) as u64 && spec_u32_from_le_bytes(
                gained(final(self).reads(), old(self).reads()).subrange(8, 12),
            ) == gained(final(self).reads(), old(self).reads()).len() - 12,
            r matches Ok(v) ==> value_model(v) == json_decoding(
                gained(final(self).reads(), old(self).reads()).skip(12),
            ),
            r matches Err(e) ==> e is Transport || e is TokenMismatch || e is Decoding
                || e is Unknown,
            (r matches Err(e) && e is Transport) ==> final(self).is_failed() && extends(
                final(self).reads(),
                old(self).reads(),
            ) && (gained(final(self).reads(), old(self).reads()).len() == 0 || gained(
                final(self).reads(),
                old(self).reads(),
            ).len() == 8 || gained(final(self).reads(), old(self).reads()).len() == 12),
            r matches Err(Error::TokenMismatch { expected: ex, got: g })
                ==> final(self).is_failed() && ex == old(self).count() + 1 && g != ex && extends(
                final(self).reads(),
                old(self).reads(),
            ) && gained(final(self).reads(), old(self).reads()).len() == 8
                && spec_u64_from_le_bytes(gained(final(self).reads(), old(self).reads())) == g,
            (r matches Err(e) && e is Decoding) ==> final(self).is_ready(),
            (r matches Err(e) && e is Unknown) ==> final(self).is_ready() && final(self).wire()
                == old(self).wire() && final(self).reads() == old(self).reads() && payload@.len()
                > u32::MAX,
            payload@.len() > u32::MAX ==> (r matches Err(e) && e is Unknown),
            (r is Ok || (r matches Err(e) && (e is TokenMismatch || e is Decoding)))
                ==> final(self).wire() == old(self).wire() + frame_bytes(
                (old(self).count() + 1) as u64,
                payload@,
            ),
            (r is Ok || (r matches Err(e) && (e is TokenMismatch || e is Decoding))) ==> gained(
                final(self).spec_stream().consumed(),
                old(self).spec_stream().consumed(),
            ) == gained(final(self).reads(), old(self).reads()),
            (r matches Err(e) && e is Unknown) ==> final(self).spec_stream().consumed() == old(
                self,
            ).spec_stream().consumed(),
    {
        self.query_count = self.query_count + 1;
        let token = self.query_count;
        self.sent = Ghost(self.sent@.push(token));
        if payload.len() > (u32::MAX as usize) {
            return Err(
                Error::Unknown(
                    UnknownError::new(
                        String::from_str("query payload exceeds the frame length field"),
                    ),
                ),
            );
        }
        let frame = build_frame(token, payload);
        match self.stream.bs_write(&frame) {
            Ok(()) => {
                self.wire_log = Ghost(self.wire_log@ + frame@);
            },
            Err(e) => {
                self.state = ConnState::Failed;
                proof {
                    lemma_log_extends(self.read_log@, Seq::<u8>::empty());
                    assert(self.read_log@ + Seq::<u8>::empty() =~= self.read_log@);
                }
                return Err(e);
            },
        }
        let token_bytes = match read_exact(&mut self.stream, 8) {
            Ok(b) => b,
            Err(e) => {
                self.state = ConnState::Failed;
                proof {
                    lemma_log_extends(self.read_log@, Seq::<u8>::empty());
                    assert(self.read_log@ + Seq::<u8>::empty() =~= self.read_log@);
                }
                return Err(e);
            },
        };
        let ghost tb = token_bytes@;
        self.read_log = Ghost(self.read_log@ + tb);
        let got = u64_from_le_bytes(token_bytes.as_slice());
        if got != token {
            self.state = ConnState::Failed;
            proof {
                lemma_log_extends(old(self).read_log@, tb);
                lemma_log_extends(old(self).spec_stream().consumed(), tb);
            }
            return Err(Error::TokenMismatch { expected: token, got });
        }
        let len_bytes = match read_exact(&mut self.stream, 4) {
            Ok(b) => b,
            Err(e) => {
                self.state = ConnState::Failed;
                proof {
                    lemma_log_extends(old(self).read_log@, tb);
                }
                return Err(e);
            },
        };
        let ghost lb = len_bytes@;
        self.read_log = Ghost(self.read_log@ + lb);
        let resp_len = u32_from_le_bytes(len_bytes.as_slice());
        let body = match read_exact(&mut self.stream, resp_len as usize) {
            Ok(b) => b,
            Err(e) => {
                self.state = ConnState::Failed;
                proof {
                    lemma_log_extends(old(self).read_log@, tb + lb);
                    assert(self.read_log@ =~= old(self).read_log@ + (tb + lb));
                }
                return Err(e);
            },
        };
        let ghost bb = body@;
        self.read_log = Ghost(self.read_log@ + bb);
        proof {
            lemma_log_extends(old(self).read_log@, tb + lb + bb);
            assert(self.read_log@ =~= old(self).read_log@ + (tb + lb + bb));
            lemma_log_extends(old(self).spec_stream().consumed(), tb + lb + bb);
            assert(self.stream.consumed() =~= old(self).spec_stream().consumed() + (tb + lb + bb));
            assert((tb + lb + bb).subrange(0, 8) =~= tb);
            assert((tb + lb + bb).subrange(8, 12) =~= lb);
            assert((tb + lb + bb).skip(12) =~= bb);
        }
        match json_from_slice(&body) {
            Ok(v) => Ok(v),
            Err(e) => Err(e),
        }
    }
}

/// Law: a frame declares its boundaries recoverably. Its first eight bytes,
/// decoded little-endian, are exactly the token it was built under; the next
/// four are exactly the payload's length; and the payload fills the rest, so
/// a reader that takes the declared length takes exactly the payload.
pub proof fn lemma_frame_recoverable(token: u64, payload: Seq<u8>)
    requires
        payload.len() <= u32::MAX,
    ensures
        frame_bytes(token, payload).len() == 12 + payload.len(),
        spec_u64_from_le_bytes(frame_bytes(token, payload).subrange(0, 8)) == token,
        spec_u32_from_le_bytes(frame_bytes(token, payload).subrange(8, 12)) == payload.len(),
        frame_bytes(token, payload).subrange(12, frame_bytes(token, payload).len() as int)
            == payload,
{
    lemma_auto_spec_u64_to_from_le_bytes();
    lemma_auto_spec_u32_to_from_le_bytes();
    let f = frame_bytes(token, payload);
    assert(spec_u64_to_le_bytes(token).len() == 8);
    assert(spec_u32_to_le_bytes(payload.len() as u32).len() == 4);
    assert(f.subrange(0, 8) =~= spec_u64_to_le_bytes(token));
    assert(f.subrange(8, 12) =~= spec_u32_to_le_bytes(payload.len() as u32));
    assert(f.subrange(12, f.len() as int) =~= payload);
}

/// Law: the tokens a well-formed connection has sent are exactly
/// 1, 2, …, count — consecutive from 1, strictly increasing, with no gaps
/// and no repeats.
pub proof fn lemma_tokens_sequential<S: ByteStream>(c: &Connection<S>)
    requires
        c.wf(),
    ensures
        c.tokens().len() == c.count(),
        forall|i: int| 0 <= i < c.tokens().len() ==> c.tokens()[i] == i + 1,
        forall|i: int, j: int| 0 <= i < j < c.tokens().len() ==> c.tokens()[i] < c.tokens()[j],
{
    assert forall|i: int, j: int|
        0 <= i < j < c.tokens().len() implies c.tokens()[i] < c.tokens()[j] by {
        assert(c.tokens()[i] == i + 1);
        assert(c.tokens()[j] == j + 1);
    }
}

} // verus!
