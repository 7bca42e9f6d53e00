use crate::errors::Error;
use vstd::prelude::*;
use vstd::string::StringExecFns;
use vstd::utf8::{decode_utf8, valid_utf8};

verus! {

/// The byte stream a connection runs over: blocking, bidirectional, owned
/// exclusively by its connection. What a read returns is the peer's decision;
/// contracts therefore state only what holds of every outcome.
pub trait ByteStream {
    /// The bytes that reads have handed out so far, in order. An
    /// implementation that does not model where its bytes come from may keep
    /// the default; the reading contracts below then say nothing of it.
    open spec fn consumed(&self) -> Seq<u8> {
        Seq::<u8>::empty()
    }

    /// Write all of `data` to the stream, blocking until done or failed.
    /// Writing consumes nothing.
    fn bs_write(&mut self, data: &Vec<u8>) -> (r: Result<(), Error>)
        ensures
            r matches Err(e) ==> e is Transport,
            final(self).consumed() == old(self).consumed(),
    ;

    /// Read at most `max` bytes, blocking until at least one byte is
    /// available. An empty result with `max > 0` means the stream has ended.
    /// A successful read hands out exactly the bytes it consumes.
    fn bs_read(&mut self, max: usize) -> (r: Result<Vec<u8>, Error>)
        ensures
            r matches Ok(chunk) ==> chunk@.len() <= max,
            r matches Err(e) ==> e is Transport,
            r matches Ok(chunk) ==> final(self).consumed() == old(self).consumed() + chunk@,
    ;
}

/// An in-memory byte stream: reads are served from `input`, writes are
/// appended to `output`, and a read never hands out more than `chunk` bytes
/// at a time. It serves as a test double for a connection's peer.
pub struct MemStream {
    pub input: Vec<u8>,
    pub pos: usize,
    pub chunk: usize,
    pub output: Vec<u8>,
}

impl MemStream {
    /// The read position, clamped into the reply.
    pub open spec fn cursor(&self) -> int {
        vstd::math::min(self.pos as int, self.input@.len() as int)
    }

    /// How many reply bytes are still pending.
    pub open spec fn pending(&self) -> int {
        if self.pos < self.input@.len() {
            self.input@.len() - self.pos
        } else {
            0
        }
    }

    /// How many bytes one read asking for `max` serves: as many as are
    /// pending, but never more than `max` nor than the `chunk` bound.
    pub open spec fn serve_len(&self, max: usize) -> int {
        vstd::math::min(vstd::math::min(max as int, self.chunk as int), self.pending())
    }

    /// A stream that replies with `input` and serves reads of any size.
    pub fn new(input: Vec<u8>) -> (r: MemStream)
        ensures
            r.input == input,
            r.pos == 0,
            r.chunk == usize::MAX,
            r.output@ == Seq::<u8>::empty(),
    {
        MemStream { input, pos: 0, chunk: usize::MAX, output: Vec::new() }
    }

    /// A stream that replies with `input` but serves at most `chunk` bytes
    /// for each read, however many were asked for.
    pub fn with_chunk(input: Vec<u8>, chunk: usize) -> (r: MemStream)
        ensures
            r.input == input,
            r.pos == 0,
            r.chunk == chunk,
            r.output@ == Seq::<u8>::empty(),
    {
        MemStream { input, pos: 0, chunk, output: Vec::new() }
    }
}

impl ByteStream for MemStream {
    /// The prefix of the reply that reads have already handed out.
    open spec fn consumed(&self) -> Seq<u8> {
        self.input@.subrange(0, self.cursor())
    }

    fn bs_write(&mut self, data: &Vec<u8>) -> (r: Result<(), Error>)
        ensures
            r is Ok,
            final(self).output@ == old(self).output@ + data@,
            final(self).input == old(self).input,
            final(self).pos == old(self).pos,
            final(self).chunk == old(self).chunk,
    {
        let mut i: usize = 0;
        while i < data.len()
            invariant
                i <= data@.len(),
                self.output@ == old(self).output@ + data@.subrange(0, i as int),
                self.input == old(self).input,
                self.pos == old(self).pos,
                self.chunk == old(self).chunk,
            decreases data@.len() - i,
        {
            self.output.push(data[i]);
            i = i + 1;
            proof {
                assert(data@.subrange(0, i as int)
                    =~= data@.subrange(0, i - 1 as int).push(data@[i - 1]));
            }
        }
        proof {
            assert(data@.subrange(0, data@.len() as int) =~= data@);
        }
        Ok(())
    }

    fn bs_read(&mut self, max: usize) -> (r: Result<Vec<u8>, Error>)
        ensures
            r is Ok,
            r matches Ok(got) ==> got@ == old(self).input@.subrange(
                old(self).cursor(),
                old(self).cursor() + old(self).serve_len(max),
            ),
            final(self).pos == old(self).pos + old(self).serve_len(max),
            final(self).input == old(self).input,
            final(self).chunk == old(self).chunk,
            final(self).output == old(self).output,
    {
        let avail: usize = if self.pos >= self.input.len() {
            0
        } else {
            self.input.len() - self.pos
        };
        let mut take: usize = avail;
        if self.chunk < take {
            take = self.chunk;
        }
        if max < take {
            take = max;
        }
        proof {
            assert(take == old(self).serve_len(max));
        }
        let start = self.pos;
        let ilen = self.input.len();
        let mut out: Vec<u8> = Vec::new();
        let mut i: usize = 0;
        while i < take
            invariant
                i <= take,
                out@.len() == i,
                take == 0 || out@ =~= self.input@.subrange(start as int, start + i),
                ilen == self.input@.len(),
                take == 0 || take + start <= ilen,
                start == self.pos,
                self == old(self),
            decreases take - i,
        {
            out.push(self.input[start + i]);
            i = i + 1;
            proof {
                assert(self.input@.subrange(start as int, start + i)
                    =~= self.input@.subrange(start as int, start + i - 1).push(
                    self.input@[start + i - 1],
                ));
            }
        }
        self.pos = start + take;
        proof {
            if take > 0 {
                assert(start == old(self).cursor());
            } else {
                assert(out@ =~= self.input@.subrange(old(self).cursor(), old(self).cursor()));
            }
            assert(self.consumed() =~= old(self).consumed() + out@);
        }
        Ok(out)
    }
}

/// Read exactly `n` bytes from the stream, accumulating across as many
/// partial reads as the stream needs; a stream that ends first is a
/// transport error, never a short result.
pub fn read_exact<S: ByteStream>(stream: &mut S, n: usize) -> (r: Result<Vec<u8>, Error>)
    ensures
        r matches Ok(bytes) ==> bytes@.len() == n && final(stream).consumed() == old(
            stream,
        ).consumed() + bytes@,
        r matches Err(e) ==> e is Transport,
        n == 0 ==> r is Ok,
{
    let mut buf: Vec<u8> = Vec::new();
    while buf.len() < n
        invariant
            buf@.len() <= n,
            stream.consumed() == old(stream).consumed() + buf@,
        decreases n - buf@.len(),
    {
        let want = n - buf.len();
        let chunk = match stream.bs_read(want) {
            Ok(c) => c,
            Err(e) => {
                return Err(e);
            },
        };
        if chunk.len() == 0 {
            return Err(Error::Transport(String::from_str("unexpected end of stream")));
        }
        let ghost pre = buf@;
        let mut j: usize = 0;
        while j < chunk.len()
            invariant
                j <= chunk@.len(),
                buf@ == pre + chunk@.subrange(0, j as int),
                pre.len() + chunk@.len() <= n,
            decreases chunk@.len() - j,
        {
            buf.push(chunk[j]);
            j = j + 1;
            proof {
                assert(chunk@.subrange(0, j as int)
                    =~= chunk@.subrange(0, j - 1 as int).push(chunk@[j - 1]));
            }
        }
        proof {
            assert(chunk@.subrange(0, chunk@.len() as int) =~= chunk@);
            assert(stream.consumed() =~= old(stream).consumed() + buf@);
        }
    }
    Ok(buf)
}

/// Read single bytes from the stream up to, and not including, the first
/// zero byte.
pub fn read_until_nul<S: ByteStream>(stream: &mut S) -> (r: Result<Vec<u8>, Error>)
    ensures
        r matches Ok(bytes) ==> forall|i: int| 0 <= i < bytes@.len() ==> bytes@[i] != 0,
        r matches Ok(bytes) ==> final(stream).consumed() == old(stream).consumed() + bytes@
            + seq![0u8],
        r matches Err(e) ==> e is Transport,
{
    let mut buf: Vec<u8> = Vec::new();
    loop
        invariant
            forall|i: int| 0 <= i < buf@.len() ==> buf@[i] != 0,
            stream.consumed() == old(stream).consumed() + buf@,
        decreases usize::MAX - buf@.len(),
    {
        let chunk = match stream.bs_read(1) {
            Ok(c) => c,
            Err(e) => {
                return Err(e);
            },
        };
        if chunk.len() == 0 {
            return Err(Error::Transport(String::from_str("unexpected end of stream")));
        }
        let b = chunk[0];
        if b == 0 {
            proof {
                assert(chunk@ =~= seq![0u8]);
                assert(stream.consumed() =~= old(stream).consumed() + buf@ + seq![0u8]);
            }
            return Ok(buf);
        }
        if buf.len() == usize::MAX {
            return Err(Error::Transport(String::from_str("reply exceeds the largest buffer")));
        }
        buf.push(b);
        proof {
            assert(stream.consumed() =~= old(stream).consumed() + buf@);
        }
    }
}

/// Relies on String::from_utf8: the result is the UTF-8 decoding of the
/// bytes, exactly when they are a valid encoding; invalid bytes surface as
/// an encoding error.
#[verifier::external_body]
pub fn utf8_to_string(bytes: Vec<u8>) -> (r: Result<String, Error>)
    ensures
        r is Ok <==> valid_utf8(bytes@),
        r matches Ok(s) ==> s@ == decode_utf8(bytes@),
        r matches Err(e) ==> e is Encoding,
{
    match String::from_utf8(bytes) {
        Ok(s) => Ok(s),
        Err(e) => Err(Error::Encoding(e.to_string())),
    }
}

/// Read a zero-terminated string from the stream and decode it as UTF-8,
/// as the handshake's reply is framed.
pub fn read_string<S: ByteStream>(stream: &mut S) -> (r: Result<String, Error>)
    ensures
        r matches Ok(s) ==> final(stream).consumed().len() >= old(stream).consumed().len() + 1
            && final(stream).consumed().subrange(0, old(stream).consumed().len() as int) == old(
            stream,
        ).consumed() && final(stream).consumed().last() == 0u8 && valid_utf8(
            final(stream).consumed().subrange(
                old(stream).consumed().len() as int,
                final(stream).consumed().len() - 1,
            ),
        ) && s@ == decode_utf8(
            final(stream).consumed().subrange(
                old(stream).consumed().len() as int,
                final(stream).consumed().len() - 1,
            ),
        ),
        r matches Err(e) ==> e is Transport || e is Encoding,
{
    let bytes = match read_until_nul(stream) {
        Ok(b) => b,
        Err(e) => {
            return Err(e);
        },
    };
    let ghost bv = bytes@;
    let r = utf8_to_string(bytes);
    proof {
        if r is Ok {
            assert(stream.consumed().subrange(0, old(stream).consumed().len() as int)
                =~= old(stream).consumed());
            assert(stream.consumed().subrange(
                old(stream).consumed().len() as int,
                stream.consumed().len() - 1,
            ) =~= bv);
        }
    }
    r
}

} // verus!
