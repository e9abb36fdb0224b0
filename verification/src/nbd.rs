//! The Network Block Device server's side of the wire: the handshake, the
//! 28-byte request, the 16-byte reply, and what each command does to the
//! export that backs the device. All multi-byte fields are big-endian.

use vstd::prelude::*;
use crate::wire::{be_bytes, be_value, get_be16, get_be32, get_be64, put_be16, put_be32, put_be64};
use crate::wire::{lemma_be_bytes_len, lemma_be_round_trip, lemma_field_limits};

verus! {

pub const NBD_MAGIC: u64 = 0x4e42444d41474943;

pub const NBD_OPT_MAGIC: u64 = 0x49484156454f5054;

pub const NBD_REQUEST_MAGIC: u32 = 0x25609513;

pub const NBD_RESPONSE_MAGIC: u32 = 0x67446698;

pub const NBD_CMD_READ: u16 = 0;

pub const NBD_CMD_WRITE: u16 = 1;

pub const NBD_CMD_DISC: u16 = 2;

pub const NBD_SUCCESS: u32 = 0;

pub const NBD_EINVAL: u32 = 1;

/// Bytes of the handshake that opens every session.
pub const HANDSHAKE_LEN: usize = 124;

/// Bytes of a request on the wire.
pub const REQUEST_LEN: usize = 28;

/// Bytes of a reply header on the wire.
pub const REPLY_LEN: usize = 16;

/// Why an export turned an operation down.
#[derive(Debug, Copy, Clone, PartialEq, Eq, Structural)]
pub enum ExportError {
    /// The range does not lie within the export.
    OutOfBounds,
    /// The store behind the export failed.
    Backend,
}

/// Why a request could not be read.
#[derive(Debug, Copy, Clone, PartialEq, Eq, Structural)]
pub enum RequestError {
    /// Fewer than 28 bytes.
    ShortRequest,
    /// The first four bytes are not the request magic.
    InvalidMagic,
}

/// Whether `len` bytes from `offset` lie within an export of `size` bytes.
pub open spec fn in_bounds(size: nat, offset: u64, len: nat) -> bool {
    offset + len <= size
}

/// The `len` bytes of `contents` from `offset`.
pub open spec fn read_range(contents: Seq<u8>, offset: u64, len: u32) -> Seq<u8>
    recommends
        in_bounds(contents.len(), offset, len as nat),
{
    contents.subrange(offset as int, offset + len)
}

/// `contents` with `data` written over the bytes from `offset`.
pub open spec fn write_range(contents: Seq<u8>, offset: u64, data: Seq<u8>) -> Seq<u8>
    recommends
        in_bounds(contents.len(), offset, data.len()),
{
    contents.subrange(0, offset as int) + data + contents.subrange(
        offset + data.len(),
        contents.len() as int,
    )
}

/// What a read of `len` bytes from `offset` gives on a store that holds
/// `contents`: the bytes, or `OutOfBounds`.
pub open spec fn store_read(contents: Seq<u8>, offset: u64, len: u32) -> Result<
    Seq<u8>,
    ExportError,
> {
    if in_bounds(contents.len(), offset, len as nat) {
        Ok(read_range(contents, offset, len))
    } else {
        Err(ExportError::OutOfBounds)
    }
}

/// What a write of `data` at `offset` does to a store that holds
/// `contents`: the new contents, or `OutOfBounds` and no change.
pub open spec fn store_write(contents: Seq<u8>, offset: u64, data: Seq<u8>) -> (
    Seq<u8>,
    Result<(), ExportError>,
) {
    if in_bounds(contents.len(), offset, data.len()) {
        (write_range(contents, offset, data), Ok(()))
    } else {
        (contents, Err(ExportError::OutOfBounds))
    }
}

/// What a read returned, as plain values.
pub open spec fn read_view(data: Result<Vec<u8>, ExportError>) -> Result<Seq<u8>, ExportError> {
    match data {
        Ok(bytes) => Ok(bytes@),
        Err(e) => Err(e),
    }
}

/// A byte-addressable store of fixed size behind the server.
///
/// An implementation promises what its `reliable` says. One that says
/// nothing promises nothing: its reads and writes may fail for any reason,
/// and the server goes by what they return.
pub trait Export {
    /// Whether this export is a plain store of `contents`: reads return what
    /// it holds, writes change it, and both fail on ranges out of bounds
    /// only.
    open spec fn reliable(&self) -> bool {
        false
    }

    /// The bytes that a reliable export holds.
    open spec fn contents(&self) -> Seq<u8> {
        Seq::<u8>::empty()
    }

    /// Exactly `len` bytes from `offset`, or a failure.
    fn read(&mut self, offset: u64, len: u32) -> (data: Result<Vec<u8>, ExportError>)
        ensures
            old(self).reliable() ==> final(self).reliable() && final(self).contents() == old(
                self,
            ).contents() && read_view(data) == store_read(old(self).contents(), offset, len),
    ;

    /// Overwrites exactly `data.len()` bytes from `offset`, or fails.
    fn write(&mut self, offset: u64, data: &[u8]) -> (done: Result<(), ExportError>)
        ensures
            old(self).reliable() ==> final(self).reliable() && (final(self).contents(), done)
                == store_write(old(self).contents(), offset, data@),
    ;

    /// The number of bytes held.
    fn size(&self) -> (size: u64)
        ensures
            self.reliable() ==> size == self.contents().len(),
    ;
}

/// An export held in memory.
#[derive(Debug, Clone)]
pub struct InMemoryExport {
    data: Vec<u8>,
}

impl InMemoryExport {
    /// The bytes held.
    pub closed spec fn bytes(&self) -> Seq<u8> {
        self.data@
    }

    /// An export of `size` zero bytes.
    pub fn new(size: usize) -> (export: InMemoryExport)
        ensures
            export.bytes() == Seq::new(size as nat, |i: int| 0u8),
    {
        let export = InMemoryExport { data: vec![0u8; size] };
        assert(export.data@ =~= Seq::new(size as nat, |i: int| 0u8));
        export
    }
}

impl Export for InMemoryExport {
    open spec fn contents(&self) -> Seq<u8> {
        self.bytes()
    }

    open spec fn reliable(&self) -> bool {
        true
    }

    fn read(&mut self, offset: u64, len: u32) -> (data: Result<Vec<u8>, ExportError>) {
        let size: usize = self.data.len();
        if offset > size as u64 {
            return Err(ExportError::OutOfBounds);
        }
        let start: usize = offset as usize;
        if len as u64 > (size - start) as u64 {
            return Err(ExportError::OutOfBounds);
        }
        let end: usize = start + len as usize;
        let mut bytes: Vec<u8> = Vec::with_capacity(len as usize);
        bytes.extend_from_slice(vstd::slice::slice_subrange(self.data.as_slice(), start, end));
        assert(bytes@ =~= read_range(self.data@, offset, len));
        Ok(bytes)
    }

    fn write(&mut self, offset: u64, data: &[u8]) -> (done: Result<(), ExportError>) {
        let size: usize = self.data.len();
        if offset > size as u64 {
            return Err(ExportError::OutOfBounds);
        }
        let start: usize = offset as usize;
        if data.len() > size - start {
            return Err(ExportError::OutOfBounds);
        }
        let mut i: usize = 0;
        while i < data.len()
            invariant
                i <= data@.len(),
                start + data@.len() <= size,
                self.data@.len() == size,
                size == old(self).data@.len(),
                self.data@ == old(self).data@.subrange(0, start as int) + data@.subrange(
                    0,
                    i as int,
                ) + old(self).data@.subrange(start + i, size as int),
            decreases data@.len() - i,
        {
            self.data.set(start + i, data[i]);
            i = i + 1;
            assert(self.data@ =~= old(self).data@.subrange(0, start as int) + data@.subrange(
                0,
                i as int,
            ) + old(self).data@.subrange(start + i, size as int));
        }
        assert(data@.subrange(0, i as int) =~= data@);
        Ok(())
    }

    fn size(&self) -> (size: u64) {
        self.data.len() as u64
    }
}

/// A request of the client.
#[derive(Debug, Copy, Clone, PartialEq, Eq, Structural)]
pub struct Request {
    pub command: u16,
    pub handle: u64,
    pub offset: u64,
    pub length: u32,
}

/// The header of a reply to the client.
#[derive(Debug, Copy, Clone, PartialEq, Eq, Structural)]
pub struct Response {
    pub handle: u64,
    pub error: u32,
}

/// What the session does after a command.
#[derive(Debug, Copy, Clone, PartialEq, Eq, Structural)]
pub enum SessionStep {
    /// Wait for the next request.
    Continue,
    /// The client asked to end the session.
    Disconnect,
    /// The export failed: the session ends and the failure is reported.
    Fail(ExportError),
}

/// What a command leads to: the bytes to send, and how the session goes on.
pub struct Outcome {
    pub reply: Vec<u8>,
    pub step: SessionStep,
}

/// An outcome as plain values.
pub struct OutcomeView {
    pub reply: Seq<u8>,
    pub step: SessionStep,
}

impl View for Outcome {
    type V = OutcomeView;

    open spec fn view(&self) -> OutcomeView {
        OutcomeView { reply: self.reply@, step: self.step }
    }
}

/// The 124 bytes that open a session: two magics, the export's size, zero
/// flags, and zeros up to the end.
pub open spec fn handshake_bytes(export_size: u64) -> Seq<u8> {
    be_bytes(NBD_MAGIC as nat, 8) + be_bytes(NBD_OPT_MAGIC as nat, 8) + be_bytes(
        export_size as nat,
        8,
    ) + be_bytes(0, 2) + Seq::new(98, |i: int| 0u8)
}

/// The request held by 28 bytes: magic at 0, command at 4, handle at 8,
/// offset at 16, length at 24. The two bytes at 6 are not looked at.
pub open spec fn parse_request(buf: Seq<u8>) -> Result<Request, RequestError> {
    if buf.len() < REQUEST_LEN {
        Err(RequestError::ShortRequest)
    } else if be_value(buf.subrange(0, 4)) != NBD_REQUEST_MAGIC {
        Err(RequestError::InvalidMagic)
    } else {
        Ok(
            Request {
                command: be_value(buf.subrange(4, 6)) as u16,
                handle: be_value(buf.subrange(8, 16)) as u64,
                offset: be_value(buf.subrange(16, 24)) as u64,
                length: be_value(buf.subrange(24, 28)) as u32,
            },
        )
    }
}

/// The 16 bytes of a reply header: magic, error, handle.
pub open spec fn reply_bytes(response: Response) -> Seq<u8> {
    be_bytes(NBD_RESPONSE_MAGIC as nat, 4) + be_bytes(response.error as nat, 4) + be_bytes(
        response.handle as nat,
        8,
    )
}

/// The error field of a reply that starts `reply`.
pub open spec fn reply_error(reply: Seq<u8>) -> nat
    recommends
        reply.len() >= REPLY_LEN,
{
    be_value(reply.subrange(4, 8))
}

/// The outcome of a read, given what the export returned: the data behind a
/// success header, or an error header and the end of the session.
pub open spec fn read_outcome_of(handle: u64, data: Result<Seq<u8>, ExportError>) -> OutcomeView {
    match data {
        Ok(bytes) => OutcomeView {
            reply: reply_bytes(Response { handle, error: NBD_SUCCESS }) + bytes,
            step: SessionStep::Continue,
        },
        Err(e) => OutcomeView {
            reply: reply_bytes(Response { handle, error: NBD_EINVAL }),
            step: SessionStep::Fail(e),
        },
    }
}

/// The outcome of a write, given what the export returned: a success
/// header, or an error header and the end of the session.
pub open spec fn write_outcome_of(handle: u64, done: Result<(), ExportError>) -> OutcomeView {
    match done {
        Ok(_) => OutcomeView {
            reply: reply_bytes(Response { handle, error: NBD_SUCCESS }),
            step: SessionStep::Continue,
        },
        Err(e) => OutcomeView {
            reply: reply_bytes(Response { handle, error: NBD_EINVAL }),
            step: SessionStep::Fail(e),
        },
    }
}

/// What a command does to a reliable export, with `payload` the bytes that
/// followed a write request: the export's new contents and the outcome. A
/// disconnect ends the session without a reply; an unknown command is
/// answered with an error header and the session goes on.
pub open spec fn serve(contents: Seq<u8>, request: Request, payload: Seq<u8>) -> (
    Seq<u8>,
    OutcomeView,
) {
    if request.command == NBD_CMD_READ {
        (
            contents,
            read_outcome_of(request.handle, store_read(contents, request.offset, request.length)),
        )
    } else if request.command == NBD_CMD_WRITE {
        let (written, done) = store_write(contents, request.offset, payload);
        (written, write_outcome_of(request.handle, done))
    } else if request.command == NBD_CMD_DISC {
        (contents, OutcomeView { reply: Seq::<u8>::empty(), step: SessionStep::Disconnect })
    } else {
        (
            contents,
            OutcomeView {
                reply: reply_bytes(Response { handle: request.handle, error: NBD_EINVAL }),
                step: SessionStep::Continue,
            },
        )
    }
}

/// A reply header takes 16 bytes and carries its error at offset 4.
pub proof fn lemma_reply_layout(response: Response)
    ensures
        reply_bytes(response).len() == REPLY_LEN,
        reply_error(reply_bytes(response)) == response.error,
{
    lemma_be_bytes_len(NBD_RESPONSE_MAGIC as nat, 4);
    lemma_be_bytes_len(response.error as nat, 4);
    lemma_be_bytes_len(response.handle as nat, 8);
    lemma_field_limits();
    lemma_be_round_trip(response.error as nat, 4);
    assert(reply_bytes(response).subrange(4, 8) =~= be_bytes(response.error as nat, 4));
}

/// READ/WRITE round trip: on an export of any size, a write that lies
/// within bounds succeeds, and reading the same range afterwards replies
/// with a success header followed by the very bytes written.
pub proof fn lemma_write_then_read(
    contents: Seq<u8>,
    offset: u64,
    data: Seq<u8>,
    write_handle: u64,
    read_handle: u64,
)
    requires
        offset + data.len() <= contents.len(),
        data.len() <= u32::MAX,
    ensures
        ({
            let write = Request {
                command: NBD_CMD_WRITE,
                handle: write_handle,
                offset,
                length: data.len() as u32,
            };
            let read = Request {
                command: NBD_CMD_READ,
                handle: read_handle,
                offset,
                length: data.len() as u32,
            };
            let (written, first) = serve(contents, write, data);
            let (after, second) = serve(written, read, Seq::<u8>::empty());
            &&& first.step == SessionStep::Continue
            &&& reply_error(first.reply) == NBD_SUCCESS
            &&& second.step == SessionStep::Continue
            &&& second.reply == reply_bytes(Response { handle: read_handle, error: NBD_SUCCESS })
                + data
            &&& after == written
            &&& written.len() == contents.len()
        }),
{
    let written = write_range(contents, offset, data);
    assert(written.len() == contents.len());
    assert(read_range(written, offset, data.len() as u32) =~= data);
    lemma_reply_layout(Response { handle: write_handle, error: NBD_SUCCESS });
}

/// Out of bounds: a read or a write whose range does not lie within the
/// export replies with a header that carries a non-zero error, sends no
/// data, and leaves the export as it was.
pub proof fn lemma_out_of_bounds_refused(contents: Seq<u8>, request: Request, payload: Seq<u8>)
    requires
        request.command == NBD_CMD_READ && request.offset + request.length > contents.len()
            || request.command == NBD_CMD_WRITE && request.offset + payload.len()
            > contents.len(),
    ensures
        serve(contents, request, payload).0 == contents,
        serve(contents, request, payload).1.reply.len() == REPLY_LEN,
        reply_error(serve(contents, request, payload).1.reply) != 0,
        serve(contents, request, payload).1.step is Fail,
{
    lemma_reply_layout(Response { handle: request.handle, error: NBD_EINVAL });
}

/// The handshake sent to every client that connects.
pub fn perform_handshake(export_size: u64) -> (handshake: Vec<u8>)
    ensures
        handshake@ == handshake_bytes(export_size),
        handshake@.len() == HANDSHAKE_LEN,
{
    let mut handshake: Vec<u8> = Vec::with_capacity(HANDSHAKE_LEN);
    put_be64(&mut handshake, NBD_MAGIC);
    put_be64(&mut handshake, NBD_OPT_MAGIC);
    put_be64(&mut handshake, export_size);
    put_be16(&mut handshake, 0);
    let mut i: usize = 0;
    let ghost head = handshake@;
    while i < 98
        invariant
            i <= 98,
            handshake@ == head + Seq::new(i as nat, |k: int| 0u8),
        decreases 98 - i,
    {
        handshake.push(0u8);
        i = i + 1;
        assert(handshake@ =~= head + Seq::new(i as nat, |k: int| 0u8));
    }
    proof {
        lemma_be_bytes_len(NBD_MAGIC as nat, 8);
        lemma_be_bytes_len(NBD_OPT_MAGIC as nat, 8);
        lemma_be_bytes_len(export_size as nat, 8);
        lemma_be_bytes_len(0, 2);
    }
    handshake
}

impl Request {
    /// Reads a request from the 28 bytes that a client sent.
    pub fn from_bytes(buf: &[u8]) -> (request: Result<Request, RequestError>)
        ensures
            request == parse_request(buf@),
    {
        if buf.len() < REQUEST_LEN {
            return Err(RequestError::ShortRequest);
        }
        if get_be32(buf, 0) != NBD_REQUEST_MAGIC {
            return Err(RequestError::InvalidMagic);
        }
        Ok(
            Request {
                command: get_be16(buf, 4),
                handle: get_be64(buf, 8),
                offset: get_be64(buf, 16),
                length: get_be32(buf, 24),
            },
        )
    }

    /// How many bytes follow this request on the wire: the data of a write,
    /// and nothing for any other command.
    pub fn payload_len(&self) -> (len: u32)
        ensures
            len == if self.command == NBD_CMD_WRITE {
                self.length
            } else {
                0
            },
    {
        if self.command == NBD_CMD_WRITE {
            self.length
        } else {
            0
        }
    }
}

impl Response {
    pub fn new(handle: u64, error: u32) -> (response: Self)
        ensures
            response == (Response { handle, error }),
    {
        Self { handle, error }
    }

    /// The reply header's 16 bytes on the wire.
    pub fn to_bytes(&self) -> (bytes: Vec<u8>)
        ensures
            bytes@ == reply_bytes(*self),
            bytes@.len() == REPLY_LEN,
    {
        let mut bytes: Vec<u8> = Vec::with_capacity(REPLY_LEN);
        put_be32(&mut bytes, NBD_RESPONSE_MAGIC);
        put_be32(&mut bytes, self.error);
        put_be64(&mut bytes, self.handle);
        proof {
            lemma_reply_layout(*self);
        }
        bytes
    }
}

/// The outcome of a read, given what the export returned.
pub fn read_outcome(handle: u64, data: Result<Vec<u8>, ExportError>) -> (outcome: Outcome)
    ensures
        outcome@ == read_outcome_of(handle, read_view(data)),
{
    match data {
        Ok(bytes) => {
            let mut reply = Response::new(handle, NBD_SUCCESS).to_bytes();
            reply.extend_from_slice(bytes.as_slice());
            assert(reply@ =~= reply_bytes(Response { handle, error: NBD_SUCCESS }) + bytes@);
            Outcome { reply, step: SessionStep::Continue }
        },
        Err(e) => Outcome {
            reply: Response::new(handle, NBD_EINVAL).to_bytes(),
            step: SessionStep::Fail(e),
        },
    }
}

/// The outcome of a write, given what the export returned.
pub fn write_outcome(handle: u64, done: Result<(), ExportError>) -> (outcome: Outcome)
    ensures
        outcome@ == write_outcome_of(handle, done),
{
    match done {
        Ok(_) => Outcome {
            reply: Response::new(handle, NBD_SUCCESS).to_bytes(),
            step: SessionStep::Continue,
        },
        Err(e) => Outcome {
            reply: Response::new(handle, NBD_EINVAL).to_bytes(),
            step: SessionStep::Fail(e),
        },
    }
}

/// Carries out one command against the export. `payload` holds the bytes
/// that followed the request on the wire (`Request::payload_len` of them).
///
/// On a reliable export the contents and the outcome are exactly `serve`.
/// On any export, a command that the export takes no part in has the
/// outcome that `serve` gives it, and a read or a write has the outcome that
/// `read_outcome` or `write_outcome` makes of what the export returned.
pub fn handle_request_command<E: Export>(export: &mut E, request: &Request, payload: &[u8]) -> (outcome:
    Outcome)
    ensures
        old(export).reliable() ==> final(export).reliable() && (
            final(export).contents(),
            outcome@,
        ) == serve(old(export).contents(), *request, payload@),
        request.command != NBD_CMD_READ && request.command != NBD_CMD_WRITE ==> outcome@
            == serve(old(export).contents(), *request, payload@).1,
        request.command == NBD_CMD_READ ==> exists|data: Result<Seq<u8>, ExportError>|
            outcome@ == #[trigger] read_outcome_of(request.handle, data),
        request.command == NBD_CMD_WRITE ==> exists|done: Result<(), ExportError>|
            outcome@ == #[trigger] write_outcome_of(request.handle, done),
{
    if request.command == NBD_CMD_READ {
        let data = export.read(request.offset, request.length);
        let ghost returned = read_view(data);
        let outcome = read_outcome(request.handle, data);
        assert(outcome@ == read_outcome_of(request.handle, returned));
        outcome
    } else if request.command == NBD_CMD_WRITE {
        let done = export.write(request.offset, payload);
        let outcome = write_outcome(request.handle, done);
        assert(outcome@ == write_outcome_of(request.handle, done));
        outcome
    } else if request.command == NBD_CMD_DISC {
        let reply: Vec<u8> = Vec::new();
        assert(reply@ =~= Seq::<u8>::empty());
        Outcome { reply, step: SessionStep::Disconnect }
    } else {
        Outcome {
            reply: Response::new(request.handle, NBD_EINVAL).to_bytes(),
            step: SessionStep::Continue,
        }
    }
}

} // verus!
