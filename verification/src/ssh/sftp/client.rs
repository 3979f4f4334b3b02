//! The SFTP request/reply layer: which packet is sent for an operation, and
//! what the reply to it means. Carrying the bytes is the caller's part.
//!
//! Exactly one request is ever in flight, so matching a reply is an assertion
//! rather than a table of waiting callers.
use vstd::prelude::*;

use crate::bytes::{be32, be64, from_be32, push_all, read_be32};
use crate::error::{AppError, ErrorView};
use crate::ssh::sftp::wire::{
    name_views, status_error, status_view, string_bytes, Attrs, Encoder, FileKind, NameEntry, NameView, Reply,
    ReplyView, CHUNK, FXF_CREAT, FXF_READ, FXF_TRUNC, FXF_WRITE, FXP_CLOSE, FXP_INIT, FXP_LSTAT, FXP_MKDIR, FXP_OPEN,
    FXP_OPENDIR, FXP_READ, FXP_READDIR, FXP_REALPATH, FXP_REMOVE, FXP_RENAME, FXP_STAT, FXP_WRITE, FX_EOF,
    FX_NO_SUCH_FILE, FX_OK, MAX_PACKET, VERSION,
};
use crate::text::{decimal, owned, push_decimal, same_text, utf8};

verus! {

/// Seconds that any single request may take. A reply that comes later would be
/// read as the answer to a different request, so a timeout drops the session.
pub const REQUEST_TIMEOUT_SECS: u64 = 30;

/// A listing has to stop somewhere: a directory needing more round trips than
/// this is a server that never ends it.
pub const MAX_READDIR_BATCHES: usize = 20_000;

/// One entry of a remote directory listing.
#[derive(Clone, Debug, PartialEq, Eq)]
pub struct RemoteEntry {
    pub name: String,
    pub kind: FileKind,
    pub size: u64,
    pub mtime: Option<u32>,
}

/// A `RemoteEntry` by its text.
#[verifier::ext_equal]
pub struct RemoteView {
    pub name: Seq<char>,
    pub kind: FileKind,
    pub size: u64,
    pub mtime: Option<u32>,
}

impl View for RemoteEntry {
    type V = RemoteView;

    open spec fn view(&self) -> RemoteView {
        RemoteView { name: self.name@, kind: self.kind, size: self.size, mtime: self.mtime }
    }
}

/// The entries by their views.
pub open spec fn remote_views(entries: Seq<RemoteEntry>) -> Seq<RemoteView> {
    entries.map_values(|e: RemoteEntry| e@)
}

impl RemoteEntry {
    pub fn is_dir(&self) -> (r: bool)
        ensures
            r == (self.kind == FileKind::Dir),
    {
        match self.kind {
            FileKind::Dir => true,
            _ => false,
        }
    }
}

/// An open file on the server: opaque bytes chosen by the server, only ever
/// handed back verbatim.
#[derive(Debug)]
pub struct FileHandle {
    pub bytes: Vec<u8>,
}

/// A session's request ids.
pub struct SftpClient {
    pub next_id: u32,
}

/// The id behind `id`: ids count up from 1, and 0 is never used.
pub open spec fn id_after(id: u32) -> u32 {
    if id == u32::MAX {
        1
    } else {
        (id + 1) as u32
    }
}

/// How a read from the server ended before its reply was there.
pub enum StreamEnd {
    /// The stream closed.
    Closed,
    /// Nothing came in time.
    TimedOut,
    Failed(String),
}

/// The error for it. A closed stream is a dropped connection, not a malformed
/// packet.
pub fn stream_error(end: StreamEnd) -> (r: AppError)
    ensures
        r@ == (match end {
            StreamEnd::Closed => ErrorView::Sftp("the connection closed mid-reply"@),
            StreamEnd::TimedOut => ErrorView::Sftp("the server stopped answering"@),
            StreamEnd::Failed(text) => ErrorView::Io(text@),
        }),
{
    match end {
        StreamEnd::Closed => AppError::Sftp(owned("the connection closed mid-reply")),
        StreamEnd::TimedOut => AppError::Sftp(owned("the server stopped answering")),
        StreamEnd::Failed(text) => AppError::Io(text),
    }
}

/// The frame of a request.
pub open spec fn frame(kind: u8, id: u32, fields: Seq<u8>) -> Seq<u8> {
    string_bytes(seq![kind] + be32(id) + fields)
}

/// The error for a reply of the wrong kind.
pub open spec fn wrong_reply(op: Seq<char>) -> ErrorView {
    ErrorView::Sftp("server sent the wrong kind of reply to "@ + op)
}

fn unexpected(op: &str) -> (r: AppError)
    ensures
        r@ == wrong_reply(op@),
{
    let mut s = owned("server sent the wrong kind of reply to ");
    s.push_str(op);
    AppError::Sftp(s)
}

impl SftpClient {
    /// A session before its first request.
    pub fn new() -> (r: Self)
        ensures
            r.next_id == 1,
    {
        SftpClient { next_id: 1 }
    }

    /// The handshake packet.
    pub fn init_packet() -> (r: Vec<u8>)
        ensures
            r@ == string_bytes(seq![FXP_INIT] + be32(VERSION)),
    {
        Encoder::init().finish()
    }

    /// Takes the next request id.
    pub fn next_id(&mut self) -> (r: u32)
        ensures
            r == old(self).next_id,
            final(self).next_id == id_after(old(self).next_id),
            final(self).next_id != 0,
    {
        let id: u32 = self.next_id;
        self.next_id = if id == u32::MAX {
            1
        } else {
            id + 1
        };
        id
    }

    /// A request about one path.
    pub fn path_request(&mut self, kind: u8, path: &str) -> (r: (u32, Vec<u8>))
        ensures
            r.0 == old(self).next_id,
            r.1@ == frame(kind, r.0, string_bytes(utf8(path@))),
            final(self).next_id == id_after(old(self).next_id),
    {
        let id: u32 = self.next_id();
        let mut e = Encoder::request(kind, id);
        e.str(path);
        (id, e.finish())
    }

    /// A request about one open handle.
    pub fn handle_request(&mut self, kind: u8, handle: &FileHandle) -> (r: (u32, Vec<u8>))
        ensures
            r.0 == old(self).next_id,
            r.1@ == frame(kind, r.0, string_bytes(handle.bytes@)),
            final(self).next_id == id_after(old(self).next_id),
    {
        let id: u32 = self.next_id();
        let mut e = Encoder::request(kind, id);
        e.bytes(&handle.bytes);
        (id, e.finish())
    }

    /// Canonicalizes a path; of `.` it is the server's idea of the login
    /// directory.
    pub fn realpath(&mut self, path: &str) -> (r: (u32, Vec<u8>))
        ensures
            r.0 == old(self).next_id,
            r.1@ == frame(FXP_REALPATH, r.0, string_bytes(utf8(path@))),
            final(self).next_id == id_after(old(self).next_id),
    {
        self.path_request(FXP_REALPATH, path)
    }

    pub fn opendir(&mut self, path: &str) -> (r: (u32, Vec<u8>))
        ensures
            r.0 == old(self).next_id,
            r.1@ == frame(FXP_OPENDIR, r.0, string_bytes(utf8(path@))),
            final(self).next_id == id_after(old(self).next_id),
    {
        self.path_request(FXP_OPENDIR, path)
    }

    pub fn stat(&mut self, path: &str) -> (r: (u32, Vec<u8>))
        ensures
            r.0 == old(self).next_id,
            r.1@ == frame(FXP_STAT, r.0, string_bytes(utf8(path@))),
            final(self).next_id == id_after(old(self).next_id),
    {
        self.path_request(FXP_STAT, path)
    }

    /// Does not follow symlinks, which is how a walk tells a symlinked
    /// directory from a real one.
    pub fn lstat(&mut self, path: &str) -> (r: (u32, Vec<u8>))
        ensures
            r.0 == old(self).next_id,
            r.1@ == frame(FXP_LSTAT, r.0, string_bytes(utf8(path@))),
            final(self).next_id == id_after(old(self).next_id),
    {
        self.path_request(FXP_LSTAT, path)
    }

    pub fn mkdir(&mut self, path: &str) -> (r: (u32, Vec<u8>))
        ensures
            r.0 == old(self).next_id,
            r.1@ == frame(FXP_MKDIR, r.0, string_bytes(utf8(path@)) + be32(0)),
            final(self).next_id == id_after(old(self).next_id),
    {
        let id: u32 = self.next_id();
        let mut e = Encoder::request(FXP_MKDIR, id);
        e.str(path);
        e.empty_attrs();
        assert(e.buf@ =~= seq![FXP_MKDIR] + be32(id) + (string_bytes(utf8(path@)) + be32(0)));
        (id, e.finish())
    }

    pub fn remove(&mut self, path: &str) -> (r: (u32, Vec<u8>))
        ensures
            r.0 == old(self).next_id,
            r.1@ == frame(FXP_REMOVE, r.0, string_bytes(utf8(path@))),
            final(self).next_id == id_after(old(self).next_id),
    {
        self.path_request(FXP_REMOVE, path)
    }

    pub fn rename(&mut self, from: &str, to: &str) -> (r: (u32, Vec<u8>))
        ensures
            r.0 == old(self).next_id,
            r.1@ == frame(FXP_RENAME, r.0, string_bytes(utf8(from@)) + string_bytes(utf8(to@))),
            final(self).next_id == id_after(old(self).next_id),
    {
        let id: u32 = self.next_id();
        let mut e = Encoder::request(FXP_RENAME, id);
        e.str(from);
        e.str(to);
        assert(e.buf@ =~= seq![FXP_RENAME] + be32(id) + (string_bytes(utf8(from@)) + string_bytes(utf8(to@))));
        (id, e.finish())
    }

    pub fn open_read(&mut self, path: &str) -> (r: (u32, Vec<u8>))
        ensures
            r.0 == old(self).next_id,
            r.1@ == frame(FXP_OPEN, r.0, string_bytes(utf8(path@)) + be32(FXF_READ) + be32(0)),
            final(self).next_id == id_after(old(self).next_id),
    {
        self.open(path, FXF_READ)
    }

    /// Create or truncate, the semantics an upload wants.
    pub fn open_write(&mut self, path: &str) -> (r: (u32, Vec<u8>))
        ensures
            r.0 == old(self).next_id,
            r.1@ == frame(
                FXP_OPEN,
                r.0,
                string_bytes(utf8(path@)) + be32(FXF_WRITE | FXF_CREAT | FXF_TRUNC) + be32(0),
            ),
            final(self).next_id == id_after(old(self).next_id),
    {
        self.open(path, FXF_WRITE | FXF_CREAT | FXF_TRUNC)
    }

    fn open(&mut self, path: &str, pflags: u32) -> (r: (u32, Vec<u8>))
        ensures
            r.0 == old(self).next_id,
            r.1@ == frame(FXP_OPEN, r.0, string_bytes(utf8(path@)) + be32(pflags) + be32(0)),
            final(self).next_id == id_after(old(self).next_id),
    {
        let id: u32 = self.next_id();
        let mut e = Encoder::request(FXP_OPEN, id);
        e.str(path);
        e.u32(pflags);
        e.empty_attrs();
        assert(e.buf@ =~= seq![FXP_OPEN] + be32(id) + (string_bytes(utf8(path@)) + be32(pflags) + be32(0)));
        (id, e.finish())
    }

    pub fn readdir(&mut self, handle: &FileHandle) -> (r: (u32, Vec<u8>))
        ensures
            r.0 == old(self).next_id,
            r.1@ == frame(FXP_READDIR, r.0, string_bytes(handle.bytes@)),
            final(self).next_id == id_after(old(self).next_id),
    {
        self.handle_request(FXP_READDIR, handle)
    }

    pub fn close(&mut self, handle: &FileHandle) -> (r: (u32, Vec<u8>))
        ensures
            r.0 == old(self).next_id,
            r.1@ == frame(FXP_CLOSE, r.0, string_bytes(handle.bytes@)),
            final(self).next_id == id_after(old(self).next_id),
    {
        self.handle_request(FXP_CLOSE, handle)
    }

    /// Asks for one chunk at `offset`.
    pub fn read_chunk(&mut self, handle: &FileHandle, offset: u64) -> (r: (u32, Vec<u8>))
        ensures
            r.0 == old(self).next_id,
            r.1@ == frame(
                FXP_READ,
                r.0,
                string_bytes(handle.bytes@) + be64(offset) + be32(CHUNK as u32),
            ),
            final(self).next_id == id_after(old(self).next_id),
    {
        let id: u32 = self.next_id();
        let mut e = Encoder::request(FXP_READ, id);
        e.bytes(&handle.bytes);
        e.u64(offset);
        e.u32(CHUNK as u32);
        assert(e.buf@ =~= seq![FXP_READ] + be32(id) + (string_bytes(handle.bytes@) + be64(offset) + be32(
            CHUNK as u32,
        )));
        (id, e.finish())
    }

    /// Writes `data` at `offset`. A write is all or nothing: the reply is a
    /// single status.
    pub fn write_chunk(&mut self, handle: &FileHandle, offset: u64, data: &[u8]) -> (r: (u32, Vec<u8>))
        ensures
            r.0 == old(self).next_id,
            r.1@ == frame(FXP_WRITE, r.0, string_bytes(handle.bytes@) + be64(offset) + string_bytes(data@)),
            final(self).next_id == id_after(old(self).next_id),
    {
        let id: u32 = self.next_id();
        let mut e = Encoder::request(FXP_WRITE, id);
        e.bytes(&handle.bytes);
        e.u64(offset);
        e.bytes(data);
        assert(e.buf@ =~= seq![FXP_WRITE] + be32(id) + (string_bytes(handle.bytes@) + be64(offset) + string_bytes(
            data@,
        )));
        (id, e.finish())
    }
}

/// What the handshake's reply comes to.
pub open spec fn version_error(reply: ReplyView) -> Option<ErrorView> {
    match reply {
        ReplyView::Version(v) => if v >= VERSION {
            None
        } else {
            Some(
                ErrorView::Sftp(
                    "server speaks sftp version "@ + decimal(v as nat) + ", need "@ + decimal(VERSION as nat),
                ),
            )
        },
        _ => Some(ErrorView::Sftp("server did not answer the sftp handshake"@)),
    }
}

/// Checks the version that the server answers with.
pub fn check_version(reply: &Reply) -> (r: Result<(), AppError>)
    ensures
        match r {
            Ok(_) => version_error(reply@) is None,
            Err(e) => version_error(reply@) == Some(e@),
        },
{
    match reply {
        Reply::Version(v) => {
            if *v >= VERSION {
                Ok(())
            } else {
                let mut s = owned("server speaks sftp version ");
                push_decimal(&mut s, *v as u64);
                s.push_str(", need ");
                push_decimal(&mut s, VERSION as u64);
                Err(AppError::Sftp(s))
            }
        },
        _ => Err(AppError::Sftp(owned("server did not answer the sftp handshake"))),
    }
}

/// The length that a frame announces, checked before anything is allocated for
/// it: the number is whatever the far end sent.
pub fn frame_len(prefix: &[u8; 4]) -> (r: Result<usize, AppError>)
    ensures
        ({
            let n = from_be32(prefix@);
            match r {
                Ok(len) => len == n && 0 < n <= MAX_PACKET,
                Err(e) => !(0 < n <= MAX_PACKET) && e@ == ErrorView::Sftp(
                    "server announced an impossible packet of "@ + decimal(n as nat) + " bytes"@,
                ),
            }
        }),
{
    assert(prefix@.subrange(0, 4) =~= prefix@);
    let n: u32 = read_be32(prefix, 0);
    if n == 0 || n as u64 > MAX_PACKET as u64 {
        let mut s = owned("server announced an impossible packet of ");
        push_decimal(&mut s, n as u64);
        s.push_str(" bytes");
        return Err(AppError::Sftp(s));
    }
    Ok(n as usize)
}

/// Why a reply with this id is not the answer to request `id`.
pub open spec fn id_error(id: u32, reply_id: Option<u32>) -> Option<ErrorView> {
    match reply_id {
        Some(got) => if got == id {
            None
        } else {
            Some(
                ErrorView::Sftp(
                    "reply for request "@ + decimal(got as nat) + " arrived for request "@ + decimal(id as nat),
                ),
            )
        },
        None => Some(ErrorView::Sftp("unexpected handshake reply mid-session"@)),
    }
}

/// The reply to request `id`. A reply bearing another id means that the stream
/// is out of step: a hard error.
pub fn match_reply(id: u32, reply_id: Option<u32>, reply: Reply) -> (r: Result<Reply, AppError>)
    ensures
        match r {
            Ok(got) => got == reply && id_error(id, reply_id) is None,
            Err(e) => id_error(id, reply_id) == Some(e@),
        },
{
    match reply_id {
        Some(got) => {
            if got == id {
                Ok(reply)
            } else {
                let mut s = owned("reply for request ");
                push_decimal(&mut s, got as u64);
                s.push_str(" arrived for request ");
                push_decimal(&mut s, id as u64);
                Err(AppError::Sftp(s))
            }
        },
        None => Err(AppError::Sftp(owned("unexpected handshake reply mid-session"))),
    }
}

/// The path that a realpath reply names.
pub fn realpath_reply(path: &str, reply: Reply) -> (r: Result<String, AppError>)
    ensures
        match reply@ {
            ReplyView::Name(names) => if names.len() > 0 {
                r matches Ok(t) && t@ == names[0].filename
            } else {
                r matches Err(e) && e@ == ErrorView::Sftp("server returned no path for realpath"@)
            },
            ReplyView::Status { code, message } => r matches Err(e) && e@ == status_view(path@, code, message),
            _ => r matches Err(e) && e@ == wrong_reply("realpath"@),
        },
{
    match reply {
        Reply::Name(entries) => {
            if entries.len() > 0 {
                assert(name_views(entries@)[0] == entries@[0]@);
                Ok(entries[0].filename.clone())
            } else {
                Err(AppError::Sftp(owned("server returned no path for realpath")))
            }
        },
        Reply::Status { code, message } => Err(status_error(path, code, message)),
        _ => Err(unexpected("realpath")),
    }
}

/// The handle that a reply to `op` (an open or opendir) gives.
pub fn handle_reply(op: &str, path: &str, reply: Reply) -> (r: Result<FileHandle, AppError>)
    ensures
        match reply@ {
            ReplyView::Handle(h) => r matches Ok(handle) && handle.bytes@ == h,
            ReplyView::Status { code, message } => r matches Err(e) && e@ == status_view(path@, code, message),
            _ => r matches Err(e) && e@ == wrong_reply(op@),
        },
{
    match reply {
        Reply::Handle(h) => Ok(FileHandle { bytes: h }),
        Reply::Status { code, message } => Err(status_error(path, code, message)),
        _ => Err(unexpected(op)),
    }
}

/// The attributes that a stat reply gives.
pub fn stat_reply(path: &str, reply: Reply) -> (r: Result<Attrs, AppError>)
    ensures
        match reply@ {
            ReplyView::Attrs(a) => r matches Ok(attrs) && attrs == a,
            ReplyView::Status { code, message } => r matches Err(e) && e@ == status_view(path@, code, message),
            _ => r matches Err(e) && e@ == wrong_reply("stat"@),
        },
{
    match reply {
        Reply::Attrs(attrs) => Ok(attrs),
        Reply::Status { code, message } => Err(status_error(path, code, message)),
        _ => Err(unexpected("stat")),
    }
}

/// Whether anything is at a path: a missing file is an answer, not an error. A
/// denial stays an error.
pub fn try_stat_result(result: Result<Attrs, AppError>) -> (r: Result<Option<Attrs>, AppError>)
    ensures
        match result {
            Ok(attrs) => r == Ok::<Option<Attrs>, AppError>(Some(attrs)),
            Err(AppError::SftpStatus { code, .. }) if code == FX_NO_SUCH_FILE => r == Ok::<Option<Attrs>, AppError>(
                None,
            ),
            Err(e) => r == Err::<Option<Attrs>, AppError>(e),
        },
{
    match result {
        Ok(attrs) => Ok(Some(attrs)),
        Err(e) => {
            if let AppError::SftpStatus { code, .. } = &e {
                if *code == FX_NO_SUCH_FILE {
                    return Ok(None);
                }
            }
            Err(e)
        },
    }
}

/// What a reply that is only a status comes to.
pub fn ok_reply(path: &str, reply: Reply) -> (r: Result<(), AppError>)
    ensures
        match reply@ {
            ReplyView::Status { code, message } => if code == FX_OK {
                r is Ok
            } else {
                r matches Err(e) && e@ == status_view(path@, code, message)
            },
            _ => r matches Err(e) && e@ == wrong_reply("status"@),
        },
{
    match reply {
        Reply::Status { code, message } => if code == FX_OK {
            Ok(())
        } else {
            Err(status_error(path, code, message))
        },
        _ => Err(unexpected("status")),
    }
}

/// Appends what a read reply brought, and says how many bytes that was. `Ok(0)`
/// with an end-of-file status is the end; a short reply is not.
pub fn data_reply(reply: Reply, out: &mut Vec<u8>) -> (r: Result<usize, AppError>)
    ensures
        match reply@ {
            ReplyView::Data(data) => r matches Ok(n) && n == data.len() && final(out)@ == old(out)@ + data,
            ReplyView::Status { code, message } => final(out)@ == old(out)@ && if code == FX_EOF {
                r matches Ok(n) && n == 0
            } else {
                r matches Err(e) && e@ == status_view(Seq::empty(), code, message)
            },
            _ => final(out)@ == old(out)@ && (r matches Err(e) && e@ == wrong_reply("read"@)),
        },
{
    match reply {
        Reply::Data(data) => {
            push_all(out, &data);
            Ok(data.len())
        },
        Reply::Status { code, message } => {
            if code == FX_EOF {
                Ok(0)
            } else {
                proof {
                    reveal_strlit("");
                    assert(""@ =~= Seq::<char>::empty());
                }
                Err(status_error("", code, message))
            }
        },
        _ => Err(unexpected("read")),
    }
}

/// The row that a name becomes.
pub open spec fn row_of(name: NameView) -> RemoteView {
    RemoteView {
        name: name.filename,
        kind: name.kind(),
        size: match name.attrs.size {
            Some(n) => n,
            None => 0,
        },
        mtime: name.attrs.mtime,
    }
}

/// The rows of a batch of names: `.` and `..` are never rows.
pub open spec fn rows_of(names: Seq<NameView>) -> Seq<RemoteView>
    decreases names.len(),
{
    if names.len() == 0 {
        Seq::empty()
    } else {
        let front = rows_of(names.drop_last());
        if names.last().filename == "."@ || names.last().filename == ".."@ {
            front
        } else {
            front.push(row_of(names.last()))
        }
    }
}

/// A directory listing as it comes in, batch by batch.
pub struct Listing {
    pub entries: Vec<RemoteEntry>,
    /// How many batches have been asked for.
    pub batches: usize,
}

impl Listing {
    /// A listing before its first batch.
    pub fn new() -> (r: Self)
        ensures
            r.entries@ == Seq::<RemoteEntry>::empty(),
            r.batches == 0,
    {
        Listing { entries: Vec::new(), batches: 0 }
    }

    /// Asks for the next batch, unless the server has been asked too often.
    pub fn ask(&mut self) -> (r: Result<(), AppError>)
        ensures
            final(self).entries == old(self).entries,
            match r {
                Ok(_) => old(self).batches < MAX_READDIR_BATCHES && final(self).batches == old(self).batches + 1,
                Err(e) => old(self).batches >= MAX_READDIR_BATCHES && final(self).batches == old(self).batches && e@
                    == ErrorView::Sftp("server never finished the directory listing"@),
            },
    {
        if self.batches >= MAX_READDIR_BATCHES {
            return Err(AppError::Sftp(owned("server never finished the directory listing")));
        }
        self.batches = self.batches + 1;
        Ok(())
    }

    /// Takes in a reply. `Ok(true)` means that the listing is complete: the end
    /// is signalled by an end-of-file status, which is no failure.
    pub fn take_reply(&mut self, path: &str, reply: Reply) -> (r: Result<bool, AppError>)
        ensures
            final(self).batches == old(self).batches,
            match reply@ {
                ReplyView::Name(names) => {
                    &&& r == Ok::<bool, AppError>(false)
                    &&& remote_views(final(self).entries@) == remote_views(old(self).entries@) + rows_of(names)
                },
                ReplyView::Status { code, message } => final(self).entries == old(self).entries && if code == FX_EOF {
                    r == Ok::<bool, AppError>(true)
                } else {
                    r matches Err(e) && e@ == status_view(path@, code, message)
                },
                _ => final(self).entries == old(self).entries && (r matches Err(e) && e@ == wrong_reply(
                    "readdir"@,
                )),
            },
    {
        match reply {
            Reply::Name(names) => {
                self.take_names(&names);
                Ok(false)
            },
            Reply::Status { code, message } => if code == FX_EOF {
                Ok(true)
            } else {
                Err(status_error(path, code, message))
            },
            _ => Err(unexpected("readdir")),
        }
    }

    fn take_names(&mut self, names: &Vec<NameEntry>)
        ensures
            final(self).batches == old(self).batches,
            remote_views(final(self).entries@) == remote_views(old(self).entries@) + rows_of(name_views(names@)),
    {
        let ghost start = remote_views(self.entries@);
        let ghost views = name_views(names@);
        let mut i: usize = 0;
        assert(start + rows_of(views.take(0)) =~= start);
        while i < names.len()
            invariant
                i <= names@.len(),
                views == name_views(names@),
                self.batches == old(self).batches,
                remote_views(self.entries@) == start + rows_of(views.take(i as int)),
            decreases names@.len() - i,
        {
            let entry = &names[i];
            let ghost before = remote_views(self.entries@);
            assert(views.take(i + 1).drop_last() =~= views.take(i as int));
            assert(views.take(i + 1).last() == entry@);
            if !same_text(entry.filename.as_str(), ".") && !same_text(entry.filename.as_str(), "..") {
                let row = RemoteEntry {
                    kind: entry.kind(),
                    size: match entry.attrs.size {
                        Some(n) => n,
                        None => 0,
                    },
                    mtime: entry.attrs.mtime,
                    name: entry.filename.clone(),
                };
                self.entries.push(row);
                assert(remote_views(self.entries@) =~= before.push(row@));
                assert(remote_views(self.entries@) =~= start + rows_of(views.take(i + 1)));
            }
            i = i + 1;
        }
        assert(views.take(views.len() as int) =~= views);
    }
}

/// A listing concatenates its batches: taking two replies of names is the same
/// as taking the names of both in one.
pub proof fn batches_concatenate(a: Seq<NameView>, b: Seq<NameView>)
    ensures
        rows_of(a + b) == rows_of(a) + rows_of(b),
    decreases b.len(),
{
    if b.len() == 0 {
        assert(a + b =~= a);
        assert(rows_of(a) + rows_of(b) =~= rows_of(a));
    } else {
        batches_concatenate(a, b.drop_last());
        assert((a + b).drop_last() =~= a + b.drop_last());
        assert((a + b).last() == b.last());
        assert(rows_of(a + b) =~= rows_of(a) + rows_of(b));
    }
}

/// The ids of requests count up from 1; the one behind the last starts over, and
/// no id is 0.
pub proof fn ids_count_up(id: u32)
    ensures
        id < u32::MAX ==> id_after(id) == id + 1,
        id_after(u32::MAX) == 1,
        id_after(id) != 0,
{
}

/// A server that speaks version 3 or a later one is spoken to, and no other; what
/// is no handshake is refused.
pub proof fn version_three_is_needed(reply: ReplyView)
    ensures
        reply matches ReplyView::Version(v) ==> (version_error(reply) is None <==> v >= 3),
        !(reply is Version) ==> version_error(reply) == Some(
            ErrorView::Sftp("server did not answer the sftp handshake"@),
        ),
{
}

/// A reply answers the request with its own id and no other.
pub proof fn a_reply_answers_its_own_request(id: u32, reply_id: Option<u32>)
    ensures
        id_error(id, reply_id) is None <==> reply_id == Some(id),
        id_error(id, reply_id) matches Some(e) ==> e is Sftp,
{
}

/// A row has its name, its size, 0 where none was sent, and its time, and is of
/// the kind that the entry is.
pub proof fn a_row_is_its_entry(name: NameView)
    ensures
        row_of(name).name == name.filename,
        row_of(name).kind == name.kind(),
        name.attrs.size matches Some(n) ==> row_of(name).size == n,
        name.attrs.size is None ==> row_of(name).size == 0,
        row_of(name).mtime == name.attrs.mtime,
{
}

/// A name is one row, but for the directory itself and the one above it.
pub proof fn every_other_name_is_a_row(name: NameView)
    ensures
        name.filename != seq!['.'] && name.filename != seq!['.', '.'] ==> rows_of(seq![name]) == seq![row_of(name)],
        name.filename == seq!['.'] || name.filename == seq!['.', '.'] ==> rows_of(seq![name]).len() == 0,
{
    reveal_strlit(".");
    reveal_strlit("..");
    assert("."@ =~= seq!['.']);
    assert(".."@ =~= seq!['.', '.']);
    assert(seq![name].drop_last() =~= Seq::empty());
    assert(rows_of(Seq::<NameView>::empty()) =~= Seq::empty());
    assert(Seq::<RemoteView>::empty().push(row_of(name)) =~= seq![row_of(name)]);
}

/// A request on the wire is its length, its type, its id and its fields.
pub proof fn a_request_is_framed(kind: u8, id: u32, fields: Seq<u8>)
    requires
        fields.len() < 0x1_0000_0000 - 5,
    ensures
        frame(kind, id, fields) == be32((5 + fields.len()) as u32) + (seq![kind] + be32(id) + fields),
{
    let body = seq![kind] + be32(id) + fields;
    assert(be32(id).len() == 4);
    assert(body.len() == 5 + fields.len());
}

/// A request has thirty seconds, and a directory is read in twenty thousand batches
/// at most.
pub proof fn a_request_is_given_its_time()
    ensures
        REQUEST_TIMEOUT_SECS == 30,
        MAX_READDIR_BATCHES == 20_000,
{
}

/// A file is opened for reading with the read flag alone, and for writing so that
/// it is made, and emptied where it was there; a chunk is asked for by its place,
/// 32 KiB at a time, and written at its place.
pub proof fn a_file_is_opened_for_its_use(
    reader: &mut SftpClient,
    writer: &mut SftpClient,
    path: &str,
    read: (u32, Vec<u8>),
    write: (u32, Vec<u8>),
)
    requires
        call_ensures(SftpClient::open_read, (reader, path), read),
        call_ensures(SftpClient::open_write, (writer, path), write),
    ensures
        read.1@ == string_bytes(seq![3u8] + be32(old(reader).next_id) + (string_bytes(utf8(path@)) + be32(1) + be32(0))),
        write.1@ == string_bytes(
            seq![3u8] + be32(old(writer).next_id) + (string_bytes(utf8(path@)) + be32(26) + be32(0)),
        ),
{
    assert(2u32 | 8u32 | 16u32 == 26u32) by (bit_vector);
}

/// The same of chunks.
pub proof fn a_chunk_has_its_place(
    reader: &mut SftpClient,
    writer: &mut SftpClient,
    handle: FileHandle,
    offset: u64,
    data: &[u8],
    read: (u32, Vec<u8>),
    write: (u32, Vec<u8>),
)
    requires
        call_ensures(SftpClient::read_chunk, (reader, &handle, offset), read),
        call_ensures(SftpClient::write_chunk, (writer, &handle, offset, data), write),
    ensures
        read.1@ == string_bytes(
            seq![5u8] + be32(old(reader).next_id) + (string_bytes(handle.bytes@) + be64(offset) + be32(32768)),
        ),
        write.1@ == string_bytes(
            seq![6u8] + be32(old(writer).next_id) + (string_bytes(handle.bytes@) + be64(offset) + string_bytes(data@)),
        ),
        final(reader).next_id != old(reader).next_id,
{
}

/// A file is renamed from the first name to the second.
pub proof fn a_file_is_renamed_from_and_to(s: &mut SftpClient, from: &str, to: &str, r: (u32, Vec<u8>))
    requires
        call_ensures(SftpClient::rename, (s, from, to), r),
    ensures
        r.0 == old(s).next_id,
        r.1@ == string_bytes(
            seq![18u8] + be32(old(s).next_id) + (string_bytes(utf8(from@)) + string_bytes(utf8(to@))),
        ),
{
}

/// A packet of one byte up to 256 KiB is read; any other length is refused.
pub proof fn a_packet_has_a_possible_length(prefix: [u8; 4], r: Result<usize, AppError>)
    requires
        call_ensures(frame_len, (&prefix,), r),
    ensures
        r is Ok <==> 1 <= from_be32(prefix@) <= 262_144,
        r matches Ok(len) ==> len == from_be32(prefix@),
        r matches Err(e) ==> e@ is Sftp,
{
}

/// What a reply carries is handed on: the handle, the attributes, the data behind
/// what was read before, the first name of a path. The end of a file is no error,
/// a missing file is none where one is looked for, and every other status is one,
/// with its path.
pub proof fn a_reply_hands_on_what_it_carries(
    out: &mut Vec<u8>,
    path: &str,
    op: &str,
    reply: Reply,
    handle: Result<FileHandle, AppError>,
    attrs: Result<Attrs, AppError>,
    done: Result<(), AppError>,
    read: Result<usize, AppError>,
    first: Result<String, AppError>,
)
    requires
        call_ensures(handle_reply, (op, path, reply), handle),
        call_ensures(stat_reply, (path, reply), attrs),
        call_ensures(ok_reply, (path, reply), done),
        call_ensures(data_reply, (reply, out), read),
        call_ensures(realpath_reply, (path, reply), first),
    ensures
        handle is Ok <==> reply@ is Handle,
        reply@ matches ReplyView::Handle(h) ==> (handle matches Ok(f) && f.bytes@ == h),
        attrs is Ok <==> reply@ is Attrs,
        reply@ matches ReplyView::Attrs(a) ==> attrs == Ok::<Attrs, AppError>(a),
        done is Ok <==> (reply@ matches ReplyView::Status { code, .. } && code == 0),
        reply@ matches ReplyView::Data(data) ==> final(out)@ == old(out)@ + data && (read matches Ok(n) && n
            == data.len()),
        !(reply@ is Data) ==> final(out)@ == old(out)@,
        reply@ matches ReplyView::Status { code, .. } ==> (read is Ok <==> code == 1),
        reply@ matches ReplyView::Name(names) ==> (names.len() > 0 ==> (first matches Ok(t) && t@ == names[0].filename)),
        reply@ matches ReplyView::Status { code, message } ==> (handle matches Err(e) && (e@ matches ErrorView::SftpStatus {
            code: c,
            path: p,
            ..
        } && c == code && p == path@)),
{
}

/// A missing file is no error to the one who looks for it; any other failure is.
pub proof fn a_missing_file_is_no_error(result: Result<Attrs, AppError>, r: Result<Option<Attrs>, AppError>)
    requires
        call_ensures(try_stat_result, (result,), r),
    ensures
        result matches Ok(a) ==> r == Ok::<Option<Attrs>, AppError>(Some(a)),
        result matches Err(AppError::SftpStatus { code, .. }) ==> (code == 2 ==> r == Ok::<Option<Attrs>, AppError>(
            None,
        )) && (code != 2 ==> r is Err),
        result matches Err(e) ==> (!(e is SftpStatus) ==> r == Err::<Option<Attrs>, AppError>(e)),
{
}

/// A batch of names adds its rows behind those before it; the end of the directory
/// ends the listing, and any other status is an error with the path.
pub proof fn a_listing_grows_by_its_batches(
    listing: &mut Listing,
    path: &str,
    reply: Reply,
    r: Result<bool, AppError>,
)
    requires
        call_ensures(Listing::take_reply, (listing, path, reply), r),
    ensures
        reply@ matches ReplyView::Name(names) ==> r == Ok::<bool, AppError>(false) && remote_views(
            final(listing).entries@,
        ) == remote_views(old(listing).entries@) + rows_of(names),
        reply@ matches ReplyView::Status { code, .. } ==> (r == Ok::<bool, AppError>(true) <==> code == 1) && (code != 1
            ==> r is Err),
        !(reply@ is Name) ==> final(listing).entries == old(listing).entries,
{
}

} // verus!
