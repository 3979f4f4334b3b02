//! SFTP protocol version 3 packet encoding and decoding.
//!
//! Two rules hold throughout. Every read goes through `Cursor`, so a truncated
//! or hostile packet is an error, never a panic. And unknown data in the middle
//! of a packet is consumed, not ignored: skipping an extended block would
//! misread every entry behind it.
use vstd::prelude::*;
use vstd::slice::{slice_subrange, slice_to_vec};

use crate::bytes::{
    be32, be64, from_be32, from_be64, lemma_be32_prefix, lemma_be32_round_trip, lemma_be64_prefix, push_all, push_be32,
    push_be64, read_be32, read_be64,
};
use crate::error::{AppError, ErrorView};
use crate::text::{chars_of, decimal, lossy, owned, push_decimal, utf8, utf8_lossy};

verus! {

// Requests.
pub const FXP_INIT: u8 = 1;

pub const FXP_OPEN: u8 = 3;

pub const FXP_CLOSE: u8 = 4;

pub const FXP_READ: u8 = 5;

pub const FXP_WRITE: u8 = 6;

pub const FXP_LSTAT: u8 = 7;

pub const FXP_OPENDIR: u8 = 11;

pub const FXP_READDIR: u8 = 12;

pub const FXP_REMOVE: u8 = 13;

pub const FXP_MKDIR: u8 = 14;

pub const FXP_REALPATH: u8 = 16;

pub const FXP_STAT: u8 = 17;

pub const FXP_RENAME: u8 = 18;

// Replies.
pub const FXP_VERSION: u8 = 2;

pub const FXP_STATUS: u8 = 101;

pub const FXP_HANDLE: u8 = 102;

pub const FXP_DATA: u8 = 103;

pub const FXP_NAME: u8 = 104;

pub const FXP_ATTRS: u8 = 105;

// Status codes.
pub const FX_OK: u32 = 0;

pub const FX_EOF: u32 = 1;

pub const FX_NO_SUCH_FILE: u32 = 2;

pub const FX_PERMISSION_DENIED: u32 = 3;

pub const FX_FAILURE: u32 = 4;

pub const FX_NO_CONNECTION: u32 = 6;

pub const FX_CONNECTION_LOST: u32 = 7;

// Flags of an open request.
pub const FXF_READ: u32 = 0x0000_0001;

pub const FXF_WRITE: u32 = 0x0000_0002;

pub const FXF_CREAT: u32 = 0x0000_0008;

pub const FXF_TRUNC: u32 = 0x0000_0010;

// Flags of an attribute block.
pub const ATTR_SIZE: u32 = 0x0000_0001;

pub const ATTR_UIDGID: u32 = 0x0000_0002;

pub const ATTR_PERMISSIONS: u32 = 0x0000_0004;

pub const ATTR_ACMODTIME: u32 = 0x0000_0008;

pub const ATTR_EXTENDED: u32 = 0x8000_0000;

/// The protocol version this client speaks. A server offering less is refused.
pub const VERSION: u32 = 3;

/// Payload bytes per read and write: what fits inside the packet limit that
/// every server accepts.
pub const CHUNK: usize = 32768;

/// Hard ceiling on a declared frame length, checked before allocating.
pub const MAX_PACKET: usize = 262144;

/// The file type bits of a unix mode.
pub const MODE_TYPE: u32 = 0o170000;

/// The error for a packet that does not hold what it must.
pub open spec fn malformed() -> ErrorView {
    ErrorView::Sftp("malformed packet from server"@)
}

fn corrupt() -> (r: AppError)
    ensures
        r@ == malformed(),
{
    AppError::Sftp(owned("malformed packet from server"))
}

/// A bounds-checked reader over one packet's payload.
pub struct Cursor<'a> {
    pub buf: &'a [u8],
    pub pos: usize,
}

/// A text field: its length in four bytes, then its bytes. What it holds, and
/// what follows it.
pub open spec fn read_string(s: Seq<u8>) -> Option<(Seq<u8>, Seq<u8>)> {
    if s.len() < 4 || s.len() - 4 < from_be32(s.take(4)) {
        None
    } else {
        let n = from_be32(s.take(4)) as int;
        Some((s.subrange(4, 4 + n), s.skip(4 + n)))
    }
}

impl<'a> Cursor<'a> {
    /// What has not been read yet.
    pub open spec fn rest(self) -> Seq<u8> {
        if self.pos <= self.buf@.len() {
            self.buf@.skip(self.pos as int)
        } else {
            Seq::empty()
        }
    }

    /// A reader at the start of `buf`.
    pub fn new(buf: &'a [u8]) -> (r: Self)
        ensures
            r.rest() == buf@,
            r.buf@ == buf@,
            r.pos == 0,
    {
        assert(buf@.skip(0) =~= buf@);
        Cursor { buf, pos: 0 }
    }

    /// How many bytes have not been read yet.
    pub fn remaining(&self) -> (r: usize)
        ensures
            r == self.rest().len(),
    {
        self.buf.len().saturating_sub(self.pos)
    }

    /// The next `n` bytes, if there are so many. If not, nothing is read.
    pub fn take(&mut self, n: usize) -> (r: Result<&'a [u8], AppError>)
        ensures
            match r {
                Ok(slice) => {
                    &&& n <= old(self).rest().len()
                    &&& slice@ == old(self).rest().take(n as int)
                    &&& final(self).rest() == old(self).rest().skip(n as int)
                },
                Err(e) => {
                    &&& n > old(self).rest().len()
                    &&& e@ == malformed()
                    &&& *final(self) == *old(self)
                },
            },
    {
        if self.pos > self.buf.len() || n > self.buf.len() - self.pos {
            assert(n > self.rest().len() || n == 0);
            if self.pos > self.buf.len() && n == 0 {
                let empty = slice_subrange(self.buf, 0, 0);
                assert(empty@ =~= self.rest().take(0));
                assert(self.rest().skip(0) =~= self.rest());
                return Ok(empty);
            }
            return Err(corrupt());
        }
        let end: usize = self.pos + n;
        let slice = slice_subrange(self.buf, self.pos, end);
        assert(slice@ =~= self.rest().take(n as int));
        assert(self.buf@.skip(end as int) =~= self.rest().skip(n as int));
        self.pos = end;
        Ok(slice)
    }

    /// The next byte.
    pub fn u8(&mut self) -> (r: Result<u8, AppError>)
        ensures
            match r {
                Ok(b) => {
                    &&& old(self).rest().len() >= 1
                    &&& b == old(self).rest()[0]
                    &&& final(self).rest() == old(self).rest().skip(1)
                },
                Err(e) => old(self).rest().len() < 1 && e@ == malformed() && *final(self) == *old(self),
            },
    {
        match self.take(1) {
            Ok(b) => Ok(b[0]),
            Err(e) => Err(e),
        }
    }

    /// The next four bytes as a number.
    pub fn u32(&mut self) -> (r: Result<u32, AppError>)
        ensures
            match r {
                Ok(x) => {
                    &&& old(self).rest().len() >= 4
                    &&& x == from_be32(old(self).rest().take(4))
                    &&& final(self).rest() == old(self).rest().skip(4)
                },
                Err(e) => old(self).rest().len() < 4 && e@ == malformed() && *final(self) == *old(self),
            },
    {
        match self.take(4) {
            Ok(b) => {
                assert(b@.subrange(0, 4) =~= b@);
                Ok(read_be32(b, 0))
            },
            Err(e) => Err(e),
        }
    }

    /// The next eight bytes as a number.
    pub fn u64(&mut self) -> (r: Result<u64, AppError>)
        ensures
            match r {
                Ok(x) => {
                    &&& old(self).rest().len() >= 8
                    &&& x == from_be64(old(self).rest().take(8))
                    &&& final(self).rest() == old(self).rest().skip(8)
                },
                Err(e) => old(self).rest().len() < 8 && e@ == malformed() && *final(self) == *old(self),
            },
    {
        match self.take(8) {
            Ok(b) => {
                assert(b@.subrange(0, 8) =~= b@);
                Ok(read_be64(b, 0))
            },
            Err(e) => Err(e),
        }
    }

    /// An SSH string: its length, then that many raw bytes. Bytes, not text:
    /// file names on a unix server are not required to be UTF-8.
    pub fn bytes(&mut self) -> (r: Result<&'a [u8], AppError>)
        ensures
            match r {
                Ok(b) => read_string(old(self).rest()) == Some((b@, final(self).rest())),
                Err(e) => read_string(old(self).rest()) is None && e@ == malformed(),
            },
    {
        let ghost s = self.rest();
        let len: u32 = match self.u32() {
            Ok(len) => len,
            Err(e) => return Err(e),
        };
        if len as u64 > self.remaining() as u64 {
            return Err(corrupt());
        }
        let ghost after = self.rest();
        match self.take(len as usize) {
            Ok(b) => {
                assert(b@ =~= s.subrange(4, 4 + len));
                assert(self.rest() =~= s.skip(4 + len));
                Ok(b)
            },
            Err(e) => Err(e),
        }
    }

    /// A string that is meant to be text. Lossy on purpose: an unprintable byte
    /// in an error message must not turn the error into a different error.
    pub fn string(&mut self) -> (r: Result<String, AppError>)
        ensures
            match r {
                Ok(t) => read_string(old(self).rest()) matches Some((b, rest)) && t@ == utf8_lossy(b)
                    && final(self).rest() == rest,
                Err(e) => read_string(old(self).rest()) is None && e@ == malformed(),
            },
    {
        match self.bytes() {
            Ok(b) => Ok(lossy(b)),
            Err(e) => Err(e),
        }
    }
}

/// A text field as it is written. The length is what fits in four bytes.
pub open spec fn string_bytes(v: Seq<u8>) -> Seq<u8> {
    be32((v.len() % 0x1_0000_0000) as u32) + v
}

/// Builds a packet body. The frame header is added by `finish`, so no caller
/// has to remember that the length covers the type byte.
pub struct Encoder {
    pub buf: Vec<u8>,
}

impl Encoder {
    /// A request: type byte, then the request id that every reply echoes.
    pub fn request(kind: u8, id: u32) -> (r: Self)
        ensures
            r.buf@ == seq![kind] + be32(id),
    {
        let mut buf: Vec<u8> = Vec::new();
        buf.push(kind);
        push_be32(&mut buf, id);
        assert(buf@ =~= seq![kind] + be32(id));
        Encoder { buf }
    }

    /// A packet with neither an id nor a version.
    pub fn raw(kind: u8) -> (r: Self)
        ensures
            r.buf@ == seq![kind],
    {
        let mut buf: Vec<u8> = Vec::new();
        buf.push(kind);
        assert(buf@ =~= seq![kind]);
        Encoder { buf }
    }

    /// The handshake has no request id: it is the one packet sent before ids
    /// exist.
    pub fn init() -> (r: Self)
        ensures
            r.buf@ == seq![FXP_INIT] + be32(VERSION),
    {
        Encoder::request(FXP_INIT, VERSION)
    }

    pub fn u32(&mut self, v: u32) -> (r: &mut Self)
        ensures
            r.buf@ == old(self).buf@ + be32(v),
            *final(self) == *final(r),
    {
        push_be32(&mut self.buf, v);
        self
    }

    pub fn u64(&mut self, v: u64) -> (r: &mut Self)
        ensures
            r.buf@ == old(self).buf@ + be64(v),
            *final(self) == *final(r),
    {
        push_be64(&mut self.buf, v);
        self
    }

    pub fn bytes(&mut self, v: &[u8]) -> (r: &mut Self)
        ensures
            r.buf@ == old(self).buf@ + string_bytes(v@),
            *final(self) == *final(r),
    {
        let ghost before = self.buf@;
        push_be32(&mut self.buf, (v.len() as u64 % 0x1_0000_0000) as u32);
        push_all(&mut self.buf, v);
        assert(self.buf@ =~= before + string_bytes(v@));
        self
    }

    pub fn str(&mut self, v: &str) -> (r: &mut Self)
        ensures
            r.buf@ == old(self).buf@ + string_bytes(utf8(v@)),
            *final(self) == *final(r),
    {
        self.bytes(v.as_bytes())
    }

    /// An empty attribute set: nothing is asked to change.
    pub fn empty_attrs(&mut self) -> (r: &mut Self)
        ensures
            r.buf@ == old(self).buf@ + be32(0),
            *final(self) == *final(r),
    {
        self.u32(0)
    }

    /// The whole frame: the length of the body, then the body.
    pub fn finish(&self) -> (r: Vec<u8>)
        ensures
            r@ == string_bytes(self.buf@),
    {
        let mut out: Vec<u8> = Vec::new();
        push_be32(&mut out, (self.buf.len() as u64 % 0x1_0000_0000) as u32);
        push_all(&mut out, &self.buf);
        assert(out@ =~= string_bytes(self.buf@));
        out
    }
}

/// The attributes a server may send. Every field is optional because the flags
/// say which were sent.
#[derive(Clone, Debug, PartialEq, Eq, Structural)]
pub struct Attrs {
    pub size: Option<u64>,
    pub permissions: Option<u32>,
    pub mtime: Option<u32>,
}

impl Default for Attrs {
    fn default() -> (r: Self)
        ensures
            r == (Attrs { size: None, permissions: None, mtime: None }),
    {
        Attrs { size: None, permissions: None, mtime: None }
    }
}

#[derive(Clone, Copy, Debug, PartialEq, Eq, Structural)]
pub enum FileKind {
    Dir,
    File,
    Symlink,
    Other,
}

/// What follows `count` pairs of strings.
pub open spec fn skip_pairs(s: Seq<u8>, count: nat) -> Option<Seq<u8>>
    decreases count,
{
    if count == 0 {
        Some(s)
    } else {
        match read_string(s) {
            Some((_, s1)) => match read_string(s1) {
                Some((_, s2)) => skip_pairs(s2, (count - 1) as nat),
                None => None,
            },
            None => None,
        }
    }
}

/// The size field of an attribute block, and what follows it.
pub open spec fn read_size(flags: u32, s: Seq<u8>) -> Option<(Option<u64>, Seq<u8>)> {
    if flags & ATTR_SIZE == 0 {
        Some((None, s))
    } else if s.len() < 8 {
        None
    } else {
        Some((Some(from_be64(s.take(8))), s.skip(8)))
    }
}

/// What follows the owner fields of an attribute block.
pub open spec fn skip_owner(flags: u32, s: Seq<u8>) -> Option<Seq<u8>> {
    if flags & ATTR_UIDGID == 0 {
        Some(s)
    } else if s.len() < 8 {
        None
    } else {
        Some(s.skip(8))
    }
}

/// The permissions field of an attribute block, and what follows it.
pub open spec fn read_permissions(flags: u32, s: Seq<u8>) -> Option<(Option<u32>, Seq<u8>)> {
    if flags & ATTR_PERMISSIONS == 0 {
        Some((None, s))
    } else if s.len() < 4 {
        None
    } else {
        Some((Some(from_be32(s.take(4))), s.skip(4)))
    }
}

/// The modification time of an attribute block, behind the access time, and
/// what follows it.
pub open spec fn read_mtime(flags: u32, s: Seq<u8>) -> Option<(Option<u32>, Seq<u8>)> {
    if flags & ATTR_ACMODTIME == 0 {
        Some((None, s))
    } else if s.len() < 8 {
        None
    } else {
        Some((Some(from_be32(s.subrange(4, 8))), s.skip(8)))
    }
}

/// What follows the extended pairs of an attribute block.
pub open spec fn skip_extended(flags: u32, s: Seq<u8>) -> Option<Seq<u8>> {
    if flags & ATTR_EXTENDED == 0 {
        Some(s)
    } else if s.len() < 4 {
        None
    } else {
        skip_pairs(s.skip(4), from_be32(s.take(4)) as nat)
    }
}

/// An attribute block, and what follows it.
pub open spec fn read_attrs(s: Seq<u8>) -> Option<(Attrs, Seq<u8>)> {
    if s.len() < 4 {
        None
    } else {
        let flags = from_be32(s.take(4));
        match read_size(flags, s.skip(4)) {
            Some((size, s1)) => match skip_owner(flags, s1) {
                Some(s2) => match read_permissions(flags, s2) {
                    Some((permissions, s3)) => match read_mtime(flags, s3) {
                        Some((mtime, s4)) => match skip_extended(flags, s4) {
                            Some(s5) => Some((Attrs { size, permissions, mtime }, s5)),
                            None => None,
                        },
                        None => None,
                    },
                    None => None,
                },
                None => None,
            },
            None => None,
        }
    }
}

/// The kind of file that a unix mode says.
pub open spec fn mode_kind(mode: u32) -> FileKind {
    if mode & MODE_TYPE == 0o040000 {
        FileKind::Dir
    } else if mode & MODE_TYPE == 0o120000 {
        FileKind::Symlink
    } else if mode & MODE_TYPE == 0o100000 {
        FileKind::File
    } else {
        FileKind::Other
    }
}

/// Reads past `count` pairs of strings.
fn skip_extended_pairs(c: &mut Cursor, count: u32) -> (r: Result<(), AppError>)
    ensures
        match r {
            Ok(_) => skip_pairs(old(c).rest(), count as nat) == Some(final(c).rest()),
            Err(e) => skip_pairs(old(c).rest(), count as nat) is None && e@ == malformed(),
        },
{
    let mut left: u32 = count;
    while left > 0
        invariant
            skip_pairs(old(c).rest(), count as nat) == skip_pairs(c.rest(), left as nat),
        decreases left,
    {
        match c.bytes() {
            Ok(_) => {},
            Err(e) => return Err(e),
        }
        match c.bytes() {
            Ok(_) => {},
            Err(e) => return Err(e),
        }
        left = left - 1;
    }
    Ok(())
}

/// Reads past two numbers and gives the second.
fn second_u32(c: &mut Cursor) -> (r: Result<u32, AppError>)
    ensures
        match r {
            Ok(x) => {
                &&& old(c).rest().len() >= 8
                &&& x == from_be32(old(c).rest().subrange(4, 8))
                &&& final(c).rest() == old(c).rest().skip(8)
            },
            Err(e) => old(c).rest().len() < 8 && e@ == malformed(),
        },
{
    let ghost s = c.rest();
    match c.u32() {
        Ok(_) => {},
        Err(e) => return Err(e),
    }
    match c.u32() {
        Ok(x) => {
            assert(s.skip(4).take(4) =~= s.subrange(4, 8));
            assert(s.skip(4).skip(4) =~= s.skip(8));
            Ok(x)
        },
        Err(e) => Err(e),
    }
}

impl Attrs {
    /// Reads an attribute block to its end.
    pub fn decode(c: &mut Cursor) -> (r: Result<Self, AppError>)
        ensures
            match r {
                Ok(attrs) => read_attrs(old(c).rest()) == Some((attrs, final(c).rest())),
                Err(e) => read_attrs(old(c).rest()) is None && e@ == malformed(),
            },
    {
        let flags: u32 = match c.u32() {
            Ok(flags) => flags,
            Err(e) => return Err(e),
        };
        let mut attrs = Attrs { size: None, permissions: None, mtime: None };
        if flags & ATTR_SIZE != 0 {
            match c.u64() {
                Ok(size) => {
                    attrs.size = Some(size);
                },
                Err(e) => return Err(e),
            }
        }
        if flags & ATTR_UIDGID != 0 {
            match second_u32(c) {
                Ok(_) => {},
                Err(e) => return Err(e),
            }
        }
        if flags & ATTR_PERMISSIONS != 0 {
            match c.u32() {
                Ok(permissions) => {
                    attrs.permissions = Some(permissions);
                },
                Err(e) => return Err(e),
            }
        }
        if flags & ATTR_ACMODTIME != 0 {
            match second_u32(c) {
                Ok(mtime) => {
                    attrs.mtime = Some(mtime);
                },
                Err(e) => return Err(e),
            }
        }
        if flags & ATTR_EXTENDED != 0 {
            let count: u32 = match c.u32() {
                Ok(count) => count,
                Err(e) => return Err(e),
            };
            match skip_extended_pairs(c, count) {
                Ok(_) => {},
                Err(e) => return Err(e),
            }
        }
        Ok(attrs)
    }

    /// The file type bits of a unix mode, when the server sent permissions.
    pub fn file_kind(&self) -> (r: Option<FileKind>)
        ensures
            r == match self.permissions {
                Some(p) => Some(mode_kind(p)),
                None => None,
            },
    {
        match self.permissions {
            Some(p) => {
                let bits: u32 = p & MODE_TYPE;
                Some(
                    if bits == 0o040000 {
                        FileKind::Dir
                    } else if bits == 0o120000 {
                        FileKind::Symlink
                    } else if bits == 0o100000 {
                        FileKind::File
                    } else {
                        FileKind::Other
                    },
                )
            },
            None => None,
        }
    }
}

/// One name in a reply.
#[derive(Clone, Debug, PartialEq, Eq)]
pub struct NameEntry {
    pub filename: String,
    /// The line that `ls -l` would print. It is the only way to tell a
    /// directory from a file when the server leaves the permissions out.
    pub longname: String,
    pub attrs: Attrs,
}

/// A `NameEntry` by its texts.
#[verifier::ext_equal]
pub struct NameView {
    pub filename: Seq<char>,
    pub longname: Seq<char>,
    pub attrs: Attrs,
}

impl View for NameEntry {
    type V = NameView;

    open spec fn view(&self) -> NameView {
        NameView { filename: self.filename@, longname: self.longname@, attrs: self.attrs }
    }
}

impl NameView {
    /// What kind of file an entry is: by its permissions, and by its long name
    /// only where there are none.
    pub open spec fn kind(self) -> FileKind {
        match self.attrs.permissions {
            Some(p) => mode_kind(p),
            None => if self.longname.len() == 0 {
                FileKind::Other
            } else if self.longname[0] == 'd' {
                FileKind::Dir
            } else if self.longname[0] == 'l' {
                FileKind::Symlink
            } else if self.longname[0] == '-' {
                FileKind::File
            } else {
                FileKind::Other
            },
        }
    }
}

impl NameEntry {
    /// What kind of file this is.
    pub fn kind(&self) -> (r: FileKind)
        ensures
            r == self@.kind(),
    {
        if let Some(kind) = self.attrs.file_kind() {
            return kind;
        }
        let long = chars_of(self.longname.as_str());
        if long.len() == 0 {
            FileKind::Other
        } else if long[0] == 'd' {
            FileKind::Dir
        } else if long[0] == 'l' {
            FileKind::Symlink
        } else if long[0] == '-' {
            FileKind::File
        } else {
            FileKind::Other
        }
    }
}

/// A decoded reply.
#[derive(Clone, Debug, PartialEq, Eq)]
pub enum Reply {
    Version(u32),
    Status { code: u32, message: String },
    Handle(Vec<u8>),
    Data(Vec<u8>),
    Name(Vec<NameEntry>),
    Attrs(Attrs),
}

/// A `Reply` by its contents.
#[verifier::ext_equal]
pub enum ReplyView {
    Version(u32),
    Status { code: u32, message: Seq<char> },
    Handle(Seq<u8>),
    Data(Seq<u8>),
    Name(Seq<NameView>),
    Attrs(Attrs),
}

/// The names by their views.
pub open spec fn name_views(names: Seq<NameEntry>) -> Seq<NameView> {
    names.map_values(|n: NameEntry| n@)
}

impl View for Reply {
    type V = ReplyView;

    open spec fn view(&self) -> ReplyView {
        match *self {
            Reply::Version(v) => ReplyView::Version(v),
            Reply::Status { code, message } => ReplyView::Status { code, message: message@ },
            Reply::Handle(h) => ReplyView::Handle(h@),
            Reply::Data(d) => ReplyView::Data(d@),
            Reply::Name(names) => ReplyView::Name(name_views(names@)),
            Reply::Attrs(attrs) => ReplyView::Attrs(attrs),
        }
    }
}

/// One name of a reply, and what follows it.
pub open spec fn read_name(s: Seq<u8>) -> Option<(NameView, Seq<u8>)> {
    match read_string(s) {
        Some((filename, s1)) => match read_string(s1) {
            Some((longname, s2)) => match read_attrs(s2) {
                Some((attrs, s3)) => Some(
                    (NameView { filename: utf8_lossy(filename), longname: utf8_lossy(longname), attrs }, s3),
                ),
                None => None,
            },
            None => None,
        },
        None => None,
    }
}

/// `count` names of a reply.
pub open spec fn read_names(s: Seq<u8>, count: nat) -> Option<Seq<NameView>>
    decreases count,
{
    if count == 0 {
        Some(Seq::empty())
    } else {
        match read_name(s) {
            Some((name, rest)) => match read_names(rest, (count - 1) as nat) {
                Some(more) => Some(seq![name] + more),
                None => None,
            },
            None => None,
        }
    }
}

/// What a reply of type `kind` holds, from behind the request id.
pub open spec fn read_payload(kind: u8, s: Seq<u8>) -> Option<ReplyView> {
    if kind == FXP_STATUS {
        if s.len() < 4 {
            None
        } else if s.len() == 4 {
            Some(ReplyView::Status { code: from_be32(s.take(4)), message: Seq::empty() })
        } else {
            match read_string(s.skip(4)) {
                Some((message, _)) => Some(
                    ReplyView::Status { code: from_be32(s.take(4)), message: utf8_lossy(message) },
                ),
                None => None,
            }
        }
    } else if kind == FXP_HANDLE {
        match read_string(s) {
            Some((handle, _)) => Some(ReplyView::Handle(handle)),
            None => None,
        }
    } else if kind == FXP_DATA {
        match read_string(s) {
            Some((data, _)) => Some(ReplyView::Data(data)),
            None => None,
        }
    } else if kind == FXP_NAME {
        if s.len() < 4 {
            None
        } else {
            match read_names(s.skip(4), from_be32(s.take(4)) as nat) {
                Some(names) => Some(ReplyView::Name(names)),
                None => None,
            }
        }
    } else {
        match read_attrs(s) {
            Some((attrs, _)) => Some(ReplyView::Attrs(attrs)),
            None => None,
        }
    }
}

/// Whether a reply of this type exists, besides the handshake's.
pub open spec fn known_kind(kind: u8) -> bool {
    kind == FXP_STATUS || kind == FXP_HANDLE || kind == FXP_DATA || kind == FXP_NAME || kind == FXP_ATTRS
}

/// What a packet body decodes to: the request id, which only the handshake's
/// reply has not, and the reply.
pub open spec fn decoded_reply(body: Seq<u8>) -> Result<(Option<u32>, ReplyView), ErrorView> {
    if body.len() < 5 {
        Err(malformed())
    } else if body[0] == FXP_VERSION {
        Ok((None, ReplyView::Version(from_be32(body.subrange(1, 5)))))
    } else if !known_kind(body[0]) {
        Err(ErrorView::Sftp("unexpected packet type "@ + decimal(body[0] as nat) + " from server"@))
    } else {
        match read_payload(body[0], body.skip(5)) {
            Some(reply) => Ok((Some(from_be32(body.subrange(1, 5))), reply)),
            None => Err(malformed()),
        }
    }
}

/// Reads `count` names.
fn decode_names(c: &mut Cursor, count: u32) -> (r: Result<Vec<NameEntry>, AppError>)
    ensures
        match r {
            Ok(names) => read_names(old(c).rest(), count as nat) == Some(name_views(names@)),
            Err(e) => read_names(old(c).rest(), count as nat) is None && e@ == malformed(),
        },
{
    let mut entries: Vec<NameEntry> = Vec::new();
    let mut left: u32 = count;
    let ghost start = c.rest();
    proof {
        assert(name_views(entries@) =~= Seq::<NameView>::empty());
        if let Some(all) = read_names(start, count as nat) {
            assert(name_views(entries@) + all =~= all);
        }
    }
    while left > 0
        invariant
            start == old(c).rest(),
            match read_names(c.rest(), left as nat) {
                Some(more) => read_names(start, count as nat) == Some(name_views(entries@) + more),
                None => read_names(start, count as nat) is None,
            },
        decreases left,
    {
        let ghost before = name_views(entries@);
        let ghost s = c.rest();
        let filename = match c.string() {
            Ok(t) => t,
            Err(e) => return Err(e),
        };
        let longname = match c.string() {
            Ok(t) => t,
            Err(e) => return Err(e),
        };
        let attrs = match Attrs::decode(c) {
            Ok(attrs) => attrs,
            Err(e) => return Err(e),
        };
        let entry = NameEntry { filename, longname, attrs };
        assert(read_name(s) == Some((entry@, c.rest())));
        entries.push(entry);
        left = left - 1;
        proof {
            assert(name_views(entries@) =~= before.push(entry@));
            if let Some(more) = read_names(c.rest(), left as nat) {
                assert(before + (seq![entry@] + more) =~= name_views(entries@) + more);
            }
        }
    }
    assert(name_views(entries@) + Seq::<NameView>::empty() =~= name_views(entries@));
    Ok(entries)
}

impl Reply {
    /// Decodes one packet body: everything behind the length prefix.
    pub fn decode(body: &[u8]) -> (r: Result<(Option<u32>, Reply), AppError>)
        ensures
            match r {
                Ok((id, reply)) => decoded_reply(body@) == Ok::<(Option<u32>, ReplyView), ErrorView>((id, reply@)),
                Err(e) => decoded_reply(body@) == Err::<(Option<u32>, ReplyView), ErrorView>(e@),
            },
    {
        let mut c = Cursor::new(body);
        let kind: u8 = match c.u8() {
            Ok(kind) => kind,
            Err(e) => return Err(e),
        };
        assert(body@.skip(1).take(4) =~= body@.subrange(1, 5) || body@.len() < 5);
        let id: u32 = match c.u32() {
            Ok(id) => id,
            Err(e) => return Err(e),
        };
        assert(c.rest() =~= body@.skip(5));
        if kind == FXP_VERSION {
            return Ok((None, Reply::Version(id)));
        }
        let reply = if kind == FXP_STATUS {
            let code: u32 = match c.u32() {
                Ok(code) => code,
                Err(e) => return Err(e),
            };
            // A short packet from a sloppy server degrades to an empty message.
            let message = if c.remaining() > 0 {
                match c.string() {
                    Ok(t) => t,
                    Err(e) => return Err(e),
                }
            } else {
                String::new()
            };
            Reply::Status { code, message }
        } else if kind == FXP_HANDLE {
            match c.bytes() {
                Ok(b) => Reply::Handle(slice_to_vec(b)),
                Err(e) => return Err(e),
            }
        } else if kind == FXP_DATA {
            match c.bytes() {
                Ok(b) => Reply::Data(slice_to_vec(b)),
                Err(e) => return Err(e),
            }
        } else if kind == FXP_NAME {
            let count: u32 = match c.u32() {
                Ok(count) => count,
                Err(e) => return Err(e),
            };
            match decode_names(&mut c, count) {
                Ok(names) => Reply::Name(names),
                Err(e) => return Err(e),
            }
        } else if kind == FXP_ATTRS {
            match Attrs::decode(&mut c) {
                Ok(attrs) => Reply::Attrs(attrs),
                Err(e) => return Err(e),
            }
        } else {
            let mut text = owned("unexpected packet type ");
            push_decimal(&mut text, kind as u64);
            text.push_str(" from server");
            return Err(AppError::Sftp(text));
        };
        Ok((Some(id), reply))
    }
}

/// What a status code says where the server sent no message.
pub open spec fn default_message(code: u32) -> Seq<char> {
    if code == FX_NO_SUCH_FILE {
        "no such file or directory"@
    } else if code == FX_PERMISSION_DENIED {
        "permission denied"@
    } else if code == FX_NO_CONNECTION || code == FX_CONNECTION_LOST {
        "connection lost"@
    } else {
        "server error "@ + decimal(code as nat)
    }
}

/// The error for a status.
pub open spec fn status_view(path: Seq<char>, code: u32, message: Seq<char>) -> ErrorView {
    ErrorView::SftpStatus {
        code,
        path,
        message: if message.len() == 0 {
            default_message(code)
        } else {
            message
        },
    }
}

/// Turns a non-OK status into the error the screens react to. An empty message
/// is filled in, a server-supplied one is kept.
pub fn status_error(path: &str, code: u32, message: String) -> (r: AppError)
    ensures
        r@ == status_view(path@, code, message@),
{
    let message = if message.as_str().is_empty() {
        default_status_message(code)
    } else {
        message
    };
    AppError::SftpStatus { code, path: owned(path), message }
}

fn default_status_message(code: u32) -> (r: String)
    ensures
        r@ == default_message(code),
{
    if code == FX_NO_SUCH_FILE {
        owned("no such file or directory")
    } else if code == FX_PERMISSION_DENIED {
        owned("permission denied")
    } else if code == FX_NO_CONNECTION || code == FX_CONNECTION_LOST {
        owned("connection lost")
    } else {
        let mut s = owned("server error ");
        push_decimal(&mut s, code as u64);
        s
    }
}

/// A written string reads back as it was written, and what was written behind
/// it follows.
pub proof fn a_written_string_reads_back(v: Seq<u8>, rest: Seq<u8>)
    requires
        v.len() < 0x1_0000_0000,
    ensures
        read_string(string_bytes(v) + rest) == Some((v, rest)),
{
    let count = (v.len() % 0x1_0000_0000) as u32;
    assert(count == v.len());
    lemma_be32_round_trip(count);
    lemma_read_string(be32(count), v, rest);
}

/// Reading a string whose length stands in the four bytes `p`.
proof fn lemma_read_string(p: Seq<u8>, v: Seq<u8>, rest: Seq<u8>)
    requires
        p.len() == 4,
        from_be32(p) == v.len(),
    ensures
        read_string(p + v + rest) == Some((v, rest)),
{
    let s = p + v + rest;
    assert(s.take(4) =~= p);
    assert(s.subrange(4, 4 + v.len() as int) =~= v);
    assert(s.skip(4 + v.len() as int) =~= rest);
}

/// The length prefix of a frame counts everything behind itself.
pub proof fn the_length_covers_the_body(body: Seq<u8>)
    requires
        body.len() < 0x1_0000_0000,
    ensures
        string_bytes(body).len() == 4 + body.len(),
        from_be32(string_bytes(body).take(4)) == body.len(),
        string_bytes(body).skip(4) == body,
{
    lemma_be32_round_trip(body.len() as u32);
    assert(string_bytes(body).take(4) =~= be32(body.len() as u32));
    assert(string_bytes(body).skip(4) =~= body);
}

/// An attribute block as a server writes it.
#[verifier::ext_equal]
pub struct SentAttrs {
    pub size: Option<u64>,
    pub owner: Option<(u32, u32)>,
    pub permissions: Option<u32>,
    pub times: Option<(u32, u32)>,
    /// Extended pairs, where there is such a block.
    pub extended: Option<Seq<(Seq<u8>, Seq<u8>)>>,
}

/// The pairs as they are written.
pub open spec fn pairs_bytes(pairs: Seq<(Seq<u8>, Seq<u8>)>) -> Seq<u8>
    decreases pairs.len(),
{
    if pairs.len() == 0 {
        Seq::empty()
    } else {
        string_bytes(pairs[0].0) + string_bytes(pairs[0].1) + pairs_bytes(pairs.drop_first())
    }
}

impl SentAttrs {
    /// Whether `flags` says which fields are there.
    pub open spec fn flagged(self, flags: u32) -> bool {
        &&& (flags & ATTR_SIZE != 0) == (self.size is Some)
        &&& (flags & ATTR_UIDGID != 0) == (self.owner is Some)
        &&& (flags & ATTR_PERMISSIONS != 0) == (self.permissions is Some)
        &&& (flags & ATTR_ACMODTIME != 0) == (self.times is Some)
        &&& (flags & ATTR_EXTENDED != 0) == (self.extended is Some)
    }

    /// Whether every length and count can be written.
    pub open spec fn writable(self) -> bool {
        self.extended matches Some(pairs) ==> pairs.len() < 0x1_0000_0000 && forall|i: int|
            0 <= i < pairs.len() ==> (#[trigger] pairs[i]).0.len() < 0x1_0000_0000 && pairs[i].1.len() < 0x1_0000_0000
    }

    pub open spec fn size_bytes(self) -> Seq<u8> {
        match self.size {
            Some(n) => be64(n),
            None => Seq::empty(),
        }
    }

    pub open spec fn owner_bytes(self) -> Seq<u8> {
        match self.owner {
            Some((u, g)) => be32(u) + be32(g),
            None => Seq::empty(),
        }
    }

    pub open spec fn permission_bytes(self) -> Seq<u8> {
        match self.permissions {
            Some(p) => be32(p),
            None => Seq::empty(),
        }
    }

    pub open spec fn time_bytes(self) -> Seq<u8> {
        match self.times {
            Some((a, m)) => be32(a) + be32(m),
            None => Seq::empty(),
        }
    }

    pub open spec fn extended_bytes(self) -> Seq<u8> {
        match self.extended {
            Some(pairs) => be32((pairs.len() % 0x1_0000_0000) as u32) + pairs_bytes(pairs),
            None => Seq::empty(),
        }
    }

    /// The block as it is written.
    pub open spec fn bytes(self, flags: u32) -> Seq<u8> {
        be32(flags) + self.size_bytes() + self.owner_bytes() + self.permission_bytes() + self.time_bytes()
            + self.extended_bytes()
    }

    /// The modification time that is sent.
    pub open spec fn mtime(self) -> Option<u32> {
        match self.times {
            Some((_, m)) => Some(m),
            None => None,
        }
    }

    proof fn lemma_size(self, flags: u32, tail: Seq<u8>)
        requires
            self.flagged(flags),
        ensures
            read_size(flags, self.size_bytes() + tail) == Some((self.size, tail)),
    {
        let s = self.size_bytes() + tail;
        match self.size {
            Some(n) => {
                lemma_be64_prefix(n, tail);
            },
            None => {
                assert(s =~= tail);
            },
        }
    }

    proof fn lemma_owner(self, flags: u32, tail: Seq<u8>)
        requires
            self.flagged(flags),
        ensures
            skip_owner(flags, self.owner_bytes() + tail) == Some(tail),
    {
        let s = self.owner_bytes() + tail;
        match self.owner {
            Some((u, g)) => {
                lemma_be32_prefix(u, be32(g) + tail);
                lemma_be32_prefix(g, tail);
                assert(s =~= be32(u) + (be32(g) + tail));
                assert(s.skip(8) =~= s.skip(4).skip(4));
            },
            None => {
                assert(s =~= tail);
            },
        }
    }

    proof fn lemma_permissions(self, flags: u32, tail: Seq<u8>)
        requires
            self.flagged(flags),
        ensures
            read_permissions(flags, self.permission_bytes() + tail) == Some((self.permissions, tail)),
    {
        let s = self.permission_bytes() + tail;
        match self.permissions {
            Some(p) => {
                lemma_be32_prefix(p, tail);
            },
            None => {
                assert(s =~= tail);
            },
        }
    }

    proof fn lemma_times(self, flags: u32, tail: Seq<u8>)
        requires
            self.flagged(flags),
        ensures
            read_mtime(flags, self.time_bytes() + tail) == Some((self.mtime(), tail)),
    {
        let s = self.time_bytes() + tail;
        match self.times {
            Some((a, m)) => {
                lemma_be32_prefix(a, be32(m) + tail);
                lemma_be32_prefix(m, tail);
                assert(s =~= be32(a) + (be32(m) + tail));
                assert(s.skip(8) =~= s.skip(4).skip(4));
                assert(s.subrange(4, 8) =~= s.skip(4).take(4));
            },
            None => {
                assert(s =~= tail);
            },
        }
    }

    proof fn lemma_extended(self, flags: u32, tail: Seq<u8>)
        requires
            self.flagged(flags),
            self.writable(),
        ensures
            skip_extended(flags, self.extended_bytes() + tail) == Some(tail),
    {
        match self.extended {
            Some(pairs) => {
                lemma_extended_pairs(pairs, flags, tail);
            },
            None => {
                assert(self.extended_bytes() + tail =~= tail);
            },
        }
    }
}

#[verifier::spinoff_prover]
#[verifier::rlimit(60)]
proof fn lemma_extended_pairs(pairs: Seq<(Seq<u8>, Seq<u8>)>, flags: u32, tail: Seq<u8>)
    requires
        flags & ATTR_EXTENDED != 0,
        pairs.len() < 0x1_0000_0000,
        forall|i: int|
            0 <= i < pairs.len() ==> (#[trigger] pairs[i]).0.len() < 0x1_0000_0000 && pairs[i].1.len() < 0x1_0000_0000,
    ensures
        skip_extended(flags, be32((pairs.len() % 0x1_0000_0000) as u32) + pairs_bytes(pairs) + tail) == Some(tail),
{
    let count = (pairs.len() % 0x1_0000_0000) as u32;
    assert(count == pairs.len());
    let body = pairs_bytes(pairs) + tail;
    lemma_joined(be32(count), pairs_bytes(pairs), tail);
    lemma_be32_prefix(count, body);
    lemma_skip_pairs(pairs, tail);
    assert(skip_pairs(body, pairs.len()) == Some(tail));
    assert(skip_extended(flags, be32(count) + body) == skip_pairs(body, count as nat));
}

proof fn lemma_joined(a: Seq<u8>, b: Seq<u8>, c: Seq<u8>)
    ensures
        a + b + c == a + (b + c),
{
    assert(a + b + c =~= a + (b + c));
}

#[verifier::spinoff_prover]
#[verifier::rlimit(40)]
proof fn lemma_skip_pairs(pairs: Seq<(Seq<u8>, Seq<u8>)>, rest: Seq<u8>)
    requires
        forall|i: int|
            0 <= i < pairs.len() ==> (#[trigger] pairs[i]).0.len() < 0x1_0000_0000 && pairs[i].1.len() < 0x1_0000_0000,
    ensures
        skip_pairs(pairs_bytes(pairs) + rest, pairs.len()) == Some(rest),
    decreases pairs.len(),
{
    if pairs.len() > 0 {
        let more = pairs.drop_first();
        let tail = pairs_bytes(more) + rest;
        assert forall|i: int| 0 <= i < more.len() implies (#[trigger] more[i]).0.len() < 0x1_0000_0000
            && more[i].1.len() < 0x1_0000_0000 by {
            assert(more[i] == pairs[i + 1]);
        }
        assert(pairs[0].0.len() < 0x1_0000_0000);
        lemma_skip_pairs(more, rest);
        let second = string_bytes(pairs[0].1) + tail;
        a_written_string_reads_back(pairs[0].0, second);
        a_written_string_reads_back(pairs[0].1, tail);
        let a = string_bytes(pairs[0].0);
        let b = string_bytes(pairs[0].1);
        assert(pairs_bytes(pairs) == a + b + pairs_bytes(more));
        lemma_joined(a + b, pairs_bytes(more), rest);
        lemma_joined(a, b, tail);
        assert(pairs_bytes(pairs) + rest == a + second);
    } else {
        assert(pairs_bytes(pairs) + rest =~= rest);
    }
}

/// An attribute block is consumed to its end, whatever fields it has and
/// whatever stands in its extended pairs: what was written behind it follows.
#[verifier::spinoff_prover]
#[verifier::rlimit(60)]
pub proof fn an_attribute_block_is_consumed(a: SentAttrs, flags: u32, rest: Seq<u8>)
    requires
        a.flagged(flags),
        a.writable(),
    ensures
        read_attrs(a.bytes(flags) + rest) == Some(
            (Attrs { size: a.size, permissions: a.permissions, mtime: a.mtime() }, rest),
        ),
{
    let b5 = a.extended_bytes() + rest;
    let b4 = a.time_bytes() + b5;
    let b3 = a.permission_bytes() + b4;
    let b2 = a.owner_bytes() + b3;
    let b1 = a.size_bytes() + b2;
    let f = be32(flags);
    lemma_joined(f + a.size_bytes() + a.owner_bytes() + a.permission_bytes() + a.time_bytes(), a.extended_bytes(), rest);
    lemma_joined(f + a.size_bytes() + a.owner_bytes() + a.permission_bytes(), a.time_bytes(), b5);
    lemma_joined(f + a.size_bytes() + a.owner_bytes(), a.permission_bytes(), b4);
    lemma_joined(f + a.size_bytes(), a.owner_bytes(), b3);
    lemma_joined(f, a.size_bytes(), b2);
    lemma_be32_prefix(flags, b1);
    a.lemma_size(flags, b2);
    a.lemma_owner(flags, b3);
    a.lemma_permissions(flags, b4);
    a.lemma_times(flags, b5);
    a.lemma_extended(flags, rest);
}

/// One name of a reply as a server writes it.
#[verifier::ext_equal]
pub struct SentName {
    pub filename: Seq<u8>,
    pub longname: Seq<u8>,
    pub attrs: SentAttrs,
    pub flags: u32,
}

impl SentName {
    /// Whether the name can be written.
    pub open spec fn writable(self) -> bool {
        self.filename.len() < 0x1_0000_0000 && self.longname.len() < 0x1_0000_0000 && self.attrs.flagged(self.flags)
            && self.attrs.writable()
    }

    /// The name as it is written.
    pub open spec fn bytes(self) -> Seq<u8> {
        string_bytes(self.filename) + string_bytes(self.longname) + self.attrs.bytes(self.flags)
    }

    /// The name as it is read.
    pub open spec fn seen(self) -> NameView {
        NameView {
            filename: utf8_lossy(self.filename),
            longname: utf8_lossy(self.longname),
            attrs: Attrs { size: self.attrs.size, permissions: self.attrs.permissions, mtime: self.attrs.mtime() },
        }
    }
}

/// The names as they are written, one behind the other.
pub open spec fn names_bytes(names: Seq<SentName>) -> Seq<u8>
    decreases names.len(),
{
    if names.len() == 0 {
        Seq::empty()
    } else {
        names[0].bytes() + names_bytes(names.drop_first())
    }
}

proof fn lemma_name_reads_back(n: SentName, tail: Seq<u8>)
    requires
        n.writable(),
    ensures
        read_name(n.bytes() + tail) == Some((n.seen(), tail)),
{
    let third = n.attrs.bytes(n.flags) + tail;
    let second = string_bytes(n.longname) + third;
    a_written_string_reads_back(n.filename, second);
    a_written_string_reads_back(n.longname, third);
    an_attribute_block_is_consumed(n.attrs, n.flags, tail);
    lemma_joined(string_bytes(n.filename) + string_bytes(n.longname), n.attrs.bytes(n.flags), tail);
    lemma_joined(string_bytes(n.filename), string_bytes(n.longname), third);
}

/// A reply of names reads back every entry, in order.
#[verifier::spinoff_prover]
#[verifier::rlimit(60)]
pub proof fn every_name_reads_back(names: Seq<SentName>)
    requires
        forall|i: int| 0 <= i < names.len() ==> (#[trigger] names[i]).writable(),
    ensures
        read_names(names_bytes(names), names.len()) == Some(names.map_values(|n: SentName| n.seen())),
    decreases names.len(),
{
    let seen = names.map_values(|n: SentName| n.seen());
    if names.len() > 0 {
        let more = names.drop_first();
        assert forall|i: int| 0 <= i < more.len() implies (#[trigger] more[i]).writable() by {
            assert(more[i] == names[i + 1]);
        }
        every_name_reads_back(more);
        let n = names[0];
        assert(n.writable());
        lemma_name_reads_back(n, names_bytes(more));
        assert(seq![n.seen()] + more.map_values(|n: SentName| n.seen()) =~= seen);
    } else {
        assert(seen =~= Seq::<NameView>::empty());
    }
}

/// What follows `count` names of a reply.
pub open spec fn names_rest(s: Seq<u8>, count: nat) -> Option<Seq<u8>>
    decreases count,
{
    if count == 0 {
        Some(s)
    } else {
        match read_name(s) {
            Some((_, rest)) => names_rest(rest, (count - 1) as nat),
            None => None,
        }
    }
}

/// What follows the last field of a handle, data, name or attribute reply, from
/// behind the request id.
pub open spec fn payload_rest(kind: u8, s: Seq<u8>) -> Option<Seq<u8>> {
    if kind == FXP_HANDLE || kind == FXP_DATA {
        match read_string(s) {
            Some((_, rest)) => Some(rest),
            None => None,
        }
    } else if kind == FXP_NAME {
        if s.len() < 4 {
            None
        } else {
            names_rest(s.skip(4), from_be32(s.take(4)) as nat)
        }
    } else {
        match read_attrs(s) {
            Some((_, rest)) => Some(rest),
            None => None,
        }
    }
}

/// Whether a packet body is a handle, data, name or attribute reply.
pub open spec fn carries_fields(body: Seq<u8>) -> bool {
    body.len() > 0 && (body[0] == FXP_HANDLE || body[0] == FXP_DATA || body[0] == FXP_NAME || body[0] == FXP_ATTRS)
}

proof fn lemma_string_more(s: Seq<u8>, tail: Seq<u8>)
    ensures
        read_string(s) matches Some((v, rest)) ==> read_string(s + tail) == Some((v, rest + tail)),
{
    if let Some((v, rest)) = read_string(s) {
        let n = from_be32(s.take(4)) as int;
        assert((s + tail).take(4) =~= s.take(4));
        assert((s + tail).subrange(4, 4 + n) =~= v);
        assert((s + tail).skip(4 + n) =~= rest + tail);
    }
}

proof fn lemma_pairs_more(s: Seq<u8>, count: nat, tail: Seq<u8>)
    ensures
        skip_pairs(s, count) matches Some(rest) ==> skip_pairs(s + tail, count) == Some(rest + tail),
    decreases count,
{
    if count > 0 {
        lemma_string_more(s, tail);
        if let Some((_, s1)) = read_string(s) {
            lemma_string_more(s1, tail);
            if let Some((_, s2)) = read_string(s1) {
                lemma_pairs_more(s2, (count - 1) as nat, tail);
            }
        }
    }
}

/// The same bytes stand before and behind a place, with or without a tail.
proof fn lemma_split_more(s: Seq<u8>, n: int, tail: Seq<u8>)
    requires
        0 <= n <= s.len(),
    ensures
        (s + tail).take(n) == s.take(n),
        (s + tail).skip(n) == s.skip(n) + tail,
{
    assert((s + tail).take(n) =~= s.take(n));
    assert((s + tail).skip(n) =~= s.skip(n) + tail);
}

proof fn lemma_fields_more(flags: u32, s: Seq<u8>, tail: Seq<u8>)
    ensures
        read_size(flags, s) matches Some((v, rest)) ==> read_size(flags, s + tail) == Some((v, rest + tail)),
        skip_owner(flags, s) matches Some(rest) ==> skip_owner(flags, s + tail) == Some(rest + tail),
        read_permissions(flags, s) matches Some((v, rest)) ==> read_permissions(flags, s + tail) == Some(
            (v, rest + tail),
        ),
        read_mtime(flags, s) matches Some((v, rest)) ==> read_mtime(flags, s + tail) == Some((v, rest + tail)),
        skip_extended(flags, s) matches Some(rest) ==> skip_extended(flags, s + tail) == Some(rest + tail),
{
    if s.len() >= 8 {
        lemma_split_more(s, 8, tail);
        assert((s + tail).subrange(4, 8) =~= s.subrange(4, 8));
    }
    if s.len() >= 4 {
        lemma_split_more(s, 4, tail);
        lemma_pairs_more(s.skip(4), from_be32(s.take(4)) as nat, tail);
    }
}

proof fn lemma_attrs_more(s: Seq<u8>, tail: Seq<u8>)
    ensures
        read_attrs(s) matches Some((v, rest)) ==> read_attrs(s + tail) == Some((v, rest + tail)),
{
    if s.len() >= 4 {
        lemma_split_more(s, 4, tail);
        let flags = from_be32(s.take(4));
        lemma_fields_more(flags, s.skip(4), tail);
        if let Some((_, s1)) = read_size(flags, s.skip(4)) {
            lemma_fields_more(flags, s1, tail);
            if let Some(s2) = skip_owner(flags, s1) {
                lemma_fields_more(flags, s2, tail);
                if let Some((_, s3)) = read_permissions(flags, s2) {
                    lemma_fields_more(flags, s3, tail);
                    if let Some((_, s4)) = read_mtime(flags, s3) {
                        lemma_fields_more(flags, s4, tail);
                    }
                }
            }
        }
    }
}

proof fn lemma_name_more(s: Seq<u8>, tail: Seq<u8>)
    ensures
        read_name(s) matches Some((v, rest)) ==> read_name(s + tail) == Some((v, rest + tail)),
{
    lemma_string_more(s, tail);
    if let Some((_, s1)) = read_string(s) {
        lemma_string_more(s1, tail);
        if let Some((_, s2)) = read_string(s1) {
            lemma_attrs_more(s2, tail);
        }
    }
}

proof fn lemma_names_more(s: Seq<u8>, count: nat, tail: Seq<u8>)
    ensures
        read_names(s, count) is Some == names_rest(s, count) is Some,
        names_rest(s, count) matches Some(rest) ==> names_rest(s + tail, count) == Some(rest + tail) && read_names(
            s + tail,
            count,
        ) == read_names(s, count),
    decreases count,
{
    if count > 0 {
        lemma_name_more(s, tail);
        if let Some((_, rest)) = read_name(s) {
            lemma_names_more(rest, (count - 1) as nat, tail);
        }
    }
}

proof fn lemma_payload_more(kind: u8, s: Seq<u8>, tail: Seq<u8>)
    requires
        kind == FXP_HANDLE || kind == FXP_DATA || kind == FXP_NAME || kind == FXP_ATTRS,
    ensures
        read_payload(kind, s) is Some == payload_rest(kind, s) is Some,
        payload_rest(kind, s) matches Some(rest) ==> payload_rest(kind, s + tail) == Some(rest + tail) && read_payload(
            kind,
            s + tail,
        ) == read_payload(kind, s),
{
    lemma_string_more(s, tail);
    lemma_attrs_more(s, tail);
    if s.len() >= 4 {
        lemma_split_more(s, 4, tail);
        lemma_names_more(s.skip(4), from_be32(s.take(4)) as nat, tail);
    }
}

proof fn lemma_payload_cut(kind: u8, s: Seq<u8>, k: int)
    requires
        kind == FXP_HANDLE || kind == FXP_DATA || kind == FXP_NAME || kind == FXP_ATTRS,
        payload_rest(kind, s) == Some(Seq::<u8>::empty()),
        0 <= k < s.len(),
    ensures
        read_payload(kind, s.take(k)) is None,
{
    let cut = s.take(k);
    let tail = s.skip(k);
    assert(cut + tail =~= s);
    lemma_payload_more(kind, cut, tail);
    if payload_rest(kind, cut) is Some {
        let rest = payload_rest(kind, cut)->Some_0;
        assert((rest + tail).len() > 0);
        assert(payload_rest(kind, cut + tail) == Some(rest + tail));
        assert(false);
    }
}

/// What follows the last field of a handle, data, name or attribute reply is
/// ignored: the packet decodes to the same with any bytes behind it.
pub proof fn what_follows_a_reply_is_ignored(body: Seq<u8>, tail: Seq<u8>)
    requires
        carries_fields(body),
        decoded_reply(body) is Ok,
    ensures
        decoded_reply(body + tail) == decoded_reply(body),
{
    lemma_split_more(body, 5, tail);
    assert((body + tail).subrange(1, 5) =~= body.subrange(1, 5));
    lemma_payload_more(body[0], body.skip(5), tail);
}

/// A handle, data, name or attribute reply that ends with its last field is an
/// error wherever it is cut.
pub proof fn a_cut_reply_is_malformed(body: Seq<u8>, k: int)
    requires
        carries_fields(body),
        decoded_reply(body) is Ok,
        payload_rest(body[0], body.skip(5)) == Some(Seq::<u8>::empty()),
        0 <= k < body.len(),
    ensures
        decoded_reply(body.take(k)) == Err::<(Option<u32>, ReplyView), ErrorView>(malformed()),
{
    if k >= 5 {
        let s = body.skip(5);
        assert(body.take(k).skip(5) =~= s.take(k - 5));
        lemma_payload_cut(body[0], s, k - 5);
    }
}

/// The numbers of the protocol: the packet types, the flags of an attribute block
/// and the status codes that have a meaning of their own.
pub proof fn the_numbers_are_the_protocols()
    ensures
        FXP_VERSION == 2 && FXP_STATUS == 101 && FXP_HANDLE == 102 && FXP_DATA == 103 && FXP_NAME == 104 && FXP_ATTRS
            == 105,
        ATTR_SIZE == 1 && ATTR_UIDGID == 2 && ATTR_PERMISSIONS == 4 && ATTR_ACMODTIME == 8 && ATTR_EXTENDED
            == 0x8000_0000,
        FX_NO_SUCH_FILE == 2 && FX_PERMISSION_DENIED == 3 && FX_NO_CONNECTION == 6 && FX_CONNECTION_LOST == 7,
        MODE_TYPE == 0o170000,
{
}

/// The kind of a file is in the type bits of its mode: a directory, a symlink, a
/// plain file, or something else.
pub proof fn the_mode_tells_the_kind(mode: u32)
    ensures
        mode & 0o170000 == 0o040000 <==> mode_kind(mode) == FileKind::Dir,
        mode & 0o170000 == 0o120000 <==> mode_kind(mode) == FileKind::Symlink,
        mode & 0o170000 == 0o100000 <==> mode_kind(mode) == FileKind::File,
{
}

/// Where there are permissions they alone tell the kind; without them the first
/// letter of the long name does.
pub proof fn permissions_come_before_the_long_name(name: NameView, mode: u32)
    ensures
        name.attrs.permissions == Some(mode) ==> name.kind() == mode_kind(mode),
        name.attrs.permissions is None && name.longname.len() > 0 ==> {
            &&& name.longname[0] == 'd' <==> name.kind() == FileKind::Dir
            &&& name.longname[0] == 'l' <==> name.kind() == FileKind::Symlink
            &&& name.longname[0] == '-' <==> name.kind() == FileKind::File
        },
        name.attrs.permissions is None && name.longname.len() == 0 ==> name.kind() == FileKind::Other,
{
}

/// A refusal keeps its code, its path and what the server said; where it said
/// nothing, the code is put into words.
pub proof fn a_refusal_keeps_what_the_server_said(path: Seq<char>, code: u32, message: Seq<char>)
    ensures
        message.len() > 0 ==> status_view(path, code, message) == (ErrorView::SftpStatus { code, path, message }),
        message.len() == 0 ==> (status_view(path, code, message) matches ErrorView::SftpStatus {
            code: c,
            path: p,
            message: m,
        } && c == code && p == path && m == default_message(code)),
        default_message(2) == "no such file or directory"@,
        default_message(3) == "permission denied"@,
        default_message(6) == "connection lost"@,
        default_message(7) == "connection lost"@,
        code != 2 && code != 3 && code != 6 && code != 7 ==> default_message(code) == "server error "@ + decimal(
            code as nat,
        ),
{
}

/// A status with a message reads back as it was sent, and one without has an empty
/// message.
pub proof fn a_status_reads_back(id: u32, code: u32, message: Seq<u8>)
    requires
        message.len() < 0x1_0000_0000,
    ensures
        decoded_reply(seq![101u8] + be32(id) + be32(code) + string_bytes(message)) == Ok::<
            (Option<u32>, ReplyView),
            ErrorView,
        >((Some(id), ReplyView::Status { code, message: utf8_lossy(message) })),
        decoded_reply(seq![101u8] + be32(id) + be32(code)) == Ok::<(Option<u32>, ReplyView), ErrorView>(
            (Some(id), ReplyView::Status { code, message: Seq::empty() }),
        ),
{
    crate::bytes::lemma_be32_round_trip(id);
    crate::bytes::lemma_be32_round_trip(code);
    let bare = seq![101u8] + be32(id) + be32(code);
    let full = bare + string_bytes(message);
    a_written_string_reads_back(message, Seq::empty());
    assert(string_bytes(message) + Seq::<u8>::empty() =~= string_bytes(message));
    assert(full.subrange(1, 5) =~= be32(id));
    assert(bare.subrange(1, 5) =~= be32(id));
    assert(bare.skip(5) =~= be32(code));
    assert(be32(code).take(4) =~= be32(code));
    assert(full.skip(5) =~= be32(code) + string_bytes(message));
    assert((be32(code) + string_bytes(message)).take(4) =~= be32(code));
    assert((be32(code) + string_bytes(message)).skip(4) =~= string_bytes(message));
}

/// A handle and a chunk of data read back as they were sent.
pub proof fn bytes_read_back(id: u32, bytes: Seq<u8>)
    requires
        bytes.len() < 0x1_0000_0000,
    ensures
        decoded_reply(seq![102u8] + be32(id) + string_bytes(bytes)) == Ok::<(Option<u32>, ReplyView), ErrorView>(
            (Some(id), ReplyView::Handle(bytes)),
        ),
        decoded_reply(seq![103u8] + be32(id) + string_bytes(bytes)) == Ok::<(Option<u32>, ReplyView), ErrorView>(
            (Some(id), ReplyView::Data(bytes)),
        ),
        decoded_reply(seq![2u8] + be32(id)) == Ok::<(Option<u32>, ReplyView), ErrorView>(
            (None, ReplyView::Version(id)),
        ),
{
    crate::bytes::lemma_be32_round_trip(id);
    a_written_string_reads_back(bytes, Seq::empty());
    assert(string_bytes(bytes) + Seq::<u8>::empty() =~= string_bytes(bytes));
    let handle = seq![102u8] + be32(id) + string_bytes(bytes);
    let data = seq![103u8] + be32(id) + string_bytes(bytes);
    assert(handle.subrange(1, 5) =~= be32(id));
    assert(handle.skip(5) =~= string_bytes(bytes));
    assert(data.subrange(1, 5) =~= be32(id));
    assert(data.skip(5) =~= string_bytes(bytes));
    assert((seq![2u8] + be32(id)).subrange(1, 5) =~= be32(id));
}

} // verus!
