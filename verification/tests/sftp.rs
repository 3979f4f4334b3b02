use ssh_control::error::AppError;
use ssh_control::ssh::sftp::client::{
    check_version, data_reply, frame_len, handle_reply, match_reply, ok_reply, realpath_reply, stat_reply,
    stream_error, try_stat_result, FileHandle, Listing, RemoteEntry, SftpClient, StreamEnd, MAX_READDIR_BATCHES,
};
use ssh_control::ssh::sftp::wire::{
    status_error, Attrs, Cursor, Encoder, FileKind, NameEntry, Reply, ATTR_ACMODTIME, ATTR_EXTENDED,
    ATTR_PERMISSIONS, ATTR_SIZE, FXP_CLOSE, FXP_DATA, FXP_HANDLE, FXP_INIT, FXP_NAME, FXP_OPENDIR, FXP_REALPATH,
    FXP_STAT, FXP_STATUS, FXP_VERSION, FX_CONNECTION_LOST, FX_EOF, FX_NO_SUCH_FILE, FX_OK, FX_PERMISSION_DENIED,
    MAX_PACKET, VERSION,
};

/// The body of a frame, by its own length prefix.
fn body_of(packet: &[u8]) -> &[u8] {
    let len = u32::from_be_bytes([packet[0], packet[1], packet[2], packet[3]]) as usize;
    assert_eq!(len, packet.len() - 4, "the length prefix covers everything after itself");
    &packet[4..]
}

#[test]
fn the_length_prefix_covers_the_type_byte() {
    let packet = Encoder::request(FXP_STAT, 7).str("/tmp").finish();
    // 1 type + 4 id + 4 length-of-string + 4 bytes.
    assert_eq!(packet.len(), 4 + 13);
    assert_eq!(body_of(&packet).len(), 13);
}

#[test]
fn init_has_no_request_id() {
    let packet = Encoder::init().finish();
    let body = body_of(&packet);
    assert_eq!(body[0], FXP_INIT);
    assert_eq!(u32::from_be_bytes([body[1], body[2], body[3], body[4]]), VERSION);
    assert_eq!(body.len(), 5);
}

#[test]
fn version_decodes_without_an_id_and_ignores_extensions() {
    let mut e = Encoder { buf: vec![FXP_VERSION] };
    e.u32(3);
    e.str("posix-rename@openssh.com");
    e.str("1");
    let packet = e.finish();

    let (id, reply) = Reply::decode(body_of(&packet)).expect("decodes");
    assert_eq!(id, None);
    assert_eq!(reply, Reply::Version(3));
}

fn encode_name(entries: &[(&str, &str, Attrs)]) -> Vec<u8> {
    let mut e = Encoder::request(FXP_NAME, 42);
    e.u32(entries.len() as u32);
    for (filename, longname, attrs) in entries {
        e.str(filename);
        e.str(longname);
        let mut flags = 0;
        if attrs.size.is_some() {
            flags |= ATTR_SIZE;
        }
        if attrs.permissions.is_some() {
            flags |= ATTR_PERMISSIONS;
        }
        if attrs.mtime.is_some() {
            flags |= ATTR_ACMODTIME;
        }
        e.u32(flags);
        if let Some(size) = attrs.size {
            e.u64(size);
        }
        if let Some(perms) = attrs.permissions {
            e.u32(perms);
        }
        if let Some(mtime) = attrs.mtime {
            e.u32(0);
            e.u32(mtime);
        }
    }
    e.finish()
}

#[test]
fn a_name_reply_round_trips_every_entry() {
    let dir = Attrs { size: None, permissions: Some(0o040755), mtime: Some(100) };
    let file = Attrs { size: Some(4096), permissions: Some(0o100644), mtime: None };
    let packet = encode_name(&[("etc", "drwxr-xr-x 1 root root", dir), ("hosts", "-rw-r--r-- 1 root root", file)]);

    let (id, reply) = Reply::decode(body_of(&packet)).expect("decodes");
    assert_eq!(id, Some(42));
    let Reply::Name(entries) = reply else { panic!("expected NAME") };
    assert_eq!(entries.len(), 2);
    assert_eq!(entries[0].filename, "etc");
    assert_eq!(entries[0].kind(), FileKind::Dir);
    assert_eq!(entries[1].attrs.size, Some(4096));
    assert_eq!(entries[1].kind(), FileKind::File);
}

#[test]
fn an_extended_attribute_block_is_consumed_so_the_next_entry_still_parses() {
    let mut e = Encoder::request(FXP_NAME, 1);
    e.u32(2);
    e.str("first");
    e.str("-rw-r--r--");
    e.u32(ATTR_SIZE | ATTR_EXTENDED);
    e.u64(10);
    e.u32(1);
    e.str("acl@example.com");
    e.str("whatever");
    e.str("second");
    e.str("-rw-r--r--");
    e.u32(ATTR_SIZE);
    e.u64(20);
    let packet = e.finish();

    let (_, reply) = Reply::decode(body_of(&packet)).expect("decodes");
    let Reply::Name(entries) = reply else { panic!("expected NAME") };
    assert_eq!(entries[1].filename, "second", "the second entry must survive the extended block");
    assert_eq!(entries[1].attrs.size, Some(20));
}

#[test]
fn a_directory_is_recognised_from_the_longname_when_permissions_are_missing() {
    let entry = NameEntry {
        filename: "logs".to_string(),
        longname: "drwxr-xr-x 2 root root 4096 Jan 1 00:00 logs".to_string(),
        attrs: Attrs::default(),
    };
    assert_eq!(entry.kind(), FileKind::Dir);

    let link = NameEntry { longname: "lrwxrwxrwx 1 root root".to_string(), ..entry.clone() };
    assert_eq!(link.kind(), FileKind::Symlink);

    let unknown = NameEntry { longname: String::new(), ..entry };
    assert_eq!(unknown.kind(), FileKind::Other);
}

#[test]
fn permissions_take_precedence_over_the_longname() {
    let entry = NameEntry {
        filename: "x".to_string(),
        longname: "-rw-r--r-- 1 root root".to_string(),
        attrs: Attrs { permissions: Some(0o040755), ..Attrs::default() },
    };
    assert_eq!(entry.kind(), FileKind::Dir);
}

#[test]
fn a_truncated_packet_is_an_error_not_a_panic() {
    let packet = encode_name(&[("etc", "drwxr-xr-x", Attrs { size: Some(1), ..Attrs::default() })]);
    let body = body_of(&packet);

    for cut in 1..body.len() {
        // Every prefix either decodes (if it happens to be complete) or errors.
        let _ = Reply::decode(&body[..cut]);
    }
    assert!(Reply::decode(&body[..body.len() - 1]).is_err(), "a packet missing its tail is malformed");
    assert!(Reply::decode(&[]).is_err(), "an empty packet has not even a type byte");
}

#[test]
fn a_status_without_a_message_still_decodes() {
    let mut e = Encoder::request(FXP_STATUS, 9);
    e.u32(FX_EOF);
    let packet = e.finish();

    let (id, reply) = Reply::decode(body_of(&packet)).expect("decodes");
    assert_eq!(id, Some(9));
    assert_eq!(reply, Reply::Status { code: FX_EOF, message: String::new() });
}

#[test]
fn an_unknown_packet_type_is_refused() {
    let mut e = Encoder { buf: vec![200] };
    e.u32(1);
    assert!(Reply::decode(body_of(&e.finish())).is_err());
}

#[test]
fn a_non_utf8_filename_decodes_lossily_rather_than_failing() {
    let mut e = Encoder::request(FXP_NAME, 3);
    e.u32(1);
    e.bytes(&[0xff, 0xfe, b'a']);
    e.str("-rw-r--r--");
    e.u32(0);
    let packet = e.finish();

    let (_, reply) = Reply::decode(body_of(&packet)).expect("decodes");
    let Reply::Name(entries) = reply else { panic!("expected NAME") };
    assert!(entries[0].filename.contains('\u{fffd}'), "invalid bytes become replacement characters");
}

#[test]
fn a_status_error_always_carries_something_readable() {
    let AppError::SftpStatus { message, .. } = status_error("/x", FX_PERMISSION_DENIED, String::new()) else {
        panic!("expected SftpStatus");
    };
    assert_eq!(message, "permission denied");

    let AppError::SftpStatus { message, .. } = status_error("/x", FX_PERMISSION_DENIED, "nope".to_string()) else {
        panic!("expected SftpStatus");
    };
    assert_eq!(message, "nope");
}

#[test]
fn a_status_without_a_message_is_described_by_its_code() {
    let described = |code: u32| match status_error("/x", code, String::new()) {
        AppError::SftpStatus { message, .. } => message,
        _ => panic!("expected SftpStatus"),
    };
    assert_eq!(described(FX_NO_SUCH_FILE), "no such file or directory");
    assert_eq!(described(FX_CONNECTION_LOST), "connection lost");
    assert_eq!(described(4), "server error 4");
}

#[test]
fn a_cursor_reads_what_an_encoder_wrote() {
    let mut e = Encoder::raw(9);
    e.u32(0xdead_beef);
    e.u64(7);
    e.str("h\u{e9}");
    let packet = e.finish();
    let mut c = Cursor::new(body_of(&packet));
    assert_eq!(c.u8().unwrap(), 9);
    assert_eq!(c.u32().unwrap(), 0xdead_beef);
    assert_eq!(c.u64().unwrap(), 7);
    assert_eq!(c.string().unwrap(), "h\u{e9}");
    assert_eq!(c.remaining(), 0);
    assert!(c.u8().is_err());
}

/// A session over a scripted server: each request is answered by the next
/// reply, or by nothing once the server is gone.
struct Session {
    client: SftpClient,
    replies: Vec<fn(u8, u32) -> Option<Vec<u8>>>,
}

impl Session {
    fn new(version: u32, replies: Vec<fn(u8, u32) -> Option<Vec<u8>>>) -> Result<Session, AppError> {
        assert_eq!(SftpClient::init_packet()[4], FXP_INIT);
        let mut e = Encoder::raw(FXP_VERSION);
        e.u32(version);
        let (_, reply) = Reply::decode(body_of(&e.finish()))?;
        check_version(&reply)?;
        Ok(Session { client: SftpClient::new(), replies })
    }

    fn request(&mut self, (id, packet): (u32, Vec<u8>)) -> Result<Reply, AppError> {
        let body = body_of(&packet);
        let kind = body[0];
        assert_eq!(u32::from_be_bytes([body[1], body[2], body[3], body[4]]), id);
        let answer = self.replies.remove(0)(kind, id).ok_or_else(|| stream_error(StreamEnd::Closed))?;
        let len = frame_len(&[answer[0], answer[1], answer[2], answer[3]])?;
        let (reply_id, reply) = Reply::decode(&answer[4..4 + len])?;
        match_reply(id, reply_id, reply)
    }

    fn realpath(&mut self, path: &str) -> Result<String, AppError> {
        let request = self.client.realpath(path);
        realpath_reply(path, self.request(request)?)
    }

    fn list_dir(&mut self, path: &str) -> Result<Vec<RemoteEntry>, AppError> {
        let request = self.client.opendir(path);
        let handle = handle_reply("opendir", path, self.request(request)?)?;
        let mut listing = Listing::new();
        loop {
            listing.ask()?;
            let request = self.client.readdir(&handle);
            if listing.take_reply(path, self.request(request)?)? {
                break;
            }
        }
        let request = self.client.close(&handle);
        ok_reply(path, self.request(request)?)?;
        Ok(listing.entries)
    }

    fn try_stat(&mut self, path: &str) -> Result<Option<Attrs>, AppError> {
        let request = self.client.stat(path);
        let reply = self.request(request)?;
        try_stat_result(stat_reply(path, reply))
    }
}

fn status(id: u32, code: u32, message: &str) -> Option<Vec<u8>> {
    let mut e = Encoder::request(FXP_STATUS, id);
    e.u32(code);
    e.str(message);
    Some(e.finish())
}

fn names(id: u32, names: &[(&str, u32, u64)]) -> Option<Vec<u8>> {
    let mut e = Encoder::request(FXP_NAME, id);
    e.u32(names.len() as u32);
    for (name, perms, size) in names {
        e.str(name);
        e.str("-rw-r--r-- 1 root root");
        e.u32(ATTR_SIZE | ATTR_PERMISSIONS);
        e.u64(*size);
        e.u32(*perms);
    }
    Some(e.finish())
}

fn data(id: u32, data: &[u8]) -> Option<Vec<u8>> {
    let mut e = Encoder::request(FXP_DATA, id);
    e.bytes(data);
    Some(e.finish())
}

#[test]
fn the_handshake_refuses_an_older_server() {
    let result = Session::new(2, vec![]);
    assert!(matches!(result.err(), Some(AppError::Sftp(_))), "version 2 is not enough");
}

#[test]
fn a_listing_concatenates_every_batch_until_eof() {
    let mut sftp = Session::new(3, vec![
        |kind, id| {
            assert_eq!(kind, FXP_OPENDIR);
            let mut e = Encoder::request(FXP_HANDLE, id);
            e.bytes(b"h");
            Some(e.finish())
        },
        |_, id| names(id, &[("a", 0o100644, 10), ("b", 0o040755, 0)]),
        |_, id| names(id, &[("c", 0o100644, 30), (".", 0o040755, 0), ("..", 0o040755, 0)]),
        |_, id| status(id, FX_EOF, ""),
        |kind, id| {
            assert_eq!(kind, FXP_CLOSE);
            status(id, FX_OK, "")
        },
    ])
    .expect("handshake");
    let entries = sftp.list_dir("/tmp").expect("listing");

    let names: Vec<&str> = entries.iter().map(|e| e.name.as_str()).collect();
    assert_eq!(names, ["a", "b", "c"], "both batches, and no . or ..");
    assert!(entries[1].is_dir());
    assert_eq!(entries[2].size, 30);
}

#[test]
fn a_denied_listing_reports_the_servers_own_message() {
    let mut sftp =
        Session::new(3, vec![|_, id| status(id, FX_PERMISSION_DENIED, "permission denied")]).expect("handshake");
    let err = sftp.list_dir("/root").expect_err("denied");
    let AppError::SftpStatus { code, path, message } = err else { panic!("expected a status error") };
    assert_eq!(code, FX_PERMISSION_DENIED);
    assert_eq!(path, "/root");
    assert_eq!(message, "permission denied");
}

#[test]
fn a_short_read_is_not_the_end_of_the_file() {
    let mut sftp = Session::new(3, vec![
        |_, id| data(id, b"hello "),
        |_, id| data(id, b"world"),
        |_, id| status(id, FX_EOF, ""),
    ])
    .expect("handshake");
    let handle = FileHandle { bytes: b"h".to_vec() };
    let mut out = Vec::new();
    let mut offset = 0u64;
    loop {
        let request = sftp.client.read_chunk(&handle, offset);
        let reply = sftp.request(request).expect("read");
        let n = data_reply(reply, &mut out).expect("read");
        if n == 0 {
            break;
        }
        offset += n as u64;
    }
    assert_eq!(out, b"hello world");
}

#[test]
fn try_stat_separates_a_missing_file_from_a_denied_one() {
    let mut sftp = Session::new(3, vec![
        |_, id| status(id, FX_NO_SUCH_FILE, ""),
        |_, id| status(id, FX_PERMISSION_DENIED, ""),
    ])
    .expect("handshake");
    assert_eq!(sftp.try_stat("/nope").expect("missing is not an error"), None);
    assert!(sftp.try_stat("/root/secret").is_err(), "a denial is still an error");
}

#[test]
fn a_reply_with_the_wrong_id_is_fatal() {
    let mut sftp = Session::new(3, vec![|_, id| status(id.wrapping_add(9), FX_OK, "")]).expect("handshake");
    let request = sftp.client.mkdir("/tmp/x");
    let err = sftp.request(request).expect_err("desync");
    assert!(matches!(err, AppError::Sftp(_)));
}

#[test]
fn a_connection_dropped_mid_reply_errors_rather_than_hangs() {
    let mut sftp = Session::new(3, vec![|_, _| None]).expect("handshake");
    let err = sftp.realpath(".").expect_err("closed stream");
    assert!(matches!(err, AppError::Sftp(_)));
}

#[test]
fn an_absurd_packet_length_is_refused_before_allocating() {
    let mut sftp = Session::new(3, vec![|_, _| Some((u32::MAX).to_be_bytes().to_vec())]).expect("handshake");
    let err = sftp.realpath(".").expect_err("impossible length");
    assert!(matches!(err, AppError::Sftp(_)));
    assert!(frame_len(&[0, 0, 0, 0]).is_err());
    assert_eq!(frame_len(&(MAX_PACKET as u32).to_be_bytes()).unwrap(), MAX_PACKET);
}

#[test]
fn realpath_returns_the_servers_canonical_path() {
    let mut sftp = Session::new(3, vec![|kind, id| {
        assert_eq!(kind, FXP_REALPATH);
        names(id, &[("/home/emin", 0o040755, 0)])
    }])
    .expect("handshake");
    assert_eq!(sftp.realpath(".").expect("realpath"), "/home/emin");
}

#[test]
fn a_listing_that_never_ends_is_given_up() {
    let mut listing = Listing::new();
    for _ in 0..MAX_READDIR_BATCHES {
        listing.ask().expect("within the bound");
    }
    assert!(matches!(listing.ask(), Err(AppError::Sftp(_))));
}

#[test]
fn request_ids_never_come_to_zero() {
    let mut client = SftpClient { next_id: u32::MAX };
    assert_eq!(client.next_id(), u32::MAX);
    assert_eq!(client.next_id(), 1);
}

#[test]
fn each_way_a_stream_ends_has_its_error() {
    assert!(matches!(stream_error(StreamEnd::TimedOut), AppError::Sftp(m) if m == "the server stopped answering"));
    assert!(matches!(stream_error(StreamEnd::Failed("broken".into())), AppError::Io(m) if m == "broken"));
}

#[test]
fn replies_of_the_wrong_kind_are_refused() {
    assert!(matches!(check_version(&Reply::Data(vec![])), Err(AppError::Sftp(_))));
    assert!(matches!(realpath_reply("/", Reply::Name(vec![])), Err(AppError::Sftp(_))));
    assert!(matches!(stat_reply("/", Reply::Data(vec![])), Err(AppError::Sftp(_))));
    assert!(matches!(ok_reply("/", Reply::Data(vec![])), Err(AppError::Sftp(_))));
    assert!(matches!(handle_reply("open", "/", Reply::Version(3)), Err(AppError::Sftp(_))));
    assert!(matches!(match_reply(1, None, Reply::Version(3)), Err(AppError::Sftp(_))));
    assert!(matches!(data_reply(Reply::Version(3), &mut Vec::new()), Err(AppError::Sftp(_))));
}

#[test]
fn a_reply_is_an_error_wherever_it_is_cut_and_ignores_what_follows() {
    let name = names(7, &[("a.txt", 0o100644, 12), ("dir", 0o040755, 0)]).expect("a reply");
    let chunk = data(8, b"chunk").expect("a reply");
    for packet in [name, chunk] {
        let body = body_of(&packet);
        let whole = Reply::decode(body).expect("decodes");
        for cut in 0..body.len() {
            assert!(Reply::decode(&body[..cut]).is_err());
        }
        let mut longer = body.to_vec();
        longer.extend_from_slice(b"more");
        assert_eq!(Reply::decode(&longer).expect("decodes"), whole);
    }
}
