use mint::pak::{
    calc_crc, frame_fault, compile_globs, default_host, file_list_request, globs_match, files_from_reply, open_read_reply, read_message,
    read_payload, read_reply, read_string, return_true, strip_mount_prefix, write_message,
    write_payload, write_string, FileEntry, FileInfo, Message, MessageFileInfo,
    MessageIterateDirectoryRecursively, MessageOpenRead, MessageRead, PakError,
    PlainFileProvider, PlainFileProviderConfig, MAGIC,
};

#[test]
fn crc_values() {
    assert_eq!(calc_crc(&[]), 0);
    assert_eq!(calc_crc(b"hello"), 0x1931653d);
    assert_eq!(calc_crc(&[1, 2, 3, 4]), 0x86c8c832);
}

#[test]
fn checksum_is_crc32_bzip2() {
    // The standard check value of CRC-32/BZIP2.
    assert_eq!(calc_crc(b"123456789"), 0xFC89_1918);
}

#[test]
fn payload_frame_bytes() {
    let mut out = vec![];
    write_payload(&mut out, b"hello");
    let mut expected = vec![0xc1u8, 0x83, 0x2b, 0x9e, 5, 0, 0, 0, 0x3d, 0x65, 0x31, 0x19];
    expected.extend_from_slice(b"hello");
    assert_eq!(out, expected);
    assert_eq!(MAGIC, 0x9e2b83c1);
}

#[test]
fn payload_roundtrip_leaves_what_follows() {
    let mut out = vec![];
    write_payload(&mut out, b"abc");
    out.extend_from_slice(&[7, 7]);
    let (payload, end) = read_payload(&out, 0).unwrap();
    assert_eq!(payload, b"abc".to_vec());
    assert_eq!(end, out.len() - 2);
}

#[test]
fn bad_magic_and_bad_crc() {
    let mut out = vec![];
    write_payload(&mut out, b"abc");
    let mut bad_magic = out.clone();
    bad_magic[0] = 0;
    assert_eq!(frame_fault(&bad_magic, 0), Some(PakError::BadMagic(0x9e2b8300)));
    assert_eq!(frame_fault(&out, 0), None);
    let mut bad_crc = out.clone();
    let last = bad_crc.len() - 1;
    bad_crc[last] = b'd';
    assert_eq!(
        frame_fault(&bad_crc, 0),
        Some(PakError::BadCrc { announced: calc_crc(b"abc"), computed: calc_crc(b"abd") })
    );
    assert_eq!(read_payload(&out[..out.len() - 1], 0).unwrap_err(), PakError::UnexpectedEof);
}

#[test]
fn strings_on_the_wire() {
    let mut out = vec![];
    write_string(&mut out, "abc");
    assert_eq!(out, vec![4, 0, 0, 0, b'a', b'b', b'c', 0]);
    let mut empty = vec![];
    write_string(&mut empty, "");
    assert_eq!(empty, vec![0, 0, 0, 0]);

    let (s, end) = read_string(&out, 0).unwrap();
    assert_eq!(s, "abc");
    assert_eq!(end, 8);
    let (s, end) = read_string(&[3, 0, 0, 0, b'a', b'b', 0], 0).unwrap();
    assert_eq!((s.as_str(), end), ("ab", 7));
    let (s, _) = read_string(&[3, 0, 0, 0, b'a', 0, b'b'], 0).unwrap();
    assert_eq!(s, "a");
    let (s, _) = read_string(&[2, 0, 0, 0, 0xff, 0], 0).unwrap();
    assert_eq!(s, "\u{FFFD}");
    assert_eq!(read_string(&[2, 0, 0, 0, b'a'], 0).unwrap_err(), PakError::UnexpectedEof);
}

#[test]
fn request_messages_encode() {
    let mut out = vec![];
    let open = Message::OpenRead(MessageOpenRead { filename: "x".to_string() });
    open.write(&mut out).unwrap();
    assert_eq!(out, vec![4, 0, 0, 0, 2, 0, 0, 0, b'x', 0]);

    let mut out = vec![];
    MessageRead { handle_id: 1, bytes_to_read: 0x0102 }.write(&mut out);
    assert_eq!(out, vec![1, 0, 0, 0, 0, 0, 0, 0, 2, 1, 0, 0, 0, 0, 0, 0]);

    let mut out = vec![];
    Message::GetFileInfo(MessageFileInfo { file_name: "y".to_string() }).write(&mut out).unwrap();
    assert_eq!(out, vec![13, 0, 0, 0, 2, 0, 0, 0, b'y', 0]);

    let mut out = vec![9];
    assert_eq!(Message::Heartbeat.write(&mut out).unwrap_err(), PakError::UnsupportedMessage);
    assert_eq!(out, vec![9]);
}

#[test]
fn file_list_request_roundtrips() {
    let request = Message::GetFileList(Box::new(file_list_request("WindowsNoEditor")));
    let mut framed = vec![];
    write_message(&mut framed, &request).unwrap();
    let (back, end) = read_message(&framed, 0).unwrap();
    assert_eq!(end, framed.len());
    match back {
        Message::GetFileList(m) => {
            assert_eq!(m.platforms, vec!["WindowsNoEditor".to_string()]);
            assert_eq!(m.game_name, "../../../FSD/FSD.uproject");
            assert_eq!(m.directories, vec!["../../../FSD/Content/".to_string()]);
            assert_eq!(m.connection_flags, 1);
            assert_eq!(m.version_info, "");
            assert_eq!(m.custom_platform_data, 0);
        }
        _ => panic!("expected the file list request"),
    }
}

fn file_list_reply(entries: &[(&str, u64)]) -> Vec<u8> {
    let mut payload = vec![10, 0, 0, 0, 1, 0, 0, 0];
    for _ in 0..4 {
        write_string(&mut payload, "");
    }
    payload.extend_from_slice(&(entries.len() as u32).to_le_bytes());
    for (path, ts) in entries {
        write_string(&mut payload, path);
        payload.extend_from_slice(&ts.to_le_bytes());
    }
    let mut framed = vec![];
    write_payload(&mut framed, &payload);
    framed
}

#[test]
fn file_list_reply_reads_entries() {
    let framed = file_list_reply(&[("FSD/a.uasset", 5), ("FSD/b.uexp", 6)]);
    let (m, end) = read_message(&framed, 0).unwrap();
    assert_eq!(end, framed.len());
    let files: Vec<FileEntry> = files_from_reply(m).unwrap();
    assert_eq!(files.len(), 2);
    assert_eq!(files[0].path, "FSD/a.uasset");
    assert_eq!(files[0].timestamp, 5);
    assert_eq!(files[1].path, "FSD/b.uexp");
}

#[test]
fn unknown_and_unexpected_messages() {
    assert_eq!(Message::read(&[5, 0, 0, 0]).unwrap_err(), PakError::UnknownMessageType(5));
    assert_eq!(Message::read(&[5, 0, 0]).unwrap_err(), PakError::UnexpectedEof);
    assert_eq!(files_from_reply(Message::Heartbeat).unwrap_err(), PakError::UnexpectedReply);
    let m = MessageIterateDirectoryRecursively::read(&[1, 0, 0, 0], 0).unwrap_err();
    assert_eq!(m, PakError::UnexpectedEof);
}

#[test]
fn type_word_is_read_by_its_low_byte() {
    let mut payload = vec![];
    Message::GetFileList(Box::new(file_list_request("P"))).write(&mut payload).unwrap();
    payload[1] = 0x7f;
    assert!(matches!(Message::read(&payload), Ok(Message::GetFileList(_))));
}

#[test]
fn replies_decode() {
    let mut info = vec![1, 0, 0, 0, 0, 0, 0, 0];
    info.extend_from_slice(&(-1i64).to_le_bytes());
    info.extend_from_slice(&7u64.to_le_bytes());
    info.extend_from_slice(&8u64.to_le_bytes());
    let fi: FileInfo = FileInfo::from_reply(&info).unwrap();
    assert!(fi.file_exists);
    assert!(!fi.read_only);
    assert_eq!(fi.size, -1);
    assert_eq!((fi.timestamp, fi.access_timestamp), (7, 8));
    assert_eq!(FileInfo::from_reply(&info[..20]).err(), Some(PakError::UnexpectedEof));

    let mut open = vec![];
    for v in [3u64, 4, 5] {
        open.extend_from_slice(&v.to_le_bytes());
    }
    assert_eq!(open_read_reply(&open).unwrap(), (3, 4, 5));

    let mut read = 3u64.to_le_bytes().to_vec();
    read.extend_from_slice(b"xyz");
    assert_eq!(read_reply(&read, 3).unwrap(), b"xyz".to_vec());
    assert_eq!(
        read_reply(&read, 4).unwrap_err(),
        PakError::ShortRead { expected: 4, actual: 3 }
    );
}

#[test]
fn mount_prefix_is_stripped() {
    assert_eq!(strip_mount_prefix("../../../FSD/Content/a.uasset"), Some("FSD/Content/a.uasset".to_string()));
    assert_eq!(strip_mount_prefix("../../FSD"), None);
    assert_eq!(strip_mount_prefix("../../../"), Some(String::new()));
}

#[test]
fn defaults() {
    assert_eq!(default_host(), "127.0.0.1:41899");
    assert!(return_true());
}

#[test]
fn plain_file_provider_serves_matching_paths() {
    let config = PlainFileProviderConfig {
        path: "cooked".to_string(),
        globs: vec!["FSD/Content/**".to_string(), "[".to_string(), "*.ini".to_string()],
    };
    let provider: PlainFileProvider = config.build().unwrap();
    assert_eq!(provider.path(), "cooked");
    assert!(provider.matches("FSD/Content/Mod/a.uasset"));
    assert!(provider.matches("Engine.ini"));
    assert!(!provider.matches("FSD/Binaries/x.dll"));
}

#[test]
fn globs_that_compile_are_kept_in_order() {
    let sources = vec!["*.uasset".to_string(), "[".to_string(), "FSD/**/*.uexp".to_string()];
    let globs = compile_globs(&sources);
    assert_eq!(globs.len(), 2);
    assert!(globs_match(&globs, "Mod.uasset"));
    assert!(globs_match(&globs, "FSD/Content/Mod.uexp"));
    assert!(!globs_match(&globs, "FSD/Content/Mod.ubulk"));
    assert!(!globs_match(&Vec::new(), "Mod.uasset"));
}

#[test]
fn plain_file_layer_serves_the_paths_its_patterns_match() {
    let layer = PlainFileProviderConfig {
        path: "/cooked".to_string(),
        globs: vec!["FSD/Content/_Mods/**".to_string(), "[unclosed".to_string()],
    }
    .build()
    .unwrap();
    assert_eq!(layer.path(), "/cooked");
    assert!(layer.matches("FSD/Content/_Mods/Pause/MOD_Pause.uasset"));
    assert!(!layer.matches("FSD/Content/Game/BP_PlayerControllerBase.uasset"));
}

#[test]
fn first_matching_layer_serves() {
    assert_eq!(mint::pak::serving_layer(&[false, true, true]), Some(1));
    assert_eq!(mint::pak::serving_layer(&[true]), Some(0));
    assert_eq!(mint::pak::serving_layer(&[false, false]), None);
    assert_eq!(mint::pak::serving_layer(&[]), None);
}
