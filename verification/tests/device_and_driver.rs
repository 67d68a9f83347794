use adb_dump::{
    archive_file_name, command_args, command_output, default_exclusions, excluded, get_serialno,
    get_serialno_args, is_dot, ls, ls_args, pull, pull_args, pull_impl, record_for, single_line,
    visit_dir, visit_entry, visit_file, ArchiveState, ArchiveTime, DirAction, EntryAction, Epoch,
    Error, LsEntry, ModeKind, RawPath, RawStr, RawString, SerialNumber, Storage, UnixMode,
    ROTATION_THRESHOLD,
};

fn bytes_of(args: &[RawString]) -> Vec<Vec<u8>> {
    args.iter().map(|a| a.as_str().to_vec()).collect()
}

fn entry(mode: u32, size: u32, epoch: u32, name: &[u8]) -> LsEntry {
    LsEntry {
        mode: UnixMode::new(mode),
        size,
        epoch: Epoch::from_timestamp(epoch),
        name: RawString::new(name.to_vec()),
    }
}

#[test]
fn single_line_wants_exactly_one_line() {
    let line = single_line(&RawStr::new(b"ABC123\r\n")).unwrap();
    assert_eq!(line.to_vec(), b"ABC123".to_vec());
    assert!(matches!(
        single_line(&RawStr::new(b"")),
        Err(Error::UnexpectedEof)
    ));
    assert!(matches!(
        single_line(&RawStr::new(b"ABC123\n")),
        Err(Error::UnexpectedEof)
    ));
    assert!(matches!(
        single_line(&RawStr::new(b"a\r\nb\r\n")),
        Err(Error::InvalidData)
    ));
    assert!(matches!(
        single_line(&RawStr::new(b"\r\n")),
        Err(Error::InvalidData)
    ));
}

#[test]
fn serial_number_is_the_single_line() {
    let serial = get_serialno(&RawStr::new(b"emulator-5554\r\n")).unwrap();
    assert_eq!(serial.as_str().to_vec(), b"emulator-5554".to_vec());
    assert!(matches!(
        get_serialno(&RawStr::new(b"")),
        Err(Error::UnexpectedEof)
    ));
    assert!(matches!(
        get_serialno(&RawStr::new(b"one\r\ntwo\r\n")),
        Err(Error::InvalidData)
    ));
    assert!(matches!(
        get_serialno(&RawStr::new(b"\r\n")),
        Err(Error::InvalidData)
    ));
}

#[test]
fn commands_have_their_arguments() {
    let serial = SerialNumber::new(RawString::of_str("S1"));
    let path = RawPath::new(b"/data/a b");
    assert_eq!(bytes_of(&get_serialno_args()), vec![b"get-serialno".to_vec()]);
    assert_eq!(
        bytes_of(&ls_args(&serial, &path)),
        vec![b"-s".to_vec(), b"S1".to_vec(), b"ls".to_vec(), b"/data/a b".to_vec()]
    );
    assert_eq!(
        bytes_of(&pull_args(&serial, &path)),
        vec![
            b"-s".to_vec(),
            b"S1".to_vec(),
            b"exec-out".to_vec(),
            b"cat".to_vec(),
            b"/data/a b".to_vec()
        ]
    );
}

#[test]
fn arguments_must_be_text_without_zero_bytes() {
    let good = vec![RawString::of_str("-s"), RawString::of_str("h\u{e9}")];
    assert_eq!(
        command_args(&good).unwrap(),
        vec!["-s".to_string(), "h\u{e9}".to_string()]
    );
    let ill_formed = vec![RawString::of_str("ok"), RawString::new(vec![0x66, 0xff])];
    assert!(matches!(command_args(&ill_formed), Err(Error::InvalidData)));
    let with_zero = vec![RawString::new(vec![0x61, 0, 0x62])];
    assert!(matches!(command_args(&with_zero), Err(Error::InvalidData)));
    assert_eq!(command_args(&Vec::new()).unwrap().len(), 0);
}

#[test]
fn command_output_is_stdout_on_success_only() {
    assert_eq!(
        command_output(Some(0), b"out".to_vec(), b"err".to_vec()).unwrap(),
        b"out".to_vec()
    );
    match command_output(Some(3), b"out".to_vec(), b"err".to_vec()) {
        Err(Error::ExternalCommandFailed(exit)) => {
            assert_eq!(exit.status, Some(3));
            assert_eq!(exit.stdout, b"out".to_vec());
            assert_eq!(exit.stderr, b"err".to_vec());
        }
        other => panic!("{:?}", other),
    }
    match command_output(None, Vec::new(), b"killed".to_vec()) {
        Err(Error::ExternalCommandFailed(exit)) => {
            assert_eq!(exit.status, None);
            assert_eq!(exit.stderr, b"killed".to_vec());
        }
        other => panic!("{:?}", other),
    }
}

#[test]
fn pulled_content_must_have_the_listed_size() {
    assert_eq!(pull(b"hello".to_vec(), 5).unwrap(), b"hello".to_vec());
    assert_eq!(pull_impl(Vec::new(), 0).unwrap(), Vec::<u8>::new());
    assert!(matches!(pull(b"hell".to_vec(), 5), Err(Error::InvalidData)));
    assert!(matches!(
        pull_impl(b"hello!".to_vec(), 5),
        Err(Error::InvalidData)
    ));
    assert!(matches!(pull_impl(Vec::new(), 1), Err(Error::InvalidData)));
}

#[test]
fn rotation_happens_once_where_the_threshold_is_crossed() {
    assert_eq!(ROTATION_THRESHOLD, 1_000_000_000);
    let mut state = ArchiveState::start();
    assert_eq!((state.sequence(), state.cumulative()), (1, 0));
    assert!(!state.admit_file(400_000_000));
    assert_eq!((state.sequence(), state.cumulative()), (1, 400_000_000));
    assert!(!state.admit_file(600_000_000));
    assert_eq!((state.sequence(), state.cumulative()), (1, 1_000_000_000));
    assert!(state.admit_file(1));
    assert_eq!((state.sequence(), state.cumulative()), (2, 1));
    assert!(!state.admit_file(10));
    assert_eq!((state.sequence(), state.cumulative()), (2, 11));
}

#[test]
fn a_file_larger_than_the_threshold_gets_an_archive_and_so_does_the_next() {
    let mut state = ArchiveState::start();
    assert!(state.admit_file(u32::MAX));
    assert_eq!((state.sequence(), state.cumulative()), (2, u64::from(u32::MAX)));
    assert!(state.admit_file(0));
    assert_eq!((state.sequence(), state.cumulative()), (3, 0));
    assert!(!state.admit_file(5));
    assert_eq!((state.sequence(), state.cumulative()), (3, 5));
}

#[test]
fn file_of_another_size_is_refused_and_not_counted() {
    let mut state = ArchiveState::start();
    assert!(!state.admit_file(999_999_999));
    let r = visit_file(&mut state, 5, b"four".to_vec());
    assert!(matches!(r, Err(Error::InvalidData)));
    assert_eq!((state.sequence(), state.cumulative()), (1, 999_999_999));
}

#[test]
fn file_that_crosses_the_threshold_goes_whole_into_the_next_archive() {
    let mut state = ArchiveState::start();
    assert!(!state.admit_file(999_999_999));
    let w = visit_file(&mut state, 1, b"a".to_vec()).unwrap();
    assert!(!w.rotate);
    assert_eq!(w.archive, 1);
    let w = visit_file(&mut state, 5, b"hello".to_vec()).unwrap();
    assert!(w.rotate);
    assert_eq!(w.archive, 2);
    assert_eq!(w.content, b"hello".to_vec());
    assert_eq!((state.sequence(), state.cumulative()), (2, 5));
    let w = visit_file(&mut state, 2, b"hi".to_vec()).unwrap();
    assert!(!w.rotate);
    assert_eq!(w.archive, 2);
    assert_eq!((state.sequence(), state.cumulative()), (2, 7));
}

#[test]
fn archives_are_named_by_their_number() {
    let base = RawStr::new(b"backup");
    let ext = RawStr::new(b"zip");
    assert_eq!(
        archive_file_name(&base, 1, &ext).into_bytes(),
        b"backup.1.zip".to_vec()
    );
    assert_eq!(
        archive_file_name(&base, 10, &ext).into_bytes(),
        b"backup.10.zip".to_vec()
    );
    assert_eq!(
        archive_file_name(&base, 0, &ext).into_bytes(),
        b"backup.0.zip".to_vec()
    );
    assert_eq!(
        archive_file_name(&base, u64::MAX, &ext).into_bytes(),
        b"backup.18446744073709551615.zip".to_vec()
    );
}

#[test]
fn excluded_directory_is_skipped_with_a_marker() {
    let exclusions = default_exclusions();
    assert_eq!(exclusions.len(), 14);
    assert_eq!(exclusions[0].as_str().to_vec(), b"/BrowserMetrics".to_vec());
    assert_eq!(
        exclusions[13].as_str().to_vec(),
        b"/data/data/com.google.android.apps.photos/cache/glide_cache".to_vec()
    );
    let root = RawPath::new(b"/");
    let path = RawPath::new(b"/data/app/HTTP Cache");
    assert!(excluded(&path, &exclusions));
    match visit_dir(&root, &path, &exclusions) {
        Ok(DirAction::Skip { marker }) => {
            assert_eq!(
                marker.into_raw().into_bytes(),
                b"data/app/HTTP Cache/IGNORED".to_vec()
            );
        }
        other => panic!("{:?}", other),
    }
}

#[test]
fn other_directories_are_listed() {
    let exclusions = default_exclusions();
    let root = RawPath::new(b"/");
    for path in [&b"/data"[..], b"/data/HTTP Cache/x", b"/HTTP Cach", b""] {
        let path = RawPath::new(path);
        assert!(!excluded(&path, &exclusions));
        assert!(matches!(
            visit_dir(&root, &path, &exclusions),
            Ok(DirAction::List)
        ));
    }
    assert!(matches!(
        visit_dir(&root, &RawPath::new(b"/x/HTTP Cache"), &Vec::new()),
        Ok(DirAction::List)
    ));
}

#[test]
fn excluded_directory_outside_the_root_is_invalid_data() {
    let exclusions = vec![RawString::of_str("/cache")];
    let r = visit_dir(
        &RawPath::new(b"/data/"),
        &RawPath::new(b"/other/cache"),
        &exclusions,
    );
    assert!(matches!(r, Err(Error::InvalidData)));
}

#[test]
fn dot_entries_are_ignored() {
    let root = RawPath::new(b"/");
    let path = RawPath::new(b"/data");
    assert!(is_dot(&RawStr::new(b".")));
    assert!(is_dot(&RawStr::new(b"..")));
    assert!(!is_dot(&RawStr::new(b"...")));
    assert!(!is_dot(&RawStr::new(b".a")));
    assert!(!is_dot(&RawStr::new(b"")));
    for name in [&b"."[..], b".."] {
        for mode in [0o040755, 0o100644, 0o120777] {
            let e = entry(mode, 0, 0, name);
            assert!(matches!(
                visit_entry(&root, &path, &e),
                Ok(EntryAction::Ignore)
            ));
        }
    }
}

#[test]
fn directory_entry_gets_a_stored_record_and_is_entered() {
    let root = RawPath::new(b"/");
    let path = RawPath::new(b"/data");
    let e = entry(0o040751, 4096, 1_577_836_800, b"app");
    match visit_entry(&root, &path, &e) {
        Ok(EntryAction::Directory { record, path, modified, permissions, storage }) => {
            assert_eq!(record.into_raw().into_bytes(), b"data/app".to_vec());
            assert_eq!(path.into_raw().into_bytes(), b"/data/app".to_vec());
            assert_eq!(
                modified,
                ArchiveTime { year: 2020, month: 1, day: 1, hour: 0, minute: 0, second: 0 }
            );
            assert_eq!(permissions, 0o751);
            assert_eq!(storage, Storage::Stored);
        }
        other => panic!("{:?}", other),
    }
}

#[test]
fn file_entry_is_read_and_gets_a_compressed_record() {
    let root = RawPath::new(b"/sdcard/");
    let path = RawPath::new(b"/sdcard/");
    let e = entry(0o100640, 5, 0, b"hello.txt");
    match visit_entry(&root, &path, &e) {
        Ok(EntryAction::File { record, path, size, modified, permissions, storage }) => {
            assert_eq!(record.into_raw().into_bytes(), b"hello.txt".to_vec());
            assert_eq!(path.into_raw().into_bytes(), b"/sdcard/hello.txt".to_vec());
            assert_eq!(size, 5);
            assert_eq!(
                modified,
                ArchiveTime { year: 1980, month: 1, day: 1, hour: 0, minute: 0, second: 0 }
            );
            assert_eq!(permissions, 0o640);
            assert_eq!(storage, Storage::Compressed);
        }
        other => panic!("{:?}", other),
    }
}

#[test]
fn entry_of_another_kind_gets_no_record() {
    let root = RawPath::new(b"/");
    let path = RawPath::new(b"/data");
    let e = entry(0o120777, 7, 0, b"link");
    match visit_entry(&root, &path, &e) {
        Ok(EntryAction::Unknown { kinds, name }) => {
            assert!(kinds.is_exactly(ModeKind::Symlink));
            assert_eq!(name.into_bytes(), b"link".to_vec());
        }
        other => panic!("{:?}", other),
    }
    let e = entry(0o000644, 7, 0, b"odd");
    assert!(matches!(
        visit_entry(&root, &path, &e),
        Ok(EntryAction::Unknown { .. })
    ));
    let e = entry(0o120777, 7, 0, b"link");
    assert!(matches!(
        visit_entry(&RawPath::new(b"/elsewhere"), &path, &e),
        Ok(EntryAction::Unknown { .. })
    ));
}

#[test]
fn record_outside_the_root_is_invalid_data() {
    let root = RawPath::new(b"/data/");
    let path = RawPath::new(b"/other");
    assert!(matches!(
        visit_entry(&root, &path, &entry(0o100644, 1, 0, b"f")),
        Err(Error::InvalidData)
    ));
    assert!(matches!(
        visit_entry(&root, &path, &entry(0o040755, 1, 0, b"d")),
        Err(Error::InvalidData)
    ));
    assert!(matches!(
        record_for(&root, &path, &RawStr::new(b"f")),
        Err(Error::InvalidData)
    ));
    assert_eq!(
        record_for(&RawPath::new(b"/o"), &path, &RawStr::new(b"f"))
            .unwrap()
            .into_raw()
            .into_bytes(),
        b"ther/f".to_vec()
    );
}

#[test]
fn siblings_after_an_unknown_entry_are_still_dealt_with() {
    let text = b"0000a1ff 00000007 00000000 link\r\n000081a4 00000002 00000000 file\r\n";
    let entries = ls(text).unwrap();
    let root = RawPath::new(b"/");
    let path = RawPath::new(b"/d");
    assert!(matches!(
        visit_entry(&root, &path, &entries[0]),
        Ok(EntryAction::Unknown { .. })
    ));
    assert!(matches!(
        visit_entry(&root, &path, &entries[1]),
        Ok(EntryAction::File { .. })
    ));
}
