use adb_dump::{convert_date_time, ArchiveTime, CalendarTime, Epoch, ModeKind, ModeKinds, UnixMode};

#[test]
fn kinds_follow_the_type_bits() {
    assert!(UnixMode::new(0o040755).kind().is_exactly(ModeKind::Dir));
    assert!(UnixMode::new(0o100644).kind().is_exactly(ModeKind::File));
    assert!(UnixMode::new(0o120777).kind().is_exactly(ModeKind::Symlink));
    assert!(UnixMode::new(0o020600).kind().is_exactly(ModeKind::CharDevice));
    assert!(UnixMode::new(0o060600).kind().is_exactly(ModeKind::BlockDevice));
    assert!(UnixMode::new(0o010600).kind().is_exactly(ModeKind::Fifo));
    assert!(UnixMode::new(0o140600).kind().is_exactly(ModeKind::Socket));
}

#[test]
fn unknown_type_bits_give_no_kind() {
    let kinds = UnixMode::new(0o000644).kind();
    assert_eq!(kinds, ModeKinds::empty());
    assert!(!kinds.has(ModeKind::File));
    assert!(!kinds.is_exactly(ModeKind::File));
    assert_eq!(UnixMode::new(0o160000).kind(), ModeKinds::empty());
}

#[test]
fn kind_predicates_are_tested_one_by_one() {
    let m = UnixMode::new(0o040755);
    assert!(m.is_dir());
    assert!(!m.is_file());
    assert!(!m.is_symlink());
    assert!(!m.is_block_device());
    assert!(!m.is_char_device());
    assert!(!m.is_fifo());
    assert!(!m.is_socket());
    assert!(m.kind().has(ModeKind::Dir));
    assert!(!m.kind().has(ModeKind::File));
}

#[test]
fn permissions_are_the_low_nine_bits() {
    assert_eq!(UnixMode::new(0o100644).permissions(), 0o644);
    assert_eq!(UnixMode::new(0o047777).permissions(), 0o777);
    assert_eq!(UnixMode::new(u32::MAX).permissions(), 0o777);
    assert_eq!(UnixMode::new(0).permissions(), 0);
    assert_eq!(UnixMode::new(0o100644).to_u32(), 0o100644);
}

#[test]
fn mode_text_is_as_in_a_long_listing() {
    assert_eq!(UnixMode::new(0o040755).to_string(), "drwxr-xr-x");
    assert_eq!(UnixMode::new(0o100640).to_string(), "-rw-r-----");
    assert_eq!(UnixMode::new(0o120777).to_string(), "lrwxrwxrwx");
}

#[test]
fn epoch_becomes_calendar_time() {
    let t = Epoch::from_timestamp(1_577_836_800).to_date_time();
    assert_eq!(
        t,
        CalendarTime { year: 2020, month: 1, day: 1, hour: 0, minute: 0, second: 0 }
    );
    let t = Epoch::from_timestamp(1_593_835_520).to_date_time();
    assert_eq!(
        t,
        CalendarTime { year: 2020, month: 7, day: 4, hour: 4, minute: 5, second: 20 }
    );
    let t = Epoch::from_timestamp(0).to_date_time();
    assert_eq!(
        t,
        CalendarTime { year: 1970, month: 1, day: 1, hour: 0, minute: 0, second: 0 }
    );
    assert_eq!(Epoch::from_timestamp(7).timestamp(), 7);
}

#[test]
fn calendar_time_in_range_is_kept() {
    let t = CalendarTime { year: 2020, month: 7, day: 4, hour: 4, minute: 5, second: 20 };
    assert_eq!(
        convert_date_time(&t),
        ArchiveTime { year: 2020, month: 7, day: 4, hour: 4, minute: 5, second: 20 }
    );
    let t = CalendarTime { year: 2107, month: 12, day: 31, hour: 23, minute: 59, second: 60 };
    assert_eq!(
        convert_date_time(&t),
        ArchiveTime { year: 2107, month: 12, day: 31, hour: 23, minute: 59, second: 60 }
    );
    let t = CalendarTime { year: 1980, month: 1, day: 1, hour: 0, minute: 0, second: 1 };
    assert_eq!(
        convert_date_time(&t),
        ArchiveTime { year: 1980, month: 1, day: 1, hour: 0, minute: 0, second: 1 }
    );
}

#[test]
fn calendar_time_out_of_range_becomes_the_fallback() {
    let fallback = ArchiveTime { year: 1980, month: 1, day: 1, hour: 0, minute: 0, second: 0 };
    let base = CalendarTime { year: 2000, month: 6, day: 15, hour: 12, minute: 30, second: 30 };
    assert_eq!(convert_date_time(&CalendarTime { year: 1979, ..base }), fallback);
    assert_eq!(convert_date_time(&CalendarTime { year: 2108, ..base }), fallback);
    assert_eq!(convert_date_time(&CalendarTime { year: -1, ..base }), fallback);
    assert_eq!(convert_date_time(&CalendarTime { year: 70_000, ..base }), fallback);
    assert_eq!(convert_date_time(&CalendarTime { month: 0, ..base }), fallback);
    assert_eq!(convert_date_time(&CalendarTime { month: 13, ..base }), fallback);
    assert_eq!(convert_date_time(&CalendarTime { day: 0, ..base }), fallback);
    assert_eq!(convert_date_time(&CalendarTime { day: 32, ..base }), fallback);
    assert_eq!(convert_date_time(&CalendarTime { hour: 24, ..base }), fallback);
    assert_eq!(convert_date_time(&CalendarTime { minute: 60, ..base }), fallback);
    assert_eq!(convert_date_time(&CalendarTime { second: 61, ..base }), fallback);
    assert_eq!(convert_date_time(&CalendarTime { second: 256, ..base }), fallback);
    assert_eq!(
        convert_date_time(&Epoch::from_timestamp(0).to_date_time()),
        fallback
    );
}

#[test]
fn only_times_in_range_fit_an_archive() {
    let base = CalendarTime { year: 2000, month: 6, day: 15, hour: 12, minute: 30, second: 30 };
    assert!(base.fits_archive());
    assert!(CalendarTime { year: 1980, ..base }.fits_archive());
    assert!(CalendarTime { year: 2107, second: 60, ..base }.fits_archive());
    assert!(!CalendarTime { year: 1979, ..base }.fits_archive());
    assert!(!CalendarTime { year: 2108, ..base }.fits_archive());
    assert!(!CalendarTime { month: 0, ..base }.fits_archive());
    assert!(!CalendarTime { day: 32, ..base }.fits_archive());
    assert!(!CalendarTime { hour: 24, ..base }.fits_archive());
    assert!(!CalendarTime { minute: 60, ..base }.fits_archive());
    assert!(!CalendarTime { second: 61, ..base }.fits_archive());
    assert!(!Epoch::from_timestamp(0).to_date_time().fits_archive());
    assert!(Epoch::from_timestamp(1_577_836_800).to_date_time().fits_archive());
}
