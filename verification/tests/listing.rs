use adb_dump::listing::starts_record;
use adb_dump::{ls, ls_impl, parse_record, Error, LsEntry, ModeKind, RawStr};

fn fields(e: &LsEntry) -> (u32, u32, u32, Vec<u8>) {
    (
        e.mode.to_u32(),
        e.size,
        e.epoch.timestamp(),
        e.name.as_str().to_vec(),
    )
}

#[test]
fn example_listing_gives_one_file_entry() {
    let entries = ls(b"00008180 00000005 5f000000 hello.txt\r\n").unwrap();
    assert_eq!(entries.len(), 1);
    let e = &entries[0];
    assert_eq!(e.mode.to_u32(), 0o100600);
    assert_eq!(e.mode.permissions(), 0o600);
    assert!(e.mode.kind().is_exactly(ModeKind::File));
    assert_eq!(e.size, 5);
    assert_eq!(e.epoch.timestamp(), 0x5f00_0000);
    assert_eq!(e.name.as_str().to_vec(), b"hello.txt".to_vec());
}

#[test]
fn example_listing_with_the_first_second_of_2020() {
    let entries = ls(b"00008180 00000005 5e0be100 hello.txt\r\n").unwrap();
    assert_eq!(entries.len(), 1);
    assert_eq!(entries[0].epoch.timestamp(), 1_577_836_800);
}

#[test]
fn well_formed_records_come_back_in_order() {
    let text = b"000041ed 00001000 5e0be100 .\r\n\
000041ed 00001000 5e0be101 ..\r\n\
000081a4 0000002a 5e0be102 notes.txt\r\n\
0000a1ff 00000007 5e0be103 link\r\n";
    let entries = ls_impl(&RawStr::new(text)).unwrap();
    assert_eq!(entries.len(), 4);
    assert_eq!(fields(&entries[0]), (0o40755, 4096, 1_577_836_800, b".".to_vec()));
    assert_eq!(fields(&entries[1]), (0o40755, 4096, 1_577_836_801, b"..".to_vec()));
    assert_eq!(
        fields(&entries[2]),
        (0o100644, 42, 1_577_836_802, b"notes.txt".to_vec())
    );
    assert_eq!(
        fields(&entries[3]),
        (0o120777, 7, 1_577_836_803, b"link".to_vec())
    );
}

#[test]
fn names_keep_spaces_and_odd_bytes() {
    let entries = ls(b"000081a4 00000001 00000002 a  b c \xff\n.txt\r\n").unwrap();
    assert_eq!(entries.len(), 1);
    assert_eq!(
        fields(&entries[0]),
        (0o100644, 1, 2, b"a  b c \xff\n.txt".to_vec())
    );
}

#[test]
fn empty_name_is_kept_empty() {
    let entries = ls(b"000081a4 00000001 00000002 \r\n").unwrap();
    assert_eq!(entries.len(), 1);
    assert_eq!(entries[0].name.len(), 0);
}

#[test]
fn continuation_lines_go_on_with_the_name() {
    let text = b"000081a4 00000003 00000004 first\r\nsecond line\r\nthird\r\n\
000081a4 00000005 00000006 other\r\n";
    let entries = ls(text).unwrap();
    assert_eq!(entries.len(), 2);
    assert_eq!(
        fields(&entries[0]),
        (0o100644, 3, 4, b"first\nsecond line\nthird".to_vec())
    );
    assert_eq!(fields(&entries[1]), (0o100644, 5, 6, b"other".to_vec()));
}

#[test]
fn continuation_before_any_record_is_invalid_data() {
    assert!(matches!(
        ls(b"stray\r\n000081a4 00000003 00000004 first\r\n"),
        Err(Error::InvalidData)
    ));
    assert!(matches!(ls(b"\r\n"), Err(Error::InvalidData)));
}

#[test]
fn record_with_too_few_fields_is_no_record() {
    assert!(matches!(
        ls(b"000081a4 00000003 name\r\n"),
        Err(Error::InvalidData)
    ));
    assert!(matches!(
        ls(b"000081a4 00000003 00000004\r\n"),
        Err(Error::InvalidData)
    ));
}

#[test]
fn upper_case_fields_begin_no_record() {
    assert!(!starts_record(&RawStr::new(b"000081A4 00000003 00000004 x")));
    assert!(matches!(
        ls(b"000081A4 00000003 00000004 x\r\n"),
        Err(Error::InvalidData)
    ));
}

#[test]
fn output_without_lines_gives_no_entries() {
    assert_eq!(ls(b"").unwrap().len(), 0);
    assert_eq!(ls(b"000081a4 00000003 00000004 cut off").unwrap().len(), 0);
}

#[test]
fn line_of_a_name_that_looks_like_a_record_is_taken_for_one() {
    let text = b"000081a4 00000003 00000004 first\r\n00000000 00000000 00000000 tail\r\n";
    let entries = ls(text).unwrap();
    assert_eq!(entries.len(), 2);
    assert_eq!(fields(&entries[0]), (0o100644, 3, 4, b"first".to_vec()));
    assert_eq!(fields(&entries[1]), (0, 0, 0, b"tail".to_vec()));
}

#[test]
fn record_start_needs_three_fields_of_eight_digits() {
    assert!(starts_record(&RawStr::new(b"00000000 11111111 abcdef01 ")));
    assert!(starts_record(&RawStr::new(b"00000000 11111111 abcdef01 name")));
    assert!(!starts_record(&RawStr::new(b"00000000 11111111 abcdef01")));
    assert!(!starts_record(&RawStr::new(b"0000000 11111111 abcdef01 x")));
    assert!(!starts_record(&RawStr::new(b"00000000  1111111 abcdef01 x")));
    assert!(!starts_record(&RawStr::new(b"0000000g 11111111 abcdef01 x")));
    assert!(!starts_record(&RawStr::new(b"")));
}

#[test]
fn record_is_read_field_by_field() {
    let e = parse_record(&RawStr::new(b"000081a4 0000002a 5e0be102 notes of mine.txt")).unwrap();
    assert_eq!(
        fields(&e),
        (0o100644, 42, 1_577_836_802, b"notes of mine.txt".to_vec())
    );
    let e = parse_record(&RawStr::new(b"000081A4 0000002A 5E0BE102 x\ny")).unwrap();
    assert_eq!(fields(&e), (0o100644, 42, 1_577_836_802, b"x\ny".to_vec()));
}

#[test]
fn record_that_lacks_a_field_is_invalid_data() {
    for text in [
        &b""[..],
        b"000081a4",
        b"000081a4 ",
        b"000081a4 0000002a",
        b"000081a4 0000002a ",
        b"000081a4 0000002a 5e0be102",
    ] {
        assert!(matches!(
            parse_record(&RawStr::new(text)),
            Err(Error::InvalidData)
        ));
    }
}

#[test]
fn record_with_a_malformed_field_is_invalid_data() {
    for text in [
        &b"00081a4 0000002a 5e0be102 x"[..],
        b"000081a4 0000002 5e0be102 x",
        b"000081a4 0000002a 5e0be10200 x",
        b"000081a4 0000002g 5e0be102 x",
        b"000081a4  000002a 5e0be102 x",
        b"0x0081a4 0000002a 5e0be102 x",
    ] {
        assert!(matches!(
            parse_record(&RawStr::new(text)),
            Err(Error::InvalidData)
        ));
    }
}
