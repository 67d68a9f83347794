use crate::error::Error;
use crate::hexfield::{hex_u32, is_hex_digit, is_hex_text, parse_hex_u32};
use crate::mode::UnixMode;
use crate::raw::{first_at, lemma_position, lines_of, views, RawStr, RawString, LF};
use crate::time::Epoch;
use vstd::prelude::*;

verus! {

/// The byte that separates the fields of a record.
pub const SPACE: u8 = 32;

/// One record of a directory listing.
#[derive(Debug)]
pub struct LsEntry {
    pub mode: UnixMode,
    pub size: u32,
    pub epoch: Epoch,
    pub name: RawString,
}

/// What a record of a listing says, as plain values.
pub struct EntryFields {
    pub mode: u32,
    pub size: u32,
    pub epoch: u32,
    pub name: Seq<u8>,
}

impl View for LsEntry {
    type V = EntryFields;

    open spec fn view(&self) -> EntryFields {
        EntryFields { mode: self.mode@, size: self.size, epoch: self.epoch@, name: self.name@ }
    }
}

/// A digit, or a letter from `a` to `f` in lower case.
pub open spec fn is_lower_hex(c: u8) -> bool {
    48 <= c <= 57 || 97 <= c <= 102
}

/// `s` begins with eight lower-case hexadecimal digits and a space.
pub open spec fn has_hex_field(s: Seq<u8>) -> bool {
    &&& s.len() >= 9
    &&& s[8] == SPACE
    &&& forall|i: int| 0 <= i < 8 ==> is_lower_hex(#[trigger] s[i])
}

/// The line begins a record: three fields of eight lower-case hexadecimal
/// digits, each followed by a space. A line of a name that happens to look
/// like this is taken for the start of a record as well.
pub open spec fn is_record_start(line: Seq<u8>) -> bool {
    &&& has_hex_field(line)
    &&& has_hex_field(line.subrange(9, line.len() as int))
    &&& has_hex_field(line.subrange(18, line.len() as int))
}

/// `s` begins with eight hexadecimal digits, in either case, and a space.
pub open spec fn has_field(s: Seq<u8>) -> bool {
    &&& s.len() >= 9
    &&& s[8] == SPACE
    &&& forall|i: int| 0 <= i < 8 ==> is_hex_digit(#[trigger] s[i])
}

/// The record can be read: it begins with three fields of eight
/// hexadecimal digits, each followed by a space.
pub open spec fn is_readable_record(rec: Seq<u8>) -> bool {
    &&& has_field(rec)
    &&& has_field(rec.subrange(9, rec.len() as int))
    &&& has_field(rec.subrange(18, rec.len() as int))
}

/// A line that begins a record can be read as one.
pub proof fn lemma_record_start_readable(line: Seq<u8>)
    requires
        is_record_start(line),
    ensures
        is_readable_record(line),
{
    let l1 = line.subrange(9, line.len() as int);
    let l2 = line.subrange(18, line.len() as int);
    assert forall|i: int| 0 <= i < 8 implies is_hex_digit(#[trigger] line[i]) by {
        assert(is_lower_hex(line[i]));
    }
    assert forall|i: int| 0 <= i < 8 implies is_hex_digit(#[trigger] l1[i]) by {
        assert(is_lower_hex(l1[i]));
    }
    assert forall|i: int| 0 <= i < 8 implies is_hex_digit(#[trigger] l2[i]) by {
        assert(is_lower_hex(l2[i]));
    }
}

/// The records that the lines make up. A line that begins a record opens a
/// new one; any other line goes on with the name of the record before it,
/// after a line feed. `None` where a line that begins no record comes
/// first.
pub open spec fn records_of(lines: Seq<Seq<u8>>) -> Option<Seq<Seq<u8>>>
    decreases lines.len(),
{
    if lines.len() == 0 {
        Some(Seq::empty())
    } else {
        let line = lines.last();
        match records_of(lines.drop_last()) {
            None => None,
            Some(recs) => if is_record_start(line) {
                Some(recs.push(line))
            } else if recs.len() > 0 {
                Some(recs.drop_last().push(recs.last() + seq![LF] + line))
            } else {
                None
            },
        }
    }
}

/// The entry that a record spells: mode, size and time from its three
/// hexadecimal fields, and everything after them as the name.
pub open spec fn entry_of(rec: Seq<u8>) -> EntryFields {
    EntryFields {
        mode: hex_u32(rec.subrange(0, 8)),
        size: hex_u32(rec.subrange(9, 17)),
        epoch: hex_u32(rec.subrange(18, 26)),
        name: rec.subrange(27, rec.len() as int),
    }
}

/// The entries that the records spell, in order.
pub open spec fn entries_of(recs: Seq<Seq<u8>>) -> Seq<EntryFields> {
    Seq::new(recs.len(), |i: int| entry_of(recs[i]))
}

/// The entries that the output of a listing command spells, or `None`
/// where no sense can be made of it.
pub open spec fn parse_listing(output: Seq<u8>) -> Option<Seq<EntryFields>> {
    match records_of(lines_of(output)) {
        None => None,
        Some(recs) => Some(entries_of(recs)),
    }
}

/// What a sequence of entries says, as plain values.
pub open spec fn entry_views(v: Seq<LsEntry>) -> Seq<EntryFields> {
    Seq::new(v.len(), |i: int| v[i]@)
}

/// The byte sequences that a sequence of owned strings stands for.
pub open spec fn string_views(v: Seq<RawString>) -> Seq<Seq<u8>> {
    Seq::new(v.len(), |i: int| v[i]@)
}

/// Sense can be made of the lines exactly where there is none at all or
/// the first of them begins a record; there is then a record whenever
/// there is a line.
pub proof fn law_records_need_a_start(lines: Seq<Seq<u8>>)
    ensures
        records_of(lines) is Some <==> (lines.len() == 0 || is_record_start(lines[0])),
        records_of(lines) is Some && lines.len() > 0 ==> records_of(lines)->Some_0.len() > 0,
    decreases lines.len(),
{
    if lines.len() > 0 {
        let front = lines.drop_last();
        law_records_need_a_start(front);
        if front.len() > 0 {
            assert(front[0] == lines[0]);
        } else {
            assert(lines.last() == lines[0]);
        }
    }
}

/// Once no sense can be made of the first lines, more lines do not help.
pub proof fn lemma_records_none_extends(lines: Seq<Seq<u8>>, k: int)
    requires
        0 <= k <= lines.len(),
        records_of(lines.take(k)) is None,
    ensures
        records_of(lines) is None,
    decreases lines.len(),
{
    if k == lines.len() {
        assert(lines.take(k) =~= lines);
    } else {
        assert(lines.drop_last().take(k) =~= lines.take(k));
        lemma_records_none_extends(lines.drop_last(), k);
    }
}

/// Bytes added at the end of a line that begins a record leave it one.
pub proof fn lemma_record_start_extends(a: Seq<u8>, b: Seq<u8>)
    requires
        is_record_start(a),
    ensures
        is_record_start(a + b),
{
    let c = a + b;
    let a1 = a.subrange(9, a.len() as int);
    let a2 = a.subrange(18, a.len() as int);
    let c1 = c.subrange(9, c.len() as int);
    let c2 = c.subrange(18, c.len() as int);
    assert(a1.len() >= 9);
    assert(a2.len() >= 9);
    assert forall|i: int| 0 <= i < 9 implies c[i] == a[i] && c1[i] == a1[i] && c2[i] == a2[i] by {}
    assert forall|i: int| 0 <= i < 8 implies is_lower_hex(#[trigger] c[i]) by {
        assert(c[i] == a[i]);
    }
    assert forall|i: int| 0 <= i < 8 implies is_lower_hex(#[trigger] c1[i]) by {
        assert(c1[i] == a1[i]);
    }
    assert forall|i: int| 0 <= i < 8 implies is_lower_hex(#[trigger] c2[i]) by {
        assert(c2[i] == a2[i]);
    }
    assert(c[8] == a[8]);
    assert(c1[8] == a1[8]);
    assert(c2[8] == a2[8]);
}

/// In a string that begins with a hexadecimal field the first space is the
/// one that ends the field.
pub proof fn lemma_field_space(s: Seq<u8>)
    requires
        has_field(s),
    ensures
        s.contains(SPACE),
        first_at(s, SPACE, 8),
        crate::raw::position(s, SPACE) == 8,
        is_hex_text(s.subrange(0, 8)),
{
    assert(s[8] == SPACE);
    assert forall|j: int| 0 <= j < 8 implies s[j] != SPACE by {
        assert(is_hex_digit(s[j]));
    }
    lemma_position(s, SPACE, 8);
    let f = s.subrange(0, 8);
    assert forall|i: int| 0 <= i < f.len() implies is_hex_digit(#[trigger] f[i]) by {
        assert(f[i] == s[i]);
    }
}

/// A field of lower-case digits is a field.
proof fn lemma_lower_field(s: Seq<u8>)
    requires
        has_hex_field(s),
    ensures
        has_field(s),
{
    assert forall|i: int| 0 <= i < 8 implies is_hex_digit(#[trigger] s[i]) by {
        assert(is_lower_hex(s[i]));
    }
}

/// Takes a field of eight lower-case hexadecimal digits and the space after
/// it off the front of the line, if the line begins with one.
fn contains_another_hex_field(line: &mut RawStr<'_>) -> (r: bool)
    ensures
        r == has_hex_field(old(line)@),
        r ==> final(line)@ == old(line)@.subrange(9, old(line)@.len() as int),
{
    let ghost s = line@;
    proof {
        if has_hex_field(s) {
            lemma_lower_field(s);
            lemma_field_space(s);
        }
    }
    match line.split_take(SPACE) {
        Some(field) => {
            if field.len() != 8 {
                return false;
            }
            let mut i: usize = 0;
            while i < 8
                invariant
                    i <= 8,
                    field@.len() == 8,
                    s == old(line)@,
                    has_hex_field(s) ==> field@ == s.subrange(0, 8),
                    forall|j: int| 0 <= j < i ==> is_lower_hex(#[trigger] field@[j]),
                decreases 8 - i,
            {
                let c: u8 = field.byte_at(i);
                if !((48 <= c && c <= 57) || (97 <= c && c <= 102)) {
                    proof {
                        if has_hex_field(s) {
                            assert(is_lower_hex(s[i as int]));
                            assert(field@[i as int] == s[i as int]);
                        }
                    }
                    return false;
                }
                i += 1;
            }
            proof {
                assert forall|j: int| 0 <= j < 8 implies is_lower_hex(#[trigger] s[j]) by {
                    assert(field@[j] == s[j]);
                }
            }
            true
        },
        None => false,
    }
}

/// Whether the line begins a record.
pub fn starts_record(line: &RawStr<'_>) -> (r: bool)
    ensures
        r == is_record_start(line@),
{
    let ghost s = line@;
    let mut l = *line;
    if !contains_another_hex_field(&mut l) {
        return false;
    }
    if !contains_another_hex_field(&mut l) {
        return false;
    }
    assert(l@ =~= s.subrange(18, s.len() as int));
    contains_another_hex_field(&mut l)
}

/// Takes a hexadecimal field and the space after it off the front and
/// reads the field as a number.
fn take_field(l: &mut RawStr<'_>) -> (r: Result<u32, Error>)
    ensures
        has_field(old(l)@) ==> r is Ok && r->Ok_0 == hex_u32(old(l)@.subrange(0, 8)) && final(l)@
            == old(l)@.subrange(9, old(l)@.len() as int),
        !has_field(old(l)@) ==> r is Err && r->Err_0 is InvalidData,
{
    let ghost s = l@;
    proof {
        if has_field(s) {
            lemma_field_space(s);
        }
    }
    match l.split_take(SPACE) {
        Some(field) => {
            proof {
                if !has_field(s) && is_hex_text(field@) && field@.len() == 8 {
                    assert(s[8] == SPACE);
                    assert forall|i: int| 0 <= i < 8 implies is_hex_digit(#[trigger] s[i]) by {
                        assert(field@[i] == s[i]);
                    }
                }
            }
            parse_hex_u32(&field)
        },
        None => Err(Error::InvalidData),
    }
}

/// Reads one record: mode, size and time from three fields of eight
/// hexadecimal digits, each followed by a space, and everything after them
/// as the name, however many spaces or line feeds it holds. A record that
/// lacks one of the three fields, or has one that is not eight hexadecimal
/// digits, is `InvalidData`.
pub fn parse_record(rec: &RawStr<'_>) -> (r: Result<LsEntry, Error>)
    ensures
        is_readable_record(rec@) ==> r is Ok && r->Ok_0@ == entry_of(rec@),
        !is_readable_record(rec@) ==> r is Err && r->Err_0 is InvalidData,
{
    let ghost s = rec@;
    let ghost s1 = s.subrange(9, s.len() as int);
    let ghost s2 = s.subrange(18, s.len() as int);
    let mut l = *rec;
    let mode = match take_field(&mut l) {
        Ok(v) => v,
        Err(e) => {
            return Err(e);
        },
    };
    let size = match take_field(&mut l) {
        Ok(v) => v,
        Err(e) => {
            return Err(e);
        },
    };
    proof {
        assert(l@ =~= s2);
    }
    let epoch = match take_field(&mut l) {
        Ok(v) => v,
        Err(e) => {
            return Err(e);
        },
    };
    proof {
        assert(s1.subrange(0, 8) =~= s.subrange(9, 17));
        assert(s2.subrange(0, 8) =~= s.subrange(18, 26));
        assert(s2.subrange(9, s2.len() as int) =~= s.subrange(27, s.len() as int));
    }
    Ok(
        LsEntry {
            mode: UnixMode::new(mode),
            size,
            epoch: Epoch::from_timestamp(epoch),
            name: l.to_owned(),
        },
    )
}

/// Reads the output of a listing command: the entries in the order of the
/// output, or `InvalidData` where the output begins with a line that begins
/// no record. Lines end at a carriage return followed by a line feed.
pub fn ls_impl(output: &RawStr<'_>) -> (r: Result<Vec<LsEntry>, Error>)
    ensures
        match parse_listing(output@) {
            Some(entries) => r is Ok && entry_views(r->Ok_0@) == entries,
            None => r is Err && r->Err_0 is InvalidData,
        },
{
    let lines = output.lines();
    let ghost all = views(lines@);
    let mut records: Vec<RawString> = Vec::new();
    let mut i: usize = 0;
    assert(all.take(0) =~= Seq::<Seq<u8>>::empty());
    assert(string_views(records@) =~= Seq::<Seq<u8>>::empty());
    while i < lines.len()
        invariant
            all == views(lines@),
            all == lines_of(output@),
            i <= lines.len(),
            records_of(all.take(i as int)) == Some(string_views(records@)),
            forall|k: int| 0 <= k < records.len() ==> is_record_start(#[trigger] records[k]@),
        decreases lines.len() - i,
    {
        let line = lines[i];
        let ghost before = string_views(records@);
        proof {
            assert(all.take(i + 1).drop_last() =~= all.take(i as int));
            assert(all.take(i + 1).last() == line@);
        }
        if starts_record(&line) {
            records.push(line.to_owned());
            assert(string_views(records@) =~= before.push(line@));
        } else if records.len() > 0 {
            let mut previous = records.pop().unwrap();
            let ghost head = previous@;
            previous.push(LF);
            previous.append(&line);
            proof {
                assert(previous@ =~= head + seq![LF] + line@);
                lemma_record_start_extends(head, seq![LF] + line@);
                assert(head + (seq![LF] + line@) =~= head + seq![LF] + line@);
            }
            records.push(previous);
            assert(string_views(records@) =~= before.drop_last().push(head + seq![LF] + line@));
        } else {
            proof {
                assert(before.len() == 0);
                lemma_records_none_extends(all, i + 1);
            }
            return Err(Error::InvalidData);
        }
        i += 1;
    }
    assert(all.take(i as int) =~= all);
    let mut entries: Vec<LsEntry> = Vec::new();
    let mut j: usize = 0;
    while j < records.len()
        invariant
            j <= records.len(),
            entries.len() == j,
            forall|k: int| 0 <= k < records.len() ==> is_record_start(#[trigger] records[k]@),
            forall|k: int| 0 <= k < j ==> (#[trigger] entries[k])@ == entry_of(records[k]@),
        decreases records.len() - j,
    {
        proof {
            lemma_record_start_readable(records[j as int]@);
        }
        match parse_record(&records[j].as_str()) {
            Ok(entry) => {
                entries.push(entry);
            },
            Err(e) => {
                return Err(e);
            },
        }
        j += 1;
    }
    assert(entry_views(entries@) =~= entries_of(string_views(records@)));
    Ok(entries)
}

/// Reads the output of a listing command, given as plain bytes.
pub fn ls(output: &[u8]) -> (r: Result<Vec<LsEntry>, Error>)
    ensures
        match parse_listing(output@) {
            Some(entries) => r is Ok && entry_views(r->Ok_0@) == entries,
            None => r is Err && r->Err_0 is InvalidData,
        },
{
    let raw = RawStr::new(output);
    ls_impl(&raw)
}

} // verus!
