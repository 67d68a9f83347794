use crate::hexfield::{be_u32, hex_byte, hex_bytes, hex_u32, hex_value};
use crate::listing::{
    entries_of, entry_of, is_lower_hex, is_record_start, parse_listing, records_of, EntryFields,
    SPACE,
};
use crate::raw::{crlf_at, law_lines_first, law_lines_rest, lines_of, no_crlf, CR, LF};
use vstd::prelude::*;

verus! {

/// The lower-case hexadecimal digit for a value from 0 to 15.
pub open spec fn hex_digit(v: int) -> u8 {
    if v < 10 {
        (48 + v) as u8
    } else {
        (87 + v) as u8
    }
}

/// A 32-bit number as eight lower-case hexadecimal digits, the most
/// significant first: each digit is what is left of the number, divided by
/// 16 once for every digit after it, modulo 16.
pub open spec fn hex8(v: u32) -> Seq<u8> {
    let q1 = v as int / 16;
    let q2 = q1 / 16;
    let q3 = q2 / 16;
    let q4 = q3 / 16;
    let q5 = q4 / 16;
    let q6 = q5 / 16;
    let q7 = q6 / 16;
    seq![
        hex_digit(q7 % 16),
        hex_digit(q6 % 16),
        hex_digit(q5 % 16),
        hex_digit(q4 % 16),
        hex_digit(q3 % 16),
        hex_digit(q2 % 16),
        hex_digit(q1 % 16),
        hex_digit(v as int % 16),
    ]
}

/// The text of one record: the three fields, a space after each, and the
/// name.
pub open spec fn rendered_entry(e: EntryFields) -> Seq<u8> {
    hex8(e.mode) + seq![SPACE] + hex8(e.size) + seq![SPACE] + hex8(e.epoch) + seq![SPACE] + e.name
}

/// The text of a listing: each record followed by a carriage return and a
/// line feed.
pub open spec fn rendered_listing(entries: Seq<EntryFields>) -> Seq<u8>
    decreases entries.len(),
{
    if entries.len() == 0 {
        Seq::empty()
    } else {
        rendered_entry(entries[0]) + seq![CR, LF] + rendered_listing(entries.drop_first())
    }
}

/// A hexadecimal digit is in lower case and stands for its value.
pub proof fn lemma_hex_digit(x: int)
    requires
        0 <= x < 16,
    ensures
        is_lower_hex(hex_digit(x)),
        hex_value(hex_digit(x)) == x,
{
}

/// Reading the eight digits of a number gives the number back.
pub proof fn lemma_hex8_reads_back(v: u32)
    ensures
        hex8(v).len() == 8,
        hex_u32(hex8(v)) == v,
        forall|i: int| 0 <= i < 8 ==> is_lower_hex(#[trigger] hex8(v)[i]),
{
    let h = hex8(v);
    let q0 = v as int;
    let q1 = q0 / 16;
    let q2 = q1 / 16;
    let q3 = q2 / 16;
    let q4 = q3 / 16;
    let q5 = q4 / 16;
    let q6 = q5 / 16;
    let q7 = q6 / 16;
    assert(q7 < 16);
    lemma_hex_digit(q0 % 16);
    lemma_hex_digit(q1 % 16);
    lemma_hex_digit(q2 % 16);
    lemma_hex_digit(q3 % 16);
    lemma_hex_digit(q4 % 16);
    lemma_hex_digit(q5 % 16);
    lemma_hex_digit(q6 % 16);
    lemma_hex_digit(q7 % 16);
    let b = hex_bytes(h);
    assert(b.len() == 4);
    assert(b[0] == hex_byte(h[0], h[1]));
    assert(b[1] == hex_byte(h[2], h[3]));
    assert(b[2] == hex_byte(h[4], h[5]));
    assert(b[3] == hex_byte(h[6], h[7]));
    assert(b[0] as int == (q7 % 16) * 16 + q6 % 16);
    assert(b[1] as int == (q5 % 16) * 16 + q4 % 16);
    assert(b[2] as int == (q3 % 16) * 16 + q2 % 16);
    assert(b[3] as int == (q1 % 16) * 16 + q0 % 16);
    assert(be_u32(b) == v);
    assert forall|i: int| 0 <= i < 8 implies is_lower_hex(#[trigger] h[i]) by {
        if i == 0 {
        } else if i == 1 {
        } else if i == 2 {
        } else if i == 3 {
        } else if i == 4 {
        } else if i == 5 {
        } else if i == 6 {
        } else {
        }
    }
}

/// The text of a record begins a record, and reading it gives the entry
/// back.
pub proof fn lemma_rendered_entry(e: EntryFields)
    ensures
        is_record_start(rendered_entry(e)),
        entry_of(rendered_entry(e)) == e,
        rendered_entry(e).len() == 27 + e.name.len(),
        forall|i: int| 0 <= i < 27 ==> (#[trigger] rendered_entry(e)[i]) != CR,
        forall|i: int| 27 <= i < rendered_entry(e).len() ==> (#[trigger] rendered_entry(e)[i]) == e.name[i - 27],
{
    let r = rendered_entry(e);
    lemma_hex8_reads_back(e.mode);
    lemma_hex8_reads_back(e.size);
    lemma_hex8_reads_back(e.epoch);
    let r1 = r.subrange(9, r.len() as int);
    let r2 = r.subrange(18, r.len() as int);
    assert(r.subrange(0, 8) =~= hex8(e.mode));
    assert(r.subrange(9, 17) =~= hex8(e.size));
    assert(r.subrange(18, 26) =~= hex8(e.epoch));
    assert(r.subrange(27, r.len() as int) =~= e.name);
    assert forall|i: int| 0 <= i < 8 implies is_lower_hex(#[trigger] r[i]) by {
        assert(r[i] == hex8(e.mode)[i]);
    }
    assert forall|i: int| 0 <= i < 8 implies is_lower_hex(#[trigger] r1[i]) by {
        assert(r1[i] == hex8(e.size)[i]);
    }
    assert forall|i: int| 0 <= i < 8 implies is_lower_hex(#[trigger] r2[i]) by {
        assert(r2[i] == hex8(e.epoch)[i]);
    }
    assert(r[8] == SPACE);
    assert(r1[8] == SPACE);
    assert(r2[8] == SPACE);
    assert forall|i: int| 0 <= i < 27 implies (#[trigger] r[i]) != CR by {
        if i < 8 {
            assert(is_lower_hex(r[i]));
        } else if i == 8 {
        } else if i < 17 {
            assert(r[i] == r1[i - 9]);
            assert(is_lower_hex(r1[i - 9]));
        } else if i == 17 {
            assert(r[i] == r1[8]);
        } else if i < 26 {
            assert(r[i] == r2[i - 18]);
            assert(is_lower_hex(r2[i - 18]));
        } else {
            assert(r[i] == r2[8]);
        }
    }
}

/// A name without a line break inside makes a record without one.
pub proof fn lemma_rendered_entry_no_crlf(e: EntryFields)
    requires
        no_crlf(e.name),
    ensures
        no_crlf(rendered_entry(e)),
{
    let r = rendered_entry(e);
    lemma_rendered_entry(e);
    assert forall|i: int| !crlf_at(r, i) by {
        if crlf_at(r, i) {
            if i < 27 {
                assert(r[i] != CR);
            } else {
                assert(r[i] == e.name[i - 27]);
                assert(r[i + 1] == e.name[i + 1 - 27]);
                assert(crlf_at(e.name, i - 27));
            }
        }
    }
}

/// Lines that each begin a record are the records.
pub proof fn lemma_records_of_starts(lines: Seq<Seq<u8>>)
    requires
        forall|i: int| 0 <= i < lines.len() ==> is_record_start(#[trigger] lines[i]),
    ensures
        records_of(lines) == Some(lines),
    decreases lines.len(),
{
    if lines.len() > 0 {
        lemma_records_of_starts(lines.drop_last());
        assert(lines.drop_last().push(lines.last()) =~= lines);
    } else {
        assert(lines =~= Seq::<Seq<u8>>::empty());
    }
}

/// The texts of the records of a listing, one for each entry.
pub open spec fn rendered_lines(entries: Seq<EntryFields>) -> Seq<Seq<u8>>
    decreases entries.len(),
{
    if entries.len() == 0 {
        Seq::empty()
    } else {
        seq![rendered_entry(entries[0])] + rendered_lines(entries.drop_first())
    }
}

/// There is one text for each entry, in the order of the entries.
pub proof fn lemma_rendered_lines(entries: Seq<EntryFields>)
    ensures
        rendered_lines(entries).len() == entries.len(),
        forall|i: int|
            0 <= i < entries.len() ==> #[trigger] rendered_lines(entries)[i] == rendered_entry(
                entries[i],
            ),
    decreases entries.len(),
{
    if entries.len() > 0 {
        let tail = entries.drop_first();
        lemma_rendered_lines(tail);
        assert forall|i: int| 0 <= i < entries.len() implies #[trigger] rendered_lines(entries)[i]
            == rendered_entry(entries[i]) by {
            if i > 0 {
                assert(rendered_lines(entries)[i] == rendered_lines(tail)[i - 1]);
                assert(tail[i - 1] == entries[i]);
            }
        }
    }
}

/// The lines of a rendered listing are the texts of its records.
pub proof fn lemma_lines_of_rendered(entries: Seq<EntryFields>)
    requires
        forall|i: int| 0 <= i < entries.len() ==> no_crlf(#[trigger] entries[i].name),
    ensures
        lines_of(rendered_listing(entries)) == rendered_lines(entries),
    decreases entries.len(),
{
    if entries.len() == 0 {
        law_lines_rest(rendered_listing(entries));
    } else {
        let tail = entries.drop_first();
        assert forall|i: int| 0 <= i < tail.len() implies no_crlf(#[trigger] tail[i].name) by {
            assert(tail[i] == entries[i + 1]);
        }
        lemma_lines_of_rendered(tail);
        lemma_rendered_entry_no_crlf(entries[0]);
        law_lines_first(rendered_entry(entries[0]), rendered_listing(tail));
    }
}

/// Parsing the text of a listing gives the entries back: as many as were
/// written, in the same order, with the same mode, size, time and name.
/// This holds for every sequence of entries whose names hold no carriage
/// return directly followed by a line feed.
pub proof fn law_listing_round_trip(entries: Seq<EntryFields>)
    requires
        forall|i: int| 0 <= i < entries.len() ==> no_crlf(#[trigger] entries[i].name),
    ensures
        parse_listing(rendered_listing(entries)) == Some(entries),
{
    let lines = rendered_lines(entries);
    lemma_lines_of_rendered(entries);
    lemma_rendered_lines(entries);
    assert forall|i: int| 0 <= i < lines.len() implies is_record_start(#[trigger] lines[i]) by {
        lemma_rendered_entry(entries[i]);
    }
    lemma_records_of_starts(lines);
    assert forall|i: int| 0 <= i < entries.len() implies entries_of(lines)[i] == entries[i] by {
        lemma_rendered_entry(entries[i]);
    }
    assert(entries_of(lines) =~= entries);
}

/// A line that begins no record goes on with the name of the record before
/// it: a record followed by such a line is read as one entry whose name is
/// the record's name, a line feed, and that line.
pub proof fn law_continuation_joins_name(e: EntryFields, rest: Seq<u8>)
    requires
        no_crlf(e.name),
        no_crlf(rest),
        !is_record_start(rest),
    ensures
        parse_listing(rendered_entry(e) + seq![CR, LF] + rest + seq![CR, LF]) == Some(
            seq![
                EntryFields {
                    mode: e.mode,
                    size: e.size,
                    epoch: e.epoch,
                    name: e.name + seq![LF] + rest,
                },
            ],
        ),
{
    let first = rendered_entry(e);
    let whole = EntryFields {
        mode: e.mode,
        size: e.size,
        epoch: e.epoch,
        name: e.name + seq![LF] + rest,
    };
    let text = first + seq![CR, LF] + rest + seq![CR, LF];
    let back = rest + seq![CR, LF] + Seq::<u8>::empty();
    lemma_rendered_entry_no_crlf(e);
    lemma_rendered_entry(e);
    assert(text =~= first + seq![CR, LF] + back);
    law_lines_first(first, back);
    law_lines_first(rest, Seq::<u8>::empty());
    assert(lines_of(Seq::<u8>::empty()) =~= Seq::<Seq<u8>>::empty());
    let lines = seq![first, rest];
    assert(lines_of(text) =~= lines);
    assert(lines.drop_last() =~= seq![first]);
    assert(seq![first].drop_last() =~= Seq::<Seq<u8>>::empty());
    assert(records_of(Seq::<Seq<u8>>::empty()) == Some(Seq::<Seq<u8>>::empty()));
    assert(records_of(seq![first]) == Some(seq![first])) by {
        assert(seq![first].last() == first);
        assert(Seq::<Seq<u8>>::empty().push(first) =~= seq![first]);
    }
    let record = first + seq![LF] + rest;
    assert(lines.last() == rest);
    assert(seq![first].drop_last().push(seq![first].last() + seq![LF] + rest) =~= seq![record]);
    assert(records_of(lines) == Some(seq![record]));
    assert(record =~= rendered_entry(whole));
    lemma_rendered_entry(whole);
    assert(entries_of(seq![record]) =~= seq![whole]);
}

} // verus!
