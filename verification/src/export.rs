//! The flat tabular serialization of a consistency report: a header row, then
//! one row per record, with the 64-bit hashes rendered in hexadecimal.  The
//! caller writes the resulting text to wherever the report should land.

use vstd::prelude::*;
use crate::report::{ChecksumReport, ChecksumReportSingleFile};

verus! {

/// The character for one hexadecimal digit value.
pub open spec fn hex_digit_char(d: nat) -> char {
    if d == 0 {
        '0'
    } else if d == 1 {
        '1'
    } else if d == 2 {
        '2'
    } else if d == 3 {
        '3'
    } else if d == 4 {
        '4'
    } else if d == 5 {
        '5'
    } else if d == 6 {
        '6'
    } else if d == 7 {
        '7'
    } else if d == 8 {
        '8'
    } else if d == 9 {
        '9'
    } else if d == 10 {
        'a'
    } else if d == 11 {
        'b'
    } else if d == 12 {
        'c'
    } else if d == 13 {
        'd'
    } else if d == 14 {
        'e'
    } else {
        'f'
    }
}

/// The `k`-th nibble of a 64-bit value, counting from the least significant.
pub open spec fn nibble_of(x: u64, k: int) -> nat {
    ((x >> ((4 * k) as u64)) & 0xf) as nat
}

/// The 16 hexadecimal digits of a 64-bit value, most significant nibble first.
pub open spec fn hex_of_u64(x: u64) -> Seq<char> {
    Seq::new(16, |i: int| hex_digit_char(nibble_of(x, 15 - i)))
}

/// The one-character string for a hexadecimal digit value.
fn hex_digit_str(d: u64) -> (r: &'static str)
    requires
        d < 16,
    ensures
        r@ =~= seq![hex_digit_char(d as nat)],
{
    proof {
        reveal_strlit("0");
        reveal_strlit("1");
        reveal_strlit("2");
        reveal_strlit("3");
        reveal_strlit("4");
        reveal_strlit("5");
        reveal_strlit("6");
        reveal_strlit("7");
        reveal_strlit("8");
        reveal_strlit("9");
        reveal_strlit("a");
        reveal_strlit("b");
        reveal_strlit("c");
        reveal_strlit("d");
        reveal_strlit("e");
        reveal_strlit("f");
    }
    if d == 0 {
        "0"
    } else if d == 1 {
        "1"
    } else if d == 2 {
        "2"
    } else if d == 3 {
        "3"
    } else if d == 4 {
        "4"
    } else if d == 5 {
        "5"
    } else if d == 6 {
        "6"
    } else if d == 7 {
        "7"
    } else if d == 8 {
        "8"
    } else if d == 9 {
        "9"
    } else if d == 10 {
        "a"
    } else if d == 11 {
        "b"
    } else if d == 12 {
        "c"
    } else if d == 13 {
        "d"
    } else if d == 14 {
        "e"
    } else {
        "f"
    }
}

/// Renders a 64-bit value as 16 hexadecimal digits, most significant first,
/// so the full value is represented unambiguously.
pub fn u64_to_hex(x: u64) -> (r: String)
    ensures
        r@ == hex_of_u64(x),
{
    let mut s = String::new();
    let mut i: usize = 0;
    while i < 16
        invariant
            i <= 16,
            s@ =~= hex_of_u64(x).take(i as int),
        decreases 16 - i,
    {
        let shift: u64 = (15 - i as u64) * 4;
        let d: u64 = (x >> shift) & 0xf;
        proof {
            assert((x >> shift) & 0xf < 16) by (bit_vector);
            assert(shift == (4 * (15 - i)) as u64);
            assert(d == nibble_of(x, 15 - i));
        }
        let ds = hex_digit_str(d);
        s.append(ds);
        proof {
            assert(hex_of_u64(x)[i as int] == hex_digit_char(nibble_of(x, 15 - i)));
            assert(s@ =~= hex_of_u64(x).take(i + 1));
        }
        i = i + 1;
    }
    proof {
        assert(hex_of_u64(x).take(16) =~= hex_of_u64(x));
    }
    s
}

/// The characters of the consistency-flag column.
pub open spec fn flag_chars(consistent: bool) -> Seq<char> {
    if consistent {
        seq!['t', 'r', 'u', 'e']
    } else {
        seq!['f', 'a', 'l', 's', 'e']
    }
}

/// The row serialized for one record: consistency flag, source path, source
/// hash, then each destination's path and hash, in destination order.
pub open spec fn spec_row(rec: ChecksumReportSingleFile) -> Seq<Seq<char>> {
    seq![flag_chars(rec.spec_consistent()), rec.source.0@, hex_of_u64(rec.source.1)].add(
        Seq::new(
            2 * rec.destinations@.len(),
            |i: int|
                if i % 2 == 0 {
                    rec.destinations@[i / 2].0@
                } else {
                    hex_of_u64(rec.destinations@[i / 2].1)
                },
        ),
    )
}

/// The header row for a report over `num_dests` destinations.
pub open spec fn spec_header_row(num_dests: nat) -> Seq<Seq<char>> {
    seq!["consistent"@, "source_path"@, "source_hash"@].add(
        Seq::new(
            2 * num_dests,
            |i: int|
                if i % 2 == 0 {
                    "destination_path"@
                } else {
                    "destination_hash"@
                },
        ),
    )
}

/// One row's fields joined with commas.
pub open spec fn csv_line(row: Seq<Seq<char>>) -> Seq<char>
    decreases row.len(),
{
    if row.len() == 0 {
        Seq::empty()
    } else if row.len() == 1 {
        row[0]
    } else {
        csv_line(row.drop_last()) + seq![','] + row.last()
    }
}

/// Rows each joined with commas, one per line, every line newline-terminated.
pub open spec fn csv_text(rows: Seq<Seq<Seq<char>>>) -> Seq<char>
    decreases rows.len(),
{
    if rows.len() == 0 {
        Seq::empty()
    } else {
        csv_text(rows.drop_last()) + csv_line(rows.last()) + seq!['\n']
    }
}

/// Appends one comma-joined, newline-terminated row to `out`.
fn append_csv_line(out: &mut String, row: &Vec<String>)
    ensures
        final(out)@ == old(out)@ + csv_line(row.deep_view()) + seq!['\n'],
{
    proof {
        reveal_strlit(",");
        reveal_strlit("\n");
    }
    let mut i: usize = 0;
    while i < row.len()
        invariant
            i <= row@.len(),
            ","@ =~= seq![','],
            "\n"@ =~= seq!['\n'],
            out@ =~= old(out)@ + csv_line(row.deep_view().take(i as int)),
        decreases row@.len() - i,
    {
        if i > 0 {
            out.append(",");
        }
        out.append(row[i].as_str());
        proof {
            let rows = row.deep_view();
            assert(rows.take(i + 1).drop_last() =~= rows.take(i as int));
            assert(rows.take(i + 1).last() == rows[i as int]);
            assert(rows[i as int] == row@[i as int]@);
            assert(out@ =~= old(out)@ + csv_line(rows.take(i + 1)));
        }
        i = i + 1;
    }
    proof {
        assert(row.deep_view().take(row@.len() as int) =~= row.deep_view());
    }
    out.append("\n");
}

impl ChecksumReportSingleFile {
    /// This record's row of the tabular export.
    pub fn to_row(&self) -> (row: Vec<String>)
        ensures
            row.deep_view() == spec_row(*self),
            row@.len() == 3 + 2 * self.destinations@.len(),
    {
        let mut row: Vec<String> = Vec::new();
        if self.consistent() {
            let flag = String::from_str("true");
            proof {
                reveal_strlit("true");
                assert(flag@ =~= flag_chars(true));
            }
            row.push(flag);
        } else {
            let flag = String::from_str("false");
            proof {
                reveal_strlit("false");
                assert(flag@ =~= flag_chars(false));
            }
            row.push(flag);
        }
        row.push(self.source.0.clone());
        row.push(u64_to_hex(self.source.1));
        let mut k: usize = 0;
        while k < self.destinations.len()
            invariant
                k <= self.destinations@.len(),
                row@.len() == 3 + 2 * k,
                row@[0]@ == flag_chars(self.spec_consistent()),
                row@[1]@ == self.source.0@,
                row@[2]@ == hex_of_u64(self.source.1),
                forall|j: int|
                    0 <= j < k ==> row@[3 + 2 * j]@ == (#[trigger] self.destinations@[j]).0@
                        && row@[4 + 2 * j]@ == hex_of_u64(self.destinations@[j].1),
            decreases self.destinations@.len() - k,
        {
            row.push(self.destinations[k].0.clone());
            row.push(u64_to_hex(self.destinations[k].1));
            k = k + 1;
        }
        proof {
            assert(row.deep_view() =~= spec_row(*self));
        }
        row
    }
}

/// The header row of the tabular export, for `num_dests` destinations.
pub fn header_row(num_dests: usize) -> (row: Vec<String>)
    ensures
        row.deep_view() == spec_header_row(num_dests as nat),
        row@.len() == 3 + 2 * num_dests,
{
    let mut row: Vec<String> = Vec::new();
    row.push(String::from_str("consistent"));
    row.push(String::from_str("source_path"));
    row.push(String::from_str("source_hash"));
    let ghost goal = spec_header_row(num_dests as nat);
    let mut k: usize = 0;
    while k < num_dests
        invariant
            k <= num_dests,
            goal == spec_header_row(num_dests as nat),
            row@.len() == 3 + 2 * k,
            forall|m: int| 0 <= m < row@.len() ==> (#[trigger] row@[m])@ == goal[m],
        decreases num_dests - k,
    {
        let ghost prev = row@;
        row.push(String::from_str("destination_path"));
        row.push(String::from_str("destination_hash"));
        proof {
            assert(forall|m: int| 0 <= m < prev.len() ==> #[trigger] row@[m] == prev[m]);
            assert(goal[3 + 2 * k as int] == "destination_path"@);
            assert(goal[4 + 2 * k as int] == "destination_hash"@);
            assert(row@[3 + 2 * k as int]@ == goal[3 + 2 * k as int]);
            assert(row@[4 + 2 * k as int]@ == goal[4 + 2 * k as int]);
        }
        k = k + 1;
    }
    proof {
        assert forall|i: int| 0 <= i < row@.len() implies row.deep_view()[i] == goal[i] by {
            assert(row.deep_view()[i] == row@[i]@);
        }
        assert(row.deep_view() =~= goal);
    }
    row
}

/// The serialized rows of a report: the header sized by the first record's
/// destination count (a report's records all share it), then one row per
/// record in report order.
pub open spec fn spec_report_rows(records: Seq<ChecksumReportSingleFile>) -> Seq<Seq<Seq<char>>> {
    seq![
        spec_header_row(
            if records.len() > 0 {
                records[0].destinations@.len()
            } else {
                0
            },
        ),
    ].add(records.map_values(|rec: ChecksumReportSingleFile| spec_row(rec)))
}

/// Law: with every record fanning out to the same `n` destinations — the
/// report's invariant — every row of the serialization, the header included,
/// has exactly 3 + 2 × n fields.
pub proof fn lemma_export_rows_rectangular(records: Seq<ChecksumReportSingleFile>, n: nat)
    requires
        records.len() > 0,
        forall|i: int| 0 <= i < records.len() ==> (#[trigger] records[i]).destinations@.len() == n,
    ensures
        forall|i: int|
            0 <= i < spec_report_rows(records).len() ==> (#[trigger] spec_report_rows(
                records,
            )[i]).len() == 3 + 2 * n,
{
    let rows = spec_report_rows(records);
    assert forall|i: int| 0 <= i < rows.len() implies (#[trigger] rows[i]).len() == 3 + 2 * n by {
        if i == 0 {
            assert(rows[0] == spec_header_row(records[0].destinations@.len()));
        } else {
            assert(rows[i] == spec_row(records[i - 1]));
        }
    }
}

impl ChecksumReport {
    /// The whole tabular serialization as delimited text: the header row, then
    /// one comma-separated row per record, each row on its own line.
    pub fn export_csv(&self) -> (r: String)
        ensures
            r@ == csv_text(spec_report_rows(self.0@)),
    {
        let num_dests: usize = if self.0.len() > 0 {
            self.0[0].destinations.len()
        } else {
            0
        };
        let mut out = String::new();
        let header = header_row(num_dests);
        append_csv_line(&mut out, &header);
        let ghost rows = spec_report_rows(self.0@);
        proof {
            let hdr = header.deep_view();
            assert(rows.take(1) =~= seq![hdr]);
            assert(seq![hdr].drop_last() =~= Seq::<Seq<Seq<char>>>::empty());
            assert(csv_text(Seq::<Seq<Seq<char>>>::empty()) == Seq::<char>::empty());
            assert(csv_text(seq![hdr]) == csv_text(seq![hdr].drop_last()) + csv_line(
                seq![hdr].last(),
            ) + seq!['\n']);
            assert(out@ =~= csv_text(rows.take(1)));
        }
        let mut i: usize = 0;
        while i < self.0.len()
            invariant
                i <= self.0@.len(),
                rows == spec_report_rows(self.0@),
                rows.len() == 1 + self.0@.len(),
                out@ =~= csv_text(rows.take(1 + i as int)),
            decreases self.0@.len() - i,
        {
            let line = self.0[i].to_row();
            append_csv_line(&mut out, &line);
            proof {
                assert(rows.take(2 + i as int).drop_last() =~= rows.take(1 + i as int));
                assert(rows.take(2 + i as int).last() == rows[1 + i as int]);
                assert(rows[1 + i as int] == spec_row(self.0@[i as int]));
                assert(out@ =~= csv_text(rows.take(2 + i as int)));
            }
            i = i + 1;
        }
        proof {
            assert(rows.take(rows.len() as int) =~= rows);
        }
        out
    }
}

} // verus!
