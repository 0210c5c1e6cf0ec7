//! Reading CSV text into a table.
//!
//! The first line that is neither blank nor a comment holds the column
//! names; every further such line is a row. A comment is a line whose first
//! character, white space aside, is `#`. Cells are separated by commas and
//! stripped of white space; there is no quoting. An empty cell holds no
//! value, a cell that reads as a number holds that number, and any other
//! cell holds its text.

use crate::model::field_value::{CellModel, DataRow, DataTable, FieldValue, RowModel};
use crate::number::float::Float;
use crate::number::parse::{number_of, parse_number};
use crate::number::text::names;
use vstd::prelude::*;
use vstd::string::StringSliceAdditionalSpecFns;
use vstd::utf8::{
    decode_utf8, encode_utf8, is_char_boundary, is_continuation_byte, length_of_first_scalar,
    pop_first_scalar, valid_utf8,
};

verus! {

/// The cell that a trimmed text stands for: no value for an empty text, a
/// number where the text reads as one, and the text itself otherwise.
pub open spec fn cell_model(text: Seq<char>, number: Option<Float>) -> CellModel {
    if text.len() == 0 {
        CellModel::Null
    } else {
        match number {
            Some(n) => CellModel::Numeric(n),
            None => CellModel::Text(text),
        }
    }
}

/// The cell that the trimmed text `cell` stands for. `number` is the number
/// that the text reads as, if it reads as one.
pub fn cell_value(cell: &str, number: Option<Float>) -> (r: FieldValue)
    ensures
        r@ == cell_model(cell@, number),
{
    if cell.is_empty() {
        FieldValue::Null
    } else {
        match number {
            Some(n) => FieldValue::Numeric(n),
            None => FieldValue::Text(cell.to_owned()),
        }
    }
}

/// What a list of cells holds.
pub open spec fn cell_views(cells: Seq<FieldValue>) -> Seq<CellModel> {
    cells.map_values(|c: FieldValue| c@)
}

/// The row of a line of cells under the given headers: each header has the
/// cell at its position, and no value where the line is too short. Where a
/// header occurs twice, the later occurrence counts.
pub open spec fn row_model(headers: Seq<Seq<char>>, cells: Seq<CellModel>) -> RowModel
    decreases headers.len(),
{
    if headers.len() == 0 {
        Map::empty()
    } else {
        row_model(headers.drop_last(), cells).insert(
            headers.last(),
            if headers.len() - 1 < cells.len() {
                cells[headers.len() - 1]
            } else {
                CellModel::Null
            },
        )
    }
}

/// The row of a line of cells under the given headers. Cells beyond the last
/// header are left out.
pub fn row_of_cells(headers: &Vec<String>, cells: &Vec<FieldValue>) -> (r: DataRow)
    ensures
        r@ == row_model(names(headers@), cell_views(cells@)),
{
    let n = headers.len();
    let mut row = DataRow::new();
    let mut i: usize = 0;
    assert(names(headers@).take(0) =~= Seq::<Seq<char>>::empty());
    while i < n
        invariant
            i <= n,
            n == headers@.len(),
            row@ == row_model(names(headers@).take(i as int), cell_views(cells@)),
        decreases n - i,
    {
        let value = if i < cells.len() {
            cells[i].copy()
        } else {
            FieldValue::Null
        };
        proof {
            let now = names(headers@).take(i + 1);
            assert(now.drop_last() =~= names(headers@).take(i as int));
            assert(now.last() == headers@[i as int]@);
        }
        row.insert(headers[i].clone(), value);
        i += 1;
    }
    assert(names(headers@).take(n as int) =~= names(headers@));
    row
}

/// Whether a byte is a white-space character of ASCII: a tab, a line feed,
/// a vertical tab, a form feed, a carriage return or a space.
pub open spec fn is_ascii_space(b: u8) -> bool {
    (9 <= b <= 13) || b == 32
}

/// Whether three bytes encode one of the white-space characters of three
/// bytes: U+1680, U+2000 to U+200A, U+2028, U+2029, U+202F, U+205F, U+3000.
pub open spec fn is_wide_space(x: u8, y: u8, z: u8) -> bool {
    ||| (x == 0xe1 && y == 0x9a && z == 0x80)
    ||| (x == 0xe2 && y == 0x80 && (0x80 <= z <= 0x8a || z == 0xa8 || z == 0xa9 || z == 0xaf))
    ||| (x == 0xe2 && y == 0x81 && z == 0x9f)
    ||| (x == 0xe3 && y == 0x80 && z == 0x80)
}

/// The length in bytes of the white-space character that starts at `i` and
/// ends by `z`, or 0 where none does. The white-space characters of two
/// bytes are U+0085 and U+00A0.
pub open spec fn space_at(b: Seq<u8>, i: int, z: int) -> int {
    if i < 0 || z > b.len() || i >= z {
        0
    } else if is_ascii_space(b[i]) {
        1
    } else if i + 1 < z && b[i] == 0xc2 && (b[i + 1] == 0x85 || b[i + 1] == 0xa0) {
        2
    } else if i + 2 < z && is_wide_space(b[i], b[i + 1], b[i + 2]) {
        3
    } else {
        0
    }
}

/// The length in bytes of the white-space character that ends at `j` and
/// starts no earlier than `a`, or 0 where none does.
pub open spec fn space_before(b: Seq<u8>, a: int, j: int) -> int {
    if a < 0 || j > b.len() || j <= a {
        0
    } else if is_ascii_space(b[j - 1]) {
        1
    } else if j - 2 >= a && b[j - 2] == 0xc2 && (b[j - 1] == 0x85 || b[j - 1] == 0xa0) {
        2
    } else if j - 3 >= a && is_wide_space(b[j - 3], b[j - 2], b[j - 1]) {
        3
    } else {
        0
    }
}

/// Where the text from `a` up to `z` starts once the white space before it
/// is taken off.
pub open spec fn trim_start(b: Seq<u8>, a: int, z: int) -> int
    decreases z - a,
{
    if space_at(b, a, z) > 0 {
        trim_start(b, a + space_at(b, a, z), z)
    } else {
        a
    }
}

/// Where the text from `a` up to `z` ends once the white space after it is
/// taken off.
pub open spec fn trim_end(b: Seq<u8>, a: int, z: int) -> int
    decreases z - a,
{
    if space_before(b, a, z) > 0 {
        trim_end(b, a, z - space_before(b, a, z))
    } else {
        z
    }
}

/// The text from `a` up to `z` without the white space round it, as a range.
pub open spec fn trimmed(b: Seq<u8>, a: int, z: int) -> (int, int) {
    (trim_start(b, a, z), trim_end(b, trim_start(b, a, z), z))
}

/// The index of the first byte `byte` from `from` up to `z`, or `z` where
/// there is none.
pub open spec fn find(b: Seq<u8>, from: int, z: int, byte: u8) -> int
    decreases z - from,
{
    if from < 0 || from >= z || z > b.len() || b[from] == byte {
        from
    } else {
        find(b, from + 1, z, byte)
    }
}

/// The cells of the record from `a` up to `z`: the texts between its commas,
/// trimmed, as ranges.
pub open spec fn cell_ranges(b: Seq<u8>, a: int, z: int) -> Seq<(int, int)>
    decreases z - a,
{
    if a < 0 || a > z || z > b.len() {
        Seq::empty()
    } else {
        let d = find(b, a, z, 44);
        if d >= z || d < a {
            seq![trimmed(b, a, z)]
        } else {
            seq![trimmed(b, a, d)] + cell_ranges(b, d + 1, z)
        }
    }
}

/// Whether the trimmed line from `a` up to `z` is a record: it is not empty
/// and does not start with `#`.
pub open spec fn is_record(b: Seq<u8>, a: int, z: int) -> bool {
    a < z && b[a] != 35
}

/// The records from `from` on: the lines that are neither blank nor
/// comments, trimmed, as ranges.
pub open spec fn record_ranges(b: Seq<u8>, from: int) -> Seq<(int, int)>
    decreases b.len() - from,
{
    if from < 0 || from > b.len() {
        Seq::empty()
    } else {
        let e = find(b, from, b.len() as int, 10);
        let line = trimmed(b, from, e);
        let rest = if e >= b.len() || e < from {
            Seq::empty()
        } else {
            record_ranges(b, e + 1)
        };
        if is_record(b, line.0, line.1) {
            seq![line] + rest
        } else {
            rest
        }
    }
}

/// The text of a range.
pub open spec fn text_of(b: Seq<u8>, range: (int, int)) -> Seq<char> {
    decode_utf8(b.subrange(range.0, range.1))
}

/// The cell that the text of a range stands for.
pub open spec fn value_of(b: Seq<u8>, range: (int, int)) -> CellModel {
    cell_model(text_of(b, range), number_of(b.subrange(range.0, range.1), text_of(b, range)))
}

/// The column names of a CSV text with at least one record.
pub open spec fn csv_names(b: Seq<u8>) -> Seq<Seq<char>> {
    let header = record_ranges(b, 0)[0];
    cell_ranges(b, header.0, header.1).map_values(|r: (int, int)| text_of(b, r))
}

/// Row `k` of a CSV text: the record after the header and `k` more.
pub open spec fn csv_row(b: Seq<u8>, k: int) -> RowModel {
    let record = record_ranges(b, 0)[k + 1];
    row_model(
        csv_names(b),
        cell_ranges(b, record.0, record.1).map_values(|r: (int, int)| value_of(b, r)),
    )
}

/// The rows of a CSV text with at least one record.
pub open spec fn csv_rows(b: Seq<u8>) -> Seq<RowModel> {
    Seq::new((record_ranges(b, 0).len() - 1) as nat, |k: int| csv_row(b, k))
}

/// The character after a character boundary ends at a character boundary.
proof fn lemma_boundary_after(bytes: Seq<u8>, i: int)
    requires
        valid_utf8(bytes),
        0 <= i < bytes.len(),
        is_char_boundary(bytes, i),
    ensures
        i + length_of_first_scalar(bytes.subrange(i, bytes.len() as int)) <= bytes.len(),
        is_char_boundary(
            bytes,
            i + length_of_first_scalar(bytes.subrange(i, bytes.len() as int)),
        ),
    decreases bytes.len(),
{
    let first = length_of_first_scalar(bytes);
    let rest = pop_first_scalar(bytes);
    assert(valid_utf8(rest) && 1 <= first <= bytes.len()) by {
        reveal_with_fuel(valid_utf8, 2);
    }
    if i == 0 {
        assert(bytes.subrange(0, bytes.len() as int) =~= bytes);
        assert(is_char_boundary(bytes, first)) by {
            reveal_with_fuel(is_char_boundary, 2);
        }
    } else {
        assert(is_char_boundary(rest, i - first) && i - first >= 0) by {
            reveal_with_fuel(is_char_boundary, 2);
        }
        if i - first < rest.len() {
            lemma_boundary_after(rest, i - first);
            assert(rest.subrange(i - first, rest.len() as int) =~= bytes.subrange(
                i,
                bytes.len() as int,
            ));
            let k = length_of_first_scalar(bytes.subrange(i, bytes.len() as int));
            assert(is_char_boundary(bytes, i + k)) by {
                reveal_with_fuel(is_char_boundary, 2);
            }
        }
    }
}

/// An index is a character boundary where it is the end of the text or the
/// byte there does not continue a character.
proof fn lemma_boundary_at(bytes: Seq<u8>, i: int)
    requires
        valid_utf8(bytes),
        0 <= i <= bytes.len(),
        i < bytes.len() ==> !is_continuation_byte(bytes[i]),
    ensures
        is_char_boundary(bytes, i),
{
    if i < bytes.len() {
        vstd::utf8::is_char_boundary_iff_not_is_continuation_byte(bytes, i);
    } else {
        vstd::utf8::is_char_boundary_start_end_of_seq(bytes);
    }
}

fn find_byte(b: &[u8], from: usize, z: usize, byte: u8) -> (r: usize)
    requires
        from <= z <= b@.len(),
    ensures
        r == find(b@, from as int, z as int, byte),
        from <= r <= z,
        r < z ==> b@[r as int] == byte,
{
    let mut i: usize = from;
    while i < z && b[i] != byte
        invariant
            from <= i <= z <= b@.len(),
            find(b@, from as int, z as int, byte) == find(b@, i as int, z as int, byte),
        decreases z - i,
    {
        i += 1;
    }
    i
}

fn space_len_at(b: &[u8], i: usize, z: usize) -> (r: usize)
    requires
        i <= z <= b@.len(),
    ensures
        r == space_at(b@, i as int, z as int),
        i + r <= z,
{
    if i >= z {
        return 0;
    }
    let x = b[i];
    if (9 <= x && x <= 13) || x == 32 {
        1
    } else if z - i > 1 && x == 0xc2 && (b[i + 1] == 0x85 || b[i + 1] == 0xa0) {
        2
    } else if z - i > 2 {
        let y = b[i + 1];
        let w = b[i + 2];
        if (x == 0xe1 && y == 0x9a && w == 0x80) || (x == 0xe2 && y == 0x80 && ((0x80 <= w && w
            <= 0x8a) || w == 0xa8 || w == 0xa9 || w == 0xaf)) || (x == 0xe2 && y == 0x81 && w
            == 0x9f) || (x == 0xe3 && y == 0x80 && w == 0x80) {
            3
        } else {
            0
        }
    } else {
        0
    }
}

fn space_len_before(b: &[u8], a: usize, j: usize) -> (r: usize)
    requires
        a <= j <= b@.len(),
    ensures
        r == space_before(b@, a as int, j as int),
        a + r <= j,
        r > 0 ==> !is_continuation_byte(b@[j - r]),
{
    if j <= a {
        return 0;
    }
    let x = b[j - 1];
    if (9 <= x && x <= 13) || x == 32 {
        1
    } else if j - a >= 2 && b[j - 2] == 0xc2 && (x == 0x85 || x == 0xa0) {
        2
    } else if j - a >= 3 {
        let u = b[j - 3];
        let y = b[j - 2];
        if (u == 0xe1 && y == 0x9a && x == 0x80) || (u == 0xe2 && y == 0x80 && ((0x80 <= x && x
            <= 0x8a) || x == 0xa8 || x == 0xa9 || x == 0xaf)) || (u == 0xe2 && y == 0x81 && x
            == 0x9f) || (u == 0xe3 && y == 0x80 && x == 0x80) {
            3
        } else {
            0
        }
    } else {
        0
    }
}

/// The range from `a` up to `z` without the white space round it.
fn trim(b: &[u8], a: usize, z: usize) -> (r: (usize, usize))
    requires
        a <= z <= b@.len(),
        valid_utf8(b@),
        is_char_boundary(b@, a as int),
        is_char_boundary(b@, z as int),
    ensures
        (r.0 as int, r.1 as int) == trimmed(b@, a as int, z as int),
        a <= r.0 <= r.1 <= z,
        is_char_boundary(b@, r.0 as int),
        is_char_boundary(b@, r.1 as int),
{
    let mut start: usize = a;
    loop
        invariant
            a <= start <= z <= b@.len(),
            valid_utf8(b@),
            is_char_boundary(b@, start as int),
            trim_start(b@, a as int, z as int) == trim_start(b@, start as int, z as int),
        ensures
            space_at(b@, start as int, z as int) == 0,
        decreases z - start,
    {
        let k = space_len_at(b, start, z);
        if k == 0 {
            break ;
        }
        proof {
            lemma_boundary_after(b@, start as int);
            let tail = b@.subrange(start as int, b@.len() as int);
            assert(tail[0] == b@[start as int]);
            assert(length_of_first_scalar(tail) == k);
        }
        start += k;
    }
    let mut end: usize = z;
    loop
        invariant
            start <= end <= z <= b@.len(),
            valid_utf8(b@),
            is_char_boundary(b@, end as int),
            trim_end(b@, start as int, z as int) == trim_end(b@, start as int, end as int),
        ensures
            space_before(b@, start as int, end as int) == 0,
        decreases end - start,
    {
        let k = space_len_before(b, start, end);
        if k == 0 {
            break ;
        }
        proof {
            lemma_boundary_at(b@, end - k);
        }
        end -= k;
    }
    (start, end)
}

/// The ranges of a list of index pairs.
pub open spec fn as_ranges(pairs: Seq<(usize, usize)>) -> Seq<(int, int)> {
    pairs.map_values(|p: (usize, usize)| (p.0 as int, p.1 as int))
}

/// Whether every range of the list lies within the text and starts and ends
/// at a character boundary.
pub open spec fn are_slices(b: Seq<u8>, pairs: Seq<(usize, usize)>) -> bool {
    forall|i: int|
        0 <= i < pairs.len() ==> {
            &&& (#[trigger] pairs[i]).0 <= pairs[i].1 <= b.len()
            &&& is_char_boundary(b, pairs[i].0 as int)
            &&& is_char_boundary(b, pairs[i].1 as int)
        }
}

/// The records of a text, as ranges.
fn records(b: &[u8]) -> (r: Vec<(usize, usize)>)
    requires
        valid_utf8(b@),
    ensures
        as_ranges(r@) == record_ranges(b@, 0),
        are_slices(b@, r@),
{
    let n = b.len();
    let mut out: Vec<(usize, usize)> = Vec::new();
    let mut from: usize = 0;
    let mut done = false;
    proof {
        lemma_boundary_at(b@, n as int);
        vstd::utf8::is_char_boundary_start_end_of_seq(b@);
        assert(as_ranges(out@) + record_ranges(b@, 0) =~= record_ranges(b@, 0));
    }
    while !done
        invariant
            n == b@.len(),
            valid_utf8(b@),
            from <= n,
            is_char_boundary(b@, from as int),
            are_slices(b@, out@),
            !done ==> as_ranges(out@) + record_ranges(b@, from as int) == record_ranges(b@, 0),
            done ==> as_ranges(out@) == record_ranges(b@, 0),
        decreases n - from + if done {
            0int
        } else {
            1int
        },
    {
        let e = find_byte(b, from, n, 10);
        proof {
            lemma_boundary_at(b@, e as int);
        }
        let line = trim(b, from, e);
        let ghost before = out@;
        if line.0 < line.1 && b[line.0] != 35 {
            out.push(line);
            assert(as_ranges(out@) =~= as_ranges(before) + seq![(line.0 as int, line.1 as int)]);
        }
        if e >= n {
            assert(as_ranges(out@) =~= record_ranges(b@, 0));
            done = true;
        } else {
            proof {
                lemma_boundary_after(b@, e as int);
                let tail = b@.subrange(e as int, n as int);
                assert(tail[0] == b@[e as int]);
                assert(length_of_first_scalar(tail) == 1);
                assert(as_ranges(out@) + record_ranges(b@, e + 1) =~= record_ranges(b@, 0));
            }
            from = e + 1;
        }
    }
    out
}

/// The cells of the record from `a` up to `z`, as ranges.
fn cells(b: &[u8], a: usize, z: usize) -> (r: Vec<(usize, usize)>)
    requires
        valid_utf8(b@),
        a <= z <= b@.len(),
        is_char_boundary(b@, a as int),
        is_char_boundary(b@, z as int),
    ensures
        as_ranges(r@) == cell_ranges(b@, a as int, z as int),
        are_slices(b@, r@),
{
    let mut out: Vec<(usize, usize)> = Vec::new();
    let mut from: usize = a;
    let mut done = false;
    proof {
        assert(as_ranges(out@) + cell_ranges(b@, a as int, z as int) =~= cell_ranges(
            b@,
            a as int,
            z as int,
        ));
    }
    while !done
        invariant
            valid_utf8(b@),
            a <= from <= z <= b@.len(),
            is_char_boundary(b@, from as int),
            is_char_boundary(b@, z as int),
            are_slices(b@, out@),
            !done ==> as_ranges(out@) + cell_ranges(b@, from as int, z as int) == cell_ranges(
                b@,
                a as int,
                z as int,
            ),
            done ==> as_ranges(out@) == cell_ranges(b@, a as int, z as int),
        decreases z - from + if done {
            0int
        } else {
            1int
        },
    {
        let d = find_byte(b, from, z, 44);
        proof {
            if d < z {
                lemma_boundary_at(b@, d as int);
            }
        }
        let cell = trim(b, from, d);
        let ghost before = out@;
        out.push(cell);
        assert(as_ranges(out@) =~= as_ranges(before) + seq![(cell.0 as int, cell.1 as int)]);
        if d >= z {
            assert(as_ranges(out@) =~= cell_ranges(b@, a as int, z as int));
            done = true;
        } else {
            proof {
                lemma_boundary_after(b@, d as int);
                let tail = b@.subrange(d as int, b@.len() as int);
                assert(tail[0] == b@[d as int]);
                assert(length_of_first_scalar(tail) == 1);
                assert(as_ranges(out@) + cell_ranges(b@, d + 1, z as int) =~= cell_ranges(
                    b@,
                    a as int,
                    z as int,
                ));
            }
            from = d + 1;
        }
    }
    out
}

/// The part of `text` from byte `a` up to byte `z`.
fn slice<'a>(text: &'a str, a: usize, z: usize) -> (r: &'a str)
    requires
        a <= z <= text.spec_bytes().len(),
        is_char_boundary(text.spec_bytes(), a as int),
        is_char_boundary(text.spec_bytes(), z as int),
    ensures
        r.spec_bytes() == text.spec_bytes().subrange(a as int, z as int),
        r@ == text_of(text.spec_bytes(), (a as int, z as int)),
{
    broadcast use vstd::utf8::encode_utf8_valid_utf8;
    broadcast use vstd::utf8::encode_utf8_decode_utf8;
    broadcast use vstd::utf8::valid_utf8_split;

    let ghost b = text.spec_bytes();
    let (head, _) = text.split_at(z);
    assert(head.spec_bytes() == b.subrange(0, z as int));
    proof {
        assert(valid_utf8(b));
        assert(valid_utf8(head.spec_bytes()));
        lemma_boundary_within(b, a as int, z as int);
    }
    let (_, part) = head.split_at(a);
    assert(part.spec_bytes() =~= b.subrange(a as int, z as int));
    assert(decode_utf8(encode_utf8(part@)) == part@);
    part
}

/// A character boundary of a text is one of every part of the text that
/// ends at a character boundary after it.
proof fn lemma_boundary_within(bytes: Seq<u8>, a: int, z: int)
    requires
        valid_utf8(bytes),
        0 <= a <= z <= bytes.len(),
        is_char_boundary(bytes, a),
        is_char_boundary(bytes, z),
    ensures
        is_char_boundary(bytes.subrange(0, z), a),
{
    let head = bytes.subrange(0, z);
    vstd::utf8::valid_utf8_split(bytes, z);
    assert(valid_utf8(head));
    if a < z {
        vstd::utf8::is_char_boundary_iff_not_is_continuation_byte(bytes, a);
        assert(head[a] == bytes[a]);
        vstd::utf8::is_char_boundary_iff_not_is_continuation_byte(head, a);
    } else {
        vstd::utf8::is_char_boundary_start_end_of_seq(head);
    }
}

/// Parses CSV text into a table, or fails where the text has no line that
/// is neither blank nor a comment.
///
/// The first such line holds the column names, every further one a row.
/// Each name gets the cell at its position in the row, and no value where
/// the row has fewer cells; cells beyond the last name are dropped.
pub fn parse_csv(text: &str) -> (r: Result<DataTable, String>)
    ensures
        r.is_ok() <==> record_ranges(text.spec_bytes(), 0).len() > 0,
        r.is_ok() ==> r.unwrap()@ == csv_rows(text.spec_bytes()),
        r.is_err() ==> r.unwrap_err()@ == "CSV has no header row"@,
{
    broadcast use vstd::utf8::encode_utf8_valid_utf8;

    let b = text.as_bytes();
    assert(valid_utf8(b@));
    let lines = records(b);
    let n = lines.len();
    assert(as_ranges(lines@).len() == n);
    if n == 0 {
        return Err("CSV has no header row".to_owned());
    }
    let header = cells(b, lines[0].0, lines[0].1);
    assert(as_ranges(lines@)[0] == (lines@[0].0 as int, lines@[0].1 as int));
    let m = header.len();
    let mut headers: Vec<String> = Vec::new();
    let mut h: usize = 0;
    while h < m
        invariant
            h <= m,
            m == header@.len(),
            b@ == text.spec_bytes(),
            are_slices(b@, header@),
            headers@.len() == h,
            forall|k: int|
                0 <= k < h ==> (#[trigger] headers@[k])@ == text_of(b@, as_ranges(header@)[k]),
        decreases m - h,
    {
        let name = slice(text, header[h].0, header[h].1);
        headers.push(name.to_owned());
        h += 1;
    }
    assert(names(headers@) =~= csv_names(b@));
    let mut table = DataTable::default();
    let mut k: usize = 1;
    assert(table@ =~= Seq::<RowModel>::empty());
    while k < n
        invariant
            1 <= k <= n,
            n == lines@.len(),
            b@ == text.spec_bytes(),
            valid_utf8(b@),
            as_ranges(lines@) == record_ranges(b@, 0),
            are_slices(b@, lines@),
            names(headers@) == csv_names(b@),
            table@.len() == k - 1,
            forall|j: int| 0 <= j < k - 1 ==> #[trigger] table@[j] == csv_row(b@, j),
        decreases n - k,
    {
        let record = cells(b, lines[k].0, lines[k].1);
        assert(as_ranges(lines@)[k as int] == (lines@[k as int].0 as int, lines@[k as int].1 as int));
        let c = record.len();
        let mut values: Vec<FieldValue> = Vec::new();
        let mut i: usize = 0;
        while i < c
            invariant
                i <= c,
                c == record@.len(),
                b@ == text.spec_bytes(),
                are_slices(b@, record@),
                values@.len() == i,
                forall|j: int|
                    0 <= j < i ==> (#[trigger] values@[j])@ == value_of(b@, as_ranges(record@)[j]),
            decreases c - i,
        {
            let cell = slice(text, record[i].0, record[i].1);
            values.push(cell_value(cell, parse_number(cell)));
            i += 1;
        }
        assert(cell_views(values@) =~= as_ranges(record@).map_values(|r: (int, int)| value_of(b@, r)));
        let row = row_of_cells(&headers, &values);
        let ghost before = table@;
        table.push(row);
        assert(table@[k - 1] == csv_row(b@, k - 1));
        k += 1;
    }
    assert(table@ =~= csv_rows(b@));
    Ok(table)
}

} // verus!
