//! The runtime-owned post-load Unit type table: a tab-separated capture, admitted only
//! with the identities of the supported executable and table, then parsed strictly.
use vstd::prelude::*;
use vstd::string::StringSliceAdditionalSpecFns;

use crate::leaders::{
    UnitTypeStatSourceProvenance, SUPPORTED_UNIT_TYPE_STAT_TSV_SHA256, UNIT_TYPE_STAT_END,
    UNIT_TYPE_STAT_FIRST, UNIT_TYPE_STAT_ROWS,
};

verus! {

/// `'\t'`.
pub const TAB: u8 = 9;
/// `'\n'`.
pub const NEWLINE: u8 = 10;
/// `'\r'`.
pub const CARRIAGE_RETURN: u8 = 13;

// ---------------------------------------------------------------------------------------
// Splitting
// ---------------------------------------------------------------------------------------

/// Splitting the first `n` bytes at `sep`: the finished pieces and the piece under way.
pub open spec fn split_prefix(b: Seq<u8>, sep: u8, n: nat) -> (Seq<Seq<u8>>, Seq<u8>)
    decreases n,
{
    if n == 0 {
        (Seq::empty(), Seq::empty())
    } else {
        let (done, cur) = split_prefix(b, sep, (n - 1) as nat);
        if b[n - 1] == sep {
            (done.push(cur), Seq::empty())
        } else {
            (done, cur.push(b[n - 1]))
        }
    }
}

/// `split(sep)`: the pieces between separators, always at least one.
pub open spec fn split_spec(b: Seq<u8>, sep: u8) -> Seq<Seq<u8>> {
    let (done, cur) = split_prefix(b, sep, b.len());
    done.push(cur)
}

/// A line without the carriage return of its `"\r\n"` ending.
pub open spec fn strip_cr(x: Seq<u8>) -> Seq<u8> {
    if x.len() > 0 && x.last() == CARRIAGE_RETURN {
        x.drop_last()
    } else {
        x
    }
}

/// `str::lines`: the pieces between newlines, without an empty piece after a final
/// newline, each ended by a newline losing one carriage return before it.
pub open spec fn lines_spec(b: Seq<u8>) -> Seq<Seq<u8>> {
    let p = split_spec(b, NEWLINE);
    let n = if p.last().len() == 0 {
        p.len() - 1
    } else {
        p.len() as int
    };
    Seq::new(
        n as nat,
        |i: int|
            if i < p.len() - 1 {
                strip_cr(p[i])
            } else {
                p[i]
            },
    )
}

/// `b` split at `sep`, as [`split_spec`] says.
pub fn split_bytes(b: &[u8], sep: u8) -> (r: Vec<Vec<u8>>)
    ensures
        r@.len() == split_spec(b@, sep).len(),
        forall|i: int| 0 <= i < r@.len() ==> #[trigger] r@[i]@ == split_spec(b@, sep)[i],
{
    let mut done: Vec<Vec<u8>> = Vec::new();
    let mut cur: Vec<u8> = Vec::new();
    let mut i: usize = 0;
    while i < b.len()
        invariant
            i <= b.len(),
            done@.len() == split_prefix(b@, sep, i as nat).0.len(),
            forall|k: int| 0 <= k < done@.len() ==> #[trigger] done@[k]@ == split_prefix(b@, sep, i as nat).0[k],
            cur@ == split_prefix(b@, sep, i as nat).1,
        decreases b.len() - i,
    {
        if b[i] == sep {
            let piece = cur;
            done.push(piece);
            cur = Vec::new();
        } else {
            cur.push(b[i]);
        }
        i = i + 1;
    }
    assert(b@.len() == i);
    done.push(cur);
    done
}

/// The lines of `b`, as [`lines_spec`] says.
pub fn split_lines(b: &[u8]) -> (r: Vec<Vec<u8>>)
    ensures
        r@.len() == lines_spec(b@).len(),
        forall|i: int| 0 <= i < r@.len() ==> #[trigger] r@[i]@ == lines_spec(b@)[i],
{
    let pieces = split_bytes(b, NEWLINE);
    let ghost p = split_spec(b@, NEWLINE);
    let last_empty = pieces[pieces.len() - 1].len() == 0;
    let n = if last_empty {
        pieces.len() - 1
    } else {
        pieces.len()
    };
    let mut out: Vec<Vec<u8>> = Vec::new();
    let mut i: usize = 0;
    while i < n
        invariant
            i <= n,
            n <= pieces@.len(),
            p == split_spec(b@, NEWLINE),
            pieces@.len() == p.len(),
            forall|k: int| 0 <= k < pieces@.len() ==> #[trigger] pieces@[k]@ == p[k],
            n == lines_spec(b@).len(),
            out@.len() == i,
            forall|k: int| 0 <= k < i ==> #[trigger] out@[k]@ == lines_spec(b@)[k],
        decreases n - i,
    {
        let piece = &pieces[i];
        let mut line: Vec<u8> = Vec::new();
        let stripped = i + 1 < pieces.len() && piece.len() > 0 && piece[piece.len() - 1] == CARRIAGE_RETURN;
        let keep = if stripped {
            piece.len() - 1
        } else {
            piece.len()
        };
        let mut j: usize = 0;
        while j < keep
            invariant
                j <= keep,
                keep <= piece@.len(),
                line@ == piece@.subrange(0, j as int),
            decreases keep - j,
        {
            line.push(piece[j]);
            j = j + 1;
        }
        proof {
            assert(piece@ == p[i as int]);
            if stripped {
                assert(line@ =~= strip_cr(p[i as int]));
            } else {
                assert(line@ =~= p[i as int]);
                assert(i + 1 < pieces.len() ==> strip_cr(p[i as int]) == p[i as int]);
            }
        }
        out.push(line);
        i = i + 1;
    }
    out
}

// ---------------------------------------------------------------------------------------
// Integers
// ---------------------------------------------------------------------------------------

/// An ASCII digit.
pub open spec fn is_digit(c: u8) -> bool {
    48 <= c <= 57
}

/// The value of a run of decimal digits.
pub open spec fn digits_value(s: Seq<u8>) -> int
    decreases s.len(),
{
    if s.len() == 0 {
        0
    } else {
        digits_value(s.drop_last()) * 10 + (s.last() - 48)
    }
}

/// The sign and the digits of a decimal text: a leading `-` (when allowed) or `+` is
/// taken off.
pub open spec fn signed_digits(s: Seq<u8>, allow_minus: bool) -> (bool, Seq<u8>) {
    if s.len() > 0 && s[0] == 45 && allow_minus {
        (true, s.drop_first())
    } else if s.len() > 0 && s[0] == 43 {
        (false, s.drop_first())
    } else {
        (false, s)
    }
}

/// `str::parse` of a decimal integer in `[lo, hi]`: an optional sign, then one or more
/// digits, and nothing else; `None` when malformed or out of range.
pub open spec fn parse_int_spec(s: Seq<u8>, allow_minus: bool, lo: int, hi: int) -> Option<int> {
    let (neg, d) = signed_digits(s, allow_minus);
    if d.len() == 0 || !(forall|k: int| 0 <= k < d.len() ==> is_digit(#[trigger] d[k])) {
        None
    } else {
        let v = if neg {
            -digits_value(d)
        } else {
            digits_value(d)
        };
        if lo <= v <= hi {
            Some(v)
        } else {
            None
        }
    }
}

proof fn lemma_digits_value_grows(s: Seq<u8>, k: int)
    requires
        0 <= k <= s.len(),
        forall|j: int| 0 <= j < s.len() ==> is_digit(#[trigger] s[j]),
    ensures
        digits_value(s.subrange(0, k)) <= digits_value(s),
        0 <= digits_value(s),
    decreases s.len(),
{
    if s.len() > 0 {
        let t = s.drop_last();
        assert forall|j: int| 0 <= j < t.len() implies is_digit(#[trigger] t[j]) by {
            assert(t[j] == s[j]);
        }
        if k == s.len() {
            assert(s.subrange(0, k) =~= s);
            lemma_digits_value_grows(t, 0);
        } else {
            assert(s.subrange(0, k) =~= t.subrange(0, k));
            lemma_digits_value_grows(t, k);
        }
    } else {
        assert(s.subrange(0, k) =~= s);
    }
}

/// Parse `s` as [`parse_int_spec`] says, for a range inside `[-2^32, 2^32]`.
fn parse_int(s: &[u8], allow_minus: bool, lo: i64, hi: i64) -> (r: Option<i64>)
    requires
        -0x1_0000_0000 <= lo,
        hi <= 0x1_0000_0000,
    ensures
        r matches Some(v) ==> parse_int_spec(s@, allow_minus, lo as int, hi as int) == Some(v as int),
        r is None ==> parse_int_spec(s@, allow_minus, lo as int, hi as int) is None,
{
    let ghost (neg_s, d) = signed_digits(s@, allow_minus);
    let mut start: usize = 0;
    let mut neg = false;
    if s.len() > 0 && s[0] == 45 && allow_minus {
        neg = true;
        start = 1;
    } else if s.len() > 0 && s[0] == 43 {
        start = 1;
    }
    assert(d =~= s@.subrange(start as int, s@.len() as int));
    assert(neg == neg_s);
    if start >= s.len() {
        return None;
    }
    let mut acc: i64 = 0;
    let mut i: usize = start;
    while i < s.len()
        invariant
            start <= i <= s.len(),
            start < s.len(),
            (neg_s, d) == signed_digits(s@, allow_minus),
            -0x1_0000_0000 <= lo,
            hi <= 0x1_0000_0000,
            d =~= s@.subrange(start as int, s@.len() as int),
            forall|k: int| 0 <= k < i - start ==> is_digit(#[trigger] d[k]),
            acc == digits_value(d.subrange(0, i - start)),
            0 <= acc <= 0x1_0000_0000,
        decreases s.len() - i,
    {
        let c = s[i];
        if !(48 <= c && c <= 57) {
            assert(!is_digit(d[i - start]));
            return None;
        }
        assert(d.subrange(0, i + 1 - start).drop_last() =~= d.subrange(0, i - start));
        let next = acc * 10 + (c - 48) as i64;
        if next > 0x1_0000_0000 {
            proof {
                assert(digits_value(d.subrange(0, i + 1 - start)) == next);
                if forall|k: int| 0 <= k < d.len() ==> is_digit(#[trigger] d[k]) {
                    lemma_digits_value_grows(d, i + 1 - start);
                }
            }
            return None;
        }
        acc = next;
        i = i + 1;
    }
    assert(d.subrange(0, i - start) =~= d);
    let v = if neg {
        -acc
    } else {
        acc
    };
    if lo <= v && v <= hi {
        Some(v)
    } else {
        None
    }
}

// ---------------------------------------------------------------------------------------
// The table
// ---------------------------------------------------------------------------------------

/// One admitted scalar slice of post-load `UnitTypeData`.
#[derive(Clone, Copy, PartialEq, Eq, Debug, Default)]
pub struct UnitTypeStatRow {
    pub type_id: i32,
    pub from: i32,
    pub where_type: i32,
    pub obj_masks: u32,
    pub armor: i32,
    pub domain: i32,
    pub graft: i32,
    pub unit_flags: u32,
    pub unit_flags2: u32,
    pub moves: i32,
}

/// Why a capture was refused.
#[derive(Clone, Copy, PartialEq, Eq, Debug)]
pub enum UnitTypeStatSourceError {
    UnsupportedExecutable,
    UnsupportedTable,
    MissingHeader,
    MissingColumn(&'static str),
    WrongRowCount { got: usize },
    ShortRow { line: usize },
    InvalidInteger { line: usize, column: &'static str },
    TypeIdOutOfRange { line: usize, type_id: i32 },
    DuplicateType { type_id: i32 },
    MissingType { type_id: i32 },
    RelationOutOfRange { type_id: i32, column: &'static str, target: i32 },
}

/// A validated runtime-owned source for the two Unit stat bodies: rows indexed by type,
/// present exactly for the admitted types `50..414`.
#[derive(Clone, PartialEq, Eq, Debug)]
pub struct UnitTypeStatSource {
    provenance: UnitTypeStatSourceProvenance,
    rows: Vec<Option<UnitTypeStatRow>>,
}

/// The ten columns read, in the order the row is read.
pub open spec fn column_name(k: int) -> &'static str {
    if k == 0 {
        "type_id"
    } else if k == 1 {
        "from"
    } else if k == 2 {
        "where"
    } else if k == 3 {
        "obj_masks"
    } else if k == 4 {
        "armor"
    } else if k == 5 {
        "domain"
    } else if k == 6 {
        "graft"
    } else if k == 7 {
        "unit_flags"
    } else if k == 8 {
        "unit_flags2"
    } else {
        "moves"
    }
}

/// The unsigned columns: the object masks and the two unit flag words.
pub open spec fn column_unsigned(k: int) -> bool {
    k == 3 || k == 7 || k == 8
}

/// A cell of column `k` parsed as its type: `u32` for the unsigned columns, else `i32`.
pub open spec fn parse_cell(cell: Seq<u8>, k: int) -> Option<int> {
    if column_unsigned(k) {
        parse_int_spec(cell, false, 0, 0xFFFF_FFFF)
    } else {
        parse_int_spec(cell, true, -0x8000_0000, 0x7FFF_FFFF)
    }
}

/// The first position from `i` on of `name` among the header names.
pub open spec fn column_from(names: Seq<Seq<u8>>, name: Seq<u8>, i: nat) -> Option<usize>
    decreases names.len() - i,
{
    if i >= names.len() {
        None
    } else if names[i as int] == name {
        Some(i as usize)
    } else {
        column_from(names, name, i + 1)
    }
}

/// The positions of the first `k` columns, or the first one missing.
pub open spec fn resolve_columns(names: Seq<Seq<u8>>, k: nat) -> Result<Seq<usize>, UnitTypeStatSourceError>
    decreases k,
{
    if k == 0 {
        Ok(Seq::empty())
    } else {
        match resolve_columns(names, (k - 1) as nat) {
            Err(e) => Err(e),
            Ok(cs) => match column_from(names, column_name(k - 1).spec_bytes(), 0) {
                None => Err(UnitTypeStatSourceError::MissingColumn(column_name(k - 1))),
                Some(c) => Ok(cs.push(c)),
            },
        }
    }
}

/// The largest of the positions, zero for none.
pub open spec fn max_column(cs: Seq<usize>) -> usize
    decreases cs.len(),
{
    if cs.len() == 0 {
        0
    } else {
        let m = max_column(cs.drop_last());
        if cs.last() > m {
            cs.last()
        } else {
            m
        }
    }
}

/// The values of the first `k` columns of a row, or the first column that does not parse.
pub open spec fn row_values(cells: Seq<Seq<u8>>, cs: Seq<usize>, k: nat) -> Result<Seq<int>, int>
    decreases k,
{
    if k == 0 {
        Ok(Seq::empty())
    } else {
        match row_values(cells, cs, (k - 1) as nat) {
            Err(c) => Err(c),
            Ok(vs) => match parse_cell(cells[cs[k - 1] as int], k - 1) {
                None => Err(k - 1),
                Some(v) => Ok(vs.push(v)),
            },
        }
    }
}

/// The row the ten values make.
pub open spec fn row_of(vs: Seq<int>) -> UnitTypeStatRow {
    UnitTypeStatRow {
        type_id: vs[0] as i32,
        from: vs[1] as i32,
        where_type: vs[2] as i32,
        obj_masks: vs[3] as u32,
        armor: vs[4] as i32,
        domain: vs[5] as i32,
        graft: vs[6] as i32,
        unit_flags: vs[7] as u32,
        unit_flags2: vs[8] as u32,
        moves: vs[9] as i32,
    }
}

/// One data line, numbered `line` in the file: too few cells, then the first column that
/// does not parse, then a type outside `50..414`, are refused in that order.
pub open spec fn row_spec(cells: Seq<Seq<u8>>, cs: Seq<usize>, line: usize) -> Result<UnitTypeStatRow, UnitTypeStatSourceError> {
    if cells.len() <= max_column(cs) {
        Err(UnitTypeStatSourceError::ShortRow { line })
    } else {
        match row_values(cells, cs, 10) {
            Err(k) => Err(UnitTypeStatSourceError::InvalidInteger { line, column: column_name(k) }),
            Ok(vs) => {
                let row = row_of(vs);
                if !(UNIT_TYPE_STAT_FIRST <= row.type_id < UNIT_TYPE_STAT_END) {
                    Err(UnitTypeStatSourceError::TypeIdOutOfRange { line, type_id: row.type_id })
                } else {
                    Ok(row)
                }
            },
        }
    }
}

/// The table after the first `n` data lines: each row stored at its type, a second row
/// of a type refused.
pub open spec fn table_fold(data: Seq<Seq<u8>>, cs: Seq<usize>, n: nat) -> Result<Seq<Option<UnitTypeStatRow>>, UnitTypeStatSourceError>
    decreases n,
{
    if n == 0 {
        Ok(Seq::new(UNIT_TYPE_STAT_END as nat, |i: int| None::<UnitTypeStatRow>))
    } else {
        match table_fold(data, cs, (n - 1) as nat) {
            Err(e) => Err(e),
            Ok(t) => match row_spec(split_spec(data[n - 1], TAB), cs, (n + 1) as usize) {
                Err(e) => Err(e),
                Ok(row) => if t[row.type_id as int] is Some {
                    Err(UnitTypeStatSourceError::DuplicateType { type_id: row.type_id })
                } else {
                    Ok(t.update(row.type_id as int, Some(row)))
                },
            },
        }
    }
}

/// A `from` or `graft` relation that is neither absent (`-1`) nor an admitted type.
pub open spec fn relation_bad(target: i32) -> bool {
    target != -1 && !(UNIT_TYPE_STAT_FIRST <= target < UNIT_TYPE_STAT_END)
}

/// The first refusal of the closing pass from type `id` on: a missing type, then its
/// `from`, then its `graft` relation.
pub open spec fn closing_refusal(t: Seq<Option<UnitTypeStatRow>>, id: int) -> Option<UnitTypeStatSourceError>
    decreases UNIT_TYPE_STAT_END - id,
{
    if id >= UNIT_TYPE_STAT_END {
        None
    } else {
        match t[id] {
            None => Some(UnitTypeStatSourceError::MissingType { type_id: id as i32 }),
            Some(row) => if relation_bad(row.from) {
                Some(UnitTypeStatSourceError::RelationOutOfRange { type_id: id as i32, column: "from", target: row.from })
            } else if relation_bad(row.graft) {
                Some(UnitTypeStatSourceError::RelationOutOfRange { type_id: id as i32, column: "graft", target: row.graft })
            } else {
                closing_refusal(t, id + 1)
            },
        }
    }
}

/// What admitting and parsing a capture gives: the identities checked first (executable,
/// then table), then a header line naming all ten columns, exactly 364 data lines, every
/// row well formed and of a distinct type, and every admitted type present with in-range
/// relations.
pub open spec fn live_table_spec(
    b: Seq<u8>,
    provenance: UnitTypeStatSourceProvenance,
    supported_executable: [u8; 32],
) -> Result<Seq<Option<UnitTypeStatRow>>, UnitTypeStatSourceError> {
    if provenance.executable_sha256@ != supported_executable@ {
        Err(UnitTypeStatSourceError::UnsupportedExecutable)
    } else if provenance.table_sha256@ != SUPPORTED_UNIT_TYPE_STAT_TSV_SHA256@ {
        Err(UnitTypeStatSourceError::UnsupportedTable)
    } else {
        let ls = lines_spec(b);
        if ls.len() == 0 {
            Err(UnitTypeStatSourceError::MissingHeader)
        } else {
            match resolve_columns(split_spec(ls[0], TAB), 10) {
                Err(e) => Err(e),
                Ok(cs) => {
                    let data = ls.drop_first();
                    if data.len() != UNIT_TYPE_STAT_ROWS {
                        Err(UnitTypeStatSourceError::WrongRowCount { got: data.len() as usize })
                    } else {
                        match table_fold(data, cs, UNIT_TYPE_STAT_ROWS as nat) {
                            Err(e) => Err(e),
                            Ok(t) => match closing_refusal(t, UNIT_TYPE_STAT_FIRST as int) {
                                Some(e) => Err(e),
                                None => Ok(t),
                            },
                        }
                    }
                },
            }
        }
    }
}

fn column_name_at(k: usize) -> (r: &'static str)
    ensures
        r == column_name(k as int),
{
    if k == 0 {
        "type_id"
    } else if k == 1 {
        "from"
    } else if k == 2 {
        "where"
    } else if k == 3 {
        "obj_masks"
    } else if k == 4 {
        "armor"
    } else if k == 5 {
        "domain"
    } else if k == 6 {
        "graft"
    } else if k == 7 {
        "unit_flags"
    } else if k == 8 {
        "unit_flags2"
    } else {
        "moves"
    }
}

/// Whether two byte strings are equal.
fn same_bytes(a: &[u8], b: &[u8]) -> (r: bool)
    ensures
        r == (a@ == b@),
{
    if a.len() != b.len() {
        return false;
    }
    let mut i: usize = 0;
    while i < a.len()
        invariant
            i <= a.len(),
            a.len() == b.len(),
            forall|k: int| 0 <= k < i ==> a@[k] == b@[k],
        decreases a.len() - i,
    {
        if a[i] != b[i] {
            return false;
        }
        i = i + 1;
    }
    assert(a@ =~= b@);
    true
}

/// The position of column `k` in the header, as [`column_from`] says from the start.
fn find_column(names: &Vec<Vec<u8>>, k: usize) -> (r: Option<usize>)
    ensures
        r == column_from(names@.map_values(|v: Vec<u8>| v@), column_name(k as int).spec_bytes(), 0),
{
    let ghost ns = names@.map_values(|v: Vec<u8>| v@);
    let name = column_name_at(k).as_bytes();
    let mut i: usize = 0;
    while i < names.len()
        invariant
            i <= names.len(),
            ns == names@.map_values(|v: Vec<u8>| v@),
            name@ == column_name(k as int).spec_bytes(),
            column_from(ns, name@, 0) == column_from(ns, name@, i as nat),
        decreases names.len() - i,
    {
        assert(ns[i as int] == names@[i as int]@);
        if same_bytes(names[i].as_slice(), name) {
            return Some(i);
        }
        i = i + 1;
    }
    None
}

impl UnitTypeStatSource {
    /// The rows, indexed by type.
    pub closed spec fn rows_spec(&self) -> Seq<Option<UnitTypeStatRow>> {
        self.rows@
    }

    /// The identities the source was admitted with.
    pub closed spec fn provenance_spec(&self) -> UnitTypeStatSourceProvenance {
        self.provenance
    }

    /// The identities the source was admitted with.
    pub fn provenance(&self) -> (r: UnitTypeStatSourceProvenance)
        ensures
            r == self.provenance_spec(),
    {
        self.provenance
    }

    /// The admitted row of `type_id`; `None` outside the table or for a type not admitted.
    pub fn row(&self, type_id: i32) -> (r: Option<UnitTypeStatRow>)
        ensures
            r == if 0 <= type_id < self.rows_spec().len() {
                self.rows_spec()[type_id as int]
            } else {
                None
            },
    {
        if type_id < 0 || type_id as usize >= self.rows.len() {
            None
        } else {
            self.rows[type_id as usize]
        }
    }
}

/// The view of a list of byte strings.
pub open spec fn views(v: Seq<Vec<u8>>) -> Seq<Seq<u8>> {
    v.map_values(|x: Vec<u8>| x@)
}

proof fn lemma_max_column_bounds(cs: Seq<usize>)
    ensures
        forall|k: int| 0 <= k < cs.len() ==> cs[k] <= max_column(cs),
    decreases cs.len(),
{
    if cs.len() > 0 {
        lemma_max_column_bounds(cs.drop_last());
        assert forall|k: int| 0 <= k < cs.len() implies cs[k] <= max_column(cs) by {
            if k < cs.len() - 1 {
                assert(cs[k] == cs.drop_last()[k]);
            }
        }
    }
}

proof fn lemma_row_values_error_stays(cells: Seq<Seq<u8>>, cs: Seq<usize>, n: nat, m: nat)
    requires
        n <= m,
        row_values(cells, cs, n) is Err,
    ensures
        row_values(cells, cs, m) == row_values(cells, cs, n),
    decreases m - n,
{
    if n < m {
        lemma_row_values_error_stays(cells, cs, n, (m - 1) as nat);
    }
}

/// Parse one data line's cells, as [`row_spec`] says.
fn parse_row(cells: &Vec<Vec<u8>>, cols: &Vec<usize>, max_col: usize, line: usize) -> (r: Result<UnitTypeStatRow, UnitTypeStatSourceError>)
    requires
        cols@.len() == 10,
        max_col == max_column(cols@),
    ensures
        r == row_spec(views(cells@), cols@, line),
{
    let ghost cs = views(cells@);
    if cells.len() <= max_col {
        return Err(UnitTypeStatSourceError::ShortRow { line });
    }
    proof {
        lemma_max_column_bounds(cols@);
    }
    let mut vals: Vec<i64> = Vec::new();
    assert(vals@.map_values(|x: i64| x as int) =~= Seq::<int>::empty());
    let mut k: usize = 0;
    while k < 10
        invariant
            k <= 10,
            cols@.len() == 10,
            cs == views(cells@),
            cells@.len() > max_col,
            max_col == max_column(cols@),
            forall|j: int| 0 <= j < 10 ==> cols@[j] <= max_col,
            vals@.len() == k,
            row_values(cs, cols@, k as nat) == Ok::<Seq<int>, int>(vals@.map_values(|x: i64| x as int)),
            forall|j: int|
                0 <= j < k ==> if column_unsigned(j) {
                    0 <= #[trigger] vals@[j] <= 0xFFFF_FFFF
                } else {
                    -0x8000_0000 <= vals@[j] <= 0x7FFF_FFFF
                },
        decreases 10 - k,
    {
        let c = cols[k];
        let cell = cells[c].as_slice();
        assert(cell@ == cs[c as int]);
        let unsigned = k == 3 || k == 7 || k == 8;
        let parsed = if unsigned {
            parse_int(cell, false, 0, 0xFFFF_FFFF)
        } else {
            parse_int(cell, true, -0x8000_0000, 0x7FFF_FFFF)
        };
        match parsed {
            None => {
                proof {
                    assert(parse_cell(cs[c as int], k as int) is None);
                    assert(row_values(cs, cols@, (k + 1) as nat) == Err::<Seq<int>, int>(k as int));
                    lemma_row_values_error_stays(cs, cols@, (k + 1) as nat, 10);
                }
                return Err(UnitTypeStatSourceError::InvalidInteger { line, column: column_name_at(k) });
            },
            Some(v) => {
                let ghost before = vals@;
                vals.push(v);
                assert(vals@.map_values(|x: i64| x as int) =~= before.map_values(|x: i64| x as int).push(v as int));
            },
        }
        k = k + 1;
    }
    let row = UnitTypeStatRow {
        type_id: vals[0] as i32,
        from: vals[1] as i32,
        where_type: vals[2] as i32,
        obj_masks: vals[3] as u32,
        armor: vals[4] as i32,
        domain: vals[5] as i32,
        graft: vals[6] as i32,
        unit_flags: vals[7] as u32,
        unit_flags2: vals[8] as u32,
        moves: vals[9] as i32,
    };
    assert(row == row_of(vals@.map_values(|x: i64| x as int)));
    if row.type_id < UNIT_TYPE_STAT_FIRST || row.type_id >= UNIT_TYPE_STAT_END {
        return Err(UnitTypeStatSourceError::TypeIdOutOfRange { line, type_id: row.type_id });
    }
    Ok(row)
}

proof fn lemma_table_error_stays(data: Seq<Seq<u8>>, cs: Seq<usize>, n: nat, m: nat)
    requires
        n <= m,
        table_fold(data, cs, n) is Err,
    ensures
        table_fold(data, cs, m) == table_fold(data, cs, n),
    decreases m - n,
{
    if n < m {
        lemma_table_error_stays(data, cs, n, (m - 1) as nat);
    }
}

/// The table of the 364 data lines (`lines` from its second entry), as [`table_fold`] says.
fn build_table(lines: &Vec<Vec<u8>>, cols: &Vec<usize>, max_col: usize) -> (r: Result<Vec<Option<UnitTypeStatRow>>, UnitTypeStatSourceError>)
    requires
        lines@.len() == UNIT_TYPE_STAT_ROWS + 1,
        cols@.len() == 10,
        max_col == max_column(cols@),
    ensures
        match (r, table_fold(views(lines@).drop_first(), cols@, UNIT_TYPE_STAT_ROWS as nat)) {
            (Ok(t), Ok(u)) => t@ == u && t@.len() == 414,
            (Err(e), Err(f)) => e == f,
            _ => false,
        },
{
    let ghost data = views(lines@).drop_first();
    let mut table: Vec<Option<UnitTypeStatRow>> = Vec::new();
    let mut i: usize = 0;
    while i < 414
        invariant
            i <= 414,
            table@.len() == i,
            forall|k: int| 0 <= k < i ==> table@[k] is None,
        decreases 414 - i,
    {
        table.push(None);
        i = i + 1;
    }
    assert(table@ =~= Seq::new(UNIT_TYPE_STAT_END as nat, |i: int| None::<UnitTypeStatRow>));
    let mut n: usize = 0;
    while n < UNIT_TYPE_STAT_ROWS
        invariant
            n <= UNIT_TYPE_STAT_ROWS,
            lines@.len() == UNIT_TYPE_STAT_ROWS + 1,
            data == views(lines@).drop_first(),
            cols@.len() == 10,
            max_col == max_column(cols@),
            table_fold(data, cols@, n as nat) == Ok::<Seq<Option<UnitTypeStatRow>>, UnitTypeStatSourceError>(table@),
            table@.len() == 414,
        decreases UNIT_TYPE_STAT_ROWS - n,
    {
        let cells = split_bytes(lines[n + 1].as_slice(), TAB);
        assert(data[n as int] == lines@[n + 1]@);
        assert(views(cells@) =~= split_spec(data[n as int], TAB));
        match parse_row(&cells, cols, max_col, n + 2) {
            Err(e) => {
                proof {
                    lemma_table_error_stays(data, cols@, (n + 1) as nat, UNIT_TYPE_STAT_ROWS as nat);
                }
                return Err(e);
            },
            Ok(row) => {
                let index = row.type_id as usize;
                if table[index].is_some() {
                    proof {
                        lemma_table_error_stays(data, cols@, (n + 1) as nat, UNIT_TYPE_STAT_ROWS as nat);
                    }
                    return Err(UnitTypeStatSourceError::DuplicateType { type_id: row.type_id });
                }
                table[index] = Some(row);
            },
        }
        n = n + 1;
    }
    Ok(table)
}

/// The closing pass over the admitted types, as [`closing_refusal`] says.
fn closing_pass(table: &Vec<Option<UnitTypeStatRow>>) -> (r: Option<UnitTypeStatSourceError>)
    requires
        table@.len() == 414,
    ensures
        r == closing_refusal(table@, UNIT_TYPE_STAT_FIRST as int),
{
    let mut id: i32 = UNIT_TYPE_STAT_FIRST;
    while id < UNIT_TYPE_STAT_END
        invariant
            UNIT_TYPE_STAT_FIRST <= id <= UNIT_TYPE_STAT_END,
            table@.len() == 414,
            closing_refusal(table@, UNIT_TYPE_STAT_FIRST as int) == closing_refusal(table@, id as int),
        decreases UNIT_TYPE_STAT_END - id,
    {
        match table[id as usize] {
            None => {
                return Some(UnitTypeStatSourceError::MissingType { type_id: id });
            },
            Some(row) => {
                if row.from != -1 && !(UNIT_TYPE_STAT_FIRST <= row.from && row.from < UNIT_TYPE_STAT_END) {
                    return Some(UnitTypeStatSourceError::RelationOutOfRange { type_id: id, column: "from", target: row.from });
                }
                if row.graft != -1 && !(UNIT_TYPE_STAT_FIRST <= row.graft && row.graft < UNIT_TYPE_STAT_END) {
                    return Some(UnitTypeStatSourceError::RelationOutOfRange { type_id: id, column: "graft", target: row.graft });
                }
            },
        }
        id = id + 1;
    }
    None
}

/// The header's column positions, as [`resolve_columns`] says for all ten.
fn resolve_header(names: &Vec<Vec<u8>>) -> (r: Result<Vec<usize>, UnitTypeStatSourceError>)
    ensures
        match (r, resolve_columns(views(names@), 10)) {
            (Ok(c), Ok(d)) => c@ == d && c@.len() == 10,
            (Err(e), Err(f)) => e == f,
            _ => false,
        },
{
    let mut cols: Vec<usize> = Vec::new();
    let mut k: usize = 0;
    while k < 10
        invariant
            k <= 10,
            cols@.len() == k,
            resolve_columns(views(names@), k as nat) == Ok::<Seq<usize>, UnitTypeStatSourceError>(cols@),
        decreases 10 - k,
    {
        assert(views(names@) =~= names@.map_values(|v: Vec<u8>| v@));
        match find_column(names, k) {
            None => {
                proof {
                    lemma_columns_error_stays(views(names@), (k + 1) as nat, 10);
                }
                return Err(UnitTypeStatSourceError::MissingColumn(column_name_at(k)));
            },
            Some(c) => {
                cols.push(c);
            },
        }
        k = k + 1;
    }
    Ok(cols)
}

/// The largest column position.
fn max_of(cols: &Vec<usize>) -> (r: usize)
    ensures
        r == max_column(cols@),
{
    let mut max_col: usize = 0;
    let mut j: usize = 0;
    while j < cols.len()
        invariant
            j <= cols@.len(),
            max_col == max_column(cols@.subrange(0, j as int)),
        decreases cols.len() - j,
    {
        assert(cols@.subrange(0, j + 1).drop_last() =~= cols@.subrange(0, j as int));
        if cols[j] > max_col {
            max_col = cols[j];
        }
        j = j + 1;
    }
    assert(cols@.subrange(0, cols@.len() as int) =~= cols@);
    max_col
}

/// Whether two digests are equal.
fn same_digest(a: &[u8; 32], b: &[u8; 32]) -> (r: bool)
    ensures
        r == (a@ == b@),
{
    same_bytes(a.as_slice(), b.as_slice())
}

impl UnitTypeStatSource {
    /// Admit and parse a supported local post-load capture after its host computed both
    /// identities: the executable digest must be `supported_executable`, the table digest
    /// the supported one; the text then has a header naming the ten columns (in any
    /// order), exactly 364 data lines whose cells parse as the columns' integer types, one
    /// line per type `50..414`, and `from`/`graft` relations that are absent or admitted.
    /// The first refusal, in that order, is the error.
    pub fn from_live_tsv(
        tsv: &str,
        provenance: UnitTypeStatSourceProvenance,
        supported_executable: [u8; 32],
    ) -> (r: Result<Self, UnitTypeStatSourceError>)
        ensures
            match (r, live_table_spec(tsv.spec_bytes(), provenance, supported_executable)) {
                (Ok(source), Ok(t)) => source.rows_spec() == t && source.provenance_spec() == provenance,
                (Err(e), Err(f)) => e == f,
                _ => false,
            },
    {
        if !same_digest(&provenance.executable_sha256, &supported_executable) {
            return Err(UnitTypeStatSourceError::UnsupportedExecutable);
        }
        if !same_digest(&provenance.table_sha256, &SUPPORTED_UNIT_TYPE_STAT_TSV_SHA256) {
            return Err(UnitTypeStatSourceError::UnsupportedTable);
        }
        let bytes = tsv.as_bytes();
        let lines = split_lines(bytes);
        let ghost ls = lines_spec(bytes@);
        assert(views(lines@) =~= ls);
        if lines.len() == 0 {
            return Err(UnitTypeStatSourceError::MissingHeader);
        }
        let names = split_bytes(lines[0].as_slice(), TAB);
        assert(views(names@) =~= split_spec(ls[0], TAB));
        let cols = match resolve_header(&names) {
            Ok(c) => c,
            Err(e) => {
                return Err(e);
            },
        };
        let max_col = max_of(&cols);
        if lines.len() - 1 != UNIT_TYPE_STAT_ROWS {
            return Err(UnitTypeStatSourceError::WrongRowCount { got: lines.len() - 1 });
        }
        let table = match build_table(&lines, &cols, max_col) {
            Ok(t) => t,
            Err(e) => {
                return Err(e);
            },
        };
        match closing_pass(&table) {
            Some(e) => Err(e),
            None => Ok(UnitTypeStatSource { provenance, rows: table }),
        }
    }
}

proof fn lemma_columns_error_stays(names: Seq<Seq<u8>>, n: nat, m: nat)
    requires
        n <= m,
        resolve_columns(names, n) is Err,
    ensures
        resolve_columns(names, m) == resolve_columns(names, n),
    decreases m - n,
{
    if n < m {
        lemma_columns_error_stays(names, n, (m - 1) as nat);
    }
}

// ---------------------------------------------------------------------------------------
// Type lineage
// ---------------------------------------------------------------------------------------

/// The admitted row of `type_id` in a row table, `None` outside it.
pub open spec fn row_at(rows: Seq<Option<UnitTypeStatRow>>, type_id: i32) -> Option<UnitTypeStatRow> {
    if 0 <= type_id < rows.len() {
        rows[type_id as int]
    } else {
        None
    }
}

/// `ObjectTypeData::is(type, 0)` over the table, with at most `fuel` rows visited: the
/// type itself or its graft is the target, else its `from` ancestor is asked in turn; a
/// root answers no. A missing row, or a chain longer than the fuel, is a missing fact.
pub open spec fn unit_is_spec(rows: Seq<Option<UnitTypeStatRow>>, type_id: i32, target: i32, fuel: nat) -> Option<bool>
    decreases fuel,
{
    if fuel == 0 {
        None
    } else {
        match row_at(rows, type_id) {
            None => None,
            Some(row) => if row.type_id == target || row.graft == target {
                Some(true)
            } else if row.from < 0 {
                Some(false)
            } else {
                unit_is_spec(rows, row.from, target, (fuel - 1) as nat)
            },
        }
    }
}

/// The lineage fuel: one visit per table row, and at least one.
pub open spec fn lineage_fuel(rows: Seq<Option<UnitTypeStatRow>>) -> nat {
    if rows.len() > 1 {
        rows.len()
    } else {
        1
    }
}

/// Whether `type_id` is, or descends from, `target`, as [`unit_is_spec`] says with the
/// lineage fuel.
pub fn shipped_unit_is(source: &UnitTypeStatSource, type_id: i32, target: i32) -> (r: Option<bool>)
    ensures
        r == unit_is_spec(source.rows_spec(), type_id, target, lineage_fuel(source.rows_spec())),
{
    let mut remaining: usize = if source.rows.len() > 1 {
        source.rows.len()
    } else {
        1
    };
    let mut t = type_id;
    while remaining != 0
        invariant
            unit_is_spec(source.rows_spec(), type_id, target, lineage_fuel(source.rows_spec()))
                == unit_is_spec(source.rows_spec(), t, target, remaining as nat),
        decreases remaining,
    {
        remaining = remaining - 1;
        let row = match source.row(t) {
            Some(row) => row,
            None => {
                return None;
            },
        };
        if row.type_id == target || row.graft == target {
            return Some(true);
        }
        if row.from < 0 {
            return Some(false);
        }
        t = row.from;
    }
    None
}

// ---------------------------------------------------------------------------------------
// What an admitted table holds
// ---------------------------------------------------------------------------------------

/// A table of the first `n` lines holds rows only at their own type, only inside the
/// admitted range.
proof fn lemma_table_fold_shape(data: Seq<Seq<u8>>, cs: Seq<usize>, n: nat)
    requires
        table_fold(data, cs, n) is Ok,
    ensures
        ({
            let t = table_fold(data, cs, n)->Ok_0;
            &&& t.len() == UNIT_TYPE_STAT_END
            &&& forall|id: int|
                0 <= id < t.len() && (#[trigger] t[id]) is Some ==> UNIT_TYPE_STAT_FIRST <= id && t[id]->Some_0.type_id == id
        }),
    decreases n,
{
    if n > 0 {
        lemma_table_fold_shape(data, cs, (n - 1) as nat);
    }
}

/// A closing pass without refusal from `id` on sees every type from `id` up present.
proof fn lemma_closing_pass_complete(t: Seq<Option<UnitTypeStatRow>>, id: int)
    requires
        closing_refusal(t, id) is None,
    ensures
        forall|k: int| id <= k < UNIT_TYPE_STAT_END ==> (#[trigger] t[k]) is Some,
    decreases UNIT_TYPE_STAT_END - id,
{
    if id < UNIT_TYPE_STAT_END {
        lemma_closing_pass_complete(t, id + 1);
    }
}

/// An admitted capture gives a complete table: the row of every type `50..414`, stored at
/// its own type, and nothing below `50`.
pub proof fn lemma_admitted_table_is_complete(
    b: Seq<u8>,
    provenance: UnitTypeStatSourceProvenance,
    supported_executable: [u8; 32],
)
    requires
        live_table_spec(b, provenance, supported_executable) is Ok,
    ensures
        ({
            let t = live_table_spec(b, provenance, supported_executable)->Ok_0;
            &&& t.len() == UNIT_TYPE_STAT_END
            &&& forall|id: int|
                0 <= id < UNIT_TYPE_STAT_END ==> ((#[trigger] t[id]) is Some <==> UNIT_TYPE_STAT_FIRST <= id)
            &&& forall|id: int| UNIT_TYPE_STAT_FIRST <= id < UNIT_TYPE_STAT_END ==> (#[trigger] t[id])->Some_0.type_id == id
        }),
{
    let ls = lines_spec(b);
    let cs = resolve_columns(split_spec(ls[0], TAB), 10)->Ok_0;
    let data = ls.drop_first();
    lemma_table_fold_shape(data, cs, UNIT_TYPE_STAT_ROWS as nat);
    let t = table_fold(data, cs, UNIT_TYPE_STAT_ROWS as nat)->Ok_0;
    lemma_closing_pass_complete(t, UNIT_TYPE_STAT_FIRST as int);
}

} // verus!
