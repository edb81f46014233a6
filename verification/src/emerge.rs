use crate::movement::MovePattern;
use crate::text::{
    find_byte, first_byte, parse_int, parse_milli, spec_parse_int, spec_parse_milli, strip_cr,
    strip_cr_slice,
};
use crate::vec3::Vec3;
use vstd::prelude::*;
use vstd::slice::{slice_subrange, slice_to_vec};

verus! {

/// What is wrong with a spawn-timeline row.
#[derive(Clone, Copy, PartialEq, Eq, Structural, Debug)]
pub enum RowErrorKind {
    /// The row does not have exactly six comma-separated fields.
    FieldCount,
    /// A frame or trigger field is not a well-formed integer.
    BadInteger,
    /// A coordinate field is not a well-formed decimal number.
    BadDecimal,
    /// The movement-pattern selector is no known pattern index.
    BadMovePattern,
}

/// A load-time failure of the spawn timeline: the first offending
/// line (one-based, the header being line one) and what is wrong
/// with it.
#[derive(Clone, Copy, PartialEq, Eq, Structural, Debug)]
pub struct TimelineError {
    pub line: usize,
    pub kind: RowErrorKind,
}

/// One row of the spawn timeline: when and where an enemy appears,
/// how it moves, and which barrage it starts at which lifetime.
#[derive(Clone, Debug)]
pub struct TimelineRow {
    pub appear_frame: i64,
    pub initial_x: i64,
    pub initial_y: i64,
    pub move_pattern: MovePattern,
    pub barrage_pattern: Vec<u8>,
    pub barrage_start_life_count: i64,
}

/// The mathematical image of a timeline row.
pub struct SpecRow {
    pub appear_frame: int,
    pub initial_x: int,
    pub initial_y: int,
    pub move_pattern: MovePattern,
    pub barrage_pattern: Seq<u8>,
    pub barrage_start_life_count: int,
}

impl View for TimelineRow {
    type V = SpecRow;

    open spec fn view(&self) -> SpecRow {
        SpecRow {
            appear_frame: self.appear_frame as int,
            initial_x: self.initial_x as int,
            initial_y: self.initial_y as int,
            move_pattern: self.move_pattern,
            barrage_pattern: self.barrage_pattern@,
            barrage_start_life_count: self.barrage_start_life_count as int,
        }
    }
}

/// The comma-separated fields of a row.
pub open spec fn spec_fields(s: Seq<u8>) -> Seq<Seq<u8>>
    decreases s.len(),
    via spec_fields_decreases
{
    let i = first_byte(s, 44);
    if i == s.len() {
        seq![s]
    } else {
        seq![s.take(i)] + spec_fields(s.skip(i + 1))
    }
}

#[via_fn]
proof fn spec_fields_decreases(s: Seq<u8>) {
    crate::text::lemma_first_byte(s, 44);
}

/// Splits a row into its comma-separated fields.
fn split_fields<'a>(s: &'a [u8]) -> (r: Vec<&'a [u8]>)
    ensures
        r@.map_values(|f: &[u8]| f@) == spec_fields(s@),
    decreases s@.len(),
{
    proof {
        crate::text::lemma_first_byte(s@, 44);
    }
    let i = find_byte(s, 44);
    let mut r: Vec<&[u8]> = Vec::new();
    if i == s.len() {
        r.push(s);
        proof {
            assert(r@.map_values(|f: &[u8]| f@) =~= seq![s@]);
        }
        r
    } else {
        let head = slice_subrange(s, 0, i);
        let rest = slice_subrange(s, i + 1, s.len());
        proof {
            assert(s@.subrange(0, i as int) =~= s@.take(i as int));
            assert(s@.subrange(i as int + 1, s@.len() as int) =~= s@.skip(i as int + 1));
        }
        let mut tail = split_fields(rest);
        r.push(head);
        let ghost before = r@;
        let mut k: usize = 0;
        let n = tail.len();
        while k < n
            invariant
                n == tail@.len(),
                0 <= k <= n,
                r@ =~= before + tail@.take(k as int),
            decreases n - k,
        {
            let f = tail[k];
            r.push(f);
            proof {
                assert(before + tail@.take(k as int + 1) =~= (before + tail@.take(k as int)).push(
                    tail@[k as int],
                ));
            }
            k = k + 1;
        }
        proof {
            assert(tail@.take(n as int) =~= tail@);
            assert(r@ =~= before + tail@);
            assert(r@.map_values(|f: &[u8]| f@) =~= seq![head@] + tail@.map_values(
                |f: &[u8]| f@,
            ));
        }
        r
    }
}

/// The parse of one non-empty row (carriage return already
/// stripped): six fields — appearance frame, two coordinates, a
/// movement-pattern index, a barrage name, a trigger lifetime — or
/// the first thing wrong with them, left to right.
pub open spec fn spec_parse_row(l: Seq<u8>) -> Result<SpecRow, RowErrorKind> {
    let fs = spec_fields(l);
    if fs.len() != 6 {
        Err(RowErrorKind::FieldCount)
    } else {
        match spec_parse_int(fs[0]) {
            None => Err(RowErrorKind::BadInteger),
            Some(frame) => match spec_parse_milli(fs[1]) {
                None => Err(RowErrorKind::BadDecimal),
                Some(x) => match spec_parse_milli(fs[2]) {
                    None => Err(RowErrorKind::BadDecimal),
                    Some(y) => match spec_parse_int(fs[3]) {
                        None => Err(RowErrorKind::BadInteger),
                        Some(pi) => match MovePattern::spec_from_index(pi) {
                            None => Err(RowErrorKind::BadMovePattern),
                            Some(mp) => match spec_parse_int(fs[5]) {
                                None => Err(RowErrorKind::BadInteger),
                                Some(trigger) => Ok(
                                    SpecRow {
                                        appear_frame: frame,
                                        initial_x: x,
                                        initial_y: y,
                                        move_pattern: mp,
                                        barrage_pattern: fs[4],
                                        barrage_start_life_count: trigger,
                                    },
                                ),
                            },
                        },
                    },
                },
            },
        }
    }
}

/// Parses one row.
fn parse_row(l: &[u8]) -> (r: Result<TimelineRow, RowErrorKind>)
    ensures
        match r {
            Ok(row) => spec_parse_row(l@) == Ok::<SpecRow, RowErrorKind>(row@),
            Err(k) => spec_parse_row(l@) == Err::<SpecRow, RowErrorKind>(k),
        },
{
    let fields = split_fields(l);
    proof {
        assert(fields@.len() == spec_fields(l@).len());
        assert forall|j: int| 0 <= j < fields@.len() implies fields@[j]@ == spec_fields(l@)[j] by {
            assert(fields@.map_values(|f: &[u8]| f@)[j] == spec_fields(l@)[j]);
        }
        if fields@.len() == 6 {
            if spec_parse_int(spec_fields(l@)[0]) is Some {
                crate::text::lemma_parse_int_fits(spec_fields(l@)[0]);
            }
            if spec_parse_milli(spec_fields(l@)[1]) is Some {
                crate::text::lemma_parse_milli_fits(spec_fields(l@)[1]);
            }
            if spec_parse_milli(spec_fields(l@)[2]) is Some {
                crate::text::lemma_parse_milli_fits(spec_fields(l@)[2]);
            }
            if spec_parse_int(spec_fields(l@)[3]) is Some {
                crate::text::lemma_parse_int_fits(spec_fields(l@)[3]);
            }
            if spec_parse_int(spec_fields(l@)[5]) is Some {
                crate::text::lemma_parse_int_fits(spec_fields(l@)[5]);
            }
        }
    }
    if fields.len() != 6 {
        return Err(RowErrorKind::FieldCount);
    }
    let frame = match parse_int(fields[0]) {
        Some(v) => v,
        None => {
            return Err(RowErrorKind::BadInteger);
        },
    };
    let x = match parse_milli(fields[1]) {
        Some(v) => v,
        None => {
            return Err(RowErrorKind::BadDecimal);
        },
    };
    let y = match parse_milli(fields[2]) {
        Some(v) => v,
        None => {
            return Err(RowErrorKind::BadDecimal);
        },
    };
    let pattern_index = match parse_int(fields[3]) {
        Some(v) => v,
        None => {
            return Err(RowErrorKind::BadInteger);
        },
    };
    let move_pattern = match MovePattern::from_index(pattern_index) {
        Some(mp) => mp,
        None => {
            return Err(RowErrorKind::BadMovePattern);
        },
    };
    let trigger = match parse_int(fields[5]) {
        Some(v) => v,
        None => {
            return Err(RowErrorKind::BadInteger);
        },
    };
    let barrage = slice_to_vec(fields[4]);
    Ok(
        TimelineRow {
            appear_frame: frame,
            initial_x: x,
            initial_y: y,
            move_pattern,
            barrage_pattern: barrage,
            barrage_start_life_count: trigger,
        },
    )
}

/// The parse of the rows in `s`, starting at line number `line_no`:
/// rows in order, empty lines skipped, or the first row-level error.
pub open spec fn spec_parse_rows(s: Seq<u8>, line_no: int) -> Result<Seq<SpecRow>, TimelineError>
    decreases s.len(),
    via spec_parse_rows_decreases
{
    if s.len() == 0 {
        Ok(Seq::empty())
    } else {
        let i = first_byte(s, 10);
        let line = strip_cr(s.take(i));
        let rest = if i == s.len() {
            Ok(Seq::<SpecRow>::empty())
        } else {
            spec_parse_rows(s.skip(i + 1), line_no + 1)
        };
        if line.len() == 0 {
            rest
        } else {
            match spec_parse_row(line) {
                Err(k) => Err(TimelineError { line: line_no as usize, kind: k }),
                Ok(row) => match rest {
                    Err(e) => Err(e),
                    Ok(tail) => Ok(seq![row] + tail),
                },
            }
        }
    }
}

#[via_fn]
proof fn spec_parse_rows_decreases(s: Seq<u8>, line_no: int) {
    crate::text::lemma_first_byte(s, 10);
}

/// The parse of a whole timeline file: the first line is the header
/// and is skipped; every further non-empty line must be a
/// well-formed row.
pub open spec fn spec_parse_timeline(s: Seq<u8>) -> Result<Seq<SpecRow>, TimelineError> {
    let i = first_byte(s, 10);
    if i == s.len() {
        Ok(Seq::empty())
    } else {
        spec_parse_rows(s.skip(i + 1), 2)
    }
}

/// Parses the rows of `text` into `out`, numbering lines from
/// `line_no`.
fn parse_rows(text: &[u8], line_no: usize) -> (r: Result<Vec<TimelineRow>, TimelineError>)
    requires
        line_no + text@.len() + 1 <= usize::MAX,
    ensures
        match r {
            Ok(rows) => spec_parse_rows(text@, line_no as int) == Ok::<
                Seq<SpecRow>,
                TimelineError,
            >(rows@.map_values(|t: TimelineRow| t@)),
            Err(e) => spec_parse_rows(text@, line_no as int) == Err::<
                Seq<SpecRow>,
                TimelineError,
            >(e),
        },
    decreases text@.len(),
{
    if text.len() == 0 {
        let r: Vec<TimelineRow> = Vec::new();
        proof {
            assert(r@.map_values(|t: TimelineRow| t@) =~= Seq::<SpecRow>::empty());
        }
        return Ok(r);
    }
    proof {
        crate::text::lemma_first_byte(text@, 10);
    }
    let i = find_byte(text, 10);
    let raw_line = slice_subrange(text, 0, i);
    proof {
        assert(text@.subrange(0, i as int) =~= text@.take(i as int));
    }
    let line = strip_cr_slice(raw_line);
    let rest: Result<Vec<TimelineRow>, TimelineError> = if i == text.len() {
        Ok(Vec::new())
    } else {
        let tail = slice_subrange(text, i + 1, text.len());
        proof {
            assert(text@.subrange(i as int + 1, text@.len() as int) =~= text@.skip(i as int + 1));
        }
        parse_rows(tail, line_no + 1)
    };
    proof {
        if i == text@.len() {
            assert(Seq::<TimelineRow>::empty().map_values(|t: TimelineRow| t@) =~= Seq::<
                SpecRow,
            >::empty());
        }
    }
    if line.len() == 0 {
        return rest;
    }
    match parse_row(line) {
        Err(k) => Err(TimelineError { line: line_no, kind: k }),
        Ok(row) => match rest {
            Err(e) => Err(e),
            Ok(tail) => {
                let mut rows: Vec<TimelineRow> = Vec::new();
                rows.push(row);
                let ghost head = rows@.map_values(|t: TimelineRow| t@);
                let mut k: usize = 0;
                let n = tail.len();
                while k < n
                    invariant
                        n == tail@.len(),
                        0 <= k <= n,
                        rows@.map_values(|t: TimelineRow| t@) =~= head + tail@.take(
                            k as int,
                        ).map_values(|t: TimelineRow| t@),
                    decreases n - k,
                {
                    let ghost pre = rows@;
                    let f = &tail[k];
                    let cloned = clone_row(f);
                    rows.push(cloned);
                    proof {
                        assert(cloned@ == tail@[k as int]@);
                        assert(rows@ =~= pre.push(cloned));
                        assert(rows@.map_values(|t: TimelineRow| t@) =~= pre.map_values(
                            |t: TimelineRow| t@,
                        ).push(cloned@));
                        assert(tail@.take(k as int + 1).map_values(|t: TimelineRow| t@)
                            =~= tail@.take(k as int).map_values(|t: TimelineRow| t@).push(
                            tail@[k as int]@,
                        ));
                        assert(rows@.map_values(|t: TimelineRow| t@) =~= head + tail@.take(
                            k as int + 1,
                        ).map_values(|t: TimelineRow| t@));
                    }
                    k = k + 1;
                }
                proof {
                    assert(tail@.take(n as int) =~= tail@);
                    assert(rows@.map_values(|t: TimelineRow| t@) =~= seq![row@] + tail@.map_values(
                        |t: TimelineRow| t@,
                    ));
                }
                Ok(rows)
            },
        },
    }
}

/// Clones a row; the copy denotes the same row.
fn clone_row(t: &TimelineRow) -> (r: TimelineRow)
    ensures
        r@ == t@,
{
    let barrage = slice_to_vec(t.barrage_pattern.as_slice());
    TimelineRow {
        appear_frame: t.appear_frame,
        initial_x: t.initial_x,
        initial_y: t.initial_y,
        move_pattern: t.move_pattern,
        barrage_pattern: barrage,
        barrage_start_life_count: t.barrage_start_life_count,
    }
}

/// The spawn timeline an ordinary stage runs on: rows in file order.
/// On each new frame, every row whose appearance frame equals it
/// spawns one enemy.
#[derive(Clone, Debug)]
pub struct EnemyEmerge {
    pub rows: Vec<TimelineRow>,
}

/// The indices of the rows scheduled for frame `frame`, in file
/// order.
pub open spec fn spec_due_rows(rows: Seq<SpecRow>, frame: int) -> Seq<int> {
    Seq::new(rows.len(), |i: int| i).filter(|i: int| rows[i].appear_frame == frame)
}

impl EnemyEmerge {
    pub open spec fn spec_rows(&self) -> Seq<SpecRow> {
        self.rows@.map_values(|t: TimelineRow| t@)
    }

    /// Loads a timeline from the bytes of its file. A malformed row
    /// fails the load with that row's line number; the stage cannot
    /// start on it.
    pub fn load_bytes(text: &[u8]) -> (r: Result<EnemyEmerge, TimelineError>)
        requires
            text@.len() + 3 <= usize::MAX,
        ensures
            match r {
                Ok(e) => spec_parse_timeline(text@) == Ok::<Seq<SpecRow>, TimelineError>(e.spec_rows()),
                Err(err) => spec_parse_timeline(text@) == Err::<Seq<SpecRow>, TimelineError>(err),
            },
    {
        proof {
            crate::text::lemma_first_byte(text@, 10);
        }
        let i = find_byte(text, 10);
        if i == text.len() {
            let e = EnemyEmerge { rows: Vec::new() };
            proof {
                assert(e.spec_rows() =~= Seq::<SpecRow>::empty());
            }
            return Ok(e);
        }
        let tail = slice_subrange(text, i + 1, text.len());
        proof {
            assert(text@.subrange(i as int + 1, text@.len() as int) =~= text@.skip(i as int + 1));
        }
        match parse_rows(tail, 2) {
            Ok(rows) => Ok(EnemyEmerge { rows }),
            Err(e) => Err(e),
        }
    }

    /// The rows due on frame `frame`: the indices into the timeline,
    /// in file order. A frame with no rows is a no-op.
    pub fn emerges_at(&self, frame: i64) -> (r: Vec<usize>)
        ensures
            r@.map_values(|i: usize| i as int) == spec_due_rows(self.spec_rows(), frame as int),
            forall|j: int| 0 <= j < r@.len() ==> (#[trigger] r@[j]) < self.rows@.len(),
    {
        let n = self.rows.len();
        let mut r: Vec<usize> = Vec::new();
        let mut i: usize = 0;
        proof {
            assert(Seq::new(self.spec_rows().len(), |i: int| i).take(0int) =~= Seq::<int>::empty());
            assert(r@.map_values(|i: usize| i as int) =~= Seq::new(
                self.spec_rows().len(),
                |i: int| i,
            ).take(0int).filter(|i: int| self.spec_rows()[i].appear_frame == frame as int));
        }
        while i < n
            invariant
                n == self.rows@.len(),
                0 <= i <= n,
                forall|j: int| 0 <= j < r@.len() ==> (#[trigger] r@[j]) < n,
                r@.map_values(|i: usize| i as int) == Seq::new(
                    self.spec_rows().len(),
                    |i: int| i,
                ).take(i as int).filter(|i: int| self.spec_rows()[i].appear_frame == frame as int),
            decreases n - i,
        {
            let ghost idxs = Seq::new(self.spec_rows().len(), |i: int| i);
            let ghost flt = |i: int| self.spec_rows()[i].appear_frame == frame as int;
            proof {
                assert(idxs.take(i as int + 1).drop_last() =~= idxs.take(i as int));
                assert(idxs.take(i as int + 1).last() == i as int);
                reveal(Seq::filter);
                assert(idxs.take(i as int + 1).filter(flt) == if flt(i as int) {
                    idxs.take(i as int).filter(flt).push(i as int)
                } else {
                    idxs.take(i as int).filter(flt)
                });
            }
            if self.rows[i].appear_frame == frame {
                let ghost pre = r@;
                r.push(i);
                proof {
                    assert(r@.map_values(|i: usize| i as int) =~= pre.map_values(
                        |i: usize| i as int,
                    ).push(i as int));
                }
            }
            i = i + 1;
        }
        proof {
            assert(Seq::new(self.spec_rows().len(), |i: int| i).take(n as int) =~= Seq::new(
                self.spec_rows().len(),
                |i: int| i,
            ));
        }
        r
    }
}

/// One boss appearance: when it enters, where, and how tough it is.
#[derive(Clone, Copy, PartialEq, Eq, Structural, Debug)]
pub struct BossEmerge {
    pub appear_frame: i64,
    pub initial_position: Vec3,
    pub hp: i64,
    pub bonus_score: i64,
}

/// The boss schedule of the stage: the first boss enters on frame
/// five hundred, just below the bottom edge, with a hundred hit
/// points and a five-hundred-point bonus.
pub fn boss_schedule() -> (r: Vec<BossEmerge>)
    ensures
        r@ =~= seq![
            BossEmerge {
                appear_frame: 500i64,
                initial_position: Vec3 { x: 0i64, y: -999_900i64, z: 0i64 },
                hp: 100i64,
                bonus_score: 500i64,
            },
        ],
{
    let mut r: Vec<BossEmerge> = Vec::new();
    r.push(
        BossEmerge {
            appear_frame: 500,
            initial_position: Vec3::new(0, -999_900, 0),
            hp: 100,
            bonus_score: 500,
        },
    );
    r
}

} // verus!
