//! The tagged-field record grammar of the console history log. One record
//! per line:
//!
//! ```text
//! status="<digits>"\tuser="<text>"\ttimestamp="<digits>"\tcmd="<text>"\toutfile="<path>"
//! ```
//!
//! A line either matches the grammar exactly or the whole chunk it belongs
//! to is rejected; there is no skip-and-continue.

use vstd::prelude::*;

use crate::text::all_digits;
use crate::text::chars_of;
use crate::text::dec_value;
use crate::text::digit_val;
use crate::text::find_from;
use crate::text::match_at;
use crate::text::occurs_at;
use crate::text::parse_u64_range;
use crate::text::digit_run_end;
use crate::text::digit_run;
use crate::text::lines_of;
use crate::text::split_lines;
use crate::text::views_of;

verus! {

/// What exactly went wrong while parsing a chunk.
#[derive(Debug, Clone)]
pub enum ErrorKind {
    /// The line at this position does not match the record grammar.
    BadLine(usize, String),
    /// A record's output file could not be read: path and diagnostic.
    OutfileNotAvailable(String, String),
}

/// A chunk-parsing failure; the offending chunk is re-attempted untouched.
#[derive(Debug, Clone)]
pub struct ParsingError {
    pub kind: ErrorKind,
}

impl ParsingError {
    pub fn new(kind: ErrorKind) -> (r: ParsingError)
        ensures
            r.kind == kind,
    {
        ParsingError { kind }
    }
}

/// One parsed record, before its output file is attached.
#[derive(Debug, Clone)]
pub struct ConsoleRecord {
    pub status: u64,
    pub user: String,
    pub timestamp: u64,
    pub cmd: String,
    pub outfile: String,
}

/// The mathematical shape of one parsed record.
pub struct RecFields {
    pub status: u64,
    pub user: Seq<char>,
    pub timestamp: u64,
    pub cmd: Seq<char>,
    pub outfile: Seq<char>,
}

pub open spec fn fields_of(r: ConsoleRecord) -> RecFields {
    RecFields {
        status: r.status,
        user: r.user@,
        timestamp: r.timestamp,
        cmd: r.cmd@,
        outfile: r.outfile@,
    }
}

pub open spec fn lit_status() -> Seq<char> {
    "status=\""@
}

pub open spec fn lit_user() -> Seq<char> {
    "\"\tuser=\""@
}

pub open spec fn lit_timestamp() -> Seq<char> {
    "\"\ttimestamp=\""@
}

pub open spec fn lit_cmd() -> Seq<char> {
    "\"\tcmd=\""@
}

pub open spec fn lit_outfile() -> Seq<char> {
    "\"\toutfile=\""@
}

/// The first position at or after `from` where `pat` occurs in `s`, or -1.
pub open spec fn spec_find(s: Seq<char>, pat: Seq<char>, from: int) -> int
    decreases s.len() - from,
{
    if !(0 <= from && from + pat.len() <= s.len()) {
        -1
    } else if s.subrange(from, from + pat.len()) == pat {
        from
    } else if from == s.len() {
        -1
    } else {
        spec_find(s, pat, from + 1)
    }
}

pub proof fn lemma_spec_find_first(s: Seq<char>, pat: Seq<char>, from: int)
    requires
        0 <= from <= s.len(),
    ensures
        -1 <= spec_find(s, pat, from),
        spec_find(s, pat, from) == -1 ==> forall|j: int| from <= j ==> !occurs_at(s, pat, j),
        spec_find(s, pat, from) >= 0 ==> {
            &&& from <= spec_find(s, pat, from)
            &&& occurs_at(s, pat, spec_find(s, pat, from))
            &&& forall|j: int| from <= j < spec_find(s, pat, from) ==> !occurs_at(s, pat, j)
        },
    decreases s.len() - from,
{
    if !(from + pat.len() <= s.len()) {
        assert forall|j: int| from <= j implies !occurs_at(s, pat, j) by {}
    } else if s.subrange(from, from + pat.len()) == pat {
    } else if from == s.len() {
        assert(s.subrange(from, from + pat.len()) =~= pat);
    } else {
        lemma_spec_find_first(s, pat, from + 1);
        if spec_find(s, pat, from) == -1 {
            assert forall|j: int| from <= j implies !occurs_at(s, pat, j) by {
                if j == from {
                } else {
                    assert(j >= from + 1);
                }
            }
        }
    }
}

/// A first occurrence pins `spec_find` down.
pub proof fn lemma_find_agrees(s: Seq<char>, pat: Seq<char>, from: int, i: int)
    requires
        0 <= from <= s.len(),
        from <= i,
        occurs_at(s, pat, i),
        forall|j: int| from <= j < i ==> !occurs_at(s, pat, j),
    ensures
        spec_find(s, pat, from) == i,
{
    lemma_spec_find_first(s, pat, from);
    let r = spec_find(s, pat, from);
    if r == -1 {
        assert(!occurs_at(s, pat, i));
    } else {
        if r < i {
            assert(!occurs_at(s, pat, r));
        }
        if i < r {
            assert(!occurs_at(s, pat, i));
        }
    }
}

/// No occurrence at all pins `spec_find` down.
pub proof fn lemma_find_nothing(s: Seq<char>, pat: Seq<char>, from: int)
    requires
        0 <= from <= s.len(),
        forall|j: int| from <= j ==> !occurs_at(s, pat, j),
    ensures
        spec_find(s, pat, from) == -1,
{
    lemma_spec_find_first(s, pat, from);
    let r = spec_find(s, pat, from);
    if r >= 0 {
        assert(!occurs_at(s, pat, r));
    }
}

/// A line read against the record grammar: the literal field tags in
/// order, digit runs for `status` and `timestamp` (which must fit in
/// `u64`), free text for `user` and `cmd` up to the first following tag,
/// and the output-file path closed by the final quote.
pub open spec fn parse_line_spec(line: Seq<char>) -> Option<RecFields> {
    let ls = lit_status();
    if !occurs_at(line, ls, 0) {
        None
    } else {
        let d1 = digit_run_end(line, ls.len() as int);
        if d1 == ls.len() || !occurs_at(line, lit_user(), d1) || dec_value(
            line.subrange(ls.len() as int, d1),
        ) > u64::MAX {
            None
        } else {
            let ustart = d1 + lit_user().len();
            let tpos = spec_find(line, lit_timestamp(), ustart);
            if tpos < 0 {
                None
            } else {
                let tstart = tpos + lit_timestamp().len();
                let d2 = digit_run_end(line, tstart);
                if d2 == tstart || !occurs_at(line, lit_cmd(), d2) || dec_value(
                    line.subrange(tstart, d2),
                ) > u64::MAX {
                    None
                } else {
                    let cstart = d2 + lit_cmd().len();
                    let opos = spec_find(line, lit_outfile(), cstart);
                    if opos < 0 {
                        None
                    } else {
                        let ostart = opos + lit_outfile().len();
                        if !(ostart < line.len() && line[line.len() - 1] == '"') {
                            None
                        } else {
                            Some(
                                RecFields {
                                    status: dec_value(line.subrange(ls.len() as int, d1)) as u64,
                                    user: line.subrange(ustart, tpos),
                                    timestamp: dec_value(line.subrange(tstart, d2)) as u64,
                                    cmd: line.subrange(cstart, opos),
                                    outfile: line.subrange(ostart, line.len() - 1),
                                },
                            )
                        }
                    }
                }
            }
        }
    }
}

/// Parses the line at position `n` of a chunk against the record grammar.
/// Succeeds exactly on lines the grammar admits; any other line is a
/// `BadLine` carrying its position and text.
pub fn parse_line(n: usize, line: &str) -> (r: Result<ConsoleRecord, ParsingError>)
    ensures
        match r {
            Ok(rec) => parse_line_spec(line@) == Some(fields_of(rec)),
            Err(e) => {
                &&& parse_line_spec(line@) is None
                &&& e.kind matches ErrorKind::BadLine(p, l) && p == n && l@ == line@
            },
        },
{
    let v = chars_of(line);
    let vlen: usize = v.len();
    let ls = chars_of("status=\"");
    let lu = chars_of("\"\tuser=\"");
    let lt = chars_of("\"\ttimestamp=\"");
    let lc = chars_of("\"\tcmd=\"");
    let lo = chars_of("\"\toutfile=\"");
    proof {
        assert(vlen == line@.len());
        assert(lt@ == lit_timestamp());
        assert(lo@ == lit_outfile());
    }
    if !match_at(&v, &ls, 0) {
        return Err(ParsingError { kind: ErrorKind::BadLine(n, line.to_owned()) });
    }
    let d1 = digit_run(&v, ls.len());
    if d1 == ls.len() || !match_at(&v, &lu, d1) {
        return Err(ParsingError { kind: ErrorKind::BadLine(n, line.to_owned()) });
    }
    let status = match parse_u64_range(&v, ls.len(), d1) {
        Some(x) => x,
        None => {
            proof {
                assert(all_digits(line@.subrange(lit_status().len() as int, d1 as int))) by {
                    assert forall|k: int|
                        0 <= k < line@.subrange(lit_status().len() as int, d1 as int).len() implies
                        #[trigger] digit_val(
                            line@.subrange(lit_status().len() as int, d1 as int)[k],
                        ) < 10 by {
                        lemma_digit_run_digits(line@, lit_status().len() as int, d1 as int, k);
                    }
                }
            }
            return Err(ParsingError { kind: ErrorKind::BadLine(n, line.to_owned()) });
        },
    };
    let ustart = d1 + lu.len();
    let tpos = match find_from(&v, &lt, ustart) {
        Some(p) => p,
        None => {
            proof {
                lemma_find_nothing(line@, lit_timestamp(), ustart as int);
            }
            return Err(ParsingError { kind: ErrorKind::BadLine(n, line.to_owned()) });
        },
    };
    proof {
        lemma_find_agrees(line@, lit_timestamp(), ustart as int, tpos as int);
    }
    let tstart = tpos + lt.len();
    let d2 = digit_run(&v, tstart);
    if d2 == tstart || !match_at(&v, &lc, d2) {
        return Err(ParsingError { kind: ErrorKind::BadLine(n, line.to_owned()) });
    }
    let timestamp = match parse_u64_range(&v, tstart, d2) {
        Some(x) => x,
        None => {
            proof {
                assert(all_digits(line@.subrange(tstart as int, d2 as int))) by {
                    assert forall|k: int|
                        0 <= k < line@.subrange(tstart as int, d2 as int).len() implies #[trigger] digit_val(
                            line@.subrange(tstart as int, d2 as int)[k],
                        ) < 10 by {
                        lemma_digit_run_digits(line@, tstart as int, d2 as int, k);
                    }
                }
            }
            return Err(ParsingError { kind: ErrorKind::BadLine(n, line.to_owned()) });
        },
    };
    let cstart = d2 + lc.len();
    let opos = match find_from(&v, &lo, cstart) {
        Some(p) => p,
        None => {
            proof {
                lemma_find_nothing(line@, lit_outfile(), cstart as int);
            }
            return Err(ParsingError { kind: ErrorKind::BadLine(n, line.to_owned()) });
        },
    };
    proof {
        lemma_find_agrees(line@, lit_outfile(), cstart as int, opos as int);
    }
    let ostart = opos + lo.len();
    if !(ostart < v.len()) {
        return Err(ParsingError { kind: ErrorKind::BadLine(n, line.to_owned()) });
    }
    if !(v[v.len() - 1] == '"') {
        return Err(ParsingError { kind: ErrorKind::BadLine(n, line.to_owned()) });
    }
    proof {
        crate::text::lemma_dec_value_nonneg(line@.subrange(lit_status().len() as int, d1 as int));
        crate::text::lemma_dec_value_nonneg(line@.subrange(tstart as int, d2 as int));
    }
    let user = line.substring_char(ustart, tpos).to_owned();
    let cmd = line.substring_char(cstart, opos).to_owned();
    let outfile = line.substring_char(ostart, line.unicode_len() - 1).to_owned();
    Ok(ConsoleRecord { status, user, timestamp, cmd, outfile })
}

/// Every line of the chunk parses, one record per line.
pub open spec fn chunk_parses(c: Seq<char>) -> bool {
    forall|i: int|
        0 <= i < lines_of(c).len() ==> #[trigger] parse_line_spec(lines_of(c)[i]) is Some
}

/// The records of a fully parsing chunk, in line order.
pub open spec fn chunk_records(c: Seq<char>) -> Seq<RecFields> {
    Seq::new(lines_of(c).len(), |i: int| parse_line_spec(lines_of(c)[i])->Some_0)
}

/// Parses a whole newly read chunk, all lines or nothing: the result is
/// one record per line, or the first offending line as a `BadLine`.
pub fn parse_histfile_contents(contents: &str) -> (r: Result<Vec<ConsoleRecord>, ParsingError>)
    ensures
        match r {
            Ok(recs) => {
                &&& chunk_parses(contents@)
                &&& recs@.len() == chunk_records(contents@).len()
                &&& forall|i: int|
                    0 <= i < recs@.len() ==> fields_of(#[trigger] recs@[i]) == chunk_records(
                        contents@,
                    )[i]
            },
            Err(e) => {
                &&& !chunk_parses(contents@)
                &&& e.kind matches ErrorKind::BadLine(p, l) && 0 <= (p as int) < lines_of(
                    contents@,
                ).len() && parse_line_spec(lines_of(contents@)[p as int]) is None && l@ == lines_of(
                    contents@,
                )[p as int] && (forall|j: int|
                    0 <= j < p ==> #[trigger] parse_line_spec(lines_of(contents@)[j]) is Some)
            },
        },
{
    let lines = split_lines(contents);
    let mut recs: Vec<ConsoleRecord> = Vec::new();
    let mut i: usize = 0;
    while i < lines.len()
        invariant
            i <= lines@.len(),
            views_of(lines@) == lines_of(contents@),
            recs@.len() == i,
            forall|j: int|
                0 <= j < i ==> parse_line_spec(lines_of(contents@)[j]) == Some(
                    fields_of(#[trigger] recs@[j]),
                ),
        decreases lines@.len() - i,
    {
        assert(lines@[i as int]@ == lines_of(contents@)[i as int]);
        match parse_line(i, lines[i].as_str()) {
            Ok(rec) => {
                recs.push(rec);
            },
            Err(e) => {
                proof {
                    assert(parse_line_spec(lines_of(contents@)[i as int]) is None);
                    assert(!chunk_parses(contents@));
                    assert forall|j: int| 0 <= j < i implies #[trigger] parse_line_spec(
                        lines_of(contents@)[j],
                    ) is Some by {
                        assert(parse_line_spec(lines_of(contents@)[j]) == Some(
                            fields_of(recs@[j]),
                        ));
                    }
                }
                return Err(e);
            },
        }
        i = i + 1;
    }
    proof {
        assert forall|i2: int| 0 <= i2 < lines_of(contents@).len() implies #[trigger] parse_line_spec(
            lines_of(contents@)[i2],
        ) is Some by {
            assert(parse_line_spec(lines_of(contents@)[i2]) == Some(fields_of(recs@[i2])));
        }
        assert forall|i2: int| 0 <= i2 < recs@.len() implies fields_of(#[trigger] recs@[i2])
            == chunk_records(contents@)[i2] by {
            assert(parse_line_spec(lines_of(contents@)[i2]) == Some(fields_of(recs@[i2])));
        }
    }
    Ok(recs)
}

/// Inside a digit run, every character is a digit.
proof fn lemma_digit_run_digits(s: Seq<char>, from: int, to: int, k: int)
    requires
        0 <= from <= s.len(),
        to == digit_run_end(s, from),
        0 <= k < to - from,
    ensures
        digit_val(s.subrange(from, to)[k]) < 10,
    decreases k,
{
    lemma_digit_run_le(s, from);
    if k == 0 {
        assert(digit_val(s[from]) < 10);
    } else {
        assert(digit_run_end(s, from) == digit_run_end(s, from + 1));
        lemma_digit_run_digits(s, from + 1, to, k - 1);
        assert(s.subrange(from, to)[k] == s.subrange(from + 1, to)[k - 1]);
    }
}

/// A digit run ends within the string and not before it starts.
proof fn lemma_digit_run_le(s: Seq<char>, from: int)
    requires
        0 <= from <= s.len(),
    ensures
        from <= digit_run_end(s, from) <= s.len(),
    decreases s.len() - from,
{
    if from < s.len() && digit_val(s[from]) < 10 {
        lemma_digit_run_le(s, from + 1);
    }
}

} // verus!
