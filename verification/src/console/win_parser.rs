//! The transcript-style console history format: records separated by a
//! `Command start time: ` tag, each holding a compact timestamp line, a
//! prompt line whose text after the last `>` is the command, and the
//! captured output on the remaining lines. Banner lines of asterisks are
//! ignored.

use vstd::prelude::*;

use crate::console::linux_parser::ErrorKind;
use crate::console::linux_parser::ParsingError;
use crate::console::linux_parser::lemma_find_agrees;
use crate::console::linux_parser::lemma_find_nothing;
use crate::console::linux_parser::spec_find;
use crate::document::str_eq;
use crate::text::chars_of;
use crate::text::lines_of;
use crate::text::match_at;
use crate::text::occurs_at;
use crate::text::split_lines;
use crate::text::views_of;

verus! {

/// One transcript record.
#[derive(Debug, Clone)]
pub struct WinRecord {
    pub timestamp: u64,
    pub cmd: String,
    pub output: String,
}

/// The mathematical shape of one transcript record.
pub struct WinFields {
    pub timestamp: u64,
    pub cmd: Seq<char>,
    pub output: Seq<char>,
}

pub open spec fn win_fields_of(r: WinRecord) -> WinFields {
    WinFields { timestamp: r.timestamp, cmd: r.cmd@, output: r.output@ }
}

/// The record separator of the transcript format.
pub open spec fn win_tag() -> Seq<char> {
    "Command start time: "@
}

/// The banner line the transcript writer inserts around prompts.
pub open spec fn banner() -> Seq<char> {
    "**********************"@
}

/// What `Command start time: `-separated segments a transcript splits
/// into, starting at `from`; the text before the first tag is the header
/// segment.
pub open spec fn split_tag(s: Seq<char>, from: int) -> Seq<Seq<char>>
    decreases s.len() - from,
{
    if !(0 <= from <= s.len()) {
        Seq::empty()
    } else {
        let i = spec_find(s, win_tag(), from);
        if from <= i && from < i + win_tag().len() && i + win_tag().len() <= s.len() {
            seq![s.subrange(from, i)] + split_tag(s, i + win_tag().len())
        } else {
            seq![s.subrange(from, s.len() as int)]
        }
    }
}

/// The lines of a segment with the banner lines dropped.
pub open spec fn keep_lines(ls: Seq<Seq<char>>) -> Seq<Seq<char>>
    decreases ls.len(),
{
    if ls.len() == 0 {
        Seq::empty()
    } else {
        let r = keep_lines(ls.drop_last());
        if ls.last() == banner() {
            r
        } else {
            r.push(ls.last())
        }
    }
}

/// The position of the last `c` in `s`, or -1.
pub open spec fn rlast_char(s: Seq<char>, c: char) -> int
    decreases s.len(),
{
    if s.len() == 0 {
        -1
    } else if s.last() == c {
        s.len() - 1
    } else {
        rlast_char(s.drop_last(), c)
    }
}

/// The lines joined back with newlines.
pub open spec fn join_nl(ls: Seq<Seq<char>>) -> Seq<char>
    decreases ls.len(),
{
    if ls.len() == 0 {
        Seq::empty()
    } else if ls.len() == 1 {
        ls[0]
    } else {
        join_nl(ls.drop_last()) + seq!['\n'] + ls.last()
    }
}

/// The Unix epoch seconds a compact `YYYYMMDDHHMMSS` timestamp text
/// stands for, when it parses; what the calendar arithmetic yields is a
/// function of the text alone and is not restated here.
pub uninterp spec fn compact_datetime_epoch(s: Seq<char>) -> Option<u64>;

/// Relies on `chrono::NaiveDateTime::parse_from_str` with the fixed
/// format `%Y%m%d%H%M%S`, and on `DateTime::timestamp`: both depend on
/// the text alone, so their composition is named, not restated.
#[verifier::external_body]
fn parse_compact_datetime(s: &str) -> (r: Option<u64>)
    ensures
        r == compact_datetime_epoch(s@),
{
    match chrono::NaiveDateTime::parse_from_str(s, "%Y%m%d%H%M%S") {
        Ok(dt) => Some(dt.and_utc().timestamp() as u64),
        Err(_) => None,
    }
}

/// A transcript segment read as one record: after the banner lines are
/// dropped, a timestamp line, then a prompt line starting with `PS` whose
/// text after the last `>` is the command, then the output lines.
pub open spec fn parse_record_spec(seg: Seq<char>) -> Option<WinFields> {
    let ls = keep_lines(lines_of(seg));
    if ls.len() < 2 {
        None
    } else {
        match compact_datetime_epoch(ls[0]) {
            None => None,
            Some(ts) => {
                let cl = ls[1];
                let gt = rlast_char(cl, '>');
                if !(occurs_at(cl, "PS"@, 0) && gt >= 2) {
                    None
                } else {
                    Some(
                        WinFields {
                            timestamp: ts,
                            cmd: cl.subrange(gt + 1, cl.len() as int),
                            output: join_nl(ls.subrange(2, ls.len() as int)),
                        },
                    )
                }
            },
        }
    }
}

/// The banner lines of a segment dropped, each kept line intact.
fn keep_lines_exec(lines: &Vec<String>) -> (r: Vec<String>)
    ensures
        views_of(r@) == keep_lines(views_of(lines@)),
{
    let mut r: Vec<String> = Vec::new();
    let mut i: usize = 0;
    #[verifier::loop_isolation(false)]
    while i < lines.len()
        invariant
            i <= lines@.len(),
            views_of(r@) == keep_lines(views_of(lines@).subrange(0, i as int)),
        decreases lines@.len() - i,
    {
        let ghost pre = views_of(lines@).subrange(0, i as int);
        let ghost cur = views_of(lines@).subrange(0, i + 1 as int);
        proof {
            assert(cur.drop_last() =~= pre);
            assert(cur.last() == views_of(lines@)[i as int]);
        }
        let keep = !str_eq(lines[i].as_str(), "**********************");
        if keep {
            let ghost rpre = r@;
            r.push(lines[i].clone());
            proof {
                assert(views_of(r@) =~= views_of(rpre).push(lines@[i as int]@));
            }
        }
        proof {
            assert(views_of(r@) =~= keep_lines(cur));
        }
        i = i + 1;
    }
    proof {
        assert(views_of(lines@).subrange(0, lines@.len() as int) =~= views_of(lines@));
    }
    r
}

/// The position of the last `c`, scanning from the end.
fn rlast(v: &Vec<char>, c: char) -> (r: Option<usize>)
    ensures
        match r {
            Some(i) => i < v@.len() && i == rlast_char(v@, c),
            None => rlast_char(v@, c) == -1,
        },
{
    let mut i: usize = v.len();
    proof {
        assert(v@.subrange(0, v@.len() as int) =~= v@);
    }
    while i > 0
        invariant
            i <= v@.len(),
            rlast_char(v@, c) == rlast_char(v@.subrange(0, i as int), c),
        decreases i,
    {
        let ghost cur = v@.subrange(0, i as int);
        proof {
            assert(cur.drop_last() =~= v@.subrange(0, i - 1));
            assert(cur.last() == v@[i - 1]);
        }
        if v[i - 1] == c {
            return Some(i - 1);
        }
        i = i - 1;
    }
    None
}

/// The kept lines from the third onward, joined back with newlines.
fn join_output(kept: &Vec<String>) -> (r: String)
    requires
        kept@.len() >= 2,
    ensures
        r@ == join_nl(views_of(kept@).subrange(2, kept@.len() as int)),
{
    let mut out = String::new();
    let mut i: usize = 2;
    #[verifier::loop_isolation(false)]
    while i < kept.len()
        invariant
            2 <= i <= kept@.len(),
            out@ == join_nl(views_of(kept@).subrange(2, i as int)),
        decreases kept@.len() - i,
    {
        let ghost pre = views_of(kept@).subrange(2, i as int);
        let ghost cur = views_of(kept@).subrange(2, i + 1 as int);
        proof {
            assert(cur.drop_last() =~= pre);
            assert(cur.last() == views_of(kept@)[i as int]);
        }
        if i > 2 {
            out.append("\n");
            proof {
                reveal_strlit("\n");
            }
        }
        out.append(kept[i].as_str());
        proof {
            assert(out@ =~= join_nl(cur));
        }
        i = i + 1;
    }
    out
}

/// Parses the transcript segment at position `n` as one record. Succeeds
/// exactly on segments the format admits; anything else is a `BadLine`
/// carrying the segment's position and text.
pub fn parse_record(n: usize, seg: &str) -> (r: Result<WinRecord, ParsingError>)
    ensures
        match r {
            Ok(rec) => parse_record_spec(seg@) == Some(win_fields_of(rec)),
            Err(e) => {
                &&& parse_record_spec(seg@) is None
                &&& e.kind matches ErrorKind::BadLine(p, l) && p == n && l@ == seg@
            },
        },
{
    let lines = split_lines(seg);
    let kept = keep_lines_exec(&lines);
    if kept.len() < 2 {
        return Err(ParsingError { kind: ErrorKind::BadLine(n, seg.to_owned()) });
    }
    let ts = match parse_compact_datetime(kept[0].as_str()) {
        Some(ts) => ts,
        None => {
            return Err(ParsingError { kind: ErrorKind::BadLine(n, seg.to_owned()) });
        },
    };
    let cl = &kept[1];
    let clv = chars_of(cl.as_str());
    let ps = chars_of("PS");
    if !match_at(&clv, &ps, 0) {
        return Err(ParsingError { kind: ErrorKind::BadLine(n, seg.to_owned()) });
    }
    let gt = match rlast(&clv, '>') {
        Some(gt) => gt,
        None => {
            return Err(ParsingError { kind: ErrorKind::BadLine(n, seg.to_owned()) });
        },
    };
    if gt < 2 {
        return Err(ParsingError { kind: ErrorKind::BadLine(n, seg.to_owned()) });
    }
    let cln = cl.as_str().unicode_len();
    proof {
        assert(gt < cln);
    }
    let cmd = cl.as_str().substring_char(gt + 1, cln).to_owned();
    let output = join_output(&kept);
    Ok(WinRecord { timestamp: ts, cmd, output })
}

/// A whole transcript split into records: the text before the first
/// separator tag is a header and is dropped, and every following segment
/// must parse, or the first offending one is reported.
pub fn parse_histfile(contents: &str) -> (r: Result<Vec<WinRecord>, ParsingError>)
    ensures
        contents@.len() == 0 ==> (r matches Ok(recs) && recs@.len() == 0),
        contents@.len() > 0 ==> match r {
            Ok(recs) => {
                &&& recs@.len() + 1 == split_tag(contents@, 0).len()
                &&& forall|k: int|
                    0 <= k < recs@.len() ==> parse_record_spec(split_tag(contents@, 0)[k + 1])
                        == Some(win_fields_of(#[trigger] recs@[k]))
            },
            Err(e) => {
                &&& e.kind matches ErrorKind::BadLine(p, l) && 1 <= (p as int) < split_tag(
                    contents@,
                    0,
                ).len() && parse_record_spec(split_tag(contents@, 0)[p as int]) is None && l@
                    == split_tag(contents@, 0)[p as int] && (forall|k: int|
                    1 <= k < p ==> #[trigger] parse_record_spec(
                        split_tag(contents@, 0)[k],
                    ) is Some)
            },
        },
{
    let mut recs: Vec<WinRecord> = Vec::new();
    if contents.unicode_len() == 0 {
        return Ok(recs);
    }
    let segs = split_segments(contents);
    let mut i: usize = 1;
    #[verifier::loop_isolation(false)]
    while i < segs.len()
        invariant
            1 <= i <= segs@.len(),
            views_of(segs@) == split_tag(contents@, 0),
            recs@.len() + 1 == i,
            forall|k: int|
                0 <= k < recs@.len() ==> parse_record_spec(split_tag(contents@, 0)[k + 1]) == Some(
                    win_fields_of(#[trigger] recs@[k]),
                ),
        decreases segs@.len() - i,
    {
        match parse_record(i, segs[i].as_str()) {
            Ok(rec) => {
                recs.push(rec);
            },
            Err(e) => {
                proof {
                    assert forall|k: int| 1 <= k < i implies #[trigger] parse_record_spec(
                        split_tag(contents@, 0)[k],
                    ) is Some by {
                        assert(parse_record_spec(split_tag(contents@, 0)[k]) == Some(
                            win_fields_of(recs@[k - 1]),
                        ));
                    }
                }
                return Err(e);
            },
        }
        i = i + 1;
    }
    Ok(recs)
}

/// Splits a transcript at the separator tags.
fn split_segments(s: &str) -> (r: Vec<String>)
    requires
        s@.len() > 0,
    ensures
        views_of(r@) == split_tag(s@, 0),
        r@.len() >= 1,
{
    let v = chars_of(s);
    let tag = chars_of("Command start time: ");
    proof {
        reveal_strlit("Command start time: ");
    }
    let vlen: usize = v.len();
    let mut out: Vec<String> = Vec::new();
    let mut pos: usize = 0;
    loop
        invariant_except_break
            pos <= vlen,
            vlen == v@.len(),
            v@ == s@,
            tag@ == win_tag(),
            views_of(out@) + split_tag(s@, pos as int) == split_tag(s@, 0),
        ensures
            views_of(out@) == split_tag(s@, 0),
            out@.len() >= 1,
        decreases vlen - pos,
    {
        match crate::text::find_from(&v, &tag, pos) {
            Some(i) => {
                proof {
                    reveal_strlit("Command start time: ");
                    lemma_find_agrees(s@, win_tag(), pos as int, i as int);
                }
                let seg = s.substring_char(pos, i).to_owned();
                let ghost outpre = out@;
                out.push(seg);
                pos = i + tag.len();
                proof {
                    assert(views_of(out@) =~= views_of(outpre).push(seg@));
                    assert(views_of(out@) + split_tag(s@, pos as int) =~= split_tag(s@, 0));
                }
            },
            None => {
                proof {
                    lemma_find_nothing(s@, win_tag(), pos as int);
                }
                let seg = s.substring_char(pos, vlen).to_owned();
                let ghost outpre = out@;
                out.push(seg);
                proof {
                    assert(views_of(out@) =~= views_of(outpre).push(seg@));
                    assert(views_of(out@) =~= split_tag(s@, 0));
                }
                break;
            },
        }
    }
    out
}

} // verus!
