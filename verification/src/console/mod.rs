//! Console history source: a byte offset into an append-only command log,
//! the atomic-chunk parsing policy, and the buffer of discovered entries.
//! Reading the log file and the per-record output files happens outside
//! the library; this module is handed the newly appended chunk and the
//! output texts and does everything after that.

use vstd::prelude::*;

pub mod linux_parser;
pub mod win_parser;

use crate::console::linux_parser::ConsoleRecord;
use crate::console::linux_parser::ErrorKind;
use crate::console::linux_parser::ParsingError;
use crate::console::linux_parser::RecFields;
use crate::console::linux_parser::chunk_parses;
use crate::console::linux_parser::chunk_records;
use crate::console::linux_parser::parse_histfile_contents;
use crate::text::chars_of;
use crate::text::chars_to_string;
use crate::text::dec_chars;
use crate::text::u64_to_chars;
use crate::utils::PathError;
use crate::utils::expand_tilde;
use crate::utils::path_expand;

verus! {

/// Why a console update cycle failed.
#[derive(Debug, Clone)]
pub enum ConsoleErrorKind {
    /// The control was never initialized with a console identity.
    NotReady,
    /// The histfile path template could not be expanded.
    HistfilePath(PathError),
    /// The log is shorter than the already-consumed offset.
    ReadOutOfRange,
    /// A line of the new chunk is malformed or an output file is missing.
    Parse(ParsingError),
}

/// A console source failure; the offset is never advanced by a failing
/// cycle.
#[derive(Debug, Clone)]
pub struct ConsoleError {
    pub kind: ConsoleErrorKind,
}

/// One executed command: record fields plus the captured output text.
#[derive(Debug, Clone)]
pub struct ConsoleHistEntry {
    pub timestamp: u64,
    pub user: String,
    pub cmd: String,
    pub status: u64,
    pub output: String,
}

/// The mathematical shape of one command entry.
pub struct ConsoleEntrySpec {
    pub timestamp: u64,
    pub user: Seq<char>,
    pub cmd: Seq<char>,
    pub status: u64,
    pub output: Seq<char>,
}

pub open spec fn entry_of(e: ConsoleHistEntry) -> ConsoleEntrySpec {
    ConsoleEntrySpec {
        timestamp: e.timestamp,
        user: e.user@,
        cmd: e.cmd@,
        status: e.status,
        output: e.output@,
    }
}

pub open spec fn entries_of(s: Seq<ConsoleHistEntry>) -> Seq<ConsoleEntrySpec> {
    s.map_values(|e: ConsoleHistEntry| entry_of(e))
}

/// The mathematical state of a console source.
pub struct ConsoleHistView {
    pub id: Option<u32>,
    pub history: Seq<ConsoleEntrySpec>,
    pub histfile: Seq<char>,
    pub offset: u64,
    pub length: u64,
}

/// The output text for record `j`, as handed in by the caller: absent when
/// the caller could not read that record's output file.
pub open spec fn missing_output(outs: Seq<Option<String>>, j: int) -> bool {
    j >= outs.len() || outs[j] is None
}

/// Records zipped with their output texts.
pub open spec fn attached_entries(recs: Seq<RecFields>, outs: Seq<Option<String>>) -> Seq<
    ConsoleEntrySpec,
> {
    Seq::new(
        recs.len(),
        |j: int|
            ConsoleEntrySpec {
                timestamp: recs[j].timestamp,
                user: recs[j].user,
                cmd: recs[j].cmd,
                status: recs[j].status,
                output: outs[j]->Some_0@,
            },
    )
}

/// The histfile path template for console `id`.
pub open spec fn histfile_template(id: u64) -> Seq<char> {
    "~/.tracker/histlogs/hist."@ + dec_chars(id as int) + ".log"@
}

/// A console history source bound to one log file.
#[derive(Debug, Clone)]
pub struct ConsoleHistControl {
    id: Option<u32>,
    history: Vec<ConsoleHistEntry>,
    histfile: String,
    offset: u64,
    length: u64,
}

impl View for ConsoleHistControl {
    type V = ConsoleHistView;

    closed spec fn view(&self) -> ConsoleHistView {
        ConsoleHistView {
            id: self.id,
            history: entries_of(self.history@),
            histfile: self.histfile@,
            offset: self.offset,
            length: self.length,
        }
    }
}

impl ConsoleHistControl {
    /// A fresh, uninitialized control: no identity, nothing buffered.
    pub fn new() -> (r: ConsoleHistControl)
        ensures
            r@.id is None,
            r@.history.len() == 0,
            r@.histfile.len() == 0,
            r@.offset == 0,
            r@.length == 0,
    {
        let r = ConsoleHistControl {
            id: None,
            history: Vec::new(),
            histfile: String::new(),
            offset: 0,
            length: 0,
        };
        proof {
            assert(r@.history =~= Seq::<ConsoleEntrySpec>::empty());
        }
        r
    }

    /// Binds the control to console `id`: derives and expands the histfile
    /// path and starts from offset zero with an empty buffer.
    pub fn init(&mut self, id: u32) -> (r: Result<(), ConsoleError>)
        ensures
            r matches Ok(_) ==> {
                &&& final(self)@.id == Some(id)
                &&& final(self)@.history.len() == 0
                &&& final(self)@.offset == 0
                &&& final(self)@.length == 0
                &&& exists|h: Seq<char>|
                    final(self)@.histfile == #[trigger] expand_tilde(histfile_template(id as u64), h)
            },
            r matches Err(e) ==> e.kind matches ConsoleErrorKind::HistfilePath(_) && final(self)@.id
                is None && final(self)@.history.len() == 0 && final(self)@.offset == 0,
    {
        self.reset();
        let mut t: Vec<char> = chars_of("~/.tracker/histlogs/hist.");
        let mut digits = u64_to_chars(id as u64);
        let mut suffix = chars_of(".log");
        t.append(&mut digits);
        t.append(&mut suffix);
        let template = chars_to_string(&t);
        proof {
            assert(template@ =~= histfile_template(id as u64));
            reveal_strlit("~/.tracker/histlogs/hist.");
            assert(template@[0] == '~');
            assert(crate::utils::has_tilde(template@));
        }
        match path_expand(template.as_str()) {
            Ok(p) => {
                self.id = Some(id);
                self.histfile = p;
                self.offset = 0;
                self.length = 0;
                Ok(())
            },
            Err(e) => Err(ConsoleError { kind: ConsoleErrorKind::HistfilePath(e) }),
        }
    }

    /// One update cycle over the newly appended chunk of the log.
    ///
    /// `new_length` is the log's current byte length, `chunk` the text of
    /// `[offset, new_length)`, and `outputs` one output text per record of
    /// the chunk, absent where the caller could not read it. The whole
    /// chunk is taken or refused: on any malformed line or missing output
    /// the offset stays put and the identical range is re-attempted next
    /// cycle.
    #[verifier::loop_isolation(false)]
    pub fn update(&mut self, new_length: u64, chunk: &str, outputs: &Vec<Option<String>>) -> (r:
        Result<usize, ConsoleError>)
        ensures
            old(self)@.id is None ==> (r matches Err(e) && e.kind matches ConsoleErrorKind::NotReady
                && final(self)@ == old(self)@),
            old(self)@.id is Some && new_length == old(self)@.offset ==> (r matches Ok(n) && n == 0
                && final(self)@ == (ConsoleHistView { length: new_length, ..old(self)@ })),
            old(self)@.id is Some && new_length < old(self)@.offset ==> (r matches Err(e) && e.kind
                matches ConsoleErrorKind::ReadOutOfRange && final(self)@ == (ConsoleHistView {
                length: new_length,
                ..old(self)@
            })),
            old(self)@.id is Some && new_length > old(self)@.offset && !chunk_parses(chunk@) ==> (
            r matches Err(e) && e.kind matches ConsoleErrorKind::Parse(pe) && pe.kind matches
                ErrorKind::BadLine(p, _) && parse_line_spec_fails_first(chunk@, p as int)
                && final(self)@ == (ConsoleHistView { length: new_length, ..old(self)@ })),
            old(self)@.id is Some && new_length > old(self)@.offset && chunk_parses(chunk@) && (
            exists|j: int|
                0 <= j < chunk_records(chunk@).len() && missing_output(outputs@, j)) ==> (
            r matches Err(e) && e.kind matches ConsoleErrorKind::Parse(pe) && pe.kind matches
                ErrorKind::OutfileNotAvailable(f, _) && first_missing_outfile(
                chunk@,
                outputs@,
                f@,
            ) && final(self)@ == (ConsoleHistView { length: new_length, ..old(self)@ })),
            old(self)@.id is Some && new_length > old(self)@.offset && chunk_parses(chunk@) && (
            forall|j: int|
                0 <= j < chunk_records(chunk@).len() ==> !missing_output(outputs@, j)) ==> (
            r matches Ok(n) && n == chunk_records(chunk@).len() && final(self)@ == (ConsoleHistView {
                history: old(self)@.history + attached_entries(chunk_records(chunk@), outputs@),
                offset: new_length,
                length: new_length,
                ..old(self)@
            })),
    {
        if self.id.is_none() {
            return Err(ConsoleError { kind: ConsoleErrorKind::NotReady });
        }
        self.length = new_length;
        if new_length == self.offset {
            return Ok(0);
        }
        if new_length < self.offset {
            return Err(ConsoleError { kind: ConsoleErrorKind::ReadOutOfRange });
        }
        let recs = match parse_histfile_contents(chunk) {
            Ok(recs) => recs,
            Err(pe) => {
                return Err(ConsoleError { kind: ConsoleErrorKind::Parse(pe) });
            },
        };
        let ghost srecs = chunk_records(chunk@);
        let mut entries: Vec<ConsoleHistEntry> = Vec::new();
        let mut j: usize = 0;
        while j < recs.len()
            invariant
                j <= recs@.len(),
                recs@.len() == srecs.len(),
                srecs == chunk_records(chunk@),
                forall|k: int| 0 <= k < recs@.len() ==> fields_of_at(recs@, k) == srecs[k],
                forall|k: int| 0 <= k < j ==> !missing_output(outputs@, k),
                entries@.len() == j,
                forall|k: int|
                    0 <= k < j ==> entry_of(#[trigger] entries@[k]) == attached_entries(
                        srecs,
                        outputs@,
                    )[k],
            decreases recs@.len() - j,
        {
            if j >= outputs.len() {
                let f = recs[j].outfile.clone();
                proof {
                    assert(fields_of_at(recs@, j as int) == srecs[j as int]);
                    lemma_first_missing(chunk@, outputs@, j as int, f@);
                }
                return Err(
                    ConsoleError {
                        kind: ConsoleErrorKind::Parse(
                            ParsingError {
                                kind: ErrorKind::OutfileNotAvailable(
                                    f,
                                    "no output text was provided for this record".to_owned(),
                                ),
                            },
                        ),
                    },
                );
            }
            match &outputs[j] {
                Some(text) => {
                    let rec = &recs[j];
                    entries.push(
                        ConsoleHistEntry {
                            timestamp: rec.timestamp,
                            user: rec.user.clone(),
                            cmd: rec.cmd.clone(),
                            status: rec.status,
                            output: text.clone(),
                        },
                    );
                },
                None => {
                    let f = recs[j].outfile.clone();
                    proof {
                        assert(fields_of_at(recs@, j as int) == srecs[j as int]);
                        lemma_first_missing(chunk@, outputs@, j as int, f@);
                    }
                    return Err(
                        ConsoleError {
                            kind: ConsoleErrorKind::Parse(
                                ParsingError {
                                    kind: ErrorKind::OutfileNotAvailable(
                                        f,
                                        "the output file could not be read".to_owned(),
                                    ),
                                },
                            ),
                        },
                    );
                },
            }
            j = j + 1;
        }
        let n = entries.len();
        self.history.append(&mut entries);
        self.offset = new_length;
        proof {
            assert(self@.history =~= old(self)@.history + attached_entries(srecs, outputs@));
        }
        Ok(n)
    }

    /// Empties the buffer; offset and identity are untouched.
    pub fn clear(&mut self)
        ensures
            final(self)@ == (ConsoleHistView { history: Seq::empty(), ..old(self)@ }),
    {
        self.history.clear();
        proof {
            assert(self@.history =~= Seq::<ConsoleEntrySpec>::empty());
        }
    }

    /// Unbinds the control: buffer emptied, identity dropped, offset
    /// rewound to the start of the log.
    pub fn reset(&mut self)
        ensures
            final(self)@ == (ConsoleHistView {
                id: None,
                history: Seq::empty(),
                offset: 0,
                ..old(self)@
            }),
    {
        self.clear();
        self.id = None;
        self.offset = 0;
    }

    /// The byte offset up to which the log has been consumed.
    pub fn offset(&self) -> (r: u64)
        ensures
            r == self@.offset,
    {
        self.offset
    }

    /// The log path this source reads.
    pub fn histfile(&self) -> (r: &str)
        ensures
            r@ == self@.histfile,
    {
        self.histfile.as_str()
    }

    /// The buffered entries, oldest first.
    pub fn history(&self) -> (r: &Vec<ConsoleHistEntry>)
        ensures
            entries_of(r@) == self@.history,
    {
        &self.history
    }
}

pub open spec fn fields_of_at(recs: Seq<ConsoleRecord>, k: int) -> RecFields {
    crate::console::linux_parser::fields_of(recs[k])
}

/// The first record of the chunk whose output is missing has this outfile
/// path.
pub open spec fn first_missing_outfile(c: Seq<char>, outs: Seq<Option<String>>, f: Seq<char>) -> bool {
    exists|j: int|
        {
            &&& 0 <= j < chunk_records(c).len()
            &&& missing_output(outs, j)
            &&& (forall|k: int| 0 <= k < j ==> !missing_output(outs, k))
            &&& f == chunk_records(c)[j].outfile
        }
}

/// The line at position `p` is the first that fails to parse.
pub open spec fn parse_line_spec_fails_first(c: Seq<char>, p: int) -> bool {
    &&& 0 <= p < crate::text::lines_of(c).len()
    &&& crate::console::linux_parser::parse_line_spec(
        crate::text::lines_of(c)[p],
    ) is None
    &&& forall|j: int|
        0 <= j < p ==> #[trigger] crate::console::linux_parser::parse_line_spec(
            crate::text::lines_of(c)[j],
        ) is Some
}

proof fn lemma_first_missing(c: Seq<char>, outs: Seq<Option<String>>, j: int, f: Seq<char>)
    requires
        0 <= j < chunk_records(c).len(),
        missing_output(outs, j),
        forall|k: int| 0 <= k < j ==> !missing_output(outs, k),
        f == chunk_records(c)[j].outfile,
    ensures
        first_missing_outfile(c, outs, f),
{
    assert(0 <= j < chunk_records(c).len() && missing_output(outs, j) && (forall|k: int|
        0 <= k < j ==> !missing_output(outs, k)) && f == chunk_records(c)[j].outfile);
}

} // verus!
