//! The remote-store configuration file: `key: value` lines for `host`,
//! `port` and `index`, comments and blank lines. All three keys are
//! required; there are no defaults here.

use vstd::prelude::*;

use crate::cli::check_port_spec;
use crate::cli::ipv4_parse;
use crate::cli::keyed_value;
use crate::cli::keyed_value_exec;
use crate::cli::parse_host_addr;
use crate::cli::check_port;
use crate::elastic::ESConfig;
use crate::elastic::HostAddr;
use crate::text::chars_of;
use crate::text::digit_val;
use crate::text::lines_of;
use crate::text::match_at;
use crate::text::occurs_at;
use crate::text::split_lines;
use crate::text::views_of;

verus! {

/// What was wrong with the configuration file.
#[derive(Debug, Clone)]
pub enum ErrorKind {
    /// A required key never appeared.
    FieldNotPresent(String),
    /// The line at this position belongs to no known key.
    BadLine(usize, String),
    /// The line at this position has no valid value for its key.
    BadField(usize, String, String),
}

/// A configuration-file failure, fatal before the pipeline starts.
#[derive(Debug, Clone)]
pub struct ParsingError {
    pub kind: ErrorKind,
}

impl ParsingError {
    pub fn new(kind: ErrorKind) -> (r: ParsingError)
        ensures
            r.kind == kind,
    {
        ParsingError { kind }
    }
}

/// The host character class of this grammar: periods and digits.
pub open spec fn es_host_char(c: char) -> bool {
    c == '.' || digit_val(c) < 10
}

pub open spec fn all_es_host_chars(s: Seq<char>) -> bool {
    forall|i: int| 0 <= i < s.len() ==> #[trigger] es_host_char(s[i])
}

fn all_es_host_chars_exec(v: &Vec<char>) -> (r: bool)
    ensures
        r == all_es_host_chars(v@),
{
    let mut i: usize = 0;
    while i < v.len()
        invariant
            i <= v@.len(),
            forall|k: int| 0 <= k < i ==> #[trigger] es_host_char(v@[k]),
        decreases v@.len() - i,
    {
        let c = v[i];
        let is_digit = match crate::text::digit_of(c) {
            Some(_) => true,
            None => false,
        };
        if !(c == '.' || is_digit) {
            assert(!es_host_char(v@[i as int]));
            return false;
        }
        i = i + 1;
    }
    true
}

/// A `host:` line of this grammar: periods and digits only, read as a
/// dotted-quad address.
pub open spec fn es_host_spec(line: Seq<char>) -> Option<HostAddr> {
    match keyed_value(line, 5) {
        None => None,
        Some(vs) => {
            if vs.len() > 0 && all_es_host_chars(vs) {
                ipv4_parse(vs)
            } else {
                None
            }
        },
    }
}

fn es_load_host(line: &str) -> (r: Option<HostAddr>)
    requires
        line@.len() >= 5,
    ensures
        r == es_host_spec(line@),
{
    let v = chars_of(line);
    match keyed_value_exec(line, &v, 5) {
        None => None,
        Some(vs) => {
            let vv = chars_of(vs.as_str());
            if vs.as_str().unicode_len() > 0 && all_es_host_chars_exec(&vv) {
                parse_host_addr(vs.as_str())
            } else {
                None
            }
        },
    }
}

/// A `port:` line of this grammar: a run of digits that fits in `u64`.
pub open spec fn es_port_spec(line: Seq<char>) -> Option<u64> {
    match keyed_value(line, 5) {
        None => None,
        Some(vs) => check_port_spec(vs),
    }
}

fn es_load_port(line: &str) -> (r: Option<u64>)
    requires
        line@.len() >= 5,
    ensures
        r == es_port_spec(line@),
{
    let v = chars_of(line);
    match keyed_value_exec(line, &v, 5) {
        None => None,
        Some(vs) => check_port(vs.as_str()),
    }
}

/// An `index:` line of this grammar: the text after the key.
pub open spec fn es_index_spec(line: Seq<char>) -> Option<Seq<char>> {
    keyed_value(line, 6)
}

fn es_load_index(line: &str) -> (r: Option<String>)
    requires
        line@.len() >= 6,
    ensures
        match r {
            Some(s) => es_index_spec(line@) == Some(s@),
            None => es_index_spec(line@) is None,
        },
{
    let v = chars_of(line);
    keyed_value_exec(line, &v, 6)
}

/// What the file has established so far.
pub struct EsCfgState {
    pub host: Option<HostAddr>,
    pub port: Option<u64>,
    pub index: Option<Seq<char>>,
}

pub open spec fn es_empty_cfg() -> EsCfgState {
    EsCfgState { host: None, port: None, index: None }
}

/// One line applied to the state.
pub open spec fn es_apply_line(st: EsCfgState, line: Seq<char>) -> Option<EsCfgState> {
    if line.len() == 0 {
        Some(st)
    } else if line[0] == '#' {
        Some(st)
    } else if occurs_at(line, "host:"@, 0) {
        match es_host_spec(line) {
            Some(h) => Some(EsCfgState { host: Some(h), ..st }),
            None => None,
        }
    } else if occurs_at(line, "port:"@, 0) {
        match es_port_spec(line) {
            Some(p) => Some(EsCfgState { port: Some(p), ..st }),
            None => None,
        }
    } else if occurs_at(line, "index:"@, 0) {
        match es_index_spec(line) {
            Some(ix) => Some(EsCfgState { index: Some(ix), ..st }),
            None => None,
        }
    } else {
        None
    }
}

/// The state after the first `n` lines, or nothing once a line failed.
pub open spec fn es_fold(lines: Seq<Seq<char>>, n: int) -> Option<EsCfgState>
    decreases n,
{
    if n <= 0 {
        Some(es_empty_cfg())
    } else {
        match es_fold(lines, n - 1) {
            None => None,
            Some(st) => es_apply_line(st, lines[n - 1]),
        }
    }
}

proof fn lemma_es_fold_none(lines: Seq<Seq<char>>, n: int, m: int)
    requires
        es_fold(lines, n) is None,
        n <= m,
    ensures
        es_fold(lines, m) is None,
    decreases m - n,
{
    if m > n {
        lemma_es_fold_none(lines, n, m - 1);
    }
}

/// Line `p` is the first line that fails.
pub open spec fn es_first_failure(lines: Seq<Seq<char>>, p: int) -> bool {
    &&& 0 <= p < lines.len()
    &&& es_fold(lines, p) is Some
    &&& es_apply_line(es_fold(lines, p)->Some_0, lines[p]) is None
}

/// The error a failing line at position `p` must carry.
pub open spec fn es_error_for(line: Seq<char>, p: usize, k: ErrorKind) -> bool {
    if occurs_at(line, "host:"@, 0) {
        k matches ErrorKind::BadField(pp, f, l) && pp == p && f@ == "host"@ && l@ == line
    } else if occurs_at(line, "port:"@, 0) {
        k matches ErrorKind::BadField(pp, f, l) && pp == p && f@ == "port"@ && l@ == line
    } else if occurs_at(line, "index:"@, 0) {
        k matches ErrorKind::BadField(pp, f, l) && pp == p && f@ == "index"@ && l@ == line
    } else {
        k matches ErrorKind::BadLine(pp, l) && pp == p && l@ == line
    }
}

/// Parses a whole configuration text: later lines override earlier ones,
/// and `host`, `port` and `index` must all be present.
pub fn parse_cfg_file(contents: &str) -> (r: Result<ESConfig, ParsingError>)
    ensures
        r matches Ok(cfg) ==> (es_fold(lines_of(contents@), lines_of(contents@).len() as int)
            matches Some(st) && (st.host matches Some(h) && cfg@.host == h) && (st.port
            matches Some(p) && cfg@.port == p) && (st.index matches Some(ix) && cfg@.index == ix)),
        (es_fold(lines_of(contents@), lines_of(contents@).len() as int) matches Some(st)
            && st.host is Some && st.port is Some && st.index is Some) ==> r is Ok,
        r matches Err(e) ==> ((exists|p: int|
            es_first_failure(lines_of(contents@), p) && es_error_for(
                lines_of(contents@)[p],
                p as usize,
                e.kind,
            )) || (es_fold(lines_of(contents@), lines_of(contents@).len() as int) matches Some(st)
            && (e.kind matches ErrorKind::FieldNotPresent(f) && ((st.host is None && f@ == "host"@)
            || (st.host is Some && st.port is None && f@ == "port"@) || (st.host is Some && st.port
            is Some && st.index is None && f@ == "index"@))))),
{
    let lines = split_lines(contents);
    let ghost slines = lines_of(contents@);
    let mut host: Option<HostAddr> = None;
    let mut port: Option<u64> = None;
    let mut index: Option<String> = None;
    let key_host = chars_of("host:");
    let key_port = chars_of("port:");
    let key_index = chars_of("index:");
    proof {
        reveal_strlit("host:");
        reveal_strlit("port:");
        reveal_strlit("index:");
    }
    let mut i: usize = 0;
    #[verifier::loop_isolation(false)]
    while i < lines.len()
        invariant
            i <= lines@.len(),
            views_of(lines@) == slines,
            es_fold(slines, i as int) == Some(
                EsCfgState { host, port, index: crate::cli::opt_str_view(index) },
            ),
        decreases lines@.len() - i,
    {
        let line = lines[i].as_str();
        let v = chars_of(line);
        let ghost st0 = EsCfgState { host, port, index: crate::cli::opt_str_view(index) };
        proof {
            assert(line@ == slines[i as int]);
        }
        if v.len() == 0 {
        } else if v[0] == '#' {
        } else if match_at(&v, &key_host, 0) {
            match es_load_host(line) {
                Some(h) => {
                    host = Some(h);
                },
                None => {
                    proof {
                        assert(es_first_failure(slines, i as int));
                        lemma_es_fold_none(slines, i + 1, slines.len() as int);
                    }
                    return Err(
                        ParsingError {
                            kind: ErrorKind::BadField(i, "host".to_owned(), line.to_owned()),
                        },
                    );
                },
            }
        } else if match_at(&v, &key_port, 0) {
            match es_load_port(line) {
                Some(p) => {
                    port = Some(p);
                },
                None => {
                    proof {
                        assert(es_first_failure(slines, i as int));
                        lemma_es_fold_none(slines, i + 1, slines.len() as int);
                    }
                    return Err(
                        ParsingError {
                            kind: ErrorKind::BadField(i, "port".to_owned(), line.to_owned()),
                        },
                    );
                },
            }
        } else if match_at(&v, &key_index, 0) {
            match es_load_index(line) {
                Some(ix) => {
                    index = Some(ix);
                },
                None => {
                    proof {
                        assert(es_first_failure(slines, i as int));
                        lemma_es_fold_none(slines, i + 1, slines.len() as int);
                    }
                    return Err(
                        ParsingError {
                            kind: ErrorKind::BadField(i, "index".to_owned(), line.to_owned()),
                        },
                    );
                },
            }
        } else {
            proof {
                assert(es_apply_line(st0, slines[i as int]) is None);
                assert(es_first_failure(slines, i as int));
                lemma_es_fold_none(slines, i + 1, slines.len() as int);
            }
            return Err(ParsingError { kind: ErrorKind::BadLine(i, line.to_owned()) });
        }
        proof {
            assert(es_fold(slines, i + 1) == Some(
                EsCfgState { host, port, index: crate::cli::opt_str_view(index) },
            ));
        }
        i = i + 1;
    }
    let h = match host {
        Some(h) => h,
        None => {
            return Err(ParsingError { kind: ErrorKind::FieldNotPresent("host".to_owned()) });
        },
    };
    let p = match port {
        Some(p) => p,
        None => {
            return Err(ParsingError { kind: ErrorKind::FieldNotPresent("port".to_owned()) });
        },
    };
    let ix = match index {
        Some(ix) => ix,
        None => {
            return Err(ParsingError { kind: ErrorKind::FieldNotPresent("index".to_owned()) });
        },
    };
    Ok(ESConfig::new(h, p, ix.as_str()))
}

} // verus!
