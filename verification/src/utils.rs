//! Path template handling (home-directory expansion, wildcard resolution)
//! and the process clock. The filesystem- and environment-dependent calls
//! stand behind trusted wrappers; the string work around them is verified.

use vstd::prelude::*;

use crate::text::chars_of;
use crate::text::chars_to_string;

verus! {

/// Why a backing-file path template could not be turned into a concrete
/// path.
#[derive(Clone, Copy, Debug, PartialEq, Eq, Structural)]
pub enum PathError {
    /// The template mentions `~` but no home directory is known.
    HomeNotFound,
    /// No file on disk matches the resolved pattern.
    NoMatch,
}

/// Relies on `std::time::SystemTime::now` and `duration_since`: seconds
/// since the Unix epoch, or zero if the clock reads earlier than the epoch.
#[verifier::external_body]
pub fn timestamp_now() -> u64 {
    match std::time::SystemTime::now().duration_since(std::time::UNIX_EPOCH) {
        Ok(d) => d.as_secs(),
        Err(_) => 0,
    }
}

/// Relies on `dirs::home_dir`: the current user's home directory, when the
/// platform reports one and its path is valid UTF-8. The result depends on
/// the process environment, so nothing is promised of it.
#[verifier::external_body]
fn home_dir() -> Option<String> {
    match dirs::home_dir() {
        Some(p) => match p.to_str() {
            Some(s) => Some(s.to_string()),
            None => None,
        },
        None => None,
    }
}

/// Relies on `glob::glob`: the first filesystem entry matching `pattern`,
/// in the order the iterator yields them. The result depends on what is on
/// disk, so nothing is promised of it.
#[verifier::external_body]
fn glob_first(pattern: &str) -> Option<String> {
    let paths = match glob::glob(pattern) {
        Ok(paths) => paths,
        Err(_) => return None,
    };
    for entry in paths {
        match entry {
            Ok(p) => match p.to_str() {
                Some(s) => return Some(s.to_string()),
                None => return None,
            },
            Err(_) => return None,
        }
    }
    None
}

/// The template mentions the home-directory shorthand.
pub open spec fn has_tilde(s: Seq<char>) -> bool {
    exists|i: int| 0 <= i < s.len() && s[i] == '~'
}

/// `s` with every `~` replaced by `h`.
pub open spec fn expand_tilde(s: Seq<char>, h: Seq<char>) -> Seq<char>
    decreases s.len(),
{
    if s.len() == 0 {
        Seq::empty()
    } else if s.last() == '~' {
        expand_tilde(s.drop_last(), h) + h
    } else {
        expand_tilde(s.drop_last(), h).push(s.last())
    }
}

/// Replaces every `~` in `path` with `home`.
pub fn replace_tilde(path: &str, home: &str) -> (r: String)
    ensures
        r@ == expand_tilde(path@, home@),
{
    let s = chars_of(path);
    let h = chars_of(home);
    let mut out: Vec<char> = Vec::new();
    let mut i: usize = 0;
    while i < s.len()
        invariant
            i <= s@.len(),
            s@ == path@,
            h@ == home@,
            out@ == expand_tilde(path@.subrange(0, i as int), home@),
        decreases s@.len() - i,
    {
        let ghost pre = path@.subrange(0, i as int);
        let ghost cur = path@.subrange(0, i + 1 as int);
        proof {
            assert(cur.drop_last() =~= pre);
            assert(cur.last() == path@[i as int]);
        }
        if s[i] == '~' {
            let mut hc = h.clone();
            out.append(&mut hc);
        } else {
            out.push(s[i]);
        }
        i = i + 1;
    }
    assert(path@.subrange(0, s@.len() as int) =~= path@);
    chars_to_string(&out)
}

/// Expands the home-directory shorthand in `path`. A template without `~`
/// comes back unchanged; otherwise every `~` is replaced by the home
/// directory, which only the environment can supply.
pub fn path_expand(path: &str) -> (r: Result<String, PathError>)
    ensures
        !has_tilde(path@) ==> (r matches Ok(p) && p@ == path@),
        r matches Err(e) ==> e == PathError::HomeNotFound && has_tilde(path@),
        has_tilde(path@) ==> (r matches Err(_) || (r matches Ok(p) && exists|h: Seq<char>|
            p@ == expand_tilde(path@, h))),
{
    let s = chars_of(path);
    let mut i: usize = 0;
    let mut found: bool = false;
    while i < s.len()
        invariant
            i <= s@.len(),
            s@ == path@,
            found == exists|j: int| 0 <= j < i && path@[j] == '~',
        decreases s@.len() - i,
    {
        if s[i] == '~' {
            found = true;
        }
        i = i + 1;
    }
    if !found {
        return Ok(path.to_owned());
    }
    match home_dir() {
        Some(h) => {
            let expanded = replace_tilde(path, h.as_str());
            Ok(expanded)
        },
        None => Err(PathError::HomeNotFound),
    }
}

/// Resolves the wildcard in an expanded template against the filesystem:
/// the first match wins. The outcome depends on what is on disk, so only
/// the error case is pinned down.
pub fn path_resolve(path: &str) -> (r: Result<String, PathError>)
    ensures
        r matches Err(e) ==> e == PathError::NoMatch,
{
    match glob_first(path) {
        Some(p) => Ok(p),
        None => Err(PathError::NoMatch),
    }
}

/// `s` with every trailing newline removed.
pub open spec fn trimmed_newlines(s: Seq<char>) -> Seq<char>
    decreases s.len(),
{
    if s.len() > 0 && s.last() == '\n' {
        trimmed_newlines(s.drop_last())
    } else {
        s
    }
}

/// Strips the trailing newlines a command's captured output ends with.
pub fn trim_trailing_newlines(s: &str) -> (r: String)
    ensures
        r@ == trimmed_newlines(s@),
{
    let v = chars_of(s);
    let mut end: usize = v.len();
    proof {
        assert(s@.subrange(0, v@.len() as int) =~= s@);
    }
    while end > 0 && v[end - 1] == '\n'
        invariant
            end <= v@.len(),
            v@ == s@,
            trimmed_newlines(s@) == trimmed_newlines(s@.subrange(0, end as int)),
        decreases end,
    {
        proof {
            assert(s@.subrange(0, end as int).drop_last() =~= s@.subrange(0, end - 1));
        }
        end = end - 1;
    }
    let r = s.substring_char(0, end).to_owned();
    proof {
        assert(trimmed_newlines(s@.subrange(0, end as int)) == s@.subrange(0, end as int));
    }
    r
}

/// The first address reported on an `inet` line of an interface listing:
/// the run of digits and periods after the first `inet ` tag, read as a
/// dotted quad.
pub open spec fn inet_addr_of(text: Seq<char>) -> Option<crate::elastic::HostAddr> {
    let i = crate::console::linux_parser::spec_find(text, "inet "@, 0);
    if i < 0 {
        None
    } else {
        let start = i + 5;
        let end = addr_run_end(text, start);
        crate::cli::ipv4_parse(text.subrange(start, end))
    }
}

/// The end of the run of digits and periods starting at `from`.
pub open spec fn addr_run_end(s: Seq<char>, from: int) -> int
    decreases s.len() - from,
{
    if !(0 <= from < s.len()) {
        from
    } else if s[from] == '.' || crate::text::digit_val(s[from]) < 10 {
        addr_run_end(s, from + 1)
    } else {
        from
    }
}

fn addr_run(v: &Vec<char>, from: usize) -> (r: usize)
    requires
        from <= v@.len(),
    ensures
        r == addr_run_end(v@, from as int),
        from <= r <= v@.len(),
{
    let mut i: usize = from;
    while i < v.len()
        invariant
            from <= i <= v@.len(),
            addr_run_end(v@, from as int) == addr_run_end(v@, i as int),
        decreases v@.len() - i,
    {
        let c = v[i];
        let is_digit = match crate::text::digit_of(c) {
            Some(_) => true,
            None => false,
        };
        if c == '.' || is_digit {
            i = i + 1;
        } else {
            return i;
        }
    }
    i
}

/// Extracts the host address from an interface listing, as the agent's
/// own address for the provenance fields.
pub fn parse_inet(text: &str) -> (r: Option<crate::elastic::HostAddr>)
    ensures
        r == inet_addr_of(text@),
{
    let v = chars_of(text);
    let pat = chars_of("inet ");
    let i = match crate::text::find_from(&v, &pat, 0) {
        Some(i) => i,
        None => {
            proof {
                crate::console::linux_parser::lemma_find_nothing(text@, "inet "@, 0);
            }
            return None;
        },
    };
    proof {
        crate::console::linux_parser::lemma_find_agrees(text@, "inet "@, 0, i as int);
        reveal_strlit("inet ");
    }
    let vlen: usize = v.len();
    proof {
        assert(i + 5 <= vlen);
    }
    let start = i + 5;
    let end = addr_run(&v, start);
    let run = text.substring_char(start, end);
    proof {
        assert(run@ == text@.subrange(start as int, addr_run_end(text@, start as int)));
    }
    crate::cli::parse_host_addr(run)
}

/// Expands and resolves a backing-file path template.
pub fn path_expand_and_resolve(path: &str) -> (r: Result<String, PathError>)
    ensures
        r matches Err(e) ==> (e == PathError::HomeNotFound && has_tilde(path@)) || e
            == PathError::NoMatch,
{
    let expanded = path_expand(path)?;
    let resolved = path_resolve(expanded.as_str())?;
    Ok(resolved)
}

} // verus!
