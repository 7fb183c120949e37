//! Verified text helpers shared by the parsers and formatters:
//! character extraction, decimal numbers, and substring search.

use vstd::prelude::*;

verus! {

/// The numeric value of a decimal digit character, or an out-of-range
/// marker for anything else.
pub open spec fn digit_val(c: char) -> int {
    if 48 <= c as int && c as int <= 57 {
        c as int - 48
    } else {
        10
    }
}

/// True when every character of `s` is a decimal digit.
pub open spec fn all_digits(s: Seq<char>) -> bool {
    forall|i: int| 0 <= i < s.len() ==> #[trigger] digit_val(s[i]) < 10
}

/// The value of a digit string read as a base-ten number.
pub open spec fn dec_value(s: Seq<char>) -> int
    decreases s.len(),
{
    if s.len() == 0 {
        0
    } else {
        dec_value(s.drop_last()) * 10 + digit_val(s.last())
    }
}

/// The character for one decimal digit.
pub open spec fn digit_char(d: int) -> char {
    ((48 + d) as u8) as char
}

/// The shortest decimal rendering of `v`: no leading zero except for zero
/// itself.
pub open spec fn dec_chars(v: int) -> Seq<char>
    decreases v,
{
    if v < 10 {
        seq![digit_char(v)]
    } else {
        dec_chars(v / 10).push(digit_char(v % 10))
    }
}

/// `pat` occurs in `s` at position `i`.
pub open spec fn occurs_at(s: Seq<char>, pat: Seq<char>, i: int) -> bool {
    0 <= i && i + pat.len() <= s.len() && s.subrange(i, i + pat.len()) == pat
}

pub proof fn lemma_dec_value_nonneg(s: Seq<char>)
    ensures
        dec_value(s) >= 0,
    decreases s.len(),
{
    if s.len() > 0 {
        lemma_dec_value_nonneg(s.drop_last());
    }
}

/// A digit string is worth at least as much as any of its prefixes.
pub proof fn lemma_dec_value_prefix_le(s: Seq<char>, i: int)
    requires
        0 <= i <= s.len(),
    ensures
        dec_value(s.subrange(0, i)) <= dec_value(s),
    decreases s.len() - i,
{
    if i == s.len() {
        assert(s.subrange(0, i) =~= s);
    } else {
        let t = s.drop_last();
        assert(s.subrange(0, i) =~= t.subrange(0, i));
        lemma_dec_value_prefix_le(t, i);
        lemma_dec_value_nonneg(t);
    }
}

/// The digit a character stands for, if any.
pub fn digit_of(c: char) -> (r: Option<u64>)
    ensures
        match r {
            Some(d) => digit_val(c) < 10 && d == digit_val(c),
            None => digit_val(c) == 10,
        },
{
    if c == '0' {
        Some(0)
    } else if c == '1' {
        Some(1)
    } else if c == '2' {
        Some(2)
    } else if c == '3' {
        Some(3)
    } else if c == '4' {
        Some(4)
    } else if c == '5' {
        Some(5)
    } else if c == '6' {
        Some(6)
    } else if c == '7' {
        Some(7)
    } else if c == '8' {
        Some(8)
    } else if c == '9' {
        Some(9)
    } else {
        None
    }
}

/// The character standing for digit `d`.
pub fn char_of_digit(d: u64) -> (r: char)
    requires
        d < 10,
    ensures
        r == digit_char(d as int),
{
    if d == 0 {
        '0'
    } else if d == 1 {
        '1'
    } else if d == 2 {
        '2'
    } else if d == 3 {
        '3'
    } else if d == 4 {
        '4'
    } else if d == 5 {
        '5'
    } else if d == 6 {
        '6'
    } else if d == 7 {
        '7'
    } else if d == 8 {
        '8'
    } else {
        '9'
    }
}

/// The characters of `s`, one by one.
pub fn chars_of(s: &str) -> (r: Vec<char>)
    ensures
        r@ == s@,
{
    let n = s.unicode_len();
    let mut r: Vec<char> = Vec::new();
    let mut i: usize = 0;
    while i < n
        invariant
            n == s@.len(),
            i <= n,
            r@ == s@.subrange(0, i as int),
        decreases n - i,
    {
        r.push(s.get_char(i));
        i = i + 1;
        assert(r@ =~= s@.subrange(0, i as int));
    }
    assert(r@ =~= s@);
    r
}

/// Relies on `String: FromIterator<char>`: collecting characters yields the
/// string of exactly those characters in order.
#[verifier::external_body]
pub fn chars_to_string(v: &Vec<char>) -> (r: String)
    ensures
        r@ == v@,
{
    v.iter().collect()
}

/// Reads `s[from..to]` as an unsigned base-ten number. Returns `None` when
/// the range is empty, holds a non-digit, or the value does not fit in
/// `u64`.
pub fn parse_u64_range(s: &Vec<char>, from: usize, to: usize) -> (r: Option<u64>)
    requires
        from <= to <= s@.len(),
    ensures
        match r {
            Some(v) => {
                &&& to > from
                &&& all_digits(s@.subrange(from as int, to as int))
                &&& v == dec_value(s@.subrange(from as int, to as int))
            },
            None => {
                ||| to == from
                ||| !all_digits(s@.subrange(from as int, to as int))
                ||| dec_value(s@.subrange(from as int, to as int)) > u64::MAX
            },
        },
{
    if to == from {
        return None;
    }
    let ghost sub = s@.subrange(from as int, to as int);
    let mut acc: u64 = 0;
    let mut i: usize = from;
    while i < to
        invariant
            from <= i <= to <= s@.len(),
            sub == s@.subrange(from as int, to as int),
            all_digits(s@.subrange(from as int, i as int)),
            acc == dec_value(s@.subrange(from as int, i as int)),
        decreases to - i,
    {
        let c = s[i];
        let d: u64 = match digit_of(c) {
            Some(d) => d,
            None => {
                assert(s@.subrange(from as int, to as int)[i - from] == c);
                assert(!all_digits(sub));
                return None;
            },
        };
        assert(d == digit_val(c));
        let ghost prev = s@.subrange(from as int, i as int);
        let ghost cur = s@.subrange(from as int, i + 1 as int);
        assert(cur.drop_last() =~= prev);
        assert(cur.last() == c);
        match acc.checked_mul(10) {
            None => {
                proof {
                    lemma_dec_value_nonneg(prev);
                    assert(dec_value(cur) > u64::MAX);
                    lemma_dec_value_prefix_le(sub, i + 1 - from);
                    assert(sub.subrange(0, i + 1 - from) =~= cur);
                }
                return None;
            },
            Some(m) => {
                match m.checked_add(d) {
                    None => {
                        proof {
                            assert(dec_value(cur) > u64::MAX);
                            lemma_dec_value_prefix_le(sub, i + 1 - from);
                            assert(sub.subrange(0, i + 1 - from) =~= cur);
                        }
                        return None;
                    },
                    Some(v) => {
                        acc = v;
                    },
                }
            },
        }
        i = i + 1;
    }
    assert(s@.subrange(from as int, i as int) =~= sub);
    Some(acc)
}

/// Renders `v` in decimal.
pub fn u64_to_chars(v: u64) -> (r: Vec<char>)
    ensures
        r@ == dec_chars(v as int),
    decreases v,
{
    if v < 10 {
        let mut r: Vec<char> = Vec::new();
        r.push(char_of_digit(v));
        assert(r@ =~= dec_chars(v as int));
        r
    } else {
        let mut r = u64_to_chars(v / 10);
        r.push(char_of_digit(v % 10));
        assert(r@ =~= dec_chars(v as int));
        r
    }
}

/// Does `pat` occur in `s` at position `at`?
pub fn match_at(s: &Vec<char>, pat: &Vec<char>, at: usize) -> (r: bool)
    requires
        at <= s@.len(),
    ensures
        r == occurs_at(s@, pat@, at as int),
{
    if s.len() - at < pat.len() {
        return false;
    }
    let mut j: usize = 0;
    while j < pat.len()
        invariant
            at + pat@.len() <= s@.len(),
            s@.len() <= usize::MAX,
            j <= pat@.len(),
            forall|k: int| 0 <= k < j ==> s@[at + k] == pat@[k],
        decreases pat@.len() - j,
    {
        if s[at + j] != pat[j] {
            assert(s@.subrange(at as int, at + pat@.len())[j as int] != pat@[j as int]);
            return false;
        }
        j = j + 1;
    }
    assert(s@.subrange(at as int, at + pat@.len()) =~= pat@);
    true
}

/// The first occurrence of `pat` in `s` at or after `from`, if any.
pub fn find_from(s: &Vec<char>, pat: &Vec<char>, from: usize) -> (r: Option<usize>)
    requires
        from <= s@.len(),
    ensures
        match r {
            Some(i) => {
                &&& from <= i
                &&& occurs_at(s@, pat@, i as int)
                &&& forall|j: int| from <= j < i ==> !occurs_at(s@, pat@, j)
            },
            None => forall|j: int| from <= j ==> !occurs_at(s@, pat@, j),
        },
{
    if pat.len() == 0 {
        assert(s@.subrange(from as int, from as int) =~= pat@);
        return Some(from);
    }
    let mut i: usize = from;
    while i < s.len()
        invariant
            from <= i,
            i <= s@.len(),
            forall|j: int| from <= j < i ==> !occurs_at(s@, pat@, j),
        decreases s@.len() - i,
    {
        if match_at(s, pat, i) {
            return Some(i);
        }
        i = i + 1;
    }
    assert(forall|j: int| from <= j ==> !occurs_at(s@, pat@, j)) by {
        assert forall|j: int| from <= j implies !occurs_at(s@, pat@, j) by {
            if j < i {
            } else {
                assert(j + pat@.len() > s@.len());
            }
        }
    }
    None
}

/// The end of the run of decimal digits starting at `from`.
pub open spec fn digit_run_end(s: Seq<char>, from: int) -> int
    decreases s.len() - from,
{
    if !(0 <= from < s.len()) {
        from
    } else if digit_val(s[from]) < 10 {
        digit_run_end(s, from + 1)
    } else {
        from
    }
}

/// The end of the digit run starting at `from`.
pub fn digit_run(v: &Vec<char>, from: usize) -> (r: usize)
    requires
        from <= v@.len(),
    ensures
        r == digit_run_end(v@, from as int),
        from <= r <= v@.len(),
{
    let mut i: usize = from;
    while i < v.len()
        invariant
            from <= i <= v@.len(),
            digit_run_end(v@, from as int) == digit_run_end(v@, i as int),
        decreases v@.len() - i,
    {
        match digit_of(v[i]) {
            Some(_) => {
                i = i + 1;
            },
            None => {
                return i;
            },
        }
    }
    i
}

/// The first position at or after `from` holding character `c`, or -1.
pub open spec fn find_char(s: Seq<char>, c: char, from: int) -> int
    decreases s.len() - from,
{
    if !(0 <= from < s.len()) {
        -1
    } else if s[from] == c {
        from
    } else {
        find_char(s, c, from + 1)
    }
}

/// The chunk split at newlines, starting at `from`; the terminating
/// newline of the last record, if any, yields one empty trailing segment.
pub open spec fn split_from(s: Seq<char>, from: int) -> Seq<Seq<char>>
    decreases s.len() - from,
{
    if !(0 <= from <= s.len()) {
        Seq::empty()
    } else {
        let i = find_char(s, '\n', from);
        if from <= i && i < s.len() {
            seq![s.subrange(from, i)] + split_from(s, i + 1)
        } else {
            seq![s.subrange(from, s.len() as int)]
        }
    }
}

/// The lines of a chunk: newline-separated segments, with no empty
/// trailing segment after a terminating newline and none at all for an
/// empty chunk.
pub open spec fn lines_of(s: Seq<char>) -> Seq<Seq<char>> {
    if s.len() == 0 {
        Seq::empty()
    } else {
        let p = split_from(s, 0);
        if p.last().len() == 0 {
            p.drop_last()
        } else {
            p
        }
    }
}

pub open spec fn views_of(ss: Seq<String>) -> Seq<Seq<char>> {
    ss.map_values(|x: String| x@)
}

fn find_char_at(v: &Vec<char>, c: char, from: usize) -> (r: Option<usize>)
    requires
        from <= v@.len(),
    ensures
        match r {
            Some(i) => from <= i < v@.len() && i == find_char(v@, c, from as int),
            None => find_char(v@, c, from as int) == -1,
        },
{
    let mut i: usize = from;
    while i < v.len()
        invariant
            from <= i <= v@.len(),
            find_char(v@, c, from as int) == find_char(v@, c, i as int),
        decreases v@.len() - i,
    {
        if v[i] == c {
            return Some(i);
        }
        i = i + 1;
    }
    None
}

/// Splits a chunk into its lines.
pub fn split_lines(s: &str) -> (r: Vec<String>)
    ensures
        views_of(r@) == lines_of(s@),
{
    let v = chars_of(s);
    let vlen: usize = v.len();
    let mut out: Vec<String> = Vec::new();
    if vlen == 0 {
        proof {
            assert(views_of(out@) =~= lines_of(s@));
        }
        return out;
    }
    let mut pos: usize = 0;
    loop
        invariant_except_break
            pos <= vlen,
            vlen == v@.len(),
            v@ == s@,
            views_of(out@) + split_from(s@, pos as int) == split_from(s@, 0),
        ensures
            views_of(out@) == split_from(s@, 0),
        decreases vlen - pos,
    {
        match find_char_at(&v, '\n', pos) {
            Some(i) => {
                let seg = s.substring_char(pos, i).to_owned();
                let ghost outpre = out@;
                out.push(seg);
                pos = i + 1;
                proof {
                    assert(views_of(out@) =~= views_of(outpre).push(seg@));
                    assert(views_of(out@) + split_from(s@, pos as int) =~= split_from(s@, 0));
                }
            },
            None => {
                let seg = s.substring_char(pos, vlen).to_owned();
                let ghost outpre = out@;
                out.push(seg);
                proof {
                    assert(views_of(out@) =~= views_of(outpre).push(seg@));
                    assert(views_of(out@) =~= split_from(s@, 0));
                }
                break;
            },
        }
    }
    proof {
        assert(split_from(s@, 0).len() >= 1);
        assert(out@.len() >= 1);
    }
    let last_empty = out[out.len() - 1].as_str().is_empty();
    if last_empty {
        let ghost outpre = out@;
        out.pop();
        proof {
            assert(views_of(out@) =~= views_of(outpre).drop_last());
            assert(views_of(outpre).last().len() == 0);
            assert(views_of(out@) =~= lines_of(s@));
        }
    } else {
        proof {
            assert(views_of(out@).last().len() != 0);
            assert(views_of(out@) =~= lines_of(s@));
        }
    }
    out
}

} // verus!
