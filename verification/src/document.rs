//! Generic documents: the normalization step that turns source entries
//! into ordered field maps, the provenance merge, and the JSON rendering
//! used to frame bulk-write requests.

use vstd::prelude::*;

use crate::browser::BrowserHistControl;
use crate::browser::BrowserHistView;
use crate::browser::BrowserRow;
use crate::console::ConsoleEntrySpec;
use crate::console::ConsoleHistControl;
use crate::console::ConsoleHistEntry;
use crate::console::ConsoleHistView;
use crate::text::chars_of;
use crate::text::chars_to_string;
use crate::text::dec_chars;
use crate::text::match_at;
use crate::text::u64_to_chars;

verus! {

/// A document field value: an unsigned number or a text.
#[derive(Debug)]
pub enum JsonVal {
    Num(u64),
    Text(String),
}

/// The mathematical shape of a field value.
pub enum JsonValView {
    Num(u64),
    Text(Seq<char>),
}

pub open spec fn val_view(v: JsonVal) -> JsonValView {
    match v {
        JsonVal::Num(n) => JsonValView::Num(n),
        JsonVal::Text(s) => JsonValView::Text(s@),
    }
}

/// An ordered field map, immutable once the provenance merge is done.
#[derive(Debug)]
pub struct Document {
    fields: Vec<(String, JsonVal)>,
}

/// The mathematical shape of a document: its fields in order.
pub type DocView = Seq<(Seq<char>, JsonValView)>;

impl View for Document {
    type V = DocView;

    closed spec fn view(&self) -> DocView {
        self.fields@.map_values(|f: (String, JsonVal)| (f.0@, val_view(f.1)))
    }
}

/// The first position at or after `from` whose key is `key`, or -1.
pub open spec fn find_key(fs: DocView, key: Seq<char>, from: int) -> int
    decreases fs.len() - from,
{
    if !(0 <= from < fs.len()) {
        -1
    } else if fs[from].0 == key {
        from
    } else {
        find_key(fs, key, from + 1)
    }
}

/// `fs` with `key` bound to `val`: replaced in place when the key is
/// already present, appended otherwise.
pub open spec fn set_field(fs: DocView, key: Seq<char>, val: JsonValView) -> DocView {
    let i = find_key(fs, key, 0);
    if 0 <= i < fs.len() {
        fs.update(i, (key, val))
    } else {
        fs.push((key, val))
    }
}

proof fn lemma_find_key_ge(fs: DocView, key: Seq<char>, from: int)
    ensures
        find_key(fs, key, from) == -1 || find_key(fs, key, from) >= from,
    decreases fs.len() - from,
{
    if 0 <= from < fs.len() && fs[from].0 != key {
        lemma_find_key_ge(fs, key, from + 1);
    }
}

fn clone_val(v: &JsonVal) -> (r: JsonVal)
    ensures
        val_view(r) == val_view(*v),
{
    match v {
        JsonVal::Num(n) => JsonVal::Num(*n),
        JsonVal::Text(s) => JsonVal::Text(s.clone()),
    }
}

/// Do two strings hold the same characters?
pub fn str_eq(a: &str, b: &str) -> (r: bool)
    ensures
        r == (a@ == b@),
{
    let va = chars_of(a);
    let vb = chars_of(b);
    if va.len() != vb.len() {
        return false;
    }
    let r = match_at(&va, &vb, 0);
    proof {
        if a@ == b@ {
            assert(va@.subrange(0, vb@.len() as int) =~= vb@);
        }
        if r {
            assert(va@.subrange(0, vb@.len() as int) =~= va@);
        }
    }
    r
}

impl Document {
    /// A document with no fields yet.
    pub fn new() -> (r: Document)
        ensures
            r@ == Seq::<(Seq<char>, JsonValView)>::empty(),
    {
        let r = Document { fields: Vec::new() };
        proof {
            assert(r@ =~= Seq::<(Seq<char>, JsonValView)>::empty());
        }
        r
    }

    /// The fields in order.
    pub fn len(&self) -> (r: usize)
        ensures
            r == self@.len(),
    {
        self.fields.len()
    }

    /// Binds `key` to `val`, replacing an earlier binding of the same key
    /// in place, as a map insert would.
    pub fn set(&mut self, key: &str, val: JsonVal)
        ensures
            final(self)@ == set_field(old(self)@, key@, val_view(val)),
    {
        let ghost fs0 = self@;
        let ghost target = set_field(self@, key@, val_view(val));
        let mut out: Vec<(String, JsonVal)> = Vec::new();
        let mut i: usize = 0;
        let mut replaced: bool = false;
        let n = self.fields.len();
        #[verifier::loop_isolation(false)]
        while i < n
            invariant
                i <= n,
                n == fs0.len(),
                replaced <==> 0 <= find_key(fs0, key@, 0) < i,
                find_key(fs0, key@, 0) == if replaced {
                    find_key(fs0, key@, 0)
                } else {
                    find_key(fs0, key@, i as int)
                },
                out@.len() == i,
                forall|k: int|
                    0 <= k < i ==> (#[trigger] out@[k].0@, val_view(out@[k].1)) == (if replaced && k
                        == find_key(fs0, key@, 0) {
                        (key@, val_view(val))
                    } else {
                        fs0[k]
                    }),
            decreases n - i,
        {
            let same = str_eq(self.fields[i].0.as_str(), key);
            if same && !replaced {
                out.push((key.to_owned(), clone_val(&val)));
                replaced = true;
                proof {
                    assert(find_key(fs0, key@, i as int) == i);
                }
            } else {
                let f = &self.fields[i];
                out.push((f.0.clone(), clone_val(&f.1)));
                proof {
                    if !replaced {
                        assert(find_key(fs0, key@, i as int) == find_key(fs0, key@, i + 1));
                        lemma_find_key_ge(fs0, key@, i + 1);
                    }
                }
            }
            i = i + 1;
        }
        if !replaced {
            out.push((key.to_owned(), clone_val(&val)));
        }
        self.fields = out;
        proof {
            if replaced {
                assert(self@ =~= fs0.update(find_key(fs0, key@, 0), (key@, val_view(val))));
            } else {
                assert(find_key(fs0, key@, 0) == -1);
                assert(self@ =~= fs0.push((key@, val_view(val))));
            }
        }
    }
}

/// The JSON rendering of one character inside a string literal: the
/// backslash escapes for quote, backslash, newline, carriage return and
/// tab, the `\u00XX` form for every other control character, and the
/// character itself otherwise.
pub open spec fn escape_char(c: char) -> Seq<char> {
    if c == '"' {
        "\\\""@
    } else if c == '\\' {
        "\\\\"@
    } else if c == '\n' {
        "\\n"@
    } else if c == '\r' {
        "\\r"@
    } else if c == '\t' {
        "\\t"@
    } else if c == '\u{0}' {
        "\\u0000"@
    } else if c == '\u{1}' {
        "\\u0001"@
    } else if c == '\u{2}' {
        "\\u0002"@
    } else if c == '\u{3}' {
        "\\u0003"@
    } else if c == '\u{4}' {
        "\\u0004"@
    } else if c == '\u{5}' {
        "\\u0005"@
    } else if c == '\u{6}' {
        "\\u0006"@
    } else if c == '\u{7}' {
        "\\u0007"@
    } else if c == '\u{8}' {
        "\\u0008"@
    } else if c == '\u{b}' {
        "\\u000b"@
    } else if c == '\u{c}' {
        "\\u000c"@
    } else if c == '\u{e}' {
        "\\u000e"@
    } else if c == '\u{f}' {
        "\\u000f"@
    } else if c == '\u{10}' {
        "\\u0010"@
    } else if c == '\u{11}' {
        "\\u0011"@
    } else if c == '\u{12}' {
        "\\u0012"@
    } else if c == '\u{13}' {
        "\\u0013"@
    } else if c == '\u{14}' {
        "\\u0014"@
    } else if c == '\u{15}' {
        "\\u0015"@
    } else if c == '\u{16}' {
        "\\u0016"@
    } else if c == '\u{17}' {
        "\\u0017"@
    } else if c == '\u{18}' {
        "\\u0018"@
    } else if c == '\u{19}' {
        "\\u0019"@
    } else if c == '\u{1a}' {
        "\\u001a"@
    } else if c == '\u{1b}' {
        "\\u001b"@
    } else if c == '\u{1c}' {
        "\\u001c"@
    } else if c == '\u{1d}' {
        "\\u001d"@
    } else if c == '\u{1e}' {
        "\\u001e"@
    } else if c == '\u{1f}' {
        "\\u001f"@
    } else {
        seq![c]
    }
}

/// `s` with every character escaped.
pub open spec fn escape_str(s: Seq<char>) -> Seq<char>
    decreases s.len(),
{
    if s.len() == 0 {
        Seq::empty()
    } else {
        escape_str(s.drop_last()) + escape_char(s.last())
    }
}

/// The JSON rendering of one field value.
pub open spec fn json_of_val(v: JsonValView) -> Seq<char> {
    match v {
        JsonValView::Num(n) => dec_chars(n as int),
        JsonValView::Text(s) => seq!['"'] + escape_str(s) + seq!['"'],
    }
}

/// The JSON rendering of one field binding.
pub open spec fn json_of_field(f: (Seq<char>, JsonValView)) -> Seq<char> {
    seq!['"'] + escape_str(f.0) + "\":"@ + json_of_val(f.1)
}

/// The comma-separated field list of a document.
pub open spec fn fields_json(fs: DocView) -> Seq<char>
    decreases fs.len(),
{
    if fs.len() == 0 {
        Seq::empty()
    } else if fs.len() == 1 {
        json_of_field(fs.last())
    } else {
        fields_json(fs.drop_last()) + seq![','] + json_of_field(fs.last())
    }
}

/// The JSON object a document serializes to: its fields in order.
pub open spec fn json_of_doc(d: DocView) -> Seq<char> {
    seq!['{'] + fields_json(d) + seq!['}']
}

/// The escape sequence a character needs, if any.
fn escape_piece(c: char) -> (r: Option<&'static str>)
    ensures
        match r {
            Some(p) => p@ == escape_char(c),
            None => escape_char(c) == seq![c],
        },
{
    if c == '"' {
        Some("\\\"")
    } else if c == '\\' {
        Some("\\\\")
    } else if c == '\n' {
        Some("\\n")
    } else if c == '\r' {
        Some("\\r")
    } else if c == '\t' {
        Some("\\t")
    } else if c == '\u{0}' {
        Some("\\u0000")
    } else if c == '\u{1}' {
        Some("\\u0001")
    } else if c == '\u{2}' {
        Some("\\u0002")
    } else if c == '\u{3}' {
        Some("\\u0003")
    } else if c == '\u{4}' {
        Some("\\u0004")
    } else if c == '\u{5}' {
        Some("\\u0005")
    } else if c == '\u{6}' {
        Some("\\u0006")
    } else if c == '\u{7}' {
        Some("\\u0007")
    } else if c == '\u{8}' {
        Some("\\u0008")
    } else if c == '\u{b}' {
        Some("\\u000b")
    } else if c == '\u{c}' {
        Some("\\u000c")
    } else if c == '\u{e}' {
        Some("\\u000e")
    } else if c == '\u{f}' {
        Some("\\u000f")
    } else if c == '\u{10}' {
        Some("\\u0010")
    } else if c == '\u{11}' {
        Some("\\u0011")
    } else if c == '\u{12}' {
        Some("\\u0012")
    } else if c == '\u{13}' {
        Some("\\u0013")
    } else if c == '\u{14}' {
        Some("\\u0014")
    } else if c == '\u{15}' {
        Some("\\u0015")
    } else if c == '\u{16}' {
        Some("\\u0016")
    } else if c == '\u{17}' {
        Some("\\u0017")
    } else if c == '\u{18}' {
        Some("\\u0018")
    } else if c == '\u{19}' {
        Some("\\u0019")
    } else if c == '\u{1a}' {
        Some("\\u001a")
    } else if c == '\u{1b}' {
        Some("\\u001b")
    } else if c == '\u{1c}' {
        Some("\\u001c")
    } else if c == '\u{1d}' {
        Some("\\u001d")
    } else if c == '\u{1e}' {
        Some("\\u001e")
    } else if c == '\u{1f}' {
        Some("\\u001f")
    } else {
        None
    }
}

/// Appends the escaped form of `s` to `out`.
fn escape_append(out: &mut String, s: &str)
    ensures
        final(out)@ == old(out)@ + escape_str(s@),
{
    let v = chars_of(s);
    let n = v.len();
    let mut i: usize = 0;
    #[verifier::loop_isolation(false)]
    while i < n
        invariant
            i <= n,
            out@ == old(out)@ + escape_str(s@.subrange(0, i as int)),
        decreases n - i,
    {
        let ghost pre = s@.subrange(0, i as int);
        let ghost cur = s@.subrange(0, i + 1 as int);
        proof {
            assert(cur.drop_last() =~= pre);
            assert(cur.last() == s@[i as int]);
        }
        match escape_piece(v[i]) {
            Some(p) => {
                out.append(p);
            },
            None => {
                let one = s.substring_char(i, i + 1);
                proof {
                    assert(one@ =~= seq![s@[i as int]]);
                }
                out.append(one);
            },
        }
        i = i + 1;
    }
    proof {
        assert(s@.subrange(0, n as int) =~= s@);
    }
}

/// Renders a document as one JSON object, fields in order.
pub fn render_document(d: &Document) -> (r: String)
    ensures
        r@ == json_of_doc(d@),
{
    let mut out = String::new();
    out.append("{");
    proof {
        reveal_strlit("{");
    }
    let n = d.fields.len();
    let mut i: usize = 0;
    #[verifier::loop_isolation(false)]
    while i < n
        invariant
            i <= n,
            n == d@.len(),
            out@ == seq!['{'] + fields_json(d@.subrange(0, i as int)),
        decreases n - i,
    {
        let ghost pre = d@.subrange(0, i as int);
        let ghost cur = d@.subrange(0, i + 1 as int);
        proof {
            assert(cur.drop_last() =~= pre);
            assert(cur.last() == d@[i as int]);
        }
        if i > 0 {
            out.append(",");
            proof {
                reveal_strlit(",");
            }
        }
        out.append("\"");
        proof {
            reveal_strlit("\"");
        }
        escape_append(&mut out, d.fields[i].0.as_str());
        out.append("\":");
        match &d.fields[i].1 {
            JsonVal::Num(x) => {
                let digits = u64_to_chars(*x);
                let ds = chars_to_string(&digits);
                out.append(ds.as_str());
            },
            JsonVal::Text(s) => {
                out.append("\"");
                escape_append(&mut out, s.as_str());
                out.append("\"");
            },
        }
        proof {
            assert(out@ =~= seq!['{'] + fields_json(cur));
        }
        i = i + 1;
    }
    out.append("}");
    proof {
        reveal_strlit("}");
        assert(d@.subrange(0, n as int) =~= d@);
        assert(out@ =~= json_of_doc(d@));
    }
    out
}

/// The document produced from one browser history entry.
pub open spec fn browser_doc_spec(row: BrowserRow) -> DocView {
    seq![
        ("@timestamp"@, JsonValView::Num(row.timestamp)),
        ("url.full"@, JsonValView::Text(row.url)),
        ("url.visit_count"@, JsonValView::Num(row.visit_count as u64)),
    ]
}

/// The document produced from one console history entry.
pub open spec fn console_doc_spec(e: ConsoleEntrySpec) -> DocView {
    seq![
        ("@timestamp"@, JsonValView::Num(e.timestamp)),
        ("user.name"@, JsonValView::Text(e.user)),
        ("process.command_line"@, JsonValView::Text(e.cmd)),
        ("process.exit_code"@, JsonValView::Num(e.status)),
        ("process.output"@, JsonValView::Text(e.output)),
    ]
}

/// Normalizes one browser entry.
pub fn browser_document(e: &crate::browser::BrowserHistEntry) -> (r: Document)
    ensures
        r@ == browser_doc_spec(crate::browser::row_of(*e)),
{
    let mut fields: Vec<(String, JsonVal)> = Vec::new();
    fields.push(("@timestamp".to_owned(), JsonVal::Num(e.timestamp)));
    fields.push(("url.full".to_owned(), JsonVal::Text(e.url.clone())));
    fields.push(("url.visit_count".to_owned(), JsonVal::Num(e.visit_count as u64)));
    let r = Document { fields };
    proof {
        assert(r@ =~= browser_doc_spec(crate::browser::row_of(*e)));
    }
    r
}

/// Normalizes one console entry.
pub fn console_document(e: &ConsoleHistEntry) -> (r: Document)
    ensures
        r@ == console_doc_spec(crate::console::entry_of(*e)),
{
    let mut fields: Vec<(String, JsonVal)> = Vec::new();
    fields.push(("@timestamp".to_owned(), JsonVal::Num(e.timestamp)));
    fields.push(("user.name".to_owned(), JsonVal::Text(e.user.clone())));
    fields.push(("process.command_line".to_owned(), JsonVal::Text(e.cmd.clone())));
    fields.push(("process.exit_code".to_owned(), JsonVal::Num(e.status)));
    fields.push(("process.output".to_owned(), JsonVal::Text(e.output.clone())));
    let r = Document { fields };
    proof {
        assert(r@ =~= console_doc_spec(crate::console::entry_of(*e)));
    }
    r
}

/// A browser source after one drain: nothing left in the buffer.
pub open spec fn browser_drained(s: BrowserHistView) -> BrowserHistView {
    BrowserHistView { history: Seq::empty(), ..s }
}

/// A console source after one drain: nothing left in the buffer.
pub open spec fn console_drained(s: ConsoleHistView) -> ConsoleHistView {
    ConsoleHistView { history: Seq::empty(), ..s }
}

impl BrowserHistControl {
    /// Drains the buffer into a batch of normalized documents, oldest
    /// first; an empty buffer yields no batch. The watermark is untouched.
    pub fn dump(&mut self) -> (r: Option<Vec<Document>>)
        ensures
            final(self)@ == browser_drained(old(self)@),
            r is Some <==> old(self)@.history.len() > 0,
            r matches Some(docs) ==> docs@.len() == old(self)@.history.len() && (forall|i: int|
                0 <= i < docs@.len() ==> (#[trigger] docs@[i])@ == browser_doc_spec(
                    old(self)@.history[i],
                )),
    {
        let h = self.history();
        let n = h.len();
        if n == 0 {
            proof {
                assert(self@.history =~= browser_drained(old(self)@).history);
            }
            return None;
        }
        let mut docs: Vec<Document> = Vec::new();
        let mut i: usize = 0;
        #[verifier::loop_isolation(false)]
        while i < n
            invariant
                i <= n,
                docs@.len() == i,
                forall|k: int|
                    0 <= k < i ==> (#[trigger] docs@[k])@ == browser_doc_spec(old(self)@.history[k]),
            decreases n - i,
        {
            docs.push(browser_document(&h[i]));
            i = i + 1;
        }
        self.clear();
        Some(docs)
    }
}

impl ConsoleHistControl {
    /// Drains the buffer into a batch of normalized documents, oldest
    /// first; an empty buffer yields no batch. The offset is untouched.
    pub fn dump(&mut self) -> (r: Option<Vec<Document>>)
        ensures
            final(self)@ == console_drained(old(self)@),
            r is Some <==> old(self)@.history.len() > 0,
            r matches Some(docs) ==> docs@.len() == old(self)@.history.len() && (forall|i: int|
                0 <= i < docs@.len() ==> (#[trigger] docs@[i])@ == console_doc_spec(
                    old(self)@.history[i],
                )),
    {
        let h = self.history();
        let n = h.len();
        if n == 0 {
            proof {
                assert(self@.history =~= console_drained(old(self)@).history);
            }
            return None;
        }
        let mut docs: Vec<Document> = Vec::new();
        let mut i: usize = 0;
        #[verifier::loop_isolation(false)]
        while i < n
            invariant
                i <= n,
                docs@.len() == i,
                forall|k: int|
                    0 <= k < i ==> (#[trigger] docs@[k])@ == console_doc_spec(old(self)@.history[k]),
            decreases n - i,
        {
            docs.push(console_document(&h[i]));
            i = i + 1;
        }
        self.clear();
        Some(docs)
    }
}

/// A drained source holds nothing, and draining it again changes nothing:
/// by `dump`'s contract the second drain therefore yields no batch. The
/// buffer is consumed exactly once.
pub proof fn lemma_browser_single_consumption(s: BrowserHistView)
    ensures
        browser_drained(s).history.len() == 0,
        browser_drained(browser_drained(s)) == browser_drained(s),
{
}

/// The console counterpart: one drain empties the buffer for good.
pub proof fn lemma_console_single_consumption(s: ConsoleHistView)
    ensures
        console_drained(s).history.len() == 0,
        console_drained(console_drained(s)) == console_drained(s),
{
}

/// The provenance merge applied to one document.
pub open spec fn with_provenance(d: DocView, user: Seq<char>, ip: Seq<char>) -> DocView {
    set_field(set_field(d, "user.name"@, JsonValView::Text(user)), "host.ip"@, JsonValView::Text(ip))
}

/// Merges the provenance fields (acting user, host IP) into every document
/// of a batch, overriding earlier bindings of the same keys.
pub fn update_records(records: &mut Vec<Document>, username: &str, ip: &str)
    ensures
        final(records)@.len() == old(records)@.len(),
        forall|i: int|
            0 <= i < old(records)@.len() ==> (#[trigger] final(records)@[i])@ == with_provenance(
                old(records)@[i]@,
                username@,
                ip@,
            ),
{
    let n = records.len();
    let mut i: usize = 0;
    #[verifier::loop_isolation(false)]
    while i < n
        invariant
            i <= n,
            records@.len() == n,
            forall|k: int| i <= k < n ==> #[trigger] records@[k]@ == old(records)@[k]@,
            forall|k: int|
                0 <= k < i ==> (#[trigger] records@[k])@ == with_provenance(
                    old(records)@[k]@,
                    username@,
                    ip@,
                ),
        decreases n - i,
    {
        let d = &mut records[i];
        d.set("user.name", JsonVal::Text(username.to_owned()));
        d.set("host.ip", JsonVal::Text(ip.to_owned()));
        i = i + 1;
    }
}

} // verus!
