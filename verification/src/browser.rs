//! Browser history source: a watermark over visit timestamps, an ordered
//! buffer of newly discovered entries, and the delta-extraction step of an
//! update cycle. Reading the vendor database itself happens outside the
//! library; this module is handed the rows of one snapshot query and does
//! everything after that.

use vstd::prelude::*;

use crate::utils::path_expand_and_resolve;
use crate::utils::timestamp_now;

verus! {

/// Vendors whose history database layout is known.
#[derive(Debug, Clone)]
pub enum Browser {
    Firefox,
    FirefoxEsr,
    Chrome,
}

/// Where a freshly built or reset source starts reading.
pub enum BrowserHistFrom {
    /// Everything the database holds.
    Start,
    /// Only visits after the present moment.
    Now,
    /// Only visits after the given Unix timestamp.
    Timestamp(u64),
}

/// One visit row, as the vendor query yields it.
#[derive(Debug, Clone)]
pub struct BrowserHistEntry {
    pub timestamp: u64,
    pub url: String,
    pub visit_count: usize,
}

/// Why a browser source could not be built.
#[derive(Clone, Copy, Debug, PartialEq, Eq, Structural)]
pub enum BrowserErrorKind {
    /// The vendor has no supported database layout.
    UnsupportedBrowser,
    /// No history database was found on disk for the vendor.
    DatabaseNotFound,
}

/// A browser source failure, fatal at construction time.
#[derive(Clone, Copy, Debug, PartialEq, Eq, Structural)]
pub struct BrowserError {
    pub kind: BrowserErrorKind,
}

/// The mathematical shape of one visit row.
pub struct BrowserRow {
    pub timestamp: u64,
    pub url: Seq<char>,
    pub visit_count: usize,
}

/// The mathematical state of a browser source.
pub struct BrowserHistView {
    pub history: Seq<BrowserRow>,
    pub browser: Browser,
    pub database: Seq<char>,
    pub raw_query: Seq<char>,
    pub watermark: u64,
}

pub open spec fn row_of(e: BrowserHistEntry) -> BrowserRow {
    BrowserRow { timestamp: e.timestamp, url: e.url@, visit_count: e.visit_count }
}

pub open spec fn rows_of(s: Seq<BrowserHistEntry>) -> Seq<BrowserRow> {
    s.map_values(|e: BrowserHistEntry| row_of(e))
}

/// Rows in ascending timestamp order, as the vendor query returns them.
pub open spec fn sorted_rows(rows: Seq<BrowserRow>) -> bool {
    forall|i: int, j: int|
        0 <= i <= j < rows.len() ==> #[trigger] rows[i].timestamp <= #[trigger] rows[j].timestamp
}

/// The rows strictly newer than watermark `w`, in order.
pub open spec fn rows_newer(rows: Seq<BrowserRow>, w: u64) -> Seq<BrowserRow>
    decreases rows.len(),
{
    if rows.len() == 0 {
        Seq::empty()
    } else if rows.last().timestamp > w {
        rows_newer(rows.drop_last(), w).push(rows.last())
    } else {
        rows_newer(rows.drop_last(), w)
    }
}

/// How many entries one update cycle discovers.
pub open spec fn update_count(s: BrowserHistView, rows: Seq<BrowserRow>) -> nat {
    rows_newer(rows, s.watermark).len()
}

/// Every reachable source state: the buffer ascends and holds nothing
/// newer than the watermark.
pub open spec fn browser_wf(s: BrowserHistView) -> bool {
    &&& sorted_rows(s.history)
    &&& forall|i: int|
        0 <= i < s.history.len() ==> #[trigger] s.history[i].timestamp <= s.watermark
}

/// The state after one update cycle fed with snapshot `rows`: the strictly
/// newer rows are appended to the buffer and the watermark advances to the
/// newest of them, or stays put when there are none.
pub open spec fn updated_view(s: BrowserHistView, rows: Seq<BrowserRow>) -> BrowserHistView {
    let kept = rows_newer(rows, s.watermark);
    BrowserHistView {
        history: s.history + kept,
        watermark: if kept.len() == 0 {
            s.watermark
        } else {
            kept.last().timestamp
        },
        ..s
    }
}

/// A browser history source bound to one vendor database.
#[derive(Debug, Clone)]
pub struct BrowserHistControl {
    history: Vec<BrowserHistEntry>,
    browser: Browser,
    database: String,
    raw_query: String,
    l_timestamp: u64,
}

impl View for BrowserHistControl {
    type V = BrowserHistView;

    closed spec fn view(&self) -> BrowserHistView {
        BrowserHistView {
            history: rows_of(self.history@),
            browser: self.browser,
            database: self.database@,
            raw_query: self.raw_query@,
            watermark: self.l_timestamp,
        }
    }
}

/// The default backing-file template for a Firefox profile.
pub open spec fn firefox_db_template() -> Seq<char> {
    "~/.mozilla/firefox/*default-release/places.sqlite"@
}

/// The default backing-file template for a Chrome profile.
pub open spec fn chrome_db_template() -> Seq<char> {
    "~/.config/google-chrome/Default/History"@
}

/// The Firefox range query; visit times are microseconds and are normalized
/// to UTC Unix seconds before the watermark comparison.
pub open spec fn firefox_query() -> Seq<char> {
    "SELECT CAST(strftime('%s', last_visit_date/1000000, 'unixepoch') AS INTEGER) as\n    timestamp,\n    url,\n    visit_count\nFROM moz_places\nWHERE last_visit_date IS NOT NULL AND timestamp > ?\nORDER BY timestamp;"@
}

/// The Chrome range query; visit times count microseconds from an earlier
/// epoch and are shifted to UTC Unix seconds before the comparison.
pub open spec fn chrome_query() -> Seq<char> {
    "SELECT CAST(strftime('%s', last_visit_time/1000000 - 11644473600, 'unixepoch') AS INTEGER) as\n    timestamp,\n    url,\n    visit_count\nFROM urls\nWHERE last_visit_time IS NOT NULL AND timestamp > ?\nORDER BY timestamp;"@
}

/// The fixed per-vendor configuration: backing-file template and range
/// query. Only `Firefox` and `Chrome` are supported.
pub open spec fn vendor_config(b: Browser) -> Option<(Seq<char>, Seq<char>)> {
    match b {
        Browser::Firefox => Some((firefox_db_template(), firefox_query())),
        Browser::FirefoxEsr => None,
        Browser::Chrome => Some((chrome_db_template(), chrome_query())),
    }
}

fn vendor_config_exec(b: &Browser) -> (r: Option<(&'static str, &'static str)>)
    ensures
        match r {
            Some(p) => vendor_config(*b) matches Some(q) && p.0@ == q.0 && p.1@ == q.1,
            None => vendor_config(*b) is None,
        },
{
    match b {
        Browser::Firefox => Some(
            (
                "~/.mozilla/firefox/*default-release/places.sqlite",
                "SELECT CAST(strftime('%s', last_visit_date/1000000, 'unixepoch') AS INTEGER) as\n    timestamp,\n    url,\n    visit_count\nFROM moz_places\nWHERE last_visit_date IS NOT NULL AND timestamp > ?\nORDER BY timestamp;",
            ),
        ),
        Browser::FirefoxEsr => None,
        Browser::Chrome => Some(
            (
                "~/.config/google-chrome/Default/History",
                "SELECT CAST(strftime('%s', last_visit_time/1000000 - 11644473600, 'unixepoch') AS INTEGER) as\n    timestamp,\n    url,\n    visit_count\nFROM urls\nWHERE last_visit_time IS NOT NULL AND timestamp > ?\nORDER BY timestamp;",
            ),
        ),
    }
}

fn clone_entry(e: &BrowserHistEntry) -> (r: BrowserHistEntry)
    ensures
        row_of(r) == row_of(*e),
{
    BrowserHistEntry { timestamp: e.timestamp, url: e.url.clone(), visit_count: e.visit_count }
}

impl BrowserHistControl {
    /// Binds a source to one vendor and an already resolved backing-file
    /// path; fails exactly on vendors with no supported layout.
    pub fn with_database(browser: Browser, from: BrowserHistFrom, database: String) -> (r: Result<
        BrowserHistControl,
        BrowserError,
    >)
        ensures
            r is Err <==> vendor_config(browser) is None,
            r matches Err(e) ==> e.kind == BrowserErrorKind::UnsupportedBrowser,
            r matches Ok(c) ==> {
                &&& vendor_config(browser) matches Some(q) && c@.raw_query == q.1
                &&& c@.browser == browser
                &&& c@.database == database@
                &&& c@.history.len() == 0
                &&& from matches BrowserHistFrom::Start ==> c@.watermark == 0
                &&& from matches BrowserHistFrom::Timestamp(t) ==> c@.watermark == t
            },
    {
        let query = match vendor_config_exec(&browser) {
            Some(p) => p.1,
            None => {
                return Err(BrowserError { kind: BrowserErrorKind::UnsupportedBrowser });
            },
        };
        let mut ctrl = BrowserHistControl {
            history: Vec::new(),
            browser,
            database,
            raw_query: query.to_owned(),
            l_timestamp: 0,
        };
        ctrl.reset(from);
        Ok(ctrl)
    }

    /// Builds a source for one vendor, resolving the backing-file template
    /// against the filesystem; resolution failure and unsupported vendors
    /// are fatal here, never later.
    pub fn new(browser: Browser, from: BrowserHistFrom) -> (r: Result<
        BrowserHistControl,
        BrowserError,
    >)
        ensures
            browser matches Browser::FirefoxEsr ==> (r matches Err(e) && e.kind
                == BrowserErrorKind::UnsupportedBrowser),
            (r matches Err(e) && e.kind == BrowserErrorKind::UnsupportedBrowser) ==> vendor_config(
                browser,
            ) is None,
            r matches Ok(c) ==> {
                &&& vendor_config(browser) matches Some(q) && c@.raw_query == q.1
                &&& c@.browser == browser
                &&& c@.history.len() == 0
                &&& from matches BrowserHistFrom::Start ==> c@.watermark == 0
                &&& from matches BrowserHistFrom::Timestamp(t) ==> c@.watermark == t
            },
    {
        let template = match vendor_config_exec(&browser) {
            Some(p) => p.0,
            None => {
                return Err(BrowserError { kind: BrowserErrorKind::UnsupportedBrowser });
            },
        };
        let database = match path_expand_and_resolve(template) {
            Ok(p) => p,
            Err(_) => {
                return Err(BrowserError { kind: BrowserErrorKind::DatabaseNotFound });
            },
        };
        Self::with_database(browser, from, database)
    }

    /// One delta-extraction step over the rows of a snapshot query, given
    /// in ascending timestamp order: buffers every row strictly newer than
    /// the watermark and advances the watermark to the newest of them.
    /// Returns how many rows were discovered; zero means nothing new.
    pub fn update(&mut self, snapshot: &Vec<BrowserHistEntry>) -> (n: usize)
        requires
            browser_wf(old(self)@),
            sorted_rows(rows_of(snapshot@)),
        ensures
            final(self)@ == updated_view(old(self)@, rows_of(snapshot@)),
            n == update_count(old(self)@, rows_of(snapshot@)),
            old(self)@.watermark <= final(self)@.watermark,
            browser_wf(final(self)@),
    {
        let w0 = self.l_timestamp;
        let mut n: usize = 0;
        let mut i: usize = 0;
        let ghost rows = rows_of(snapshot@);
        let ghost hist0 = rows_of(self.history@);
        let ghost b0 = self.browser;
        let ghost db0 = self.database@;
        let ghost q0 = self.raw_query@;
        while i < snapshot.len()
            invariant
                i <= snapshot@.len(),
                rows == rows_of(snapshot@),
                self.browser == b0,
                self.database@ == db0,
                self.raw_query@ == q0,
                rows_of(self.history@) == hist0 + rows_newer(rows.subrange(0, i as int), w0),
                n == rows_newer(rows.subrange(0, i as int), w0).len(),
                n <= i,
                w0 <= self.l_timestamp,
                self.l_timestamp == if rows_newer(rows.subrange(0, i as int), w0).len() == 0 {
                    w0
                } else {
                    rows_newer(rows.subrange(0, i as int), w0).last().timestamp
                },
            decreases snapshot@.len() - i,
        {
            let ghost pre = rows.subrange(0, i as int);
            let ghost cur = rows.subrange(0, i + 1 as int);
            proof {
                assert(cur.drop_last() =~= pre);
                assert(cur.last() == rows[i as int]);
            }
            let e = &snapshot[i];
            assert(rows[i as int] == row_of(snapshot@[i as int]));
            if e.timestamp > w0 {
                let c = clone_entry(e);
                let ghost hpre = self.history@;
                proof {
                    assert(row_of(c) == cur.last());
                }
                self.history.push(c);
                self.l_timestamp = e.timestamp;
                n = n + 1;
                proof {
                    assert(rows_newer(cur, w0) == rows_newer(pre, w0).push(cur.last()));
                    assert(rows_of(self.history@) =~= rows_of(hpre).push(row_of(c)));
                    assert(rows_of(self.history@) =~= hist0 + rows_newer(cur, w0));
                }
            } else {
                proof {
                    assert(rows_newer(cur, w0) == rows_newer(pre, w0));
                    assert(rows_of(self.history@) =~= hist0 + rows_newer(cur, w0));
                }
            }
            i = i + 1;
        }
        proof {
            assert(rows.subrange(0, snapshot@.len() as int) =~= rows);
            assert(self@.history =~= updated_view(old(self)@, rows).history);
            lemma_rows_newer_props(rows, w0);
            let kept = rows_newer(rows, w0);
            let h = self@.history;
            assert(h == hist0 + kept);
            assert forall|i: int, j: int| 0 <= i <= j < h.len() implies #[trigger] h[i].timestamp
                <= #[trigger] h[j].timestamp by {
                if j < hist0.len() {
                    assert(hist0[i].timestamp <= hist0[j].timestamp);
                } else if i >= hist0.len() {
                    assert(kept[i - hist0.len()].timestamp <= kept[j - hist0.len()].timestamp);
                } else {
                    assert(hist0[i].timestamp <= w0);
                    assert(kept[j - hist0.len()].timestamp > w0);
                }
            }
            assert forall|i: int| 0 <= i < h.len() implies #[trigger] h[i].timestamp
                <= self@.watermark by {
                if kept.len() == 0 {
                    assert(h[i].timestamp == hist0[i].timestamp);
                } else {
                    if i < hist0.len() {
                        assert(hist0[i].timestamp <= w0);
                        assert(kept.last().timestamp > w0);
                    } else {
                        assert(kept[i - hist0.len()].timestamp <= kept[kept.len()
                            - 1].timestamp);
                    }
                }
            }
        }
        n
    }

    /// Empties the buffer; the watermark is untouched.
    pub fn clear(&mut self)
        ensures
            final(self)@ == (BrowserHistView { history: Seq::empty(), ..old(self)@ }),
    {
        self.history.clear();
        proof {
            assert(self@.history =~= Seq::<BrowserRow>::empty());
        }
    }

    /// Empties the buffer and moves the watermark to the given origin.
    pub fn reset(&mut self, from: BrowserHistFrom)
        ensures
            final(self)@.history.len() == 0,
            final(self)@.browser == old(self)@.browser,
            final(self)@.database == old(self)@.database,
            final(self)@.raw_query == old(self)@.raw_query,
            from matches BrowserHistFrom::Start ==> final(self)@.watermark == 0,
            from matches BrowserHistFrom::Timestamp(t) ==> final(self)@.watermark == t,
    {
        self.clear();
        self.l_timestamp = match from {
            BrowserHistFrom::Start => 0,
            BrowserHistFrom::Now => timestamp_now(),
            BrowserHistFrom::Timestamp(t) => t,
        };
    }

    /// The buffered entries, oldest first.
    pub fn history(&self) -> (r: &Vec<BrowserHistEntry>)
        ensures
            rows_of(r@) == self@.history,
    {
        &self.history
    }

    /// The current watermark: the newest visit timestamp already
    /// discovered.
    pub fn watermark(&self) -> (r: u64)
        ensures
            r == self@.watermark,
    {
        self.l_timestamp
    }

    /// The resolved backing-file path this source reads.
    pub fn database(&self) -> (r: &str)
        ensures
            r@ == self@.database,
    {
        self.database.as_str()
    }

    /// The vendor range query, parametrized by the watermark.
    pub fn raw_query(&self) -> (r: &str)
        ensures
            r@ == self@.raw_query,
    {
        self.raw_query.as_str()
    }

    /// The vendor this source is bound to.
    pub fn browser(&self) -> (r: &Browser)
        ensures
            *r == self@.browser,
    {
        &self.browser
    }
}

/// What filtering an ascending snapshot leaves: an ascending delta whose
/// rows are all strictly newer than the watermark and no newer than the
/// snapshot's last row.
pub proof fn lemma_rows_newer_props(rows: Seq<BrowserRow>, w: u64)
    requires
        sorted_rows(rows),
    ensures
        sorted_rows(rows_newer(rows, w)),
        forall|k: int|
            0 <= k < rows_newer(rows, w).len() ==> #[trigger] rows_newer(rows, w)[k].timestamp > w,
        rows.len() > 0 ==> forall|k: int|
            0 <= k < rows_newer(rows, w).len() ==> #[trigger] rows_newer(rows, w)[k].timestamp
                <= rows.last().timestamp,
    decreases rows.len(),
{
    if rows.len() > 0 {
        let t = rows.drop_last();
        assert(sorted_rows(t)) by {
            assert forall|i: int, j: int| 0 <= i <= j < t.len() implies #[trigger] t[i].timestamp
                <= #[trigger] t[j].timestamp by {
                assert(rows[i].timestamp <= rows[j].timestamp);
            }
        }
        lemma_rows_newer_props(t, w);
        if rows.last().timestamp > w {
            assert forall|i: int, j: int|
                0 <= i <= j < rows_newer(rows, w).len() implies #[trigger] rows_newer(
                rows,
                w,
            )[i].timestamp <= #[trigger] rows_newer(rows, w)[j].timestamp by {
                if t.len() > 0 && j < rows_newer(rows, w).len() - 1 {
                    assert(t.last().timestamp <= rows.last().timestamp);
                }
            }
        }
    }
}

/// An update cycle discovers only entries strictly newer than the
/// watermark, while everything already buffered — and, by watermark
/// monotonicity, everything ever drained — lies at or below it: no entry
/// is ever re-surfaced.
pub proof fn lemma_update_discovers_only_new(s: BrowserHistView, rows: Seq<BrowserRow>)
    requires
        browser_wf(s),
        sorted_rows(rows),
    ensures
        forall|i: int, j: int|
            0 <= i < s.history.len() && 0 <= j < rows_newer(rows, s.watermark).len()
                ==> #[trigger] s.history[i].timestamp <= s.watermark < #[trigger] rows_newer(
                rows,
                s.watermark,
            )[j].timestamp,
{
    lemma_rows_newer_props(rows, s.watermark);
}

/// No row of `rows` is newer than `w`: the delta is empty.
pub proof fn lemma_rows_newer_empty(rows: Seq<BrowserRow>, w: u64)
    requires
        forall|i: int| 0 <= i < rows.len() ==> #[trigger] rows[i].timestamp <= w,
    ensures
        rows_newer(rows, w).len() == 0,
    decreases rows.len(),
{
    if rows.len() > 0 {
        lemma_rows_newer_empty(rows.drop_last(), w);
    }
}

/// Every row of `rows` is newer than `w`: the delta is all of `rows`.
pub proof fn lemma_rows_newer_all(rows: Seq<BrowserRow>, w: u64)
    requires
        forall|i: int| 0 <= i < rows.len() ==> #[trigger] rows[i].timestamp > w,
    ensures
        rows_newer(rows, w) == rows,
    decreases rows.len(),
{
    if rows.len() > 0 {
        lemma_rows_newer_all(rows.drop_last(), w);
        assert(rows_newer(rows, w) =~= rows);
    } else {
        assert(rows_newer(rows, w) =~= rows);
    }
}

/// For every watermark `w` and ascending snapshot whose rows are all newer
/// than `w`, one update cycle discovers exactly those rows, appends them in
/// order, and moves the watermark to their maximum timestamp.
pub proof fn lemma_update_all_newer(s: BrowserHistView, rows: Seq<BrowserRow>)
    requires
        sorted_rows(rows),
        rows.len() > 0,
        forall|i: int| 0 <= i < rows.len() ==> #[trigger] rows[i].timestamp > s.watermark,
    ensures
        update_count(s, rows) == rows.len(),
        updated_view(s, rows).history == s.history + rows,
        updated_view(s, rows).watermark == rows.last().timestamp,
        forall|i: int|
            0 <= i < rows.len() ==> #[trigger] rows[i].timestamp <= updated_view(
                s,
                rows,
            ).watermark,
{
    lemma_rows_newer_all(rows, s.watermark);
}

/// Two consecutive update cycles with no intervening new data both return
/// zero and leave watermark and buffer unchanged.
pub proof fn lemma_update_twice_no_new(s: BrowserHistView, r1: Seq<BrowserRow>, r2: Seq<BrowserRow>)
    requires
        forall|i: int| 0 <= i < r1.len() ==> #[trigger] r1[i].timestamp <= s.watermark,
        forall|i: int| 0 <= i < r2.len() ==> #[trigger] r2[i].timestamp <= s.watermark,
    ensures
        update_count(s, r1) == 0,
        updated_view(s, r1) == s,
        update_count(updated_view(s, r1), r2) == 0,
        updated_view(updated_view(s, r1), r2) == s,
{
    lemma_rows_newer_empty(r1, s.watermark);
    assert(updated_view(s, r1).history =~= s.history);
    assert(updated_view(s, r1) == s);
    lemma_rows_newer_empty(r2, s.watermark);
}

} // verus!
