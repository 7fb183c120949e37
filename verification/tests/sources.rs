use tracker::browser::Browser;
use tracker::browser::BrowserErrorKind;
use tracker::browser::BrowserHistControl;
use tracker::browser::BrowserHistEntry;
use tracker::browser::BrowserHistFrom;
use tracker::console::ConsoleErrorKind;
use tracker::console::ConsoleHistControl;
use tracker::console::linux_parser::ErrorKind;

fn entry(ts: u64, url: &str, n: usize) -> BrowserHistEntry {
    BrowserHistEntry { timestamp: ts, url: url.to_string(), visit_count: n }
}

fn browser_at(watermark: u64) -> BrowserHistControl {
    BrowserHistControl::with_database(
        Browser::Firefox,
        BrowserHistFrom::Timestamp(watermark),
        "places.sqlite".to_string(),
    )
    .unwrap()
}

#[test]
fn browser_update_filters_and_advances_watermark() {
    let mut c = browser_at(150);
    let rows = vec![entry(100, "a", 1), entry(200, "b", 2), entry(300, "c", 3)];
    let n = c.update(&rows);
    assert_eq!(n, 2);
    assert_eq!(c.watermark(), 300);
    let h = c.history();
    assert_eq!(h.len(), 2);
    assert_eq!(h[0].timestamp, 200);
    assert_eq!(h[0].url, "b");
    assert_eq!(h[0].visit_count, 2);
    assert_eq!(h[1].timestamp, 300);
    assert_eq!(h[1].url, "c");
}

#[test]
fn browser_update_counts_all_newer_rows() {
    let mut c = browser_at(0);
    let rows = vec![entry(10, "x", 1), entry(20, "y", 1)];
    assert_eq!(c.update(&rows), 2);
    assert_eq!(c.watermark(), 20);
}

#[test]
fn browser_update_twice_without_new_data_returns_zero() {
    let mut c = browser_at(150);
    let rows = vec![entry(100, "a", 1), entry(200, "b", 2), entry(300, "c", 3)];
    assert_eq!(c.update(&rows), 2);
    assert_eq!(c.watermark(), 300);
    assert_eq!(c.update(&rows), 0);
    assert_eq!(c.watermark(), 300);
    assert_eq!(c.update(&rows), 0);
    assert_eq!(c.watermark(), 300);
    assert_eq!(c.history().len(), 2);
}

#[test]
fn browser_dump_consumes_the_buffer_once() {
    let mut c = browser_at(0);
    c.update(&vec![entry(10, "x", 1)]);
    let first = c.dump();
    assert!(first.is_some());
    assert_eq!(first.unwrap().len(), 1);
    assert!(c.dump().is_none());
    assert!(c.history().is_empty());
    assert_eq!(c.watermark(), 10);
}

#[test]
fn browser_unsupported_vendor_is_fatal_at_construction() {
    let r = BrowserHistControl::with_database(
        Browser::FirefoxEsr,
        BrowserHistFrom::Start,
        "places.sqlite".to_string(),
    );
    assert!(matches!(r.unwrap_err().kind, BrowserErrorKind::UnsupportedBrowser));
}

#[test]
fn browser_reset_moves_the_watermark() {
    let mut c = browser_at(0);
    c.update(&vec![entry(10, "x", 1)]);
    c.reset(BrowserHistFrom::Timestamp(7));
    assert_eq!(c.watermark(), 7);
    assert!(c.history().is_empty());
    c.reset(BrowserHistFrom::Start);
    assert_eq!(c.watermark(), 0);
}

const GOOD_CHUNK: &str = "status=\"0\"\tuser=\"root\"\ttimestamp=\"100\"\tcmd=\"ls\"\toutfile=\"/tmp/o1\"\nstatus=\"0\"\tuser=\"root\"\ttimestamp=\"200\"\tcmd=\"pwd\"\toutfile=\"/tmp/o2\"\n";

fn two_outputs() -> Vec<Option<String>> {
    vec![Some("one\n".to_string()), Some("two\n".to_string())]
}

#[test]
fn console_update_before_init_is_refused() {
    let mut c = ConsoleHistControl::new();
    let e = c.update(10, "", &vec![]).unwrap_err();
    assert!(matches!(e.kind, ConsoleErrorKind::NotReady));
}

#[test]
fn console_update_buffers_the_chunk_and_then_sees_nothing_new() {
    let mut c = ConsoleHistControl::new();
    c.init(1).unwrap();
    let len = GOOD_CHUNK.len() as u64;
    let n = c.update(len, GOOD_CHUNK, &two_outputs()).unwrap();
    assert_eq!(n, 2);
    assert_eq!(c.offset(), len);
    {
        let h = c.history();
        assert_eq!(h.len(), 2);
        assert_eq!(h[0].timestamp, 100);
        assert_eq!(h[0].cmd, "ls");
        assert_eq!(h[0].status, 0);
        assert_eq!(h[0].user, "root");
        assert_eq!(h[0].output, "one\n");
        assert_eq!(h[1].timestamp, 200);
        assert_eq!(h[1].cmd, "pwd");
    }
    let n2 = c.update(len, "", &vec![]).unwrap();
    assert_eq!(n2, 0);
    assert_eq!(c.offset(), len);
}

#[test]
fn console_malformed_line_keeps_the_whole_chunk_pending() {
    let mut c = ConsoleHistControl::new();
    c.init(2).unwrap();
    let bad = "status=\"0\"\tuser=\"root\"\ttimestamp=\"100\"\tcmd=\"ls\"\toutfile=\"/tmp/o1\"\ngarbage\n";
    let len = bad.len() as u64;
    let e = c.update(len, bad, &two_outputs()).unwrap_err();
    match e.kind {
        ConsoleErrorKind::Parse(pe) => match pe.kind {
            ErrorKind::BadLine(p, l) => {
                assert_eq!(p, 1);
                assert_eq!(l, "garbage");
            },
            other => panic!("unexpected parse error: {:?}", other),
        },
        other => panic!("unexpected error: {:?}", other),
    }
    assert_eq!(c.offset(), 0);
    assert!(c.history().is_empty());
    // The log was corrected externally; the identical byte range is
    // re-attempted and now succeeds, so the offset had never advanced.
    let n = c.update(len, GOOD_CHUNK, &two_outputs()).unwrap();
    assert_eq!(n, 2);
    assert_eq!(c.offset(), len);
}

#[test]
fn console_missing_output_file_fails_atomically() {
    let mut c = ConsoleHistControl::new();
    c.init(3).unwrap();
    let outs = vec![Some("one".to_string()), None];
    let e = c.update(GOOD_CHUNK.len() as u64, GOOD_CHUNK, &outs).unwrap_err();
    match e.kind {
        ConsoleErrorKind::Parse(pe) => match pe.kind {
            ErrorKind::OutfileNotAvailable(f, _) => assert_eq!(f, "/tmp/o2"),
            other => panic!("unexpected parse error: {:?}", other),
        },
        other => panic!("unexpected error: {:?}", other),
    }
    assert_eq!(c.offset(), 0);
    assert!(c.history().is_empty());
}

#[test]
fn console_shrunken_log_is_refused() {
    let mut c = ConsoleHistControl::new();
    c.init(4).unwrap();
    let len = GOOD_CHUNK.len() as u64;
    c.update(len, GOOD_CHUNK, &two_outputs()).unwrap();
    let e = c.update(len - 1, "", &vec![]).unwrap_err();
    assert!(matches!(e.kind, ConsoleErrorKind::ReadOutOfRange));
    assert_eq!(c.offset(), len);
}

#[test]
fn console_dump_consumes_the_buffer_once() {
    let mut c = ConsoleHistControl::new();
    c.init(5).unwrap();
    c.update(GOOD_CHUNK.len() as u64, GOOD_CHUNK, &two_outputs()).unwrap();
    let first = c.dump();
    assert_eq!(first.unwrap().len(), 2);
    assert!(c.dump().is_none());
    assert!(c.history().is_empty());
}

#[test]
fn console_reset_unbinds_the_control() {
    let mut c = ConsoleHistControl::new();
    c.init(6).unwrap();
    c.update(GOOD_CHUNK.len() as u64, GOOD_CHUNK, &two_outputs()).unwrap();
    c.reset();
    assert_eq!(c.offset(), 0);
    assert!(c.history().is_empty());
    let e = c.update(1, "x", &vec![]).unwrap_err();
    assert!(matches!(e.kind, ConsoleErrorKind::NotReady));
}
