use tracker::browser::BrowserHistEntry;
use tracker::console::ConsoleHistEntry;
use tracker::document::Document;
use tracker::document::JsonVal;
use tracker::document::browser_document;
use tracker::document::console_document;
use tracker::document::render_document;
use tracker::document::update_records;
use tracker::elastic::ESConfig;
use tracker::elastic::ESError;
use tracker::elastic::HostAddr;
use tracker::elastic::bulk_body;
use tracker::runner::RunnerLedger;

#[test]
fn empty_documents_render_as_empty_objects() {
    let d = Document::new();
    assert_eq!(render_document(&d), "{}");
    assert_eq!(d.len(), 0);
}

#[test]
fn documents_render_fields_in_order_with_escapes() {
    let mut d = Document::new();
    d.set("n", JsonVal::Num(42));
    d.set("t", JsonVal::Text("a\"b\\c\nd\te".to_string()));
    d.set("ctl", JsonVal::Text("x\u{1}y".to_string()));
    assert_eq!(
        render_document(&d),
        "{\"n\":42,\"t\":\"a\\\"b\\\\c\\nd\\te\",\"ctl\":\"x\\u0001y\"}",
    );
}

#[test]
fn setting_a_bound_key_replaces_it_in_place() {
    let mut d = Document::new();
    d.set("k", JsonVal::Num(1));
    d.set("j", JsonVal::Num(2));
    d.set("k", JsonVal::Num(3));
    assert_eq!(render_document(&d), "{\"k\":3,\"j\":2}");
    assert_eq!(d.len(), 2);
}

#[test]
fn browser_entries_normalize_to_documents() {
    let e = BrowserHistEntry { timestamp: 100, url: "https://a/?q=1".to_string(), visit_count: 4 };
    let d = browser_document(&e);
    assert_eq!(
        render_document(&d),
        "{\"@timestamp\":100,\"url.full\":\"https://a/?q=1\",\"url.visit_count\":4}",
    );
}

#[test]
fn console_entries_normalize_to_documents() {
    let e = ConsoleHistEntry {
        timestamp: 200,
        user: "root".to_string(),
        cmd: "pwd".to_string(),
        status: 0,
        output: "/root\n".to_string(),
    };
    let d = console_document(&e);
    assert_eq!(
        render_document(&d),
        "{\"@timestamp\":200,\"user.name\":\"root\",\"process.command_line\":\"pwd\",\"process.exit_code\":0,\"process.output\":\"/root\\n\"}",
    );
}

#[test]
fn provenance_merge_overrides_and_appends() {
    let e = ConsoleHistEntry {
        timestamp: 1,
        user: "stale".to_string(),
        cmd: "ls".to_string(),
        status: 0,
        output: String::new(),
    };
    let mut batch = vec![console_document(&e)];
    update_records(&mut batch, "alice", "10.0.0.9");
    assert_eq!(
        render_document(&batch[0]),
        "{\"@timestamp\":1,\"user.name\":\"alice\",\"process.command_line\":\"ls\",\"process.exit_code\":0,\"process.output\":\"\",\"host.ip\":\"10.0.0.9\"}",
    );
}

#[test]
fn a_batch_frames_as_one_request_with_one_pair_per_document() {
    let mut d1 = Document::new();
    d1.set("a", JsonVal::Num(1));
    let mut d2 = Document::new();
    d2.set("b", JsonVal::Text("x".to_string()));
    let body = bulk_body(&vec![d1, d2]);
    assert_eq!(
        body,
        "{\"index\":{}}\n{\"a\":1}\n{\"index\":{}}\n{\"b\":\"x\"}\n",
    );
}

#[test]
fn an_empty_batch_frames_as_an_empty_body() {
    assert_eq!(bulk_body(&vec![]), "");
}

#[test]
fn end_to_end_console_records_become_provenanced_documents() {
    // Two seeded records; the first cycle yields two documents with the
    // record fields plus provenance, the second cycle sees nothing new.
    let mut c = tracker::console::ConsoleHistControl::new();
    c.init(9).unwrap();
    let chunk = "status=\"0\"\tuser=\"root\"\ttimestamp=\"100\"\tcmd=\"ls\"\toutfile=\"/tmp/o1\"\nstatus=\"0\"\tuser=\"root\"\ttimestamp=\"200\"\tcmd=\"pwd\"\toutfile=\"/tmp/o2\"\n";
    let outs = vec![Some("a b c\n".to_string()), Some("/root\n".to_string())];
    let n = c.update(chunk.len() as u64, chunk, &outs).unwrap();
    assert_eq!(n, 2);
    let mut docs = c.dump().unwrap();
    assert_eq!(docs.len(), 2);
    update_records(&mut docs, "root", "127.0.0.1");
    assert_eq!(
        render_document(&docs[0]),
        "{\"@timestamp\":100,\"user.name\":\"root\",\"process.command_line\":\"ls\",\"process.exit_code\":0,\"process.output\":\"a b c\\n\",\"host.ip\":\"127.0.0.1\"}",
    );
    assert_eq!(
        render_document(&docs[1]),
        "{\"@timestamp\":200,\"user.name\":\"root\",\"process.command_line\":\"pwd\",\"process.exit_code\":0,\"process.output\":\"/root\\n\",\"host.ip\":\"127.0.0.1\"}",
    );
    assert_eq!(c.update(chunk.len() as u64, "", &vec![]).unwrap(), 0);
    assert!(c.dump().is_none());
}

#[test]
fn end_to_end_browser_rows_become_documents() {
    // Watermark 150 against rows at 100, 200, 300: exactly the two newer
    // rows come through, ascending, and the watermark lands on 300.
    let mut c = tracker::browser::BrowserHistControl::with_database(
        tracker::browser::Browser::Chrome,
        tracker::browser::BrowserHistFrom::Timestamp(150),
        "History".to_string(),
    )
    .unwrap();
    let rows = vec![
        BrowserHistEntry { timestamp: 100, url: "a".to_string(), visit_count: 1 },
        BrowserHistEntry { timestamp: 200, url: "b".to_string(), visit_count: 2 },
        BrowserHistEntry { timestamp: 300, url: "c".to_string(), visit_count: 3 },
    ];
    assert_eq!(c.update(&rows), 2);
    assert_eq!(c.watermark(), 300);
    let docs = c.dump().unwrap();
    assert_eq!(docs.len(), 2);
    assert_eq!(
        render_document(&docs[0]),
        "{\"@timestamp\":200,\"url.full\":\"b\",\"url.visit_count\":2}",
    );
    assert_eq!(
        render_document(&docs[1]),
        "{\"@timestamp\":300,\"url.full\":\"c\",\"url.visit_count\":3}",
    );
}

#[test]
fn shutdown_returns_only_after_every_task_exits() {
    let mut l = RunnerLedger::new();
    l.start_worker();
    l.start_worker();
    l.start_worker();
    l.begin_shutdown();
    assert!(!l.all_exited());
    l.observe_token();
    assert!(!l.all_exited());
    l.observe_token();
    assert!(!l.all_exited());
    l.observe_token();
    assert!(l.all_exited());
}

#[test]
fn dispatch_errors_carry_their_message() {
    let e = ESError::new("records not updated: status code 500".to_string());
    assert_eq!(e.message(), "records not updated: status code 500");
}

#[test]
fn endpoint_urls_come_from_the_configuration() {
    let cfg = ESConfig::new(HostAddr { a: 127, b: 0, c: 0, d: 1 }, 9200, "visits");
    assert_eq!(cfg.url(), "http://127.0.0.1:9200");
    assert_eq!(cfg.index(), "visits");
}
