//! Dispatcher side of the pipeline: the remote-store configuration, the
//! dispatch error, and the framing of one bulk-write request. The network
//! call itself happens outside the library; this module pins down the
//! request body, byte for byte.

use vstd::prelude::*;

pub mod parser;

use crate::document::DocView;
use crate::document::Document;
use crate::document::json_of_doc;
use crate::text::chars_to_string;
use crate::text::dec_chars;
use crate::text::u64_to_chars;

verus! {

/// A dispatch failure: transport trouble or a non-success status; the
/// batch it carried is lost, by design.
#[derive(Debug, Clone)]
pub struct ESError {
    msg: String,
}

impl ESError {
    pub fn new(msg: String) -> (r: ESError)
        ensures
            r@ == msg@,
    {
        ESError { msg }
    }

    pub fn message(&self) -> (r: &str)
        ensures
            r@ == self@,
    {
        self.msg.as_str()
    }
}

impl View for ESError {
    type V = Seq<char>;

    closed spec fn view(&self) -> Seq<char> {
        self.msg@
    }
}

/// A host address, four dotted decimal octets.
#[derive(Clone, Copy, Debug, PartialEq, Eq, Structural)]
pub struct HostAddr {
    pub a: u8,
    pub b: u8,
    pub c: u8,
    pub d: u8,
}

/// The dotted-quad text of a host address.
pub open spec fn ipv4_text(h: HostAddr) -> Seq<char> {
    dec_chars(h.a as int) + "."@ + dec_chars(h.b as int) + "."@ + dec_chars(h.c as int) + "."@
        + dec_chars(h.d as int)
}

impl HostAddr {
    /// Renders the address as dotted-quad text.
    pub fn to_text(&self) -> (r: String)
        ensures
            r@ == ipv4_text(*self),
    {
        let mut v = u64_to_chars(self.a as u64);
        let mut dot1 = crate::text::chars_of(".");
        let mut b = u64_to_chars(self.b as u64);
        let mut dot2 = crate::text::chars_of(".");
        let mut c = u64_to_chars(self.c as u64);
        let mut dot3 = crate::text::chars_of(".");
        let mut d = u64_to_chars(self.d as u64);
        v.append(&mut dot1);
        v.append(&mut b);
        v.append(&mut dot2);
        v.append(&mut c);
        v.append(&mut dot3);
        v.append(&mut d);
        let r = chars_to_string(&v);
        proof {
            assert(r@ =~= ipv4_text(*self));
        }
        r
    }
}

/// Where bulk writes go: endpoint address, port, and target index.
#[derive(Debug, Clone)]
pub struct ESConfig {
    host: HostAddr,
    port: u64,
    index: String,
}

/// The mathematical shape of a remote-store configuration.
pub struct ESConfigView {
    pub host: HostAddr,
    pub port: u64,
    pub index: Seq<char>,
}

impl View for ESConfig {
    type V = ESConfigView;

    closed spec fn view(&self) -> ESConfigView {
        ESConfigView { host: self.host, port: self.port, index: self.index@ }
    }
}

/// The base URL of a configured endpoint.
pub open spec fn url_text(c: ESConfigView) -> Seq<char> {
    "http://"@ + ipv4_text(c.host) + ":"@ + dec_chars(c.port as int)
}

impl ESConfig {
    pub fn new(host: HostAddr, port: u64, index: &str) -> (r: ESConfig)
        ensures
            r@.host == host,
            r@.port == port,
            r@.index == index@,
    {
        ESConfig { host, port, index: index.to_owned() }
    }

    pub fn host(&self) -> (r: HostAddr)
        ensures
            r == self@.host,
    {
        self.host
    }

    pub fn port(&self) -> (r: u64)
        ensures
            r == self@.port,
    {
        self.port
    }

    pub fn index(&self) -> (r: &str)
        ensures
            r@ == self@.index,
    {
        self.index.as_str()
    }

    /// The endpoint URL the transport connects to.
    pub fn url(&self) -> (r: String)
        ensures
            r@ == url_text(self@),
    {
        let mut out = String::from_str("http://");
        let host = self.host.to_text();
        out.append(host.as_str());
        out.append(":");
        let digits = u64_to_chars(self.port);
        let ds = chars_to_string(&digits);
        out.append(ds.as_str());
        out
    }
}

pub open spec fn doc_views(rs: Seq<Document>) -> Seq<DocView> {
    rs.map_values(|d: Document| d@)
}

/// The body of one bulk-write request: for each document of the batch, in
/// batch order, one index-action line followed by the document object,
/// newline-delimited.
pub open spec fn bulk_body_spec(docs: Seq<DocView>) -> Seq<char>
    decreases docs.len(),
{
    if docs.len() == 0 {
        Seq::empty()
    } else {
        bulk_body_spec(docs.drop_last()) + "{\"index\":{}}\n"@ + json_of_doc(docs.last()) + "\n"@
    }
}

/// A batch of `N` documents yields exactly one more action/document pair
/// appended to the body, in batch order.
pub proof fn lemma_bulk_body_push(docs: Seq<DocView>, d: DocView)
    ensures
        bulk_body_spec(docs.push(d)) == bulk_body_spec(docs) + "{\"index\":{}}\n"@ + json_of_doc(d)
            + "\n"@,
{
    assert(docs.push(d).drop_last() =~= docs);
    assert(docs.push(d).last() == d);
}

/// Frames a whole batch as one bulk-write request body: one
/// action/document pair per document, in batch order, never split.
pub fn bulk_body(records: &Vec<Document>) -> (r: String)
    ensures
        r@ == bulk_body_spec(doc_views(records@)),
{
    let mut out = String::new();
    let n = records.len();
    let mut i: usize = 0;
    #[verifier::loop_isolation(false)]
    while i < n
        invariant
            i <= n,
            n == records@.len(),
            out@ == bulk_body_spec(doc_views(records@).subrange(0, i as int)),
        decreases n - i,
    {
        let ghost pre = doc_views(records@).subrange(0, i as int);
        let ghost cur = doc_views(records@).subrange(0, i + 1 as int);
        proof {
            assert(cur.drop_last() =~= pre);
            assert(cur.last() == doc_views(records@)[i as int]);
        }
        out.append("{\"index\":{}}\n");
        let doc = crate::document::render_document(&records[i]);
        out.append(doc.as_str());
        out.append("\n");
        proof {
            assert(out@ =~= bulk_body_spec(cur));
        }
        i = i + 1;
    }
    proof {
        assert(doc_views(records@).subrange(0, n as int) =~= doc_views(records@));
    }
    out
}

} // verus!
