//! The provenance ledger: entries recorded by an agent, and the line framing
//! of the ledger file (one JSON document per line).

use std::collections::HashMap;
use std::path::PathBuf;
use vstd::prelude::*;
use vstd::string::StringSliceAdditionalSpecFns;

verus! {

/// `std::path::PathBuf`, carried through as the directory of a ledger.
#[verifier::external_type_specification]
#[verifier::external_body]
pub struct ExPathBuf(PathBuf);

/// The line feed byte.
pub const LINE_FEED: u8 = 10;

/// The carriage return byte.
pub const CARRIAGE_RETURN: u8 = 13;

/// One recorded action of an agent.
#[derive(Debug, Clone)]
pub struct ProvenanceEntry {
    pub id: String,
    pub action: String,
    pub agent: String,
    pub room: String,
    pub timestamp: i64,
    pub metadata: HashMap<String, String>,
}

/// An agent's ledger of provenance entries, kept in a directory.
pub struct GitAgent {
    repo_dir: PathBuf,
    ledger: Vec<ProvenanceEntry>,
}

impl GitAgent {
    /// The entries recorded so far, oldest first.
    pub closed spec fn entries(&self) -> Seq<ProvenanceEntry> {
        self.ledger@
    }

    /// The directory the ledger file lives in.
    pub closed spec fn dir(&self) -> PathBuf {
        self.repo_dir
    }

    /// An agent with an empty ledger kept in `repo_dir` (the directory itself
    /// is made by the caller).
    pub fn new(repo_dir: PathBuf) -> (agent: Self)
        ensures
            agent.entries() == Seq::<ProvenanceEntry>::empty(),
            agent.dir() == repo_dir,
    {
        GitAgent { repo_dir, ledger: Vec::new() }
    }

    pub fn repo_dir(&self) -> (dir: &PathBuf)
        ensures
            *dir == self.dir(),
    {
        &self.repo_dir
    }

    /// Appends an entry to the in-memory ledger (the caller has written its
    /// line to the ledger file).
    pub fn record(&mut self, entry: ProvenanceEntry)
        ensures
            final(self).entries() == old(self).entries().push(entry),
            final(self).dir() == old(self).dir(),
    {
        self.ledger.push(entry);
    }

    pub fn ledger(&self) -> (entries: &[ProvenanceEntry])
        ensures
            entries@ == self.entries(),
    {
        self.ledger.as_slice()
    }
}

/// The byte views of a sequence of byte vectors.
pub open spec fn byte_views(v: Seq<Vec<u8>>) -> Seq<Seq<u8>> {
    v.map_values(|b: Vec<u8>| b@)
}

/// A line as stored in the ledger file: its bytes and a line feed.
pub open spec fn framed(line: Seq<u8>) -> Seq<u8> {
    line.push(LINE_FEED)
}

/// The ledger file holding the given lines, in order.
pub open spec fn frame_all(lines: Seq<Seq<u8>>) -> Seq<u8>
    decreases lines.len(),
{
    if lines.len() == 0 {
        Seq::empty()
    } else {
        framed(lines[0]) + frame_all(lines.drop_first())
    }
}

/// The index of the first line feed, or the length when there is none.
pub open spec fn first_line_feed(b: Seq<u8>) -> nat
    decreases b.len(),
{
    if b.len() == 0 {
        0
    } else if b[0] == LINE_FEED {
        0
    } else {
        1 + first_line_feed(b.drop_first())
    }
}

/// A line without the carriage return that ends it, if one does.
pub open spec fn strip_carriage_return(line: Seq<u8>) -> Seq<u8> {
    if line.len() > 0 && line.last() == CARRIAGE_RETURN {
        line.drop_last()
    } else {
        line
    }
}

/// The line alone, or nothing if it is empty.
pub open spec fn unless_empty(line: Seq<u8>) -> Seq<Seq<u8>> {
    if line.len() == 0 {
        Seq::empty()
    } else {
        seq![line]
    }
}

/// The non-empty lines of a ledger file: the text is split at line feeds,
/// a carriage return right before a line feed is dropped, a last line needs
/// no line feed, and empty lines are skipped.
pub open spec fn ledger_lines(b: Seq<u8>) -> Seq<Seq<u8>>
    decreases b.len(),
{
    if b.len() == 0 {
        Seq::empty()
    } else {
        let n = first_line_feed(b);
        if n >= b.len() {
            unless_empty(b)
        } else {
            unless_empty(strip_carriage_return(b.take(n as int))) + ledger_lines(
                b.skip(n + 1 as int),
            )
        }
    }
}

/// A line that reads back as itself: non-empty, with no line feed, and not
/// ending in a carriage return.
pub open spec fn well_formed_line(line: Seq<u8>) -> bool {
    &&& line.len() > 0
    &&& !line.contains(LINE_FEED)
    &&& line.last() != CARRIAGE_RETURN
}

proof fn lemma_first_line_feed(b: Seq<u8>, m: int)
    requires
        0 <= m <= b.len(),
        forall|k: int| 0 <= k < m ==> b[k] != LINE_FEED,
        m < b.len() ==> b[m] == LINE_FEED,
    ensures
        first_line_feed(b) == m,
    decreases m,
{
    if m > 0 {
        lemma_first_line_feed(b.drop_first(), m - 1);
    }
}

/// Reading back a ledger file written line by line gives the lines written,
/// in order, provided each is non-empty, holds no line feed and does not end
/// in a carriage return.
pub proof fn lemma_ledger_round_trip(lines: Seq<Seq<u8>>)
    requires
        forall|i: int| 0 <= i < lines.len() ==> well_formed_line(#[trigger] lines[i]),
    ensures
        ledger_lines(frame_all(lines)) == lines,
    decreases lines.len(),
{
    if lines.len() > 0 {
        let first = lines[0];
        let rest = lines.drop_first();
        let b = frame_all(lines);
        assert(well_formed_line(first));
        assert(b == framed(first) + frame_all(rest));
        assert forall|k: int| 0 <= k < first.len() implies b[k] != LINE_FEED by {
            assert(b[k] == first[k]);
            if first[k] == LINE_FEED {
                assert(first.contains(LINE_FEED));
            }
        }
        lemma_first_line_feed(b, first.len() as int);
        assert(b.take(first.len() as int) =~= first);
        assert(b.skip(first.len() + 1int) =~= frame_all(rest));
        lemma_ledger_round_trip(rest);
        assert(ledger_lines(b) =~= seq![first] + rest);
        assert(lines =~= seq![first] + rest);
    }
}

/// The bytes `from..to` of `b`.
fn copy_range(b: &[u8], from: usize, to: usize) -> (out: Vec<u8>)
    requires
        from <= to <= b@.len(),
    ensures
        out@ == b@.subrange(from as int, to as int),
{
    let mut out: Vec<u8> = Vec::new();
    let mut i = from;
    while i < to
        invariant
            from <= i <= to <= b@.len(),
            out@ == b@.subrange(from as int, i as int),
        decreases to - i,
    {
        out.push(b[i]);
        i = i + 1;
        assert(out@ =~= b@.subrange(from as int, i as int));
    }
    out
}

/// The ledger-file line for a JSON document: its bytes and a line feed.
pub fn frame_ledger_line(json: &str) -> (line: Vec<u8>)
    ensures
        line@ == framed(json.spec_bytes()),
{
    let mut line = json.as_bytes_vec();
    line.push(LINE_FEED);
    line
}

/// The non-empty lines of a ledger file's contents, in order.
pub fn split_ledger_lines(content: &[u8]) -> (lines: Vec<Vec<u8>>)
    ensures
        byte_views(lines@) == ledger_lines(content@),
{
    let ghost all = content@;
    let mut lines: Vec<Vec<u8>> = Vec::new();
    let mut start: usize = 0;
    let mut i: usize = 0;
    assert(all.skip(0) =~= all);
    assert(byte_views(lines@) + ledger_lines(all) =~= ledger_lines(all));
    while i < content.len()
        invariant
            all == content@,
            0 <= start <= i <= content@.len(),
            byte_views(lines@) + ledger_lines(all.skip(start as int)) == ledger_lines(all),
            forall|k: int| start <= k < i ==> all[k] != LINE_FEED,
        decreases content.len() - i,
    {
        if content[i] == LINE_FEED {
            let ghost rest = all.skip(start as int);
            proof {
                lemma_first_line_feed(rest, i - start);
                assert(rest.take(i - start) =~= all.subrange(start as int, i as int));
                assert(rest.skip(i - start + 1) =~= all.skip(i + 1));
            }
            let mut end = i;
            if end > start && content[end - 1] == CARRIAGE_RETURN {
                end = end - 1;
            }
            assert(strip_carriage_return(all.subrange(start as int, i as int)) =~= all.subrange(
                start as int,
                end as int,
            ));
            let ghost before = lines@;
            if end > start {
                let line = copy_range(content, start, end);
                lines.push(line);
                assert(byte_views(lines@) =~= byte_views(before) + seq![
                    all.subrange(start as int, end as int),
                ]);
            }
            start = i + 1;
        }
        i = i + 1;
    }
    let ghost rest = all.skip(start as int);
    proof {
        lemma_first_line_feed(rest, rest.len() as int);
        assert(rest =~= all.subrange(start as int, content@.len() as int));
    }
    let ghost before = lines@;
    if start < content.len() {
        let line = copy_range(content, start, content.len());
        lines.push(line);
        assert(byte_views(lines@) =~= byte_views(before) + seq![rest]);
    } else {
        assert(byte_views(lines@) =~= byte_views(before) + Seq::<Seq<u8>>::empty());
    }
    lines
}

} // verus!
