//! How a collector reads a source: which parser it attaches, where reading a
//! file resumes, and how a chunk of text or a streamed line becomes entries.
pub mod parser;

use vstd::prelude::*;

use crate::collector::parser::plaintext_parser::{finished, finished_opt, pending_lines};
use crate::collector::parser::stacktrace_merger::is_continuation_line;
use crate::models::log_entry::{LogEntry, WatchSource, WatchSourceKind};
use crate::plugin::registry::{unique_ids, PluginRegistry};
use crate::plugin::LogParser;
use crate::text::{chars_of, eq_str, owned, split_lines, string_of, texts, trim, trim_end_char, trim_end_matches_char};

verus! {

/// The parser a file source asks for: its configured id, or plaintext
/// where that is "auto" or empty.
pub open spec fn requested_parser(parser_id: Seq<char>) -> Seq<char> {
    if parser_id == "auto"@ || parser_id.len() == 0 {
        "plaintext"@
    } else {
        parser_id
    }
}

/// The id of the parser a file source asks for.
pub fn file_parser_id(parser_id: &str) -> (r: String)
    ensures
        r@ == requested_parser(parser_id@),
{
    let v = chars_of(parser_id);
    if eq_str(v.as_slice(), "auto") || v.len() == 0 {
        owned("plaintext")
    } else {
        owned(parser_id)
    }
}

/// A registered id, or plaintext where `id` is not registered.
pub open spec fn registered_or_plaintext(ids: Seq<Seq<char>>, id: Seq<char>) -> Seq<char> {
    if ids.contains(id) {
        id
    } else {
        "plaintext"@
    }
}

/// The parser a collector attaches to a source: for a file, the one the
/// source asks for; for a container, the docker parser; plaintext where the
/// wanted one is not registered. A watch of all containers gets none.
pub fn parser_for_source(registry: &PluginRegistry, source: &WatchSource) -> (r: Option<LogParser>)
    requires
        registry.ids().contains("plaintext"@),
    ensures
        match source.kind {
            WatchSourceKind::FilePath { path } => r matches Some(p) && p.parser_id() == registered_or_plaintext(
                registry.ids(),
                requested_parser(source.parser_id@),
            ) && p.source() == (source.id@, path@) && p.is_idle(),
            WatchSourceKind::DockerContainer { container_id, container_name } => r matches Some(p)
                && p.parser_id() == registered_or_plaintext(registry.ids(), "docker"@) && p.source() == (
            source.id@, container_name@) && p.is_idle(),
            WatchSourceKind::DockerAllContainers => r is None,
        },
{
    match &source.kind {
        WatchSourceKind::FilePath { path } => {
            let parser_id = file_parser_id(source.parser_id.as_str());
            match registry.create(parser_id.as_str(), source.id.as_str(), path.as_str()) {
                Some(p) => Some(p),
                None => registry.create("plaintext", source.id.as_str(), path.as_str()),
            }
        },
        WatchSourceKind::DockerContainer { container_id, container_name } => {
            match registry.create("docker", source.id.as_str(), container_name.as_str()) {
                Some(p) => Some(p),
                None => registry.create("plaintext", source.id.as_str(), container_name.as_str()),
            }
        },
        WatchSourceKind::DockerAllContainers => None,
    }
}

/// What a flush hands out: the entry a plaintext parser still holds.
pub open spec fn flush_out(p: LogParser) -> Option<LogEntry> {
    match p {
        LogParser::Plaintext(pp) => finished_opt(pp.pending),
        _ => None,
    }
}

/// Whether pushing `lines` one by one goes through the parser states
/// `states` (the first before any line) and yields `outs`.
pub open spec fn pushes(states: Seq<LogParser>, lines: Seq<Seq<char>>, outs: Seq<Option<LogEntry>>) -> bool {
    &&& states.len() == lines.len() + 1
    &&& outs.len() == lines.len()
    &&& forall|i: int|
        0 <= i < lines.len() ==> LogParser::push_done(states[i], lines[i], states[i + 1], #[trigger] outs[i])
}

/// The entries among a run of results, in order.
pub open spec fn produced(outs: Seq<Option<LogEntry>>) -> Seq<LogEntry>
    decreases outs.len(),
{
    if outs.len() == 0 {
        seq![]
    } else {
        let rest = produced(outs.drop_last());
        match outs.last() {
            Some(e) => rest.push(e),
            None => rest,
        }
    }
}

/// Whether `r` is what feeding `lines` to the parser `p0` hands out,
/// flushing at the end, and `p1` the parser afterwards.
pub open spec fn fed(p0: LogParser, lines: Seq<Seq<char>>, p1: LogParser, r: Seq<LogEntry>) -> bool {
    exists|states: Seq<LogParser>, outs: Seq<Option<LogEntry>>|
        #![trigger pushes(states, lines, outs)]
        {
            &&& states[0] == p0
            &&& pushes(states, lines, outs)
            &&& r == produced(outs.push(flush_out(states.last())))
            &&& p1.is_idle()
            &&& p1.parser_id() == p0.parser_id()
            &&& p1.source() == p0.source()
        }
}

/// Whether an entry a parser holds back carries the parser's source and id.
pub open spec fn holds_own_label(p: LogParser) -> bool {
    match p {
        LogParser::Plaintext(pp) => pp.pending matches Some(pe) ==> {
            &&& pe.base.source_id@ == pp.source_id@
            &&& pe.base.source_path@ == pp.source_path@
            &&& pe.base.parser_id@ == "plaintext"@
        },
        _ => true,
    }
}

/// Whether an entry is labelled with a parser's source and id.
pub open spec fn labelled_by(e: LogEntry, p: LogParser) -> bool {
    &&& e.source_id@ == p.source().0
    &&& e.source_path@ == p.source().1
    &&& e.parser_id@ == p.parser_id()
}

proof fn lemma_one_push_keeps_labels(a: LogParser, line: Seq<char>, b: LogParser, r: Option<LogEntry>)
    requires
        LogParser::push_done(a, line, b, r),
        holds_own_label(a),
    ensures
        b.parser_id() == a.parser_id(),
        b.source() == a.source(),
        holds_own_label(b),
        r matches Some(e) ==> labelled_by(e, a),
{
    match (a, b) {
        (LogParser::Plaintext(pa), LogParser::Plaintext(pb)) => {
            if trim(line).len() == 0 {
                assert(pending_lines(pb.pending) is None);
            } else if is_continuation_line(line) {
                if pa.pending is None {
                    assert(pending_lines(pb.pending) is None);
                }
            }
            if r is Some {
                let pe = pa.pending->Some_0;
                assert(r == Some(finished(pe)));
            }
        },
        _ => {},
    }
}

/// A parser keeps its id and source over any run of lines, and every entry
/// it hands out carries them: a run of pushes never relabels.
pub proof fn law_a_parser_keeps_its_source(
    states: Seq<LogParser>,
    lines: Seq<Seq<char>>,
    outs: Seq<Option<LogEntry>>,
)
    requires
        pushes(states, lines, outs),
        holds_own_label(states[0]),
    ensures
        forall|i: int|
            0 <= i <= lines.len() ==> (#[trigger] states[i]).parser_id() == states[0].parser_id()
                && states[i].source() == states[0].source() && holds_own_label(states[i]),
        forall|i: int| 0 <= i < lines.len() ==> (#[trigger] outs[i] matches Some(e) ==> labelled_by(e, states[0])),
    decreases lines.len(),
{
    if lines.len() > 0 {
        let n = lines.len() - 1;
        let s2 = states.drop_last();
        let l2 = lines.drop_last();
        let o2 = outs.drop_last();
        assert forall|i: int| 0 <= i < l2.len() implies LogParser::push_done(s2[i], l2[i], s2[i + 1], #[trigger] o2[i]) by {
            assert(outs[i] == o2[i]);
        }
        law_a_parser_keeps_its_source(s2, l2, o2);
        assert(s2[n] == states[n]);
        assert(LogParser::push_done(states[n], lines[n], states[n + 1], outs[n]));
        lemma_one_push_keeps_labels(states[n], lines[n], states[n + 1], outs[n]);
        assert forall|i: int| 0 <= i <= lines.len() implies (#[trigger] states[i]).parser_id() == states[0].parser_id()
            && states[i].source() == states[0].source() && holds_own_label(states[i]) by {
            if i <= n {
                assert(s2[i] == states[i]);
            }
        }
        assert forall|i: int| 0 <= i < lines.len() implies (#[trigger] outs[i] matches Some(e) ==> labelled_by(e, states[0])) by {
            if i < n {
                assert(o2[i] == outs[i]);
            } else {
                assert(states[n].parser_id() == states[0].parser_id());
            }
        }
    }
}

/// Feeds the lines of a chunk of text to a parser, then flushes what it
/// holds, and returns the entries in order.
pub fn feed_text(parser: &mut LogParser, text: &str) -> (r: Vec<LogEntry>)
    ensures
        fed(*old(parser), lines_of_text(text@), *final(parser), r@),
{
    let chars = chars_of(text);
    let lines = split_lines(chars.as_slice());
    let ghost all = lines@.map_values(|l: String| l@);
    let mut r: Vec<LogEntry> = Vec::new();
    let ghost mut states: Seq<LogParser> = seq![*parser];
    let ghost mut outs: Seq<Option<LogEntry>> = seq![];
    let mut i: usize = 0;
    while i < lines.len()
        invariant
            i <= lines.len(),
            all == lines@.map_values(|l: String| l@),
            states[0] == *old(parser),
            pushes(states, all.take(i as int), outs),
            states.last() == *parser,
            parser.parser_id() == old(parser).parser_id(),
            parser.source() == old(parser).source(),
            r@ == produced(outs),
        decreases lines.len() - i,
    {
        let ghost before = *parser;
        let out = parser.push_line(lines[i].as_str());
        proof {
            let ghost new_states = states.push(*parser);
            let ghost new_outs = outs.push(out);
            assert(all.take(i + 1) =~= all.take(i as int).push(all[i as int]));
            assert forall|k: int| 0 <= k < i + 1 implies LogParser::push_done(
                new_states[k],
                all.take(i + 1)[k],
                new_states[k + 1],
                #[trigger] new_outs[k],
            ) by {
                if k < i {
                    assert(new_outs[k] == outs[k]);
                    assert(new_states[k] == states[k]);
                    assert(new_states[k + 1] == states[k + 1]);
                    assert(all.take(i + 1)[k] == all.take(i as int)[k]);
                }
            }
            assert(new_outs.drop_last() =~= outs);
            states = new_states;
            outs = new_outs;
        }
        match out {
            Some(e) => {
                r.push(e);
            },
            None => {},
        }
        i = i + 1;
    }
    assert(all.take(lines.len() as int) =~= all);
    let ghost last = *parser;
    let tail = parser.flush();
    assert(tail == flush_out(last));
    assert(outs.push(tail).drop_last() =~= outs);
    match tail {
        Some(e) => {
            r.push(e);
        },
        None => {},
    }
    assert(pushes(states, lines_of_text(text@), outs));
    r
}

/// The lines of a text, as `str::lines` splits it.
pub open spec fn lines_of_text(s: Seq<char>) -> Seq<Seq<char>> {
    crate::text::lines_of(s)
}

/// An entry relabelled with the source it was streamed from.
pub open spec fn relabelled(e0: LogEntry, e: LogEntry, source_id: Seq<char>, source_path: Option<Seq<char>>) -> bool {
    &&& e.source_id@ == source_id
    &&& match source_path {
        Some(p) => e.source_path@ == p,
        None => e.source_path == e0.source_path,
    }
    &&& e == LogEntry { source_id: e.source_id, source_path: e.source_path, ..e0 }
}

/// Handles one line streamed from a container: trailing newlines dropped,
/// the line pushed to the parser, and an entry that comes out labelled with
/// the source's id and container name.
pub fn stream_line(parser: &mut LogParser, line: &str, source_id: &str, source_path: &str) -> (r: Option<LogEntry>)
    ensures
        final(parser).parser_id() == old(parser).parser_id(),
        final(parser).source() == old(parser).source(),
        exists|r0: Option<LogEntry>|
            #![trigger LogParser::push_done(*old(parser), trim_end_char(line@, '\n'), *final(parser), r0)]
            {
                &&& LogParser::push_done(*old(parser), trim_end_char(line@, '\n'), *final(parser), r0)
                &&& match (r0, r) {
                    (Some(e0), Some(e)) => relabelled(e0, e, source_id@, Some(source_path@)),
                    (None, None) => true,
                    _ => false,
                }
            },
{
    let chars = chars_of(line);
    let trimmed = trim_end_matches_char(chars.as_slice(), '\n');
    let text = string_of(trimmed.as_slice());
    let out = parser.push_line(text.as_str());
    match out {
        Some(e0) => {
            let ghost g0 = e0;
            let mut e = e0;
            e.source_id = owned(source_id);
            e.source_path = owned(source_path);
            assert(relabelled(g0, e, source_id@, Some(source_path@)));
            Some(e)
        },
        None => None,
    }
}

/// Ends a container stream: what the parser still holds comes out labelled
/// with the source's id (its path left as the parser set it).
pub fn end_stream(parser: &mut LogParser, source_id: &str) -> (r: Option<LogEntry>)
    ensures
        final(parser).is_idle(),
        final(parser).parser_id() == old(parser).parser_id(),
        final(parser).source() == old(parser).source(),
        match (flush_out(*old(parser)), r) {
            (Some(e0), Some(e)) => relabelled(e0, e, source_id@, None),
            (None, None) => true,
            _ => false,
        },
{
    match parser.flush() {
        Some(e0) => {
            let ghost g0 = e0;
            let mut e = e0;
            e.source_id = owned(source_id);
            assert(relabelled(g0, e, source_id@, None));
            Some(e)
        },
        None => None,
    }
}

/// Where reading a file of length `len` resumes, given the offset known for
/// it: that offset, or 0 for a file not read before or one that shrank
/// (was rotated).
pub open spec fn resume_offset(known: Option<u64>, len: u64) -> u64 {
    match known {
        Some(o) => if o > len {
            0
        } else {
            o
        },
        None => 0,
    }
}

/// Reading a growing file picks up exactly where the previous read ended:
/// after a read that resumed at `o` and took `n` bytes, the next read of a
/// file at least `o + n` bytes long starts at `o + n`; a shorter file (one
/// that was rotated) is read again from the start.
pub proof fn law_reading_resumes_after_what_was_read(o: u64, n: u64, len: u64)
    requires
        o + n <= u64::MAX,
    ensures
        o + n <= len ==> resume_offset(Some((o + n) as u64), len) == o + n,
        len < o + n ==> resume_offset(Some((o + n) as u64), len) == 0,
        resume_offset(None, len) == 0,
{
}

/// How far each watched file has been read, by path.
pub struct FileOffsets {
    paths: Vec<String>,
    offsets: Vec<u64>,
}

impl FileOffsets {
    pub closed spec fn paths(&self) -> Seq<Seq<char>> {
        texts(self.paths@)
    }

    pub closed spec fn offsets(&self) -> Seq<u64> {
        self.offsets@
    }

    pub closed spec fn wf(&self) -> bool {
        &&& self.paths@.len() == self.offsets@.len()
        &&& unique_ids(self.paths())
    }

    /// The offset known for a path, if any.
    pub open spec fn offset_of(&self, path: Seq<char>) -> Option<u64> {
        if self.paths().contains(path) {
            Some(self.offsets()[self.paths().index_of(path)])
        } else {
            None
        }
    }

    pub fn new() -> (r: FileOffsets)
        ensures
            r.wf(),
            forall|p: Seq<char>| r.offset_of(p) is None,
    {
        let r = FileOffsets { paths: Vec::new(), offsets: Vec::new() };
        assert(r.paths() =~= Seq::<Seq<char>>::empty());
        r
    }

    fn position(&self, path: &str) -> (r: Option<usize>)
        requires
            self.wf(),
        ensures
            match r {
                Some(i) => i < self.paths().len() && self.paths()[i as int] == path@ && self.paths().index_of(
                    path@,
                ) == i,
                None => !self.paths().contains(path@),
            },
    {
        let mut i: usize = 0;
        while i < self.paths.len()
            invariant
                self.wf(),
                i <= self.paths.len(),
                forall|j: int| 0 <= j < i ==> self.paths()[j] != path@,
            decreases self.paths.len() - i,
        {
            let here = chars_of(self.paths[i].as_str());
            if eq_str(here.as_slice(), path) {
                proof {
                    assert(self.paths()[i as int] == path@);
                    assert(self.paths().contains(path@));
                    let j = self.paths().index_of(path@);
                    assert(self.paths()[j] == path@);
                }
                return Some(i);
            }
            i = i + 1;
        }
        assert(!self.paths().contains(path@)) by {
            if self.paths().contains(path@) {
                let j = choose|j: int| 0 <= j < self.paths().len() && self.paths()[j] == path@;
                assert(j < i);
            }
        }
        None
    }

    /// Where reading a file of length `len` resumes: the known offset, or 0
    /// for a file not read before or one that shrank (was rotated). The
    /// offset is kept for the path.
    pub fn begin_read(&mut self, path: &str, len: u64) -> (r: u64)
        requires
            old(self).wf(),
        ensures
            final(self).wf(),
            r == resume_offset(old(self).offset_of(path@), len),
            final(self).offset_of(path@) == Some(r),
            forall|q: Seq<char>| q != path@ ==> final(self).offset_of(q) == old(self).offset_of(q),
    {
        match self.position(path) {
            Some(i) => {
                let o = self.offsets[i];
                let r = if o > len {
                    0
                } else {
                    o
                };
                self.offsets.set(i, r);
                proof {
                    assert(self.paths() == old(self).paths());
                    assert forall|q: Seq<char>| q != path@ implies self.offset_of(q) == old(self).offset_of(q) by {
                        if self.paths().contains(q) {
                            let j = self.paths().index_of(q);
                            assert(j != i);
                        }
                    }
                }
                r
            },
            None => {
                self.paths.push(owned(path));
                self.offsets.push(0);
                proof {
                    assert(self.paths() =~= old(self).paths().push(path@));
                    assert forall|a: int, b: int| 0 <= a < b < self.paths().len() implies self.paths()[a]
                        != self.paths()[b] by {
                        if b == self.paths().len() - 1 {
                            assert(old(self).paths()[a] == self.paths()[a]);
                        }
                    }
                    let n = self.paths().len() - 1;
                    assert(self.paths()[n] == path@);
                    assert(self.paths().contains(path@));
                    let j = self.paths().index_of(path@);
                    assert(j == n);
                    assert forall|q: Seq<char>| q != path@ implies self.offset_of(q) == old(self).offset_of(q) by {
                        if old(self).paths().contains(q) {
                            let k = old(self).paths().index_of(q);
                            assert(self.paths()[k] == q);
                            assert(self.paths().contains(q));
                            let j2 = self.paths().index_of(q);
                            assert(j2 == k);
                        } else {
                            if self.paths().contains(q) {
                                let j2 = self.paths().index_of(q);
                                assert(j2 != n);
                                assert(old(self).paths()[j2] == q);
                            }
                        }
                    }
                }
                0
            },
        }
    }

    /// Moves a file's offset past `n` bytes just read.
    pub fn advance(&mut self, path: &str, n: u64)
        requires
            old(self).wf(),
            old(self).offset_of(path@) matches Some(o) && o + n <= u64::MAX,
        ensures
            final(self).wf(),
            final(self).offset_of(path@) == Some((old(self).offset_of(path@)->Some_0 + n) as u64),
            forall|q: Seq<char>| q != path@ ==> final(self).offset_of(q) == old(self).offset_of(q),
    {
        match self.position(path) {
            Some(i) => {
                let o = self.offsets[i];
                self.offsets.set(i, o + n);
                proof {
                    assert forall|q: Seq<char>| q != path@ implies self.offset_of(q) == old(self).offset_of(q) by {
                        if self.paths().contains(q) {
                            let j = self.paths().index_of(q);
                            assert(j != i);
                        }
                    }
                }
            },
            None => {},
        }
    }
}

} // verus!
