//! The append-only destination's schema discipline.
//!
//! The sink decides once, at open time, whether the destination is owed a
//! header: it is when the destination is the live standard-output stream,
//! did not exist before opening, or exists with zero bytes. The header is
//! then written exactly once, before the first data line; a pre-existing
//! non-empty destination never receives one. The sink hands back the exact
//! bytes to append for each row, so the caller can flush them before the
//! next light is processed.

use vstd::prelude::*;
use crate::model::{FusedRow, RowV};
use crate::schema::{encode_row, encoded_row, header_line, header_text};

verus! {

/// One appended line, as the destination's history records it.
pub enum LogLine {
    Header,
    Data(RowV),
}

/// The schema state of one open destination, with the ghost history of the
/// lines appended through it.
pub struct Sink {
    header_pending: bool,
    fresh: Ghost<bool>,
    log: Ghost<Seq<LogLine>>,
}

impl Sink {
    /// Whether the destination was fresh, empty or live output at open time.
    pub closed spec fn fresh_dest(self) -> bool {
        self.fresh@
    }

    /// Whether the header is still owed.
    pub closed spec fn pending(self) -> bool {
        self.header_pending
    }

    /// The lines appended so far.
    pub closed spec fn log_lines(self) -> Seq<LogLine> {
        self.log@
    }

    /// The sink's invariant: a header line can only ever stand first, and
    /// only on a destination that was owed one.
    pub open spec fn wf(self) -> bool {
        &&& (!self.fresh_dest() ==> !self.pending())
        &&& (self.fresh_dest() && self.pending() ==> self.log_lines().len() == 0)
        &&& (self.fresh_dest() && !self.pending() ==> self.log_lines().len() >= 1)
        &&& (forall|i: int|
            0 <= i < self.log_lines().len() ==> ((#[trigger] self.log_lines()[i]) is Header <==> (
            self.fresh_dest() && i == 0)))
    }

    /// Opens the schema state for a destination. The header is owed exactly
    /// when the destination is the live standard-output stream, was just
    /// created, or already exists with zero bytes.
    pub fn open_sink(is_stdout: bool, existed: bool, len_bytes: u64) -> (s: Sink)
        ensures
            s.wf(),
            s.pending() == (is_stdout || !existed || len_bytes == 0),
            s.fresh_dest() == s.pending(),
            s.log_lines() == Seq::<LogLine>::empty(),
    {
        let pending = is_stdout || !existed || len_bytes == 0;
        Sink { header_pending: pending, fresh: Ghost(pending), log: Ghost(Seq::empty()) }
    }

    /// Serializes one row and returns the exact bytes to append: the header
    /// line comes first if it is still owed, then the row's line, each
    /// ended by a line break.
    pub fn emit_row(&mut self, row: &FusedRow) -> (out: String)
        requires
            old(self).wf(),
        ensures
            final (self).wf(),
            final (self).fresh_dest() == old(self).fresh_dest(),
            !final (self).pending(),
            old(self).pending() ==> final (self).log_lines() == old(self).log_lines() + seq![
                LogLine::Header,
                LogLine::Data(row@),
            ] && out@ == header_text() + seq!['\n'] + encoded_row(row@) + seq!['\n'],
            !old(self).pending() ==> final (self).log_lines() == old(self).log_lines() + seq![
                LogLine::Data(row@),
            ] && out@ == encoded_row(row@) + seq!['\n'],
    {
        proof {
            reveal_strlit("\n");
            assert("\n"@ =~= seq!['\n']);
        }
        let mut out = String::new();
        if self.header_pending {
            let h = header_line();
            out.append(h.as_str());
            out.append("\n");
            self.header_pending = false;
            self.log = Ghost(self.log@.push(LogLine::Header));
        }
        let line = encode_row(row);
        out.append(line.as_str());
        out.append("\n");
        self.log = Ghost(self.log@.push(LogLine::Data(row@)));
        proof {
            if old(self).pending() {
                assert(self.log@ =~= old(self).log_lines() + seq![
                    LogLine::Header,
                    LogLine::Data(row@),
                ]);
                assert(out@ =~= header_text() + seq!['\n'] + encoded_row(row@) + seq!['\n']);
            } else {
                assert(self.log@ =~= old(self).log_lines() + seq![LogLine::Data(row@)]);
                assert(out@ =~= encoded_row(row@) + seq!['\n']);
            }
        }
        out
    }
}

/// Header policy: a header line can stand only as the very first line of a
/// destination that was owed one at open time; a pre-existing non-empty
/// destination never carries one, and no header is ever duplicated.
pub proof fn lemma_header_once(s: Sink)
    requires
        s.wf(),
    ensures
        forall|i: int|
            0 <= i < s.log_lines().len() && (#[trigger] s.log_lines()[i]) is Header ==> i == 0,
        !s.fresh_dest() ==> (forall|i: int|
            0 <= i < s.log_lines().len() ==> !((#[trigger] s.log_lines()[i]) is Header)),
        s.fresh_dest() && s.log_lines().len() >= 1 ==> (s.log_lines()[0] is Header && (forall|
            i: int,
        |
            1 <= i < s.log_lines().len() ==> (#[trigger] s.log_lines()[i]) is Data)),
{
}

} // verus!
