//! Timestamped log buffer kept per community and per member.
//!
//! Records carry a plain unix-seconds timestamp and are kept in
//! ascending stamp order (records with equal stamps keep their
//! insertion order); rendering a buffer for display is a pure function
//! of the records.

use vstd::prelude::*;
use vstd::string::*;

use crate::text::{format_two_digits, two_digits};

verus! {

/// One log entry: when it was recorded and what it says.
pub struct LogRecord {
    pub at: u64,
    pub text: String,
}

/// Mathematical model of a log entry.
#[verifier::ext_equal]
pub ghost struct LogRecordModel {
    pub at: u64,
    pub text: Seq<char>,
}

impl View for LogRecord {
    type V = LogRecordModel;

    open spec fn view(&self) -> LogRecordModel {
        LogRecordModel { at: self.at, text: self.text@ }
    }
}

/// Where a record stamped `at` goes: after every record stamped at or
/// before it.
pub open spec fn log_insert_pos(rs: Seq<LogRecordModel>, at: u64) -> int
    decreases rs.len(),
{
    if rs.len() == 0 {
        0
    } else if rs.last().at <= at {
        rs.len() as int
    } else {
        log_insert_pos(rs.drop_last(), at)
    }
}

/// A buffer with one more record, placed after every record stamped at
/// or before it.
pub open spec fn log_insert(rs: Seq<LogRecordModel>, rec: LogRecordModel) -> Seq<LogRecordModel> {
    rs.take(log_insert_pos(rs, rec.at)) + seq![rec] + rs.skip(log_insert_pos(rs, rec.at))
}

/// The records stand in ascending stamp order.
pub open spec fn log_sorted(rs: Seq<LogRecordModel>) -> bool {
    forall|i: int, j: int| 0 <= i < j < rs.len() ==> (#[trigger] rs[i]).at <= (#[trigger] rs[j]).at
}

proof fn lemma_log_insert_pos_range(rs: Seq<LogRecordModel>, at: u64)
    requires
        log_sorted(rs),
    ensures
        0 <= log_insert_pos(rs, at) <= rs.len(),
        forall|k: int| 0 <= k < log_insert_pos(rs, at) ==> (#[trigger] rs[k]).at <= at,
        forall|k: int| log_insert_pos(rs, at) <= k < rs.len() ==> (#[trigger] rs[k]).at > at,
    decreases rs.len(),
{
    if rs.len() == 0 {
    } else if rs.last().at <= at {
        assert(rs.last() == rs[rs.len() - 1]);
        assert(forall|k: int| 0 <= k < rs.len() ==> (#[trigger] rs[k]).at <= at) by {
            assert(forall|k: int|
                0 <= k < rs.len() - 1 ==> (#[trigger] rs[k]).at <= rs[rs.len() - 1].at);
        }
    } else {
        assert(log_sorted(rs.drop_last())) by {
            assert(forall|k: int|
                0 <= k < rs.len() - 1 ==> #[trigger] rs.drop_last()[k] == rs[k]);
        }
        lemma_log_insert_pos_range(rs.drop_last(), at);
        let pos = log_insert_pos(rs.drop_last(), at);
        assert(log_insert_pos(rs, at) == pos);
        assert(rs.last() == rs[rs.len() - 1] && rs.last().at > at);
        assert forall|k: int| 0 <= k < pos implies (#[trigger] rs[k]).at <= at by {
            assert(rs.drop_last()[k] == rs[k]);
        }
        assert forall|k: int| pos <= k < rs.len() implies (#[trigger] rs[k]).at > at by {
            if k < rs.len() - 1 {
                assert(rs.drop_last()[k] == rs[k]);
            }
        }
    }
}

proof fn lemma_log_insert_pos_from(rs: Seq<LogRecordModel>, at: u64, j: int)
    requires
        0 <= j <= rs.len(),
        forall|k: int| j <= k < rs.len() ==> (#[trigger] rs[k]).at > at,
        j > 0 ==> rs[j - 1].at <= at,
    ensures
        log_insert_pos(rs, at) == j,
    decreases rs.len(),
{
    if rs.len() > 0 {
        if rs.last().at <= at {
            assert(j == rs.len());
        } else {
            assert(j < rs.len());
            assert(forall|k: int|
                0 <= k < rs.len() - 1 ==> #[trigger] rs.drop_last()[k] == rs[k]);
            lemma_log_insert_pos_from(rs.drop_last(), at, j);
        }
    }
}

/// Inserting keeps the buffer in ascending stamp order; since every
/// way of adding a record inserts, a buffer built through this module
/// always renders its lines in ascending timestamp order.
pub proof fn lemma_log_insert_keeps_sorted(rs: Seq<LogRecordModel>, rec: LogRecordModel)
    requires
        log_sorted(rs),
    ensures
        log_sorted(log_insert(rs, rec)),
{
    lemma_log_insert_pos_range(rs, rec.at);
    let pos = log_insert_pos(rs, rec.at);
    let out = log_insert(rs, rec);
    assert(forall|k: int| 0 <= k < pos ==> #[trigger] out[k] == rs[k]);
    assert(out[pos] == rec);
    assert(forall|k: int| pos < k < out.len() ==> #[trigger] out[k] == rs[k - 1]);
}

/// An ordered buffer of log records.
pub struct LogData {
    records: Vec<LogRecord>,
}

impl View for LogData {
    type V = Seq<LogRecordModel>;

    closed spec fn view(&self) -> Seq<LogRecordModel> {
        self.records@.map_values(|r: LogRecord| r@)
    }
}

impl Default for LogData {
    fn default() -> (r: Self)
        ensures
            r@ == Seq::<LogRecordModel>::empty(),
    {
        let r = LogData { records: Vec::new() };
        proof {
            assert(r@ =~= Seq::<LogRecordModel>::empty());
        }
        r
    }
}

impl LogData {
    /// An empty buffer.
    pub fn new() -> (r: Self)
        ensures
            r@ == Seq::<LogRecordModel>::empty(),
    {
        let r = LogData { records: Vec::new() };
        proof {
            assert(r@ =~= Seq::<LogRecordModel>::empty());
        }
        r
    }

    /// Record an owned line, stamped with the given time: it goes
    /// after every record stamped at or before it, keeping the buffer
    /// in ascending stamp order.
    pub fn slog(&mut self, now: u64, content: String)
        ensures
            final(self)@ == log_insert(old(self)@, LogRecordModel { at: now, text: content@ }),
    {
        let ghost prev = self@;
        let ghost entry = LogRecordModel { at: now, text: content@ };
        let mut j: usize = self.records.len();
        while j > 0 && self.records[j - 1].at > now
            invariant
                0 <= j <= self.records.len(),
                self@ == prev,
                forall|k: int| j <= k < prev.len() ==> (#[trigger] prev[k]).at > now,
            decreases j,
        {
            j = j - 1;
        }
        proof {
            lemma_log_insert_pos_from(prev, now, j as int);
        }
        self.records.insert(j, LogRecord { at: now, text: content });
        proof {
            assert(self@ =~= log_insert(prev, entry));
        }
    }

    /// Record a borrowed line, stamped with the given time.
    pub fn log(&mut self, now: u64, content: &str)
        ensures
            final(self)@ == log_insert(old(self)@, LogRecordModel { at: now, text: content@ }),
    {
        self.slog(now, content.to_owned());
    }

    /// Drop every record.
    pub fn clear(&mut self)
        ensures
            final(self)@ == Seq::<LogRecordModel>::empty(),
    {
        self.records.clear();
        proof {
            assert(self@ =~= Seq::<LogRecordModel>::empty());
        }
    }

    /// Number of records held.
    pub fn len(&self) -> (n: usize)
        ensures
            n == self@.len(),
    {
        self.records.len()
    }

    /// Read one record.
    pub fn record(&self, i: usize) -> (r: &LogRecord)
        requires
            i < self@.len(),
        ensures
            r@ == self@[i as int],
    {
        &self.records[i]
    }
}

/// One rendered log line: the time of day, a separator, the text, a
/// line break.
pub open spec fn render_record(r: LogRecordModel) -> Seq<char> {
    two_digits(((r.at as int / 3600) % 24)) + ":"@ + two_digits(((r.at as int / 60) % 60)) + ":"@
        + two_digits((r.at as int % 60)) + " UTC: "@ + r.text + "\n"@
}

/// The whole buffer rendered, one line per record, in order.
pub open spec fn render_log(rs: Seq<LogRecordModel>) -> Seq<char>
    decreases rs.len(),
{
    if rs.len() == 0 {
        Seq::<char>::empty()
    } else {
        render_log(rs.drop_last()) + render_record(rs.last())
    }
}

impl LogData {
    /// Render the buffer for display, or nothing when it is empty.
    ///
    /// Records are stored in ascending stamp order (see
    /// [`lemma_log_insert_keeps_sorted`]), so the lines come out in
    /// ascending timestamp order.
    pub fn dump(&self) -> (r: Option<String>)
        ensures
            r is Some <==> self@.len() > 0,
            r is Some ==> r->0@ == render_log(self@),
    {
        if self.records.len() == 0 {
            return None;
        }
        let mut acc = String::new();
        let mut i: usize = 0;
        proof {
            assert(acc@ =~= render_log(self@.take(0)));
        }
        while i < self.records.len()
            invariant
                0 <= i <= self.records.len(),
                self@.len() == self.records.len(),
                acc@ == render_log(self@.take(i as int)),
            decreases self.records.len() - i,
        {
            let rec = &self.records[i];
            let hours = format_two_digits((rec.at / 3600) % 24);
            let minutes = format_two_digits((rec.at / 60) % 60);
            let seconds = format_two_digits(rec.at % 60);
            acc.append(hours.as_str());
            acc.append(":");
            acc.append(minutes.as_str());
            acc.append(":");
            acc.append(seconds.as_str());
            acc.append(" UTC: ");
            acc.append(rec.text.as_str());
            acc.append("\n");
            i = i + 1;
            proof {
                assert(self@.take(i as int).drop_last() =~= self@.take(i - 1));
                assert(self@.take(i as int).last() == self@[i - 1]);
                assert(acc@ =~= render_log(self@.take(i - 1)) + render_record(self@[i - 1]));
            }
        }
        proof {
            assert(self@.take(self@.len() as int) =~= self@);
        }
        Some(acc)
    }
}

} // verus!

