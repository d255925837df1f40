//! The in-app log that the settings window shows: time-stamped lines, of
//! which only the most recent ones are kept.
use vstd::prelude::*;
use crate::models::views;

verus! {

broadcast use vstd::string::group_string_axioms;

/// How many lines the log keeps.
pub const MAX_LOG_LINES: usize = 200;

/// The last `n` elements of `s` (all of them when there are fewer).
pub open spec fn keep_last<A>(s: Seq<A>, n: nat) -> Seq<A> {
    if s.len() > n {
        s.skip(s.len() - n)
    } else {
        s
    }
}

/// A log line: the time stamp in brackets, a space, the message.
pub open spec fn log_line(timestamp: Seq<char>, msg: Seq<char>) -> Seq<char> {
    "["@ + timestamp + "] "@ + msg
}

/// The log after `lines` were recorded one after the other into an empty log.
pub open spec fn log_after(lines: Seq<Seq<char>>) -> Seq<Seq<char>>
    decreases lines.len(),
{
    if lines.len() == 0 {
        Seq::empty()
    } else {
        keep_last(log_after(lines.drop_last()).push(lines.last()), MAX_LOG_LINES as nat)
    }
}

/// The most recent log lines, oldest first.
pub struct LogBuffer {
    lines: Vec<String>,
}

impl View for LogBuffer {
    type V = Seq<Seq<char>>;

    closed spec fn view(&self) -> Seq<Seq<char>> {
        views(self.lines@)
    }
}

impl LogBuffer {
    #[verifier::type_invariant]
    closed spec fn bounded(self) -> bool {
        self.lines@.len() <= MAX_LOG_LINES
    }

    /// An empty log.
    pub fn new() -> (r: LogBuffer)
        ensures
            r@ == Seq::<Seq<char>>::empty(),
    {
        let r = LogBuffer { lines: Vec::new() };
        assert(r@ =~= Seq::<Seq<char>>::empty());
        r
    }

    /// Appends a line, dropping the oldest one when the log is full.
    pub fn push(&mut self, line: String)
        ensures
            final(self)@ == keep_last(old(self)@.push(line@), MAX_LOG_LINES as nat),
            final(self)@.len() <= MAX_LOG_LINES,
    {
        proof {
            use_type_invariant(&*self);
        }
        let ghost lv = line@;
        let mut lines: Vec<String> = Vec::new();
        std::mem::swap(&mut lines, &mut self.lines);
        let ghost before = views(lines@);
        lines.push(line);
        assert(views(lines@) =~= before.push(lv));
        if lines.len() > MAX_LOG_LINES {
            lines.remove(0);
            assert(views(lines@) =~= before.push(lv).skip(1));
        }
        self.lines = lines;
    }

    /// Records `msg` at `timestamp` and gives back the line as written.
    pub fn record(&mut self, timestamp: &str, msg: &str) -> (line: String)
        ensures
            line@ == log_line(timestamp@, msg@),
            final(self)@ == keep_last(old(self)@.push(line@), MAX_LOG_LINES as nat),
    {
        let line = String::from_str("[").concat(timestamp).concat("] ").concat(msg);
        self.push(line.clone());
        line
    }

    /// The lines of the log, oldest first.
    pub fn lines(&self) -> (r: Vec<String>)
        ensures
            views(r@) == self@,
    {
        let r = self.lines.clone();
        assert(views(r@) =~= views(self.lines@)) by {
            assert forall|i: int| 0 <= i < r@.len() implies r@[i]@ == self.lines@[i]@ by {
                assert(cloned::<String>(self.lines@[i], r@[i]));
            }
        }
        r
    }

    /// The number of lines in the log.
    pub fn len(&self) -> (n: usize)
        ensures
            n == self@.len(),
            n <= MAX_LOG_LINES,
    {
        proof {
            use_type_invariant(self);
        }
        self.lines.len()
    }
}

/// Recording lines one at a time keeps exactly the most recent ones: the log
/// holds the last `MAX_LOG_LINES` of everything ever recorded, in order.
pub proof fn lemma_log_keeps_latest(lines: Seq<Seq<char>>)
    ensures
        log_after(lines) == keep_last(lines, MAX_LOG_LINES as nat),
        log_after(lines).len() <= MAX_LOG_LINES,
    decreases lines.len(),
{
    if lines.len() > 0 {
        let t = lines.drop_last();
        lemma_log_keeps_latest(t);
        let n = MAX_LOG_LINES as nat;
        assert(t.push(lines.last()) =~= lines);
        if t.len() > n {
            assert(keep_last(t, n).push(lines.last()).skip(1) =~= lines.skip(lines.len() - n));
        }
    }
}

/// The newest line is always the last one of the log.
pub proof fn lemma_newest_last(log: Seq<Seq<char>>, line: Seq<char>)
    ensures
        keep_last(log.push(line), MAX_LOG_LINES as nat).len() > 0,
        keep_last(log.push(line), MAX_LOG_LINES as nat).last() == line,
{
}

} // verus!
