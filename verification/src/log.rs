//! The in-memory log shown in the Output Log panel: a bounded buffer of the
//! most recent lines, the oldest dropped first.

use vstd::prelude::*;

verus! {

/// Severity of a log line.
#[derive(Debug, Clone, Copy, PartialEq, Eq, Structural)]
pub enum Level {
    Error,
    Warn,
    Info,
    Debug,
    Trace,
}

impl Level {
    /// The label printed before a line in the log file.
    pub fn label(self) -> (r: &'static str)
        ensures
            r@ == match self {
                Level::Error => "ERROR"@,
                Level::Warn => "WARN"@,
                Level::Info => "INFO"@,
                Level::Debug => "DEBUG"@,
                Level::Trace => "TRACE"@,
            },
    {
        match self {
            Level::Error => "ERROR",
            Level::Warn => "WARN",
            Level::Info => "INFO",
            Level::Debug => "DEBUG",
            Level::Trace => "TRACE",
        }
    }
}

/// The most recent log lines, at most `capacity` of them (one, when the
/// capacity is zero).
pub struct LogBuffer {
    lines: Vec<(Level, String)>,
    capacity: usize,
}

/// The lines of a buffer as levels and texts.
pub open spec fn line_texts(v: Seq<(Level, String)>) -> Seq<(Level, Seq<char>)> {
    v.map_values(|e: (Level, String)| (e.0, e.1@))
}

/// The lines after one more is pushed: the oldest is dropped first when the
/// buffer is full.
pub open spec fn pushed(lines: Seq<(Level, Seq<char>)>, capacity: nat, line: (Level, Seq<char>)) -> Seq<
    (Level, Seq<char>),
> {
    if lines.len() >= capacity && lines.len() > 0 {
        lines.drop_first().push(line)
    } else {
        lines.push(line)
    }
}

/// The most lines a buffer of `capacity` holds.
pub open spec fn room(capacity: nat) -> nat {
    if capacity == 0 {
        1
    } else {
        capacity
    }
}

impl LogBuffer {
    /// The buffered lines, oldest first.
    pub closed spec fn contents(&self) -> Seq<(Level, Seq<char>)> {
        line_texts(self.lines@)
    }

    /// The buffer's capacity.
    pub closed spec fn limit(&self) -> nat {
        self.capacity as nat
    }

    /// An empty buffer keeping the last `capacity` lines.
    pub fn new(capacity: usize) -> (r: Self)
        ensures
            r.contents() == Seq::<(Level, Seq<char>)>::empty(),
            r.limit() == capacity,
    {
        let r = LogBuffer { lines: Vec::new(), capacity };
        assert(r.contents() =~= Seq::<(Level, Seq<char>)>::empty());
        r
    }

    /// Append a line, dropping the oldest when the buffer is full.
    pub fn push(&mut self, level: Level, line: String)
        ensures
            final(self).contents() == pushed(old(self).contents(), old(self).limit(), (level, line@)),
            final(self).limit() == old(self).limit(),
            old(self).contents().len() <= room(old(self).limit()) ==> final(self).contents().len() <= room(
                old(self).limit(),
            ),
    {
        let ghost before = self.contents();
        if self.lines.len() >= self.capacity && self.lines.len() > 0 {
            let ghost whole = self.lines@;
            self.lines.remove(0);
            assert(line_texts(self.lines@) =~= line_texts(whole).drop_first());
        }
        let ghost mid = self.lines@;
        self.lines.push((level, line));
        assert(line_texts(self.lines@) =~= line_texts(mid).push((level, self.lines@.last().1@)));
    }

    /// A copy of the buffered lines, oldest first.
    pub fn lines(&self) -> (r: Vec<(Level, String)>)
        ensures
            line_texts(r@) == self.contents(),
    {
        let mut out: Vec<(Level, String)> = Vec::new();
        let mut i: usize = 0;
        while i < self.lines.len()
            invariant
                i <= self.lines@.len(),
                line_texts(out@) == line_texts(self.lines@).take(i as int),
            decreases self.lines@.len() - i,
        {
            let ghost before = out@;
            let text = self.lines[i].1.clone();
            assert(text@ == self.lines@[i as int].1@);
            out.push((self.lines[i].0, text));
            assert(line_texts(out@) =~= line_texts(before).push(line_texts(self.lines@)[i as int]));
            assert(line_texts(self.lines@).take(i + 1) =~= line_texts(self.lines@).take(i as int).push(
                line_texts(self.lines@)[i as int],
            ));
            i += 1;
        }
        assert(line_texts(self.lines@).take(self.lines@.len() as int) =~= line_texts(self.lines@));
        out
    }

    /// Drop every buffered line.
    pub fn clear(&mut self)
        ensures
            final(self).contents() == Seq::<(Level, Seq<char>)>::empty(),
            final(self).limit() == old(self).limit(),
    {
        self.lines = Vec::new();
        assert(self.contents() =~= Seq::<(Level, Seq<char>)>::empty());
    }
}

/// The newest line is always kept, and a buffer never grows past its room:
/// after any sequence of pushes into an empty buffer its lines are the last
/// `room(capacity)` pushed (all of them, when fewer were pushed).
pub proof fn law_buffer_keeps_the_newest_lines(capacity: nat, pushes: Seq<(Level, Seq<char>)>)
    ensures
        pushed_all(capacity, pushes) == pushes.skip(
            if pushes.len() > room(capacity) {
                pushes.len() - room(capacity)
            } else {
                0
            },
        ),
    decreases pushes.len(),
{
    if pushes.len() > 0 {
        let prev = pushes.drop_last();
        law_buffer_keeps_the_newest_lines(capacity, prev);
        let k = if prev.len() > room(capacity) {
            prev.len() - room(capacity)
        } else {
            0
        };
        let k2 = if pushes.len() > room(capacity) {
            pushes.len() - room(capacity)
        } else {
            0
        };
        let before = prev.skip(k);
        if before.len() >= capacity && before.len() > 0 {
            assert(before.drop_first().push(pushes.last()) =~= pushes.skip(k2));
        } else {
            assert(before.push(pushes.last()) =~= pushes.skip(k2));
        }
    } else {
        assert(pushes.skip(0) =~= pushes);
    }
}

/// The lines of an empty buffer of `capacity` after `pushes`, in turn.
pub open spec fn pushed_all(capacity: nat, pushes: Seq<(Level, Seq<char>)>) -> Seq<(Level, Seq<char>)>
    decreases pushes.len(),
{
    if pushes.len() == 0 {
        Seq::empty()
    } else {
        pushed(pushed_all(capacity, pushes.drop_last()), capacity, pushes.last())
    }
}

} // verus!
