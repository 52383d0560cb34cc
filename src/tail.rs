//! The output of a streamed remote command: everything it wrote, kept
//! whole, and the last few lines, kept for a live progress display.

use vstd::prelude::*;
use crate::text::push_char;
use std::collections::VecDeque;

verus! {

/// How many lines the progress display shows by default.
pub const DEFAULT_TAIL_LINES: usize = 3;

/// The last lines of a streamed command and everything it wrote.
pub struct OutputTail {
    capacity: usize,
    stdout: String,
    stderr: String,
    tail: VecDeque<String>,
}

/// A streamed command's output as plain values.
pub struct OutputTailView {
    pub capacity: nat,
    pub stdout: Seq<char>,
    pub stderr: Seq<char>,
    pub tail: Seq<Seq<char>>,
}

impl View for OutputTail {
    type V = OutputTailView;

    closed spec fn view(&self) -> OutputTailView {
        OutputTailView {
            capacity: self.capacity as nat,
            stdout: self.stdout@,
            stderr: self.stderr@,
            tail: self.tail@.map_values(|s: String| s@),
        }
    }
}

/// The shown lines after one more line: nothing is shown with no room, and
/// the oldest line goes when the display is full.
pub open spec fn tail_after(tail: Seq<Seq<char>>, capacity: nat, line: Seq<char>) -> Seq<Seq<char>> {
    if capacity == 0 {
        tail
    } else if tail.len() >= capacity {
        tail.drop_first().push(line)
    } else {
        tail.push(line)
    }
}

/// The shown lines after `lines`, from an empty display.
pub open spec fn tail_of(lines: Seq<Seq<char>>, capacity: nat) -> Seq<Seq<char>>
    decreases lines.len(),
{
    if lines.len() == 0 {
        Seq::empty()
    } else {
        tail_after(tail_of(lines.drop_last(), capacity), capacity, lines.last())
    }
}

/// The display shows exactly the last `capacity` lines (all of them while
/// fewer have come).
pub proof fn lemma_tail_is_last_lines(lines: Seq<Seq<char>>, capacity: nat)
    ensures
        tail_of(lines, capacity) == lines.subrange(
            if lines.len() > capacity {
                lines.len() - capacity
            } else {
                0
            },
            lines.len() as int,
        ),
    decreases lines.len(),
{
    if lines.len() > 0 {
        let pre = lines.drop_last();
        lemma_tail_is_last_lines(pre, capacity);
        if capacity > 0 && pre.len() >= capacity {
            assert(tail_of(lines, capacity) =~= lines.subrange(lines.len() - capacity, lines.len() as int));
        } else if capacity == 0 {
            assert(tail_of(lines, capacity) =~= lines.subrange(lines.len() as int, lines.len() as int));
        } else {
            assert(tail_of(lines, capacity) =~= lines.subrange(0, lines.len() as int));
        }
    }
}

fn append_line(buf: &mut String, line: &str)
    ensures
        final(buf)@ == old(buf)@ + line@ + seq!['\n'],
{
    buf.append(line);
    push_char(buf, '\n');
}

impl OutputTail {
    /// An empty output that shows at most `capacity` lines.
    pub fn new(capacity: usize) -> (r: OutputTail)
        ensures
            r@.capacity == capacity,
            r@.stdout == Seq::<char>::empty(),
            r@.stderr == Seq::<char>::empty(),
            r@.tail == Seq::<Seq<char>>::empty(),
    {
        let r = OutputTail { capacity, stdout: String::new(), stderr: String::new(), tail: VecDeque::new() };
        assert(r@.tail =~= Seq::<Seq<char>>::empty());
        r
    }

    /// Takes one line that the command wrote, to its error stream where
    /// `is_stderr` holds.
    pub fn push_line(&mut self, is_stderr: bool, line: String)
        requires
            old(self)@.tail.len() <= old(self)@.capacity,
        ensures
            final(self)@.capacity == old(self)@.capacity,
            final(self)@.tail.len() <= final(self)@.capacity,
            final(self)@.stdout == if is_stderr {
                old(self)@.stdout
            } else {
                old(self)@.stdout + line@ + seq!['\n']
            },
            final(self)@.stderr == if is_stderr {
                old(self)@.stderr + line@ + seq!['\n']
            } else {
                old(self)@.stderr
            },
            final(self)@.tail == tail_after(old(self)@.tail, old(self)@.capacity, line@),
    {
        if is_stderr {
            append_line(&mut self.stderr, line.as_str());
        } else {
            append_line(&mut self.stdout, line.as_str());
        }
        if self.capacity > 0 {
            let ghost before = self.tail@;
            if self.tail.len() >= self.capacity {
                self.tail.pop_front();
                assert(self.tail@.map_values(|s: String| s@) =~= before.map_values(
                    |s: String| s@,
                ).drop_first());
            }
            let ghost mid = self.tail@;
            self.tail.push_back(line);
            assert(self.tail@.map_values(|s: String| s@) =~= mid.map_values(|s: String| s@).push(
                line@,
            ));
        }
    }

    /// The lines shown, oldest first.
    pub fn tail(&self) -> (r: &VecDeque<String>)
        ensures
            r@.map_values(|s: String| s@) == self@.tail,
    {
        &self.tail
    }

    /// The progress message: `base`, then each shown line on a line of its
    /// own, indented by two spaces.
    pub fn message(&self, base: &str) -> (r: String)
        ensures
            r@ == indented(base@, self@.tail),
    {
        let mut msg = String::from_str(base);
        let mut i: usize = 0;
        while i < self.tail.len()
            invariant
                i <= self.tail@.len(),
                msg@ == indented(base@, self@.tail.subrange(0, i as int)),
            decreases self.tail@.len() - i,
        {
            let ghost pre = self@.tail.subrange(0, i as int);
            msg.append("\n  ");
            msg.append(self.tail[i].as_str());
            i += 1;
            assert(self@.tail.subrange(0, i as int).drop_last() =~= pre);
        }
        assert(self@.tail.subrange(0, self@.tail.len() as int) =~= self@.tail);
        msg
    }

    /// Everything the command wrote to its output stream, line by line.
    pub fn into_stdout(self) -> (r: String)
        ensures
            r@ == self@.stdout,
    {
        self.stdout
    }

    /// Everything the command wrote to its error stream, line by line.
    pub fn stderr(&self) -> (r: &String)
        ensures
            r@ == self@.stderr,
    {
        &self.stderr
    }
}

/// `base` followed by each line, on a line of its own, indented by two
/// spaces.
pub open spec fn indented(base: Seq<char>, lines: Seq<Seq<char>>) -> Seq<char>
    decreases lines.len(),
{
    if lines.len() == 0 {
        base
    } else {
        indented(base, lines.drop_last()) + "\n  "@ + lines.last()
    }
}

} // verus!
