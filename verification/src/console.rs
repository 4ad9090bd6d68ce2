//! The message console: lines written by `put` and the debugger, read back
//! whole or in part.
use vstd::prelude::*;
use crate::text::{join_range, join_strings, seq_join, views_of};

verus! {

/// The text of lines joined with newlines.
pub open spec fn lines_text(lines: Seq<Seq<char>>) -> Seq<char> {
    seq_join(lines, seq!['\n'])
}

/// Where the last `n` of `len` lines start.
pub open spec fn tail_start(len: nat, n: nat) -> nat {
    if n > len {
        0
    } else {
        (len - n) as nat
    }
}

/// The first `n` lines (all of them if there are fewer).
pub open spec fn head_lines(lines: Seq<Seq<char>>, n: nat) -> Seq<Seq<char>> {
    lines.take(if n > lines.len() { lines.len() as int } else { n as int })
}

/// The last `n` lines (all of them if there are fewer).
pub open spec fn tail_lines(lines: Seq<Seq<char>>, n: nat) -> Seq<Seq<char>> {
    lines.skip(tail_start(lines.len(), n) as int)
}

/// A buffer of console lines.
pub struct ConsoleBuffer {
    lines: Vec<String>,
}

impl View for ConsoleBuffer {
    type V = Seq<Seq<char>>;

    /// The lines, oldest first.
    closed spec fn view(&self) -> Seq<Seq<char>> {
        views_of(self.lines@)
    }
}

impl ConsoleBuffer {
    /// An empty console.
    pub fn new() -> (c: ConsoleBuffer)
        ensures
            c@ == Seq::<Seq<char>>::empty(),
    {
        let c = ConsoleBuffer { lines: Vec::new() };
        assert(c@ =~= Seq::<Seq<char>>::empty());
        c
    }

    /// Appends a line.
    pub fn write_line(&mut self, message: &str)
        ensures
            final(self)@ == old(self)@.push(message@),
    {
        self.lines.push(message.to_string());
        assert(views_of(self.lines@) =~= views_of(old(self).lines@).push(message@));
    }

    /// All lines joined with newlines; the console is emptied.
    pub fn read(&mut self) -> (s: String)
        ensures
            s@ == lines_text(old(self)@),
            final(self)@ == Seq::<Seq<char>>::empty(),
    {
        let output = join_strings(&self.lines, "\n");
        proof {
            reveal_strlit("\n");
            assert("\n"@ =~= seq!['\n']);
        }
        self.lines.clear();
        assert(views_of(self.lines@) =~= Seq::<Seq<char>>::empty());
        output
    }

    /// Empties the console.
    pub fn clear(&mut self)
        ensures
            final(self)@ == Seq::<Seq<char>>::empty(),
    {
        self.lines.clear();
        assert(views_of(self.lines@) =~= Seq::<Seq<char>>::empty());
    }

    /// The first `n` lines joined with newlines.
    pub fn read_head(&self, n: usize) -> (s: String)
        ensures
            s@ == lines_text(head_lines(self@, n as nat)),
    {
        let end = if n > self.lines.len() {
            self.lines.len()
        } else {
            n
        };
        let output = join_range(&self.lines, 0, end, "\n");
        proof {
            reveal_strlit("\n");
            assert("\n"@ =~= seq!['\n']);
            assert(views_of(self.lines@).subrange(0, end as int) =~= head_lines(self@, n as nat));
        }
        output
    }

    /// The last `n` lines joined with newlines.
    pub fn read_tail(&self, n: usize) -> (s: String)
        ensures
            s@ == lines_text(tail_lines(self@, n as nat)),
    {
        let len = self.lines.len();
        let start = if n > len {
            0
        } else {
            len - n
        };
        let output = join_range(&self.lines, start, len, "\n");
        proof {
            reveal_strlit("\n");
            assert("\n"@ =~= seq!['\n']);
            assert(views_of(self.lines@).subrange(start as int, len as int) =~= tail_lines(self@, n as nat));
        }
        output
    }
}

/// Reading the last line after writing one gives back what was written.
pub proof fn lemma_tail_after_write(lines: Seq<Seq<char>>, message: Seq<char>)
    ensures
        lines_text(tail_lines(lines.push(message), 1)) == message,
{
    assert(tail_lines(lines.push(message), 1) =~= seq![message]);
}

/// Asking for at least as many lines as there are, from the head or from
/// the tail, gives the same text as reading the whole console.
pub proof fn lemma_whole_console(lines: Seq<Seq<char>>, n: nat)
    requires
        n >= lines.len(),
    ensures
        lines_text(head_lines(lines, n)) == lines_text(lines),
        lines_text(tail_lines(lines, n)) == lines_text(lines),
{
    assert(head_lines(lines, n) =~= lines);
    assert(tail_lines(lines, n) =~= lines);
}

} // verus!
