//! The bounded record of what a process has written.

use vstd::prelude::*;

use crate::text::{append_lines, texts, unlines};

verus! {

/// How many lines of each stream the dashboard keeps for a project.
pub const MAX_OUTPUT_LINES: usize = 100;

/// The most recent lines that a process wrote, by stream.
#[derive(Debug, Clone)]
pub struct ProcessOutput {
    stdout: Vec<String>,
    stderr: Vec<String>,
    max_lines: usize,
}

/// The contents of a [`ProcessOutput`].
#[verifier::ext_equal]
pub struct OutputModel {
    /// The lines of the standard output, oldest first.
    pub stdout: Seq<Seq<char>>,
    /// The lines of the standard error stream, oldest first.
    pub stderr: Seq<Seq<char>>,
    /// How many lines of each stream are kept.
    pub max_lines: nat,
}

impl OutputModel {
    /// No stream holds more lines than are kept.
    pub open spec fn bounded(self) -> bool {
        &&& self.stdout.len() <= self.max_lines
        &&& self.stderr.len() <= self.max_lines
    }

    /// An empty record.
    pub open spec fn empty(max_lines: nat) -> OutputModel {
        OutputModel { stdout: Seq::empty(), stderr: Seq::empty(), max_lines }
    }

    /// The record after a line of the standard output.
    pub open spec fn with_stdout(self, line: Seq<char>) -> OutputModel {
        OutputModel { stdout: kept(self.stdout, line, self.max_lines), ..self }
    }

    /// The record after a line of the standard error stream.
    pub open spec fn with_stderr(self, line: Seq<char>) -> OutputModel {
        OutputModel { stderr: kept(self.stderr, line, self.max_lines), ..self }
    }

    /// The record after a run of lines of the standard output.
    pub open spec fn with_all_stdout(self, lines: Seq<Seq<char>>) -> OutputModel
        decreases lines.len(),
    {
        if lines.len() == 0 {
            self
        } else {
            self.with_all_stdout(lines.drop_last()).with_stdout(lines.last())
        }
    }

    /// The record after a run of lines of the standard error stream.
    pub open spec fn with_all_stderr(self, lines: Seq<Seq<char>>) -> OutputModel
        decreases lines.len(),
    {
        if lines.len() == 0 {
            self
        } else {
            self.with_all_stderr(lines.drop_last()).with_stderr(lines.last())
        }
    }

    /// The record after a run of lines of both streams.
    pub open spec fn with_all(self, lines: Seq<StreamLine>) -> OutputModel
        decreases lines.len(),
    {
        if lines.len() == 0 {
            self
        } else {
            let before = self.with_all(lines.drop_last());
            match lines.last() {
                StreamLine::Output(line) => before.with_stdout(line),
                StreamLine::Error(line) => before.with_stderr(line),
            }
        }
    }

    /// The record as shown: the error stream, a blank line, and the standard output, each under
    /// its heading and only where it has lines; a notice where neither has.
    pub open spec fn shown(self) -> Seq<char> {
        if self.stdout.len() == 0 && self.stderr.len() == 0 {
            "No output yet..."@
        } else {
            self.shown_stderr() + self.shown_stdout()
        }
    }

    /// The part of [`OutputModel::shown`] for the error stream.
    pub open spec fn shown_stderr(self) -> Seq<char> {
        if self.stderr.len() == 0 {
            Seq::empty()
        } else {
            "=== STDERR ===\n"@ + unlines(self.stderr) + seq!['\n']
        }
    }

    /// The part of [`OutputModel::shown`] for the standard output.
    pub open spec fn shown_stdout(self) -> Seq<char> {
        if self.stdout.len() == 0 {
            Seq::empty()
        } else {
            "=== STDOUT ===\n"@ + unlines(self.stdout)
        }
    }
}

/// A line, with the stream that it was written to.
pub enum StreamLine {
    /// A line of the standard output.
    Output(Seq<char>),
    /// A line of the standard error stream.
    Error(Seq<char>),
}

/// The lines of the standard output among lines of both streams, in order.
pub open spec fn output_of(lines: Seq<StreamLine>) -> Seq<Seq<char>>
    decreases lines.len(),
{
    if lines.len() == 0 {
        Seq::empty()
    } else {
        match lines.last() {
            StreamLine::Output(line) => output_of(lines.drop_last()).push(line),
            StreamLine::Error(_) => output_of(lines.drop_last()),
        }
    }
}

/// The lines of the standard error stream among lines of both streams, in order.
pub open spec fn errors_of(lines: Seq<StreamLine>) -> Seq<Seq<char>>
    decreases lines.len(),
{
    if lines.len() == 0 {
        Seq::empty()
    } else {
        match lines.last() {
            StreamLine::Output(_) => errors_of(lines.drop_last()),
            StreamLine::Error(line) => errors_of(lines.drop_last()).push(line),
        }
    }
}

/// `lines` with `line` at the end, and without the oldest line where there would be more than
/// `max`.
pub open spec fn kept(lines: Seq<Seq<char>>, line: Seq<char>, max: nat) -> Seq<Seq<char>> {
    if lines.len() + 1 > max {
        lines.push(line).skip(1)
    } else {
        lines.push(line)
    }
}

/// The last `max` lines.
pub open spec fn last_lines(lines: Seq<Seq<char>>, max: nat) -> Seq<Seq<char>> {
    if lines.len() > max {
        lines.skip(lines.len() - max)
    } else {
        lines
    }
}

impl View for ProcessOutput {
    type V = OutputModel;

    closed spec fn view(&self) -> OutputModel {
        OutputModel {
            stdout: texts(self.stdout@),
            stderr: texts(self.stderr@),
            max_lines: self.max_lines as nat,
        }
    }
}

impl ProcessOutput {
    /// An empty record that keeps `max_lines` lines of each stream.
    pub fn new(max_lines: usize) -> (r: Self)
        ensures
            r@ == OutputModel::empty(max_lines as nat),
            r@.bounded(),
    {
        let r = Self { stdout: Vec::new(), stderr: Vec::new(), max_lines };
        assert(r@ =~= OutputModel::empty(max_lines as nat));
        r
    }

    /// Records a line of the standard output.
    pub fn add_stdout(&mut self, line: String)
        ensures
            final(self)@ == old(self)@.with_stdout(line@),
            old(self)@.bounded() ==> final(self)@.bounded(),
    {
        let ghost before = self@;
        self.stdout.push(line);
        assert(texts(self.stdout@) =~= before.stdout.push(line@));
        if self.stdout.len() > self.max_lines {
            self.stdout.remove(0);
            assert(texts(self.stdout@) =~= before.stdout.push(line@).skip(1));
        }
    }

    /// Records a line of the standard error stream.
    pub fn add_stderr(&mut self, line: String)
        ensures
            final(self)@ == old(self)@.with_stderr(line@),
            old(self)@.bounded() ==> final(self)@.bounded(),
    {
        let ghost before = self@;
        self.stderr.push(line);
        assert(texts(self.stderr@) =~= before.stderr.push(line@));
        if self.stderr.len() > self.max_lines {
            self.stderr.remove(0);
            assert(texts(self.stderr@) =~= before.stderr.push(line@).skip(1));
        }
    }

    /// The whole record as one text.
    pub fn get_all_output(&self) -> (r: String)
        ensures
            r@ == self@.shown(),
    {
        let mut output = String::new();
        if !self.stderr.is_empty() {
            output.append("=== STDERR ===\n");
            append_lines(&mut output, &self.stderr);
            output.push('\n');
        }
        assert(output@ =~= self@.shown_stderr());
        if !self.stdout.is_empty() {
            output.append("=== STDOUT ===\n");
            append_lines(&mut output, &self.stdout);
        }
        assert(output@ =~= self@.shown_stderr() + self@.shown_stdout());
        if self.stderr.is_empty() && self.stdout.is_empty() {
            output.append("No output yet...");
            assert(output@ =~= "No output yet..."@);
        }
        output
    }
}

/// However many lines a stream gets, a record that started empty holds the last of them, oldest
/// first, up to its limit, and never more.
pub proof fn lemma_record_is_the_last_lines(max_lines: nat, lines: Seq<Seq<char>>)
    ensures
        OutputModel::empty(max_lines).with_all_stdout(lines) == (OutputModel {
            stdout: last_lines(lines, max_lines),
            ..OutputModel::empty(max_lines)
        }),
        OutputModel::empty(max_lines).with_all_stderr(lines) == (OutputModel {
            stderr: last_lines(lines, max_lines),
            ..OutputModel::empty(max_lines)
        }),
        last_lines(lines, max_lines).len() <= max_lines,
    decreases lines.len(),
{
    if lines.len() > 0 {
        lemma_record_is_the_last_lines(max_lines, lines.drop_last());
        assert(kept(last_lines(lines.drop_last(), max_lines), lines.last(), max_lines)
            =~= last_lines(lines, max_lines));
    } else {
        assert(last_lines(lines, max_lines) =~= Seq::empty());
    }
}

/// One line more takes the place of the oldest of the last lines, where there are as many as are
/// kept.
proof fn lemma_kept_is_the_last(lines: Seq<Seq<char>>, line: Seq<char>, max: nat)
    ensures
        kept(last_lines(lines, max), line, max) == last_lines(lines.push(line), max),
{
    assert(kept(last_lines(lines, max), line, max) =~= last_lines(lines.push(line), max));
}

/// However the lines of the two streams come one after the other, a record that started empty
/// holds the last lines of each of them, up to its limit.
pub proof fn lemma_record_of_both_streams(max_lines: nat, lines: Seq<StreamLine>)
    ensures
        OutputModel::empty(max_lines).with_all(lines) == (OutputModel {
            stdout: last_lines(output_of(lines), max_lines),
            stderr: last_lines(errors_of(lines), max_lines),
            max_lines,
        }),
    decreases lines.len(),
{
    if lines.len() > 0 {
        let before = lines.drop_last();
        lemma_record_of_both_streams(max_lines, before);
        match lines.last() {
            StreamLine::Output(line) => {
                lemma_kept_is_the_last(output_of(before), line, max_lines);
            },
            StreamLine::Error(line) => {
                lemma_kept_is_the_last(errors_of(before), line, max_lines);
            },
        }
    } else {
        assert(last_lines(Seq::<Seq<char>>::empty(), max_lines) =~= Seq::empty());
    }
}

/// What is recorded and what is shown of it depends on the lines of each stream alone, not on how
/// the two came one after the other.
pub proof fn lemma_interleaving_makes_no_difference(
    max_lines: nat,
    a: Seq<StreamLine>,
    b: Seq<StreamLine>,
)
    requires
        output_of(a) == output_of(b),
        errors_of(a) == errors_of(b),
    ensures
        OutputModel::empty(max_lines).with_all(a) == OutputModel::empty(max_lines).with_all(b),
        OutputModel::empty(max_lines).with_all(a).shown() == OutputModel::empty(max_lines).with_all(
            b,
        ).shown(),
{
    lemma_record_of_both_streams(max_lines, a);
    lemma_record_of_both_streams(max_lines, b);
}

/// The two streams are kept apart: a line of one leaves the other as it was, so lines of
/// different streams may be recorded in either order.
pub proof fn lemma_streams_are_independent(m: OutputModel, out: Seq<char>, err: Seq<char>)
    ensures
        m.with_stdout(out).stderr == m.stderr,
        m.with_stderr(err).stdout == m.stdout,
        m.with_stdout(out).with_stderr(err) == m.with_stderr(err).with_stdout(out),
{
}

} // verus!
