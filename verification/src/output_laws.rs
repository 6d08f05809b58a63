//! What a record of output holds and shows, told by the lines that were written.

use vstd::prelude::*;

use crate::output::{OutputModel, StreamLine, errors_of, output_of};
use crate::output::lemma_record_of_both_streams;
use crate::text::{is_line, lemma_lines_of_unlines, lines, unlines};
use crate::text_laws::lemma_writing_lines;

verus! {

/// A line that is recorded comes last. Where the record is full the oldest line goes and the
/// others move up; a record that keeps nothing stays empty. The other stream is as it was.
pub proof fn lemma_recording(m: OutputModel, line: Seq<char>)
    requires
        m.bounded(),
    ensures
        ({
            let (out, err) = (m.with_stdout(line), m.with_stderr(line));
            &&& out.stderr == m.stderr && out.max_lines == m.max_lines
            &&& err.stdout == m.stdout && err.max_lines == m.max_lines
            &&& recorded(m.stdout, line, m.max_lines, out.stdout)
            &&& recorded(m.stderr, line, m.max_lines, err.stderr)
        }),
{
}

/// Whether `after` is `before` with a line at its end, of which the oldest gave way where there
/// was no more room.
pub open spec fn recorded(
    before: Seq<Seq<char>>,
    line: Seq<char>,
    max: nat,
    after: Seq<Seq<char>>,
) -> bool {
    if max == 0 {
        after.len() == 0
    } else if before.len() < max {
        &&& after.len() == before.len() + 1
        &&& after[before.len() as int] == line
        &&& forall|i: int| 0 <= i < before.len() ==> #[trigger] after[i] == before[i]
    } else {
        &&& after.len() == max
        &&& after[max - 1] == line
        &&& forall|i: int| 0 <= i < max - 1 ==> #[trigger] after[i] == before[i + 1]
    }
}

/// A record that started empty holds, of each stream, as many lines as were written to it or as
/// are kept, whichever is less, and they are the last that were written, in order.
pub proof fn lemma_what_is_recorded(max: nat, written: Seq<StreamLine>)
    ensures
        ({
            let record = OutputModel::empty(max).with_all(written);
            let (out, err) = (output_of(written), errors_of(written));
            &&& record.stdout.len() == if out.len() > max {
                max
            } else {
                out.len()
            }
            &&& record.stderr.len() == if err.len() > max {
                max
            } else {
                err.len()
            }
            &&& forall|i: int|
                0 <= i < record.stdout.len() ==> #[trigger] record.stdout[i] == out[out.len()
                    - record.stdout.len() + i]
            &&& forall|i: int|
                0 <= i < record.stderr.len() ==> #[trigger] record.stderr[i] == err[err.len()
                    - record.stderr.len() + i]
        }),
{
    lemma_record_of_both_streams(max, written);
}

/// Written lines, one after the other, are the first ones written and then the others.
proof fn lemma_unlines_add(a: Seq<Seq<char>>, b: Seq<Seq<char>>)
    ensures
        unlines(a + b) == unlines(a) + unlines(b),
    decreases a.len(),
{
    if a.len() == 0 {
        assert(a + b =~= b);
        assert(unlines(a) + unlines(b) =~= unlines(b));
    } else {
        let (first, rest) = (a[0], a.skip(1));
        lemma_unlines_add(rest, b);
        lemma_writing_lines(first, rest);
        lemma_writing_lines(first, rest + b);
        assert(seq![first] + rest =~= a);
        assert(seq![first] + (rest + b) =~= a + b);
        assert(unlines(a + b) =~= unlines(a) + unlines(b));
    }
}

/// The lines that a record shows: its error lines under their heading with a blank line after
/// them, and its output lines under theirs. A stream without lines has no heading.
pub open spec fn shown_lines(m: OutputModel) -> Seq<Seq<char>> {
    (if m.stderr.len() > 0 {
        seq!["=== STDERR ==="@] + m.stderr + seq![Seq::<char>::empty()]
    } else {
        Seq::empty()
    }) + (if m.stdout.len() > 0 {
        seq!["=== STDOUT ==="@] + m.stdout
    } else {
        Seq::empty()
    })
}

/// A heading is a line of its own.
proof fn lemma_heading(heading: Seq<char>, whole: Seq<char>, rest: Seq<Seq<char>>)
    requires
        whole == heading + seq!['\n'],
    ensures
        unlines(seq![heading] + rest) == whole + unlines(rest),
{
    lemma_writing_lines(heading, rest);
}

/// A record with lines shows exactly them, all errors before all output, under their headings; one
/// without says that there is no output yet.
pub proof fn lemma_what_is_shown(m: OutputModel)
    ensures
        m.stdout.len() == 0 && m.stderr.len() == 0 ==> m.shown() == "No output yet..."@,
        m.stdout.len() > 0 || m.stderr.len() > 0 ==> m.shown() == unlines(shown_lines(m)),
        (m.stdout.len() > 0 || m.stderr.len() > 0) && (forall|i: int|
            0 <= i < m.stdout.len() ==> is_line(#[trigger] m.stdout[i])) && (forall|i: int|
            0 <= i < m.stderr.len() ==> is_line(#[trigger] m.stderr[i])) ==> lines(m.shown())
            == shown_lines(m),
{
    reveal_strlit("=== STDERR ===");
    reveal_strlit("=== STDOUT ===");
    reveal_strlit("=== STDERR ===\n");
    reveal_strlit("=== STDOUT ===\n");
    let blank = seq![Seq::<char>::empty()];
    let none = Seq::<Seq<char>>::empty();
    let err = if m.stderr.len() > 0 {
        seq!["=== STDERR ==="@] + m.stderr + blank
    } else {
        none
    };
    let out = if m.stdout.len() > 0 {
        seq!["=== STDOUT ==="@] + m.stdout
    } else {
        none
    };
    lemma_writing_lines(Seq::empty(), none);
    assert(blank + none =~= blank);
    assert(unlines(blank) =~= seq!['\n']);
    assert("=== STDERR ===\n"@ =~= "=== STDERR ==="@ + seq!['\n']);
    assert("=== STDOUT ===\n"@ =~= "=== STDOUT ==="@ + seq!['\n']);
    lemma_heading("=== STDERR ==="@, "=== STDERR ===\n"@, m.stderr + blank);
    lemma_unlines_add(m.stderr, blank);
    assert(seq!["=== STDERR ==="@] + m.stderr + blank =~= seq!["=== STDERR ==="@] + (m.stderr
        + blank));
    lemma_heading("=== STDOUT ==="@, "=== STDOUT ===\n"@, m.stdout);
    assert(m.shown_stderr() =~= unlines(err));
    assert(m.shown_stdout() =~= unlines(out));
    lemma_unlines_add(err, out);
    let all = shown_lines(m);
    if (forall|i: int| 0 <= i < m.stdout.len() ==> is_line(#[trigger] m.stdout[i])) && (forall|
        i: int,
    |
        0 <= i < m.stderr.len() ==> is_line(#[trigger] m.stderr[i])) {
        assert(is_line("=== STDERR ==="@) && is_line("=== STDOUT ==="@));
        assert forall|i: int| 0 <= i < err.len() implies is_line(#[trigger] err[i]) by {
            if 0 < i < err.len() - 1 {
                assert(err[i] == m.stderr[i - 1]);
            }
        }
        assert forall|i: int| 0 <= i < out.len() implies is_line(#[trigger] out[i]) by {
            if 0 < i {
                assert(out[i] == m.stdout[i - 1]);
            }
        }
        assert forall|i: int| 0 <= i < all.len() implies is_line(#[trigger] all[i]) by {
            if i < err.len() {
                assert(all[i] == err[i]);
            } else {
                assert(all[i] == out[i - err.len()]);
            }
        }
        lemma_lines_of_unlines(all);
    }
}

} // verus!
