//! The output of DSH: the lines that are kept for a diagnosis.

use vstd::prelude::*;

use crate::text::decimal;
use crate::text::digits;

verus! {

/// How many of the latest lines are kept.
pub const OUTPUT_LINES_CAP: usize = 200;

/// The latest lines of output, oldest first.
#[derive(Debug)]
pub struct RecentOutput {
    lines: Vec<String>,
}

impl View for RecentOutput {
    type V = Seq<Seq<char>>;

    closed spec fn view(&self) -> Seq<Seq<char>> {
        self.lines.deep_view()
    }
}

/// The kept lines after one more line: the oldest makes room once the limit is reached.
pub open spec fn recorded(kept: Seq<Seq<char>>, line: Seq<char>) -> Seq<Seq<char>> {
    if kept.len() >= OUTPUT_LINES_CAP {
        kept.drop_first().push(line)
    } else {
        kept.push(line)
    }
}

impl RecentOutput {
    /// No more lines are kept than the limit allows.
    pub open spec fn wf(&self) -> bool {
        self@.len() <= OUTPUT_LINES_CAP
    }

    /// Without any output.
    pub fn new() -> (recent: RecentOutput)
        ensures
            recent@ == Seq::<Seq<char>>::empty(),
            recent.wf(),
    {
        let recent = RecentOutput { lines: Vec::new() };
        proof {
            assert(recent@ =~= Seq::<Seq<char>>::empty());
        }
        recent
    }

    /// Keeps one more line.
    pub fn record_dsh_output(&mut self, line: &str)
        ensures
            final(self)@ == recorded(old(self)@, line@),
            old(self).wf() ==> final(self).wf(),
    {
        let ghost before = self.lines.deep_view();
        if self.lines.len() >= OUTPUT_LINES_CAP {
            self.lines.remove(0);
            proof {
                assert(self.lines.deep_view() =~= before.drop_first());
            }
        }
        let ghost kept = self.lines.deep_view();
        self.lines.push(line.to_string());
        proof {
            assert(self.lines.deep_view() =~= kept.push(line@));
        }
    }

    /// The kept lines, oldest first.
    pub fn lines(&self) -> (lines: &Vec<String>)
        ensures
            lines.deep_view() == self@,
    {
        &self.lines
    }
}

/// What is kept after all of `output`, line by line.
pub open spec fn kept_of(output: Seq<Seq<char>>) -> Seq<Seq<char>>
    decreases output.len(),
{
    if output.len() == 0 {
        Seq::empty()
    } else {
        recorded(kept_of(output.drop_last()), output.last())
    }
}

/// The kept lines are the last ones of all output, as many as the limit allows, in their order.
pub proof fn law_latest_lines_are_kept(output: Seq<Seq<char>>)
    ensures
        output.len() <= OUTPUT_LINES_CAP ==> kept_of(output) == output,
        output.len() > OUTPUT_LINES_CAP ==> kept_of(output) == output.skip(
            output.len() - OUTPUT_LINES_CAP,
        ),
    decreases output.len(),
{
    if output.len() > 0 {
        let front = output.drop_last();
        law_latest_lines_are_kept(front);
        assert(output =~= front.push(output.last()));
        if output.len() > OUTPUT_LINES_CAP {
            assert(kept_of(output) =~= output.skip(output.len() - OUTPUT_LINES_CAP));
        }
    }
}

// ---------------------------------------------------------------------------
// Writing the kept lines out
// ---------------------------------------------------------------------------

/// The lines one below the other.
pub open spec fn stacked(lines: Seq<Seq<char>>) -> Seq<char>
    decreases lines.len(),
{
    if lines.len() == 0 {
        Seq::empty()
    } else {
        stacked(lines.drop_last()) + lines.last() + "\n"@
    }
}

/// The heading above `count` lines.
pub open spec fn heading(count: nat) -> Seq<char> {
    "--- 最近 "@ + digits(count) + " 行 DSH 输出 ---\n"@
}

/// What a diagnosis writes to the output log.
#[derive(Debug)]
pub enum FlushPlan {
    /// There was no output at all.
    Nothing,
    /// This text, which holds so many lines of output.
    Write { text: String, count: usize },
}

/// What a diagnosis writes, given the kept lines: a heading with their number, and the lines.
pub fn flush_recent_output(lines: &Vec<String>) -> (plan: FlushPlan)
    ensures
        lines@.len() == 0 ==> plan is Nothing,
        lines@.len() > 0 ==> plan is Write && plan->count == lines@.len() && plan->text@ == heading(
            lines@.len(),
        ) + stacked(lines.deep_view()),
{
    if lines.len() == 0 {
        return FlushPlan::Nothing;
    }
    let ghost all = lines.deep_view();
    let number = decimal(lines.len() as u64);
    let mut text: String = "--- 最近 ".to_string().concat(number.as_str()).concat(
        " 行 DSH 输出 ---\n",
    );
    let mut i: usize = 0;
    proof {
        assert(text@ + stacked(all.take(0)) =~= text@);
    }
    while i < lines.len()
        invariant
            i <= lines.len(),
            all == lines.deep_view(),
            text@ == heading(lines@.len()) + stacked(all.take(i as int)),
        decreases lines.len() - i,
    {
        text.append(lines[i].as_str());
        text.append("\n");
        proof {
            assert(all.take(i + 1).drop_last() =~= all.take(i as int));
            assert(all.take(i + 1).last() == lines@[i as int]@);
            assert(text@ =~= heading(lines@.len()) + stacked(all.take(i + 1)));
        }
        i = i + 1;
    }
    proof {
        assert(all.take(i as int) =~= all);
    }
    FlushPlan::Write { text, count: lines.len() }
}

// ---------------------------------------------------------------------------
// Reading the output
// ---------------------------------------------------------------------------

/// What reading from a stream of output has brought.
#[derive(Debug)]
pub enum ReadResult {
    /// A line.
    Line { line: String },
    /// The end of the stream.
    End,
    /// An error.
    Failed { error: String },
}

/// What follows.
#[derive(Debug)]
pub enum ReadStep {
    /// Keep the line, look for an address in it, and read on.
    TakeIn { line: String },
    /// Stop; an error is reported.
    Stop { report: Option<String> },
}

/// What follows what was read: every line is taken in, and the reader stops at the end of the
/// stream and at the first error.
pub fn reader_step(read: ReadResult) -> (step: ReadStep)
    ensures
        step == (match read {
            ReadResult::Line { line } => ReadStep::TakeIn { line },
            ReadResult::End => ReadStep::Stop { report: None },
            ReadResult::Failed { error } => ReadStep::Stop { report: Some(error) },
        }),
{
    match read {
        ReadResult::Line { line } => ReadStep::TakeIn { line },
        ReadResult::End => ReadStep::Stop { report: None },
        ReadResult::Failed { error } => ReadStep::Stop { report: Some(error) },
    }
}

// ---------------------------------------------------------------------------
// Laws by the lines
// ---------------------------------------------------------------------------

/// A line that is taken in is kept as it is, behind the others; no line goes before there are two
/// hundred, and then only the oldest.
pub proof fn law_line_is_kept(
    empty: RecentOutput,
    before: RecentOutput,
    after: RecentOutput,
    line: &str,
)
    requires
        call_ensures(RecentOutput::new, (), empty),
        exists|r: &mut RecentOutput|
            *r == before && *final(r) == after && #[trigger] call_ensures(
                RecentOutput::record_dsh_output,
                (r, line),
                (),
            ),
    ensures
        empty@.len() == 0,
        before@.len() < 200 ==> after@ == before@.push(line@),
        before@.len() >= 200 ==> after@.len() == before@.len() && after@ == before@.skip(1).push(
            line@,
        ),
        after@.last() == line@,
{
    if before@.len() >= 200 {
        assert(before@.drop_first() =~= before@.skip(1));
    }
}

/// The kept lines can be read back.
pub proof fn law_kept_lines_are_read_back(recent: &RecentOutput, lines: &Vec<String>)
    requires
        call_ensures(RecentOutput::lines, (recent,), lines),
    ensures
        lines@.len() == recent@.len(),
        forall|i: int| 0 <= i < lines@.len() ==> (#[trigger] lines@[i])@ == recent@[i],
{
    let all = lines.deep_view();
    assert forall|i: int| 0 <= i < lines@.len() implies (#[trigger] lines@[i])@ == all[i] by {}
}

/// Lines are written one below the other, each as it is with a line feed behind it.
pub proof fn law_lines_are_stacked(a: Seq<Seq<char>>, b: Seq<Seq<char>>, line: Seq<char>)
    ensures
        stacked(Seq::empty()).len() == 0,
        stacked(seq![line]) == line.push('\n'),
        stacked(a + b) == stacked(a) + stacked(b),
    decreases b.len(),
{
    reveal_strlit("\n");
    let one = seq![line];
    assert(one.drop_last() =~= Seq::<Seq<char>>::empty());
    assert(stacked(one.drop_last()) =~= Seq::<char>::empty());
    assert(stacked(one) =~= line.push('\n'));
    if b.len() == 0 {
        assert(a + b =~= a);
        assert(stacked(a) + stacked(b) =~= stacked(a));
    } else {
        law_lines_are_stacked(a, b.drop_last(), line);
        assert((a + b).drop_last() =~= a + b.drop_last());
        assert((a + b).last() == b.last());
        assert(stacked(a + b) =~= stacked(a) + stacked(b));
    }
}

/// A diagnosis writes a heading with the number of lines, and then all of them; without lines it
/// writes nothing.
pub proof fn law_diagnosis_holds_all_lines(lines: &Vec<String>, plan: FlushPlan)
    requires
        call_ensures(flush_recent_output, (lines,), plan),
    ensures
        plan is Nothing <==> lines@.len() == 0,
        plan matches FlushPlan::Write { text, count } ==> count == lines@.len() && text@
            == "--- 最近 "@ + digits(lines@.len()) + " 行 DSH 输出 ---\n"@ + stacked(
            lines.deep_view(),
        ),
{
}

/// Every line is taken in as it is; the end of the stream stops the reader without a word, and an
/// error is reported as it is.
pub proof fn law_reader_goes_on_with_lines(read: ReadResult, step: ReadStep)
    requires
        call_ensures(reader_step, (read,), step),
    ensures
        read matches ReadResult::Line { line } ==> step == (ReadStep::TakeIn { line }),
        read is End ==> step == (ReadStep::Stop { report: None }),
        read matches ReadResult::Failed { error } ==> step == (ReadStep::Stop {
            report: Some(error),
        }),
{
}

} // verus!
