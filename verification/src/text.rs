//! Building the textual progress report.
//!
//! The rendered report is specified exactly, character by character, by the
//! spec functions here; the executable helpers below produce strings that
//! provably match those specifications.
use crate::model::{
    counter_status, run_status, sequence_status, system_status, CounterModel, RunModel,
    SequenceModel, SystemModel,
};
use crate::QuestStatus;
use vstd::prelude::*;
use vstd::string::StrSliceExecFns;
use vstd::string::StringExecFns;

verus! {

/// Relies on `String::push`: appends the given character to the end of the
/// string.
pub assume_specification[ String::push ](s: &mut String, ch: char)
    ensures
        final(s)@ == old(s)@.push(ch),
;

/// The character for a single decimal digit.
pub open spec fn digit_char(d: nat) -> char {
    if d == 0 {
        '0'
    } else if d == 1 {
        '1'
    } else if d == 2 {
        '2'
    } else if d == 3 {
        '3'
    } else if d == 4 {
        '4'
    } else if d == 5 {
        '5'
    } else if d == 6 {
        '6'
    } else if d == 7 {
        '7'
    } else if d == 8 {
        '8'
    } else {
        '9'
    }
}

/// The decimal digits of `n`, most significant first, with no leading zeros
/// (`0` itself is the single digit `0`).
pub open spec fn dec_digits(n: nat) -> Seq<char>
    decreases n,
{
    if n < 10 {
        seq![digit_char(n)]
    } else {
        dec_digits(n / 10).push(digit_char(n % 10))
    }
}

fn digit_to_char(d: u32) -> (c: char)
    requires
        d < 10,
    ensures
        c == digit_char(d as nat),
{
    if d == 0 {
        '0'
    } else if d == 1 {
        '1'
    } else if d == 2 {
        '2'
    } else if d == 3 {
        '3'
    } else if d == 4 {
        '4'
    } else if d == 5 {
        '5'
    } else if d == 6 {
        '6'
    } else if d == 7 {
        '7'
    } else if d == 8 {
        '8'
    } else {
        '9'
    }
}

/// Renders `n` in decimal.
pub fn u32_text(n: u32) -> (s: String)
    ensures
        s@ == dec_digits(n as nat),
    decreases n,
{
    if n < 10 {
        let mut s = String::new();
        s.push(digit_to_char(n));
        proof {
            assert(s@ =~= dec_digits(n as nat));
        }
        s
    } else {
        let mut s = u32_text(n / 10);
        s.push(digit_to_char(n % 10));
        s
    }
}

/// What one source character contributes to the two-space-indented copy of
/// a report: a newline also opens the indentation of the next line.
pub open spec fn indent_char(c: char) -> Seq<char> {
    if c == '\n' {
        seq!['\n', ' ', ' ']
    } else {
        seq![c]
    }
}

/// The middle of the indented copy, built character by character.
pub open spec fn indent_body(s: Seq<char>) -> Seq<char>
    decreases s.len(),
{
    if s.len() == 0 {
        Seq::empty()
    } else {
        indent_body(s.drop_last()) + indent_char(s.last())
    }
}

/// A report indented as a child's: every newline-separated line receives two
/// leading spaces and a trailing newline, the last line included.
pub open spec fn indent_text(s: Seq<char>) -> Seq<char> {
    seq![' ', ' '] + indent_body(s) + seq!['\n']
}

/// Produces the two-space-indented copy of `text`.
pub fn indent(text: &str) -> (out: String)
    ensures
        out@ == indent_text(text@),
{
    let n = text.unicode_len();
    let mut out = String::new();
    out.push(' ');
    out.push(' ');
    let mut i: usize = 0;
    while i < n
        invariant
            n == text@.len(),
            i <= n,
            out@ == seq![' ', ' '] + indent_body(text@.take(i as int)),
        decreases n - i,
    {
        let c = text.get_char(i);
        if c == '\n' {
            out.push('\n');
            out.push(' ');
            out.push(' ');
        } else {
            out.push(c);
        }
        proof {
            assert(text@.take((i + 1) as int).drop_last() =~= text@.take(i as int));
            assert(text@.take((i + 1) as int).last() == text@[i as int]);
            assert(out@ =~= seq![' ', ' '] + indent_body(text@.take((i + 1) as int)));
        }
        i = i + 1;
    }
    out.push('\n');
    proof {
        assert(text@.take(n as int) =~= text@);
        assert(out@ =~= indent_text(text@));
    }
    out
}

/// The completion marker that opens every report line.
pub open spec fn checkbox(status: QuestStatus) -> Seq<char> {
    if status == QuestStatus::Complete {
        "[✅] "@
    } else {
        "[ ] "@
    }
}

/// The report of a leaf quest: a checkbox line with the prompt and, when the
/// target count is not one, a second line with the remaining count — which
/// reads zero once the quest is complete, never less.
pub open spec fn leaf_render(
    status: QuestStatus,
    prompt: Seq<char>,
    target_count: nat,
    count: nat,
) -> Seq<char> {
    let head = checkbox(status) + prompt + "..."@;
    if target_count == 1 {
        head
    } else {
        head + "\n ^ (Complete "@ + dec_digits(
            if count <= target_count {
                (target_count - count) as nat
            } else {
                0
            },
        ) + " more times)"@
    }
}

/// The report of a counter.
pub open spec fn counter_render<E>(q: CounterModel<E>) -> Seq<char> {
    leaf_render(counter_status(q), q.prompt, q.target_count, q.count)
}

/// The report of a run counter, whose remaining count is in completed runs.
pub open spec fn run_render<E>(q: RunModel<E>) -> Seq<char> {
    leaf_render(run_status(q), q.prompt, q.target_count, q.count)
}

/// The concatenated, indented reports of a sequence's children.
pub open spec fn sequence_children_render<E>(s: Seq<CounterModel<E>>) -> Seq<char>
    decreases s.len(),
{
    if s.len() == 0 {
        Seq::empty()
    } else {
        sequence_children_render(s.drop_last()) + indent_text(counter_render(s.last()))
    }
}

/// The report of a sequence: its own checkbox line, then every child's
/// report indented by one level.
pub open spec fn sequence_render<E>(q: SequenceModel<E>) -> Seq<char> {
    checkbox(sequence_status(q)) + q.prompt + "...\n"@ + sequence_children_render(q.sub_quests)
}

/// The concatenated, indented reports of an aggregate's sequence children.
pub open spec fn system_ordered_render<E>(s: Seq<SequenceModel<E>>) -> Seq<char>
    decreases s.len(),
{
    if s.len() == 0 {
        Seq::empty()
    } else {
        system_ordered_render(s.drop_last()) + indent_text(sequence_render(s.last()))
    }
}

/// The concatenated, indented reports of an aggregate's counter children.
pub open spec fn system_counters_render<E>(s: Seq<CounterModel<E>>) -> Seq<char>
    decreases s.len(),
{
    if s.len() == 0 {
        Seq::empty()
    } else {
        system_counters_render(s.drop_last()) + indent_text(counter_render(s.last()))
    }
}

/// The concatenated, indented reports of an aggregate's run counter
/// children.
pub open spec fn system_runs_render<E>(s: Seq<RunModel<E>>) -> Seq<char>
    decreases s.len(),
{
    if s.len() == 0 {
        Seq::empty()
    } else {
        system_runs_render(s.drop_last()) + indent_text(run_render(s.last()))
    }
}

/// The report of an aggregate: its own checkbox line, then every child's
/// report indented by one level, sequences first, then counters, then run
/// counters.
pub open spec fn system_render<E>(q: SystemModel<E>) -> Seq<char> {
    checkbox(system_status(q)) + q.prompt + "...\n"@ + system_ordered_render(q.v_ordered)
        + system_counters_render(q.v_sub_quest) + system_runs_render(q.v_mem_quest)
}

/// Builds a leaf quest's report.
pub(crate) fn render_leaf(
    status: QuestStatus,
    prompt: &String,
    target_count: u32,
    count: u32,
) -> (s: String)
    requires
        count <= target_count,
    ensures
        s@ == leaf_render(status, prompt@, target_count as nat, count as nat),
{
    let mut s = if status == QuestStatus::Complete {
        String::from_str("[✅] ")
    } else {
        String::from_str("[ ] ")
    };
    s.append(prompt.as_str());
    s.append("...");
    if target_count != 1 {
        s.append("\n ^ (Complete ");
        let num = u32_text(target_count - count);
        s.append(num.as_str());
        s.append(" more times)");
    }
    s
}

} // verus!
