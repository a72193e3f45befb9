use vstd::prelude::*;

use crate::scan::Finding;
use crate::classify::{Severity, Tag};
use crate::text::{
    decimal_of, decimal_parses_back, decimal_reads_back, integer_chars, is_integer, is_digit,
    chars_of, is_letter_answer, letter_answer, lines_of, parse_usize, parse_usize_spec, split_lines,
    string_of, trim, trim_chars, views,
};

verus! {

/// First line shown around line `line`: three lines before it, but not before line 1.
pub open spec fn context_start(line: nat) -> nat {
    if line > 3 {
        (line - 3) as nat
    } else {
        1
    }
}

/// Last line shown around line `line`: two lines after it, but not past the end.
pub open spec fn context_end(line: nat, total: nat) -> nat {
    if total < line + 2 {
        total
    } else {
        line + 2
    }
}

/// The lines `max(1, line - 3)` through `min(total, line + 2)`, inclusive.
pub fn context_range(line: usize, total: usize) -> (r: (usize, usize))
    ensures
        r.0 == context_start(line as nat),
        r.1 == context_end(line as nat, total as nat),
{
    let start: usize = if line > 3 {
        line - 3
    } else {
        1
    };
    let end: usize = if line >= total || total - line < 2 {
        total
    } else {
        line + 2
    };
    (start, end)
}

/// One line of the excerpt shown around a finding.
pub struct ContextLine {
    pub number: usize,
    /// Whether this is the finding's own line.
    pub is_target: bool,
    pub text: String,
}

/// The excerpt of `content` around line `line`, one entry per shown line.
pub fn context_lines(content: &str, line: usize) -> (r: Vec<ContextLine>)
    ensures
        ({
            let ls = lines_of(content@);
            let s = context_start(line as nat);
            let e = context_end(line as nat, ls.len());
            &&& r@.len() == (if e >= s {
                e - s + 1
            } else {
                0
            })
            &&& forall|k: int|
                0 <= k < r@.len() ==> {
                    &&& (#[trigger] r@[k]).number == s + k
                    &&& r@[k].is_target == (s + k == line)
                    &&& r@[k].text@ == ls[s + k - 1]
                }
        }),
{
    let lines = split_lines(&chars_of(content));
    let ghost ls = lines_of(content@);
    let (start, end) = context_range(line, lines.len());
    assert(ls.len() == lines@.len());
    let mut r: Vec<ContextLine> = Vec::new();
    if end < start {
        return r;
    }
    let mut i: usize = start;
    loop
        invariant
            views(lines@) == ls,
            ls == lines_of(content@),
            ls.len() == lines@.len(),
            start == context_start(line as nat),
            end == context_end(line as nat, ls.len()),
            1 <= start <= i <= end,
            end <= lines@.len(),
            r@.len() == i - start,
            forall|k: int|
                0 <= k < r@.len() ==> {
                    &&& (#[trigger] r@[k]).number == start + k
                    &&& r@[k].is_target == (start + k == line)
                    &&& r@[k].text@ == ls[start + k - 1]
                },
        decreases end - i,
    {
        assert(ls[i - 1] == lines@[i - 1]@);
        r.push(ContextLine { number: i, is_target: i == line, text: string_of(&lines[i - 1]) });
        if i == end {
            return r;
        }
        i = i + 1;
    }
}

/// What the user asked for at the item prompt.
#[derive(Clone, Copy, Debug, PartialEq, Eq, Structural)]
pub enum Selection {
    /// Empty input: leave.
    Exit,
    /// `a` or `A`: list every finding, then leave.
    ListAll,
    /// A number in range: inspect the finding at this index (counted from 0).
    Inspect(usize),
    /// An integer outside `1..=count`, of either sign and any size.
    OutOfRange,
    /// Anything else: leave without a message.
    Ignored,
}

/// The selection that trimmed input `t` makes from a list of `count` findings.
pub open spec fn selection_of(t: Seq<char>, count: nat) -> Selection {
    if t.len() == 0 {
        Selection::Exit
    } else if is_letter_answer(t, 'a', 'A') {
        Selection::ListAll
    } else {
        match parse_usize_spec(t) {
            Some(n) => if 1 <= n && n <= count {
                Selection::Inspect((n - 1) as usize)
            } else {
                Selection::OutOfRange
            },
            None => if is_integer(t) {
                Selection::OutOfRange
            } else {
                Selection::Ignored
            },
        }
    }
}

/// Reads a line typed at the item prompt, for a list of `count` findings.
pub fn select_item(input: &str, count: usize) -> (r: Selection)
    ensures
        r == selection_of(trim(input@), count as nat),
        r matches Selection::Inspect(i) ==> i < count,
{
    let t = trim_chars(&chars_of(input));
    if t.len() == 0 {
        Selection::Exit
    } else if letter_answer(&t, 'a', 'A') {
        Selection::ListAll
    } else {
        match parse_usize(&t) {
            Some(n) => if 1 <= n && n <= count {
                Selection::Inspect(n - 1)
            } else {
                Selection::OutOfRange
            },
            None => if integer_chars(&t) {
                Selection::OutOfRange
            } else {
                Selection::Ignored
            },
        }
    }
}

/// Entering 0, or the number one past the last finding, is out of range.
pub proof fn past_either_end_is_out_of_range(count: nat)
    requires
        count < usize::MAX,
    ensures
        selection_of(decimal_of(0), count) == Selection::OutOfRange,
        selection_of(decimal_of(count + 1), count) == Selection::OutOfRange,
{
    decimal_parses_back(0);
    decimal_reads_back(0);
    decimal_parses_back(count + 1);
    decimal_reads_back(count + 1);
}

/// Counts shown under the table of findings.
pub struct Summary {
    pub critical: usize,
    pub warnings: usize,
    pub fixmes: usize,
    pub todos: usize,
    pub total: usize,
}

/// How many findings have a tag of severity `sev`.
pub open spec fn count_severity(s: Seq<Finding>, sev: Severity) -> nat
    decreases s.len(),
{
    if s.len() == 0 {
        0
    } else {
        count_severity(s.drop_last(), sev) + if s.last().tag.spec_severity() == sev {
            1nat
        } else {
            0nat
        }
    }
}

/// How many findings have tag `tag`.
pub open spec fn count_tag(s: Seq<Finding>, tag: Tag) -> nat
    decreases s.len(),
{
    if s.len() == 0 {
        0
    } else {
        count_tag(s.drop_last(), tag) + if s.last().tag == tag {
            1nat
        } else {
            0nat
        }
    }
}

proof fn lemma_counts_bounded(s: Seq<Finding>, sev: Severity, tag: Tag)
    ensures
        count_severity(s, sev) <= s.len(),
        count_tag(s, tag) <= s.len(),
    decreases s.len(),
{
    if s.len() > 0 {
        lemma_counts_bounded(s.drop_last(), sev, tag);
    }
}

/// Counts findings by severity, and the FIXME and TODO markers.
pub fn summarize(items: &Vec<Finding>) -> (r: Summary)
    ensures
        r.critical == count_severity(items@, Severity::Critical),
        r.warnings == count_severity(items@, Severity::Warning),
        r.fixmes == count_tag(items@, Tag::Fixme),
        r.todos == count_tag(items@, Tag::Todo),
        r.total == items@.len(),
{
    let mut r = Summary { critical: 0, warnings: 0, fixmes: 0, todos: 0, total: items.len() };
    let mut i: usize = 0;
    while i < items.len()
        invariant
            i <= items@.len(),
            r.total == items@.len(),
            r.critical == count_severity(items@.take(i as int), Severity::Critical),
            r.warnings == count_severity(items@.take(i as int), Severity::Warning),
            r.fixmes == count_tag(items@.take(i as int), Tag::Fixme),
            r.todos == count_tag(items@.take(i as int), Tag::Todo),
        decreases items@.len() - i,
    {
        let ghost p = items@.take(i + 1);
        assert(p.drop_last() =~= items@.take(i as int));
        proof {
            lemma_counts_bounded(items@.take(i as int), Severity::Critical, Tag::Fixme);
            lemma_counts_bounded(items@.take(i as int), Severity::Warning, Tag::Todo);
        }
        let tag = items[i].tag;
        match tag.severity() {
            Severity::Critical => r.critical = r.critical + 1,
            Severity::Warning => r.warnings = r.warnings + 1,
            Severity::Marker => {},
        }
        match tag {
            Tag::Fixme => r.fixmes = r.fixmes + 1,
            Tag::Todo => r.todos = r.todos + 1,
            _ => {},
        }
        i = i + 1;
    }
    assert(items@.take(i as int) =~= items@);
    r
}

} // verus!
