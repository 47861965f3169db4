use vstd::prelude::*;
use crate::ast::node::NodeID;
use crate::detect::detector::IssueSeverity;

verus! {

/// One place at which an issue was found.
pub struct IssueInstance {
    /// The source file.
    pub file: String,
    /// The line in the file, counted from one.
    pub line: usize,
    /// The source span of the node.
    pub src: String,
    /// The identity of the node.
    pub id: NodeID,
}

/// An issue with the places at which it was found.
pub struct Issue {
    pub title: String,
    pub description: String,
    pub detector_name: String,
    pub instances: Vec<IssueInstance>,
}

/// The issues of a run, by severity.
pub struct Report {
    pub highs: Vec<Issue>,
    pub lows: Vec<Issue>,
}

impl Report {
    /// A report without issues.
    pub fn new() -> (r: Self)
        ensures
            r.highs@.len() == 0,
            r.lows@.len() == 0,
    {
        Report { highs: Vec::new(), lows: Vec::new() }
    }

    /// Files an issue under its severity: behind the high issues if it is
    /// high, behind the low ones if it is low. An issue of another severity
    /// is not filed.
    pub fn file_issue(&mut self, issue: Issue, severity: IssueSeverity)
        ensures
            final(self).highs@ == if severity == IssueSeverity::High {
                old(self).highs@.push(issue)
            } else {
                old(self).highs@
            },
            final(self).lows@ == if severity == IssueSeverity::Low {
                old(self).lows@.push(issue)
            } else {
                old(self).lows@
            },
    {
        match severity {
            IssueSeverity::High => {
                self.highs.push(issue);
            },
            IssueSeverity::Low => {
                self.lows.push(issue);
            },
            _ => {},
        }
    }
}

/// Whether a finding on the given line is reported: it is, unless the lines
/// to pass over in its file are known and the line is among them.
pub fn is_reported_line(line: usize, lines_to_ignore: &Option<Vec<usize>>) -> (r: bool)
    ensures
        r == !(lines_to_ignore matches Some(lines) && lines@.contains(line)),
{
    match lines_to_ignore {
        None => true,
        Some(lines) => {
            let n = lines.len();
            let mut i: usize = 0;
            while i < n
                invariant
                    i <= n,
                    n == lines@.len(),
                    lines_to_ignore is Some,
                    lines_to_ignore->Some_0 == *lines,
                    forall|j: int| 0 <= j < i ==> lines@[j] != line,
                decreases n - i,
            {
                if lines[i] == line {
                    assert(lines@[i as int] == line);
                    return false;
                }
                i += 1;
            }
            true
        },
    }
}

} // verus!
