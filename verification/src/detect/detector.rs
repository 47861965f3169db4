use vstd::prelude::*;
use vstd::string::{StringExecFns, StringSliceAdditionalSpecFns};
use vstd::utf8::encode_utf8;
use crate::ast::node::NodeID;
use crate::context::workspace_context::WorkspaceContext;
use crate::text::{count_newlines, line_of, parse_span_offset, span_offset};

verus! {

/// How grave a finding is.
#[derive(Clone, Copy, Debug, PartialEq, Eq, Hash, Structural)]
pub enum IssueSeverity {
    NC,
    Low,
    Medium,
    High,
    Critical,
}

impl IssueSeverity {
    /// The name of the severity.
    pub open spec fn label(self) -> Seq<char> {
        match self {
            IssueSeverity::NC => "NC"@,
            IssueSeverity::Low => "Low"@,
            IssueSeverity::Medium => "Medium"@,
            IssueSeverity::High => "High"@,
            IssueSeverity::Critical => "Critical"@,
        }
    }

    /// Writes the name of the severity.
    pub fn to_string(&self) -> (r: String)
        ensures
            r@ == self.label(),
    {
        match self {
            IssueSeverity::NC => String::from_str("NC"),
            IssueSeverity::Low => String::from_str("Low"),
            IssueSeverity::Medium => String::from_str("Medium"),
            IssueSeverity::High => String::from_str("High"),
            IssueSeverity::Critical => String::from_str("Critical"),
        }
    }
}

/// Why a detector could not look at a workspace.
#[derive(Clone, Copy, Debug, PartialEq, Eq, Structural)]
pub enum DetectionError {
    /// The graph of a function body could not be built.
    CorruptedFunction,
}

/// Whether the list holds the identity.
pub fn holds(found: &Vec<NodeID>, id: NodeID) -> (r: bool)
    ensures
        r == found@.contains(id),
{
    let n = found.len();
    let mut i: usize = 0;
    while i < n
        invariant
            i <= n,
            n == found@.len(),
            forall|j: int| 0 <= j < i ==> found@[j] != id,
        decreases n - i,
    {
        if found[i] == id {
            return true;
        }
        i += 1;
    }
    false
}

/// Notes a finding: puts the identity of a node at the end of the list of
/// findings unless the list holds it already.
pub fn capture(found: &mut Vec<NodeID>, id: NodeID)
    requires
        old(found)@.no_duplicates(),
    ensures
        final(found)@.no_duplicates(),
        forall|x: NodeID| final(found)@.contains(x) <==> x == id || old(found)@.contains(x),
        final(found)@ == if old(found)@.contains(id) {
            old(found)@
        } else {
            old(found)@.push(id)
        },
{
    if holds(found, id) {
        return ;
    }
    found.push(id);
    proof {
        let a = old(found)@;
        let b = found@;
        assert forall|x: NodeID| b.contains(x) <==> x == id || a.contains(x) by {
            if a.contains(x) {
                let i = choose|i: int| 0 <= i < a.len() && a[i] == x;
                assert(b[i] == x);
            }
            if x == id {
                assert(b[a.len() as int] == x);
            }
        }
        assert forall|i: int, j: int| 0 <= i < b.len() && 0 <= j < b.len() && i != j implies b[i]
            != b[j] by {
            if i < a.len() {
                assert(a.contains(a[i]));
            }
            if j < a.len() {
                assert(a.contains(a[j]));
            }
        }
    }
}

/// A copy of a list of findings.
pub fn copy_of(found: &Vec<NodeID>) -> (r: Vec<NodeID>)
    ensures
        r@ == found@,
{
    let mut out: Vec<NodeID> = Vec::new();
    let n = found.len();
    let mut i: usize = 0;
    while i < n
        invariant
            i <= n,
            n == found@.len(),
            out@ == found@.take(i as int),
        decreases n - i,
    {
        out.push(found[i]);
        assert(found@.take(i + 1) =~= found@.take(i as int).push(found@[i as int]));
        i += 1;
    }
    assert(found@.take(n as int) =~= found@);
    out
}

/// Notes the findings among a list of candidates: `ids` names the
/// candidates, `flags` tells which of them are findings.
pub fn capture_flagged(found: &mut Vec<NodeID>, ids: &Vec<NodeID>, flags: &Vec<bool>)
    requires
        old(found)@.no_duplicates(),
        ids@.len() == flags@.len(),
    ensures
        final(found)@.no_duplicates(),
        forall|id: NodeID|
            final(found)@.contains(id) <==> old(found)@.contains(id) || exists|i: int|
                0 <= i < ids@.len() && flags@[i] && #[trigger] ids@[i] == id,
{
    let n = ids.len();
    let mut i: usize = 0;
    while i < n
        invariant
            i <= n,
            n == ids@.len(),
            ids@.len() == flags@.len(),
            found@.no_duplicates(),
            forall|id: NodeID|
                found@.contains(id) <==> old(found)@.contains(id) || exists|j: int|
                    0 <= j < i && flags@[j] && #[trigger] ids@[j] == id,
        decreases n - i,
    {
        let ghost before = found@;
        if flags[i] {
            capture(found, ids[i]);
        }
        proof {
            assert forall|id: NodeID|
                found@.contains(id) <==> old(found)@.contains(id) || exists|j: int|
                    0 <= j < i + 1 && flags@[j] && #[trigger] ids@[j] == id by {
                if before.contains(id) && !old(found)@.contains(id) {
                    let j = choose|j: int| 0 <= j < i && flags@[j] && #[trigger] ids@[j] == id;
                    assert(0 <= j < i + 1);
                }
                if exists|j: int| 0 <= j < i + 1 && flags@[j] && #[trigger] ids@[j] == id {
                    let j = choose|j: int| 0 <= j < i + 1 && flags@[j] && #[trigger] ids@[j] == id;
                    if j < i {
                        assert(before.contains(id));
                    }
                }
            }
        }
        i += 1;
    }
}

/// Whether no identity occurs twice in the list: what a detector asks of
/// its findings before it looks at a workspace.
pub fn each_once(found: &Vec<NodeID>) -> (r: bool)
    ensures
        r == found@.no_duplicates(),
{
    let n = found.len();
    let mut i: usize = 0;
    while i < n
        invariant
            i <= n,
            n == found@.len(),
            forall|a: int, b: int| 0 <= a < b < i ==> found@[a] != found@[b],
        decreases n - i,
    {
        let mut j: usize = 0;
        while j < i
            invariant
                j <= i,
                i < n,
                n == found@.len(),
                forall|a: int| 0 <= a < j ==> found@[a] != found@[i as int],
            decreases i - j,
        {
            if found[j] == found[i] {
                return false;
            }
            j += 1;
        }
        i += 1;
    }
    true
}

/// The number of the line, counted from one, on which a span of the form
/// `offset:length:file` starts in a text. It is 0 where the span names no
/// offset, the offset lies behind the end of the text, or the number does
/// not fit.
pub open spec fn line_in(text: Seq<char>, span: Seq<char>) -> nat {
    let bytes = encode_utf8(text);
    match span_offset(encode_utf8(span)) {
        Some(offset) => if offset <= bytes.len() && count_newlines(bytes.take(offset as int))
            < usize::MAX {
            count_newlines(bytes.take(offset as int)) + 1
        } else {
            0
        },
        None => 0,
    }
}

/// The line on which the node registered under an identity starts: 0 where
/// the registry does not know the node or has no source text.
pub open spec fn line_at(context: &WorkspaceContext, id: NodeID) -> nat {
    if context.nodes@.contains_key(id) {
        match context.source {
            Some(text) => line_in(text@, context.nodes@[id].span()),
            None => 0,
        }
    } else {
        0
    }
}

/// The source span of the node registered under an identity: empty where
/// the registry does not know the node.
pub open spec fn span_at(context: &WorkspaceContext, id: NodeID) -> Seq<char> {
    if context.nodes@.contains_key(id) {
        context.nodes@[id].span()
    } else {
        Seq::empty()
    }
}

/// Where a finding stands: the file, the line on which the node starts and
/// the node's source span. A node that the registry does not know, or whose
/// span cannot be read, stands on line 0.
pub fn key_of(context: &WorkspaceContext, file: &str, id: NodeID) -> (r: (String, usize, String))
    ensures
        r.0@ == file@,
        r.1 == line_at(context, id),
        r.2@ == span_at(context, id),
{
    let node = match context.get(id) {
        Some(node) => node,
        None => {
            proof {
                reveal_strlit("");
                assert(""@ =~= Seq::<char>::empty());
            }
            return (String::from_str(file), 0, String::from_str(""));
        },
    };
    let span = node.src();
    let line = match context.source {
        Some(text) => {
            let length = text.as_bytes().len();
            match parse_span_offset(span) {
                Some(offset) => if offset <= length {
                    match line_of(text, offset) {
                        Some(line) => line,
                        None => 0,
                    }
                } else {
                    0
                },
                None => 0,
            }
        },
        None => 0,
    };
    (String::from_str(file), line, String::from_str(span))
}

} // verus!
