use vstd::prelude::*;
use vstd::string::StringExecFns;
use crate::ast::ast_nodes::MemberAccess;
use crate::ast::node::NodeType;
use crate::context::workspace_context::{closest_above, lies_below};
use crate::text::{occurs_in, str_contains, str_eq};
use vstd::utf8::encode_utf8;
use crate::ast::node::NodeID;
use crate::context::workspace_context::WorkspaceContext;
use crate::detect::detector::{capture_flagged, copy_of, each_once, DetectionError, IssueSeverity};

verus! {

/// Some member access named `at` lies below the node with the given
/// identity.
pub open spec fn reads_by_index_below(context: &WorkspaceContext, above: NodeID) -> bool {
    exists|j: int|
        0 <= j < context.member_accesses@.len() && (#[trigger] context.member_accesses@[j]).member_name@
            == "at"@ && lies_below(
            context.parents@,
            context.member_accesses@[j].id,
            above,
            context.parents@.len(),
        )
}

/// The member access removes from an enumerable set inside a `for` loop
/// that also reads the set by index: it is named `remove`, its type names
/// `EnumerableSet`, and below the closest `for` loop above it lies a member
/// access named `at`.
pub open spec fn removes_while_enumerating(context: &WorkspaceContext, access: MemberAccess) -> bool {
    &&& access.member_name@ == "remove"@
    &&& access.type_descriptions.type_string matches Some(t) && occurs_in(
        encode_utf8(t@),
        encode_utf8("EnumerableSet"@),
    )
    &&& closest_above(
        context.parents@,
        context.nodes@,
        access.id,
        NodeType::ForStatement,
        context.parents@.len(),
    ) matches Some(l) && reads_by_index_below(context, l.ident())
}

/// Whether some member access named `at` lies below the node with the
/// given identity.
pub fn is_read_by_index_below(context: &WorkspaceContext, above: NodeID) -> (r: bool)
    ensures
        r == reads_by_index_below(context, above),
{
    let n = context.member_accesses.len();
    let mut j: usize = 0;
    while j < n
        invariant
            j <= n,
            n == context.member_accesses@.len(),
            forall|i: int|
                0 <= i < j ==> !((#[trigger] context.member_accesses@[i]).member_name@ == "at"@
                    && lies_below(
                    context.parents@,
                    context.member_accesses@[i].id,
                    above,
                    context.parents@.len(),
                )),
        decreases n - j,
    {
        let access = context.member_accesses[j];
        if str_eq(access.member_name.as_str(), "at") && context.is_below(access.id, above) {
            return true;
        }
        j += 1;
    }
    false
}

/// Whether the member access removes from an enumerable set inside a loop
/// that reads the set by index.
pub fn is_removal_while_enumerating(context: &WorkspaceContext, access: &MemberAccess) -> (r: bool)
    ensures
        r == removes_while_enumerating(context, *access),
{
    if !str_eq(access.member_name.as_str(), "remove") {
        return false;
    }
    let typed = match &access.type_descriptions.type_string {
        Some(type_string) => str_contains(type_string.as_str(), "EnumerableSet"),
        None => false,
    };
    if !typed {
        return false;
    }
    match context.get_closest_ancestor(access.id, NodeType::ForStatement) {
        Some(parent_loop) => is_read_by_index_below(context, parent_loop.id()),
        None => false,
    }
}


/// Finds removals from an enumerable set inside a loop over the set.
pub struct EnumerableLoopRemovalDetector {
    /// The identities of the nodes found, each once.
    pub found_instances: Vec<NodeID>,
}

impl Default for EnumerableLoopRemovalDetector {
    fn default() -> (r: Self)
        ensures
            r.wf(),
            r.found_instances@.len() == 0,
    {
        EnumerableLoopRemovalDetector { found_instances: Vec::new() }
    }
}

impl EnumerableLoopRemovalDetector {
    /// No finding is noted twice.
    pub open spec fn wf(&self) -> bool {
        self.found_instances@.no_duplicates()
    }

    /// Tells whether the detector is fit to look at a workspace: whether
    /// none of its findings is held twice.
    pub fn is_wf(&self) -> (r: bool)
        ensures
            r == self.wf(),
    {
        each_once(&self.found_instances)
    }

    /// Looks at every member access of the workspace and notes those that
    /// remove from an enumerable set inside a `for` loop that reads the set
    /// by index. Tells whether anything is noted.
    pub fn detect(&mut self, context: &WorkspaceContext) -> (r: Result<bool, DetectionError>)
        requires
            old(self).wf(),
        ensures
            final(self).wf(),
            r == Ok::<bool, DetectionError>(final(self).found_instances@.len() > 0),
            forall|id: NodeID|
                final(self).found_instances@.contains(id) <==> old(self).found_instances@.contains(
                    id,
                ) || exists|i: int|
                    0 <= i < context.member_accesses@.len() && removes_while_enumerating(context, *#[trigger] context.member_accesses@[i])
                        && context.member_accesses@[i].id == id,
    {
        let mut ids: Vec<NodeID> = Vec::new();
        let mut flags: Vec<bool> = Vec::new();
        let n = context.member_accesses.len();
        let mut i: usize = 0;
        while i < n
            invariant
                i <= n,
                n == context.member_accesses@.len(),
                ids@.len() == i,
                flags@.len() == i,
                forall|j: int|
                    #![trigger ids@[j]]
                    #![trigger flags@[j]]
                    0 <= j < i ==> ids@[j] == context.member_accesses@[j].id && flags@[j]
                        == removes_while_enumerating(context, *context.member_accesses@[j]),
            decreases n - i,
        {
            let item = context.member_accesses[i];
            let ghost ids0 = ids@;
            let ghost flags0 = flags@;
            ids.push(item.id);
            flags.push(is_removal_while_enumerating(context, item));
            proof {
                assert forall|j: int|
                    #![trigger ids@[j]]
                    #![trigger flags@[j]]
                    0 <= j < i + 1 implies ids@[j] == context.member_accesses@[j].id && flags@[j]
                    == removes_while_enumerating(context, *context.member_accesses@[j]) by {
                    if j < i {
                        assert(ids@[j] == ids0[j]);
                        assert(flags@[j] == flags0[j]);
                    }
                }
            }
            i += 1;
        }
        capture_flagged(&mut self.found_instances, &ids, &flags);
        proof {
            assert forall|id: NodeID|
                self.found_instances@.contains(id) <==> old(self).found_instances@.contains(id)
                    || exists|i: int|
                    0 <= i < context.member_accesses@.len() && removes_while_enumerating(context, *#[trigger] context.member_accesses@[i])
                        && context.member_accesses@[i].id == id by {
                if exists|j: int| 0 <= j < ids@.len() && flags@[j] && #[trigger] ids@[j] == id {
                    let j = choose|j: int| 0 <= j < ids@.len() && flags@[j] && #[trigger] ids@[j] == id;
                    assert(removes_while_enumerating(context, *context.member_accesses@[j])
                        && context.member_accesses@[j].id == id);
                }
                if exists|i: int|
                    0 <= i < context.member_accesses@.len() && removes_while_enumerating(context, *#[trigger] context.member_accesses@[i])
                        && context.member_accesses@[i].id == id {
                    let i = choose|i: int|
                        0 <= i < context.member_accesses@.len() && removes_while_enumerating(context, *#[trigger] context.member_accesses@[i])
                            && context.member_accesses@[i].id == id;
                    assert(flags@[i] && ids@[i] == id);
                }
            }
        }
        Ok(self.found_instances.len() > 0)
    }

    /// The severity of the findings.
    pub fn severity(&self) -> (r: IssueSeverity)
        ensures
            r == IssueSeverity::High,
    {
        IssueSeverity::High
    }

    /// The title of the findings.
    pub fn title(&self) -> (r: String)
        ensures
            r@ == "High Issue Title"@,
    {
        String::from_str("High Issue Title")
    }

    /// What the findings mean.
    pub fn description(&self) -> (r: String)
        ensures
            r@ == "Description of the high issue."@,
    {
        String::from_str("Description of the high issue.")
    }

    /// The identities of the nodes found, in the order in which they were
    /// found.
    pub fn instances(&self) -> (r: Vec<NodeID>)
        ensures
            r@ == self.found_instances@,
    {
        copy_of(&self.found_instances)
    }

    /// The name of the detector.
    pub fn name(&self) -> (r: String)
        ensures
            r@ == "high-issue-template"@,
    {
        String::from_str("high-issue-template")
    }
}

} // verus!
