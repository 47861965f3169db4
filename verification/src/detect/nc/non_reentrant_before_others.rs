use vstd::prelude::*;
use vstd::string::StringExecFns;
use crate::ast::ast_nodes::{FunctionDefinition, IdentifierOrIdentifierPath, ModifierInvocation};
use crate::text::str_eq;
use crate::ast::node::NodeID;
use crate::context::workspace_context::WorkspaceContext;
use crate::detect::detector::{capture_flagged, copy_of, each_once, DetectionError, IssueSeverity};

verus! {

/// The name under which a modifier is invoked.
pub open spec fn invoked_name(invocation: ModifierInvocation) -> Seq<char> {
    match invocation.modifier_name {
        IdentifierOrIdentifierPath::Identifier(i) => i.name@,
        IdentifierOrIdentifierPath::IdentifierPath(p) => p.name@,
    }
}

/// The modifier at position `k` of the function is `nonReentrant` and
/// does not come first.
pub open spec fn misplaced(function: FunctionDefinition, k: int) -> bool {
    &&& 0 < k < function.modifiers@.len()
    &&& invoked_name(function.modifiers@[k]) == "nonReentrant"@
}

/// Whether the modifier is invoked under the name `nonReentrant`.
pub fn is_non_reentrant(invocation: &ModifierInvocation) -> (r: bool)
    ensures
        r == (invoked_name(*invocation) == "nonReentrant"@),
{
    match &invocation.modifier_name {
        IdentifierOrIdentifierPath::Identifier(i) => str_eq(i.name.as_str(), "nonReentrant"),
        IdentifierOrIdentifierPath::IdentifierPath(p) => str_eq(p.name.as_str(), "nonReentrant"),
    }
}

/// Notes the `nonReentrant` modifiers of one function that do not come
/// first.
pub fn capture_misplaced(found: &mut Vec<NodeID>, function: &FunctionDefinition)
    requires
        old(found)@.no_duplicates(),
    ensures
        final(found)@.no_duplicates(),
        forall|id: NodeID|
            final(found)@.contains(id) <==> old(found)@.contains(id) || exists|k: int|
                #[trigger] misplaced(*function, k) && function.modifiers@[k].id == id,
{
    let mut ids: Vec<NodeID> = Vec::new();
    let mut flags: Vec<bool> = Vec::new();
    let n = function.modifiers.len();
    let mut k: usize = 0;
    while k < n
        invariant
            k <= n,
            n == function.modifiers@.len(),
            ids@.len() == k,
            flags@.len() == k,
            forall|j: int|
                #![trigger ids@[j]]
                #![trigger flags@[j]]
                0 <= j < k ==> ids@[j] == function.modifiers@[j].id && flags@[j] == misplaced(
                    *function,
                    j,
                ),
        decreases n - k,
    {
        let ghost ids0 = ids@;
        let ghost flags0 = flags@;
        ids.push(function.modifiers[k].id);
        flags.push(k != 0 && is_non_reentrant(&function.modifiers[k]));
        proof {
            assert forall|j: int|
                #![trigger ids@[j]]
                #![trigger flags@[j]]
                0 <= j < k + 1 implies ids@[j] == function.modifiers@[j].id && flags@[j]
                == misplaced(*function, j) by {
                if j < k {
                    assert(ids@[j] == ids0[j]);
                    assert(flags@[j] == flags0[j]);
                }
            }
        }
        k += 1;
    }
    capture_flagged(found, &ids, &flags);
    proof {
        assert forall|id: NodeID|
            found@.contains(id) <==> old(found)@.contains(id) || exists|k: int|
                #[trigger] misplaced(*function, k) && function.modifiers@[k].id == id by {
            if exists|j: int| 0 <= j < ids@.len() && flags@[j] && #[trigger] ids@[j] == id {
                let j = choose|j: int| 0 <= j < ids@.len() && flags@[j] && #[trigger] ids@[j] == id;
                assert(misplaced(*function, j) && function.modifiers@[j].id == id);
            }
            if exists|k: int| #[trigger] misplaced(*function, k) && function.modifiers@[k].id == id {
                let k = choose|k: int|
                    #[trigger] misplaced(*function, k) && function.modifiers@[k].id == id;
                assert(flags@[k] && ids@[k] == id);
            }
        }
    }
}


/// Finds the `nonReentrant` modifiers that do not come first.
pub struct NonReentrantBeforeOthersDetector {
    /// The identities of the nodes found, each once.
    pub found_instances: Vec<NodeID>,
}

impl Default for NonReentrantBeforeOthersDetector {
    fn default() -> (r: Self)
        ensures
            r.wf(),
            r.found_instances@.len() == 0,
    {
        NonReentrantBeforeOthersDetector { found_instances: Vec::new() }
    }
}

impl NonReentrantBeforeOthersDetector {
    /// No finding is noted twice.
    pub open spec fn wf(&self) -> bool {
        self.found_instances@.no_duplicates()
    }

    /// Tells whether the detector is fit to look at a workspace: whether
    /// none of its findings is held twice.
    pub fn is_wf(&self) -> (r: bool)
        ensures
            r == self.wf(),
    {
        each_once(&self.found_instances)
    }

    /// Looks at every function definition of the workspace and notes the
    /// `nonReentrant` modifiers that do not come first among the modifiers
    /// of their function. Tells whether anything is noted.
    pub fn detect(&mut self, context: &WorkspaceContext) -> (r: Result<bool, DetectionError>)
        requires
            old(self).wf(),
        ensures
            final(self).wf(),
            r == Ok::<bool, DetectionError>(final(self).found_instances@.len() > 0),
            forall|id: NodeID|
                final(self).found_instances@.contains(id) <==> old(self).found_instances@.contains(
                    id,
                ) || exists|i: int, k: int|
                    0 <= i < context.function_definitions@.len() && #[trigger] misplaced(
                        *context.function_definitions@[i],
                        k,
                    ) && context.function_definitions@[i].modifiers@[k].id == id,
    {
        let n = context.function_definitions.len();
        let mut i: usize = 0;
        while i < n
            invariant
                i <= n,
                n == context.function_definitions@.len(),
                self.wf(),
                forall|id: NodeID|
                    self.found_instances@.contains(id) <==> old(self).found_instances@.contains(id)
                        || exists|j: int, k: int|
                        0 <= j < i && #[trigger] misplaced(*context.function_definitions@[j], k)
                            && context.function_definitions@[j].modifiers@[k].id == id,
            decreases n - i,
        {
            let ghost before = self.found_instances@;
            let definition = context.function_definitions[i];
            capture_misplaced(&mut self.found_instances, definition);
            proof {
                assert forall|id: NodeID|
                    self.found_instances@.contains(id) <==> old(self).found_instances@.contains(id)
                        || exists|j: int, k: int|
                        0 <= j < i + 1 && #[trigger] misplaced(*context.function_definitions@[j], k)
                            && context.function_definitions@[j].modifiers@[k].id == id by {
                    if before.contains(id) && !old(self).found_instances@.contains(id) {
                        let (j, k) = choose|j: int, k: int|
                            0 <= j < i && #[trigger] misplaced(*context.function_definitions@[j], k)
                                && context.function_definitions@[j].modifiers@[k].id == id;
                        assert(0 <= j < i + 1 && misplaced(*context.function_definitions@[j], k));
                    }
                    if exists|k: int|
                        #[trigger] misplaced(*definition, k) && definition.modifiers@[k].id == id {
                        let k = choose|k: int|
                            #[trigger] misplaced(*definition, k) && definition.modifiers@[k].id == id;
                        assert(misplaced(*context.function_definitions@[i as int], k));
                    }
                    if exists|j: int, k: int|
                        0 <= j < i + 1 && #[trigger] misplaced(*context.function_definitions@[j], k)
                            && context.function_definitions@[j].modifiers@[k].id == id {
                        let (j, k) = choose|j: int, k: int|
                            0 <= j < i + 1 && #[trigger] misplaced(
                                *context.function_definitions@[j],
                                k,
                            ) && context.function_definitions@[j].modifiers@[k].id == id;
                        if j < i {
                            assert(before.contains(id));
                        } else {
                            assert(misplaced(*definition, k) && definition.modifiers@[k].id == id);
                        }
                    }
                }
            }
            i += 1;
        }
        Ok(self.found_instances.len() > 0)
    }

    /// The severity of the findings.
    pub fn severity(&self) -> (r: IssueSeverity)
        ensures
            r == IssueSeverity::NC,
    {
        IssueSeverity::NC
    }

    /// The title of the findings.
    pub fn title(&self) -> (r: String)
        ensures
            r@ == "The `nonReentrant` `modifier` should occur before all other modifiers"@,
    {
        String::from_str("The `nonReentrant` `modifier` should occur before all other modifiers")
    }

    /// What the findings mean.
    pub fn description(&self) -> (r: String)
        ensures
            r@ == "This is a best-practice to protect against reentrancy in other modifiers"@,
    {
        String::from_str("This is a best-practice to protect against reentrancy in other modifiers")
    }

    /// The identities of the nodes found, in the order in which they were
    /// found.
    pub fn instances(&self) -> (r: Vec<NodeID>)
        ensures
            r@ == self.found_instances@,
    {
        copy_of(&self.found_instances)
    }

    /// The name of the detector.
    pub fn name(&self) -> (r: String)
        ensures
            r@ == "non-reentrant-before-others"@,
    {
        String::from_str("non-reentrant-before-others")
    }
}

} // verus!
