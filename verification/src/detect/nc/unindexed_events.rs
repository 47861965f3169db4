use vstd::prelude::*;
use vstd::string::StringExecFns;
use crate::ast::ast_nodes::{EventDefinition, VariableDeclaration};
use crate::ast::node::NodeID;
use crate::context::workspace_context::WorkspaceContext;
use crate::detect::detector::{capture_flagged, copy_of, each_once, DetectionError, IssueSeverity};

verus! {

/// The number of parameters that are marked as indexed.
pub open spec fn indexed_count(params: Seq<VariableDeclaration>) -> nat
    decreases params.len(),
{
    if params.len() == 0 {
        0
    } else {
        indexed_count(params.drop_last()) + if params.last().indexed == Some(true) {
            1nat
        } else {
            0nat
        }
    }
}

/// Some parameter is not marked as indexed.
pub open spec fn some_not_indexed(params: Seq<VariableDeclaration>) -> bool {
    exists|i: int| 0 <= i < params.len() && (#[trigger] params[i]).indexed != Some(true)
}

/// The event could index more of its fields: one of them is not indexed,
/// and fewer than three are.
pub open spec fn misses_indexed_fields(event: EventDefinition) -> bool {
    some_not_indexed(event.parameters.parameters@) && indexed_count(event.parameters.parameters@)
        < 3
}

/// Whether the event could index more of its fields.
pub fn is_missing_indexed_fields(event: &EventDefinition) -> (r: bool)
    ensures
        r == misses_indexed_fields(*event),
{
    let params = &event.parameters.parameters;
    let n = params.len();
    let mut indexed: usize = 0;
    let mut non_indexed = false;
    let mut i: usize = 0;
    while i < n
        invariant
            i <= n,
            n == params@.len(),
            indexed == indexed_count(params@.take(i as int)),
            indexed <= i,
            non_indexed == some_not_indexed(params@.take(i as int)),
        decreases n - i,
    {
        assert(params@.take(i + 1).drop_last() =~= params@.take(i as int));
        let ghost before = params@.take(i as int);
        let ghost after = params@.take(i + 1);
        let is_indexed = match params[i].indexed {
            Some(true) => true,
            _ => false,
        };
        if is_indexed {
            indexed += 1;
        } else {
            non_indexed = true;
        }
        proof {
            if some_not_indexed(before) {
                let j = choose|j: int| 0 <= j < before.len() && (#[trigger] before[j]).indexed != Some(true);
                assert(after[j].indexed != Some(true));
            }
            if !is_indexed {
                assert(after[i as int].indexed != Some(true));
            }
            if some_not_indexed(after) {
                let j = choose|j: int| 0 <= j < after.len() && (#[trigger] after[j]).indexed != Some(true);
                if j < i {
                    assert(before[j].indexed != Some(true));
                }
            }
        }
        i += 1;
    }
    assert(params@.take(n as int) =~= params@);
    non_indexed && indexed < 3
}




/// Finds the events that could index more of their fields.
pub struct UnindexedEventsDetector {
    /// The identities of the nodes found, each once.
    pub found_instances: Vec<NodeID>,
}

impl Default for UnindexedEventsDetector {
    fn default() -> (r: Self)
        ensures
            r.wf(),
            r.found_instances@.len() == 0,
    {
        UnindexedEventsDetector { found_instances: Vec::new() }
    }
}

impl UnindexedEventsDetector {
    /// No finding is noted twice.
    pub open spec fn wf(&self) -> bool {
        self.found_instances@.no_duplicates()
    }

    /// Tells whether the detector is fit to look at a workspace: whether
    /// none of its findings is held twice.
    pub fn is_wf(&self) -> (r: bool)
        ensures
            r == self.wf(),
    {
        each_once(&self.found_instances)
    }

    /// Looks at every event definition of the workspace and notes those that
    /// could index more of their fields. Tells whether anything is noted.
    pub fn detect(&mut self, context: &WorkspaceContext) -> (r: Result<bool, DetectionError>)
        requires
            old(self).wf(),
        ensures
            final(self).wf(),
            r == Ok::<bool, DetectionError>(final(self).found_instances@.len() > 0),
            forall|id: NodeID|
                final(self).found_instances@.contains(id) <==> old(self).found_instances@.contains(
                    id,
                ) || exists|i: int|
                    0 <= i < context.event_definitions@.len() && misses_indexed_fields(*#[trigger] context.event_definitions@[i])
                        && context.event_definitions@[i].id == id,
    {
        let mut ids: Vec<NodeID> = Vec::new();
        let mut flags: Vec<bool> = Vec::new();
        let n = context.event_definitions.len();
        let mut i: usize = 0;
        while i < n
            invariant
                i <= n,
                n == context.event_definitions@.len(),
                ids@.len() == i,
                flags@.len() == i,
                forall|j: int|
                    #![trigger ids@[j]]
                    #![trigger flags@[j]]
                    0 <= j < i ==> ids@[j] == context.event_definitions@[j].id && flags@[j]
                        == misses_indexed_fields(*context.event_definitions@[j]),
            decreases n - i,
        {
            let item = context.event_definitions[i];
            let ghost ids0 = ids@;
            let ghost flags0 = flags@;
            ids.push(item.id);
            flags.push(is_missing_indexed_fields(item));
            proof {
                assert forall|j: int|
                    #![trigger ids@[j]]
                    #![trigger flags@[j]]
                    0 <= j < i + 1 implies ids@[j] == context.event_definitions@[j].id && flags@[j]
                    == misses_indexed_fields(*context.event_definitions@[j]) by {
                    if j < i {
                        assert(ids@[j] == ids0[j]);
                        assert(flags@[j] == flags0[j]);
                    }
                }
            }
            i += 1;
        }
        capture_flagged(&mut self.found_instances, &ids, &flags);
        proof {
            assert forall|id: NodeID|
                self.found_instances@.contains(id) <==> old(self).found_instances@.contains(id)
                    || exists|i: int|
                    0 <= i < context.event_definitions@.len() && misses_indexed_fields(*#[trigger] context.event_definitions@[i])
                        && context.event_definitions@[i].id == id by {
                if exists|j: int| 0 <= j < ids@.len() && flags@[j] && #[trigger] ids@[j] == id {
                    let j = choose|j: int| 0 <= j < ids@.len() && flags@[j] && #[trigger] ids@[j] == id;
                    assert(misses_indexed_fields(*context.event_definitions@[j])
                        && context.event_definitions@[j].id == id);
                }
                if exists|i: int|
                    0 <= i < context.event_definitions@.len() && misses_indexed_fields(*#[trigger] context.event_definitions@[i])
                        && context.event_definitions@[i].id == id {
                    let i = choose|i: int|
                        0 <= i < context.event_definitions@.len() && misses_indexed_fields(*#[trigger] context.event_definitions@[i])
                            && context.event_definitions@[i].id == id;
                    assert(flags@[i] && ids@[i] == id);
                }
            }
        }
        Ok(self.found_instances.len() > 0)
    }

    /// The severity of the findings.
    pub fn severity(&self) -> (r: IssueSeverity)
        ensures
            r == IssueSeverity::NC,
    {
        IssueSeverity::NC
    }

    /// The title of the findings.
    pub fn title(&self) -> (r: String)
        ensures
            r@ == "Event is missing `indexed` fields"@,
    {
        String::from_str("Event is missing `indexed` fields")
    }

    /// What the findings mean.
    pub fn description(&self) -> (r: String)
        ensures
            r@ == "Index event fields make the field more quickly accessible to off-chain tools that parse events. However, note that each index field costs extra gas during emission, so it's not necessarily best to index the maximum allowed per event (three fields). Each event should use three indexed fields if there are three or more fields, and gas usage is not particularly of concern for the events in question. If there are fewer than three fields, all of the fields should be indexed."@,
    {
        String::from_str("Index event fields make the field more quickly accessible to off-chain tools that parse events. However, note that each index field costs extra gas during emission, so it's not necessarily best to index the maximum allowed per event (three fields). Each event should use three indexed fields if there are three or more fields, and gas usage is not particularly of concern for the events in question. If there are fewer than three fields, all of the fields should be indexed.")
    }

    /// The identities of the nodes found, in the order in which they were
    /// found.
    pub fn instances(&self) -> (r: Vec<NodeID>)
        ensures
            r@ == self.found_instances@,
    {
        copy_of(&self.found_instances)
    }

    /// The name of the detector.
    pub fn name(&self) -> (r: String)
        ensures
            r@ == "unindexed-events"@,
    {
        String::from_str("unindexed-events")
    }
}

} // verus!
