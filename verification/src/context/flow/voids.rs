use vstd::prelude::*;
use crate::ast::node::NodeID;
use crate::context::flow::expansion::node_added;
use crate::context::flow::{Cfg, CfgNodeDescriptor, CfgNodeId};

verus! {

/// Sentinel that opens a region of the graph. The variants that bound a
/// whole construct carry the identity of its syntax-tree node.
#[derive(Clone, Copy, Debug, PartialEq, Eq, Hash, Structural)]
pub enum CfgStartNode {
    Start,
    StartFunctionBody(NodeID),
    StartModifierBody(NodeID),
    StartBlock(NodeID),
    StartUncheckedBlock(NodeID),
    StartIf(NodeID),
    StartIfCond,
    StartIfTrue,
    StartIfFalse,
    StartWhile(NodeID),
    StartWhileCond,
    StartWhileBody,
    StartFor(NodeID),
    StartForInitExp,
    StartForCond,
    StartForLoopExp,
    StartForBody,
    StartDoWhile(NodeID),
    StartDoWhileCond,
    StartDoWhileBody,
}

/// Sentinel that closes a region of the graph, the counterpart of
/// [`CfgStartNode`].
#[derive(Clone, Copy, Debug, PartialEq, Eq, Hash, Structural)]
pub enum CfgEndNode {
    End,
    EndFunctionBody(NodeID),
    EndModifierBody(NodeID),
    EndBlock(NodeID),
    EndUncheckedBlock(NodeID),
    EndIf(NodeID),
    EndIfCond,
    EndIfTrue,
    EndIfFalse,
    EndWhile(NodeID),
    EndWhileCond,
    EndWhileBody,
    EndFor(NodeID),
    EndForInitExp,
    EndForCond,
    EndForLoopExp,
    EndForBody,
    EndDoWhile(NodeID),
    EndDoWhileCond,
    EndDoWhileBody,
}

impl Cfg {
    /// Adds a start sentinel.
    pub fn add_start(&mut self, start: CfgStartNode) -> (id: CfgNodeId)
        requires
            old(self).inv(),
            old(self).next() < usize::MAX,
        ensures
            node_added(*old(self), *final(self), CfgNodeDescriptor::Start(start), id),
    {
        self.add_node(CfgNodeDescriptor::Start(start))
    }

    /// Adds an end sentinel.
    pub fn add_end(&mut self, end: CfgEndNode) -> (id: CfgNodeId)
        requires
            old(self).inv(),
            old(self).next() < usize::MAX,
        ensures
            node_added(*old(self), *final(self), CfgNodeDescriptor::End(end), id),
    {
        self.add_node(CfgNodeDescriptor::End(end))
    }

    /// Adds the start sentinel of a whole graph.
    pub fn add_start_node(&mut self) -> (id: CfgNodeId)
        requires
            old(self).inv(),
            old(self).next() < usize::MAX,
        ensures
            node_added(
                *old(self),
                *final(self),
                CfgNodeDescriptor::Start(CfgStartNode::Start),
                id,
            ),
    {
        self.add_start(CfgStartNode::Start)
    }

    /// Adds the end sentinel of a whole graph.
    pub fn add_end_node(&mut self) -> (id: CfgNodeId)
        requires
            old(self).inv(),
            old(self).next() < usize::MAX,
        ensures
            node_added(*old(self), *final(self), CfgNodeDescriptor::End(CfgEndNode::End), id),
    {
        self.add_end(CfgEndNode::End)
    }

    /// Adds the start sentinel of the body of a function.
    pub fn add_start_function_body_node(&mut self, function_definition: NodeID) -> (id: CfgNodeId)
        requires
            old(self).inv(),
            old(self).next() < usize::MAX,
        ensures
            node_added(
                *old(self),
                *final(self),
                CfgNodeDescriptor::Start(CfgStartNode::StartFunctionBody(function_definition)),
                id,
            ),
    {
        self.add_start(CfgStartNode::StartFunctionBody(function_definition))
    }

    /// Adds the end sentinel of the body of a function.
    pub fn add_end_function_body_node(&mut self, function_definition: NodeID) -> (id: CfgNodeId)
        requires
            old(self).inv(),
            old(self).next() < usize::MAX,
        ensures
            node_added(
                *old(self),
                *final(self),
                CfgNodeDescriptor::End(CfgEndNode::EndFunctionBody(function_definition)),
                id,
            ),
    {
        self.add_end(CfgEndNode::EndFunctionBody(function_definition))
    }

    /// Adds the start sentinel of the body of a modifier.
    pub fn add_start_modifier_body_node(&mut self, modifier_definition: NodeID) -> (id: CfgNodeId)
        requires
            old(self).inv(),
            old(self).next() < usize::MAX,
        ensures
            node_added(
                *old(self),
                *final(self),
                CfgNodeDescriptor::Start(CfgStartNode::StartModifierBody(modifier_definition)),
                id,
            ),
    {
        self.add_start(CfgStartNode::StartModifierBody(modifier_definition))
    }

    /// Adds the end sentinel of the body of a modifier.
    pub fn add_end_modifier_body_node(&mut self, modifier_definition: NodeID) -> (id: CfgNodeId)
        requires
            old(self).inv(),
            old(self).next() < usize::MAX,
        ensures
            node_added(
                *old(self),
                *final(self),
                CfgNodeDescriptor::End(CfgEndNode::EndModifierBody(modifier_definition)),
                id,
            ),
    {
        self.add_end(CfgEndNode::EndModifierBody(modifier_definition))
    }
}

} // verus!
