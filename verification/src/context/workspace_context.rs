use vstd::prelude::*;
use std::collections::HashMap;
use crate::ast::ast_nodes::{
    Assignment, BinaryOperation, Block, BlockOrStatement, Break, Continue, DoWhileStatement,
    EmitStatement, EventDefinition, Expression, ExpressionStatement, ForStatement,
    FunctionDefinition, Identifier, IfStatement, ImportDirective, InlineAssembly, MemberAccess,
    ModifierDefinition, ModifierInvocation, PlaceholderStatement, Return, RevertStatement,
    Statement, VariableDeclaration, VariableDeclarationStatement, WhileStatement,
};
use crate::ast::node::{HasUniqueID, NodeID, NodeType, UniqueNodeID};
use crate::text::{cuts_cleanly, lemma_cut_within, parse_span, snippet, span_location};
use vstd::string::{StringExecFns, StringSliceAdditionalSpecFns};
use vstd::utf8::{decode_utf8, encode_utf8, encode_utf8_decode_utf8};

verus! {

broadcast use vstd::std_specs::hash::group_hash_axioms;

/// A borrowed node of the syntax tree, tagged by its kind: what the
/// registry hands out for an identity.
#[derive(Clone, Copy, Debug)]
pub enum AstNodeRef<'a> {
    Block(&'a Block),
    UncheckedBlock(&'a Block),
    IfStatement(&'a IfStatement),
    ForStatement(&'a ForStatement),
    WhileStatement(&'a WhileStatement),
    DoWhileStatement(&'a DoWhileStatement),
    VariableDeclarationStatement(&'a VariableDeclarationStatement),
    ExpressionStatement(&'a ExpressionStatement),
    EmitStatement(&'a EmitStatement),
    RevertStatement(&'a RevertStatement),
    Return(&'a Return),
    InlineAssembly(&'a InlineAssembly),
    Break(&'a Break),
    Continue(&'a Continue),
    PlaceholderStatement(&'a PlaceholderStatement),
    Expression(&'a Expression),
}

impl<'a> AstNodeRef<'a> {
    /// The identity of the node referred to.
    pub open spec fn ident(self) -> NodeID {
        match self {
            AstNodeRef::Block(n) => n.id,
            AstNodeRef::UncheckedBlock(n) => n.id,
            AstNodeRef::IfStatement(n) => n.id,
            AstNodeRef::ForStatement(n) => n.id,
            AstNodeRef::WhileStatement(n) => n.id,
            AstNodeRef::DoWhileStatement(n) => n.id,
            AstNodeRef::VariableDeclarationStatement(n) => n.id,
            AstNodeRef::ExpressionStatement(n) => n.id,
            AstNodeRef::EmitStatement(n) => n.id,
            AstNodeRef::RevertStatement(n) => n.id,
            AstNodeRef::Return(n) => n.id,
            AstNodeRef::InlineAssembly(n) => n.id,
            AstNodeRef::Break(n) => n.id,
            AstNodeRef::Continue(n) => n.id,
            AstNodeRef::PlaceholderStatement(n) => n.id,
            AstNodeRef::Expression(n) => n.node_id(),
        }
    }

    /// The source span of the node referred to.
    pub open spec fn span(self) -> Seq<char> {
        match self {
            AstNodeRef::Block(n) => n.src@,
            AstNodeRef::UncheckedBlock(n) => n.src@,
            AstNodeRef::IfStatement(n) => n.src@,
            AstNodeRef::ForStatement(n) => n.src@,
            AstNodeRef::WhileStatement(n) => n.src@,
            AstNodeRef::DoWhileStatement(n) => n.src@,
            AstNodeRef::VariableDeclarationStatement(n) => n.src@,
            AstNodeRef::ExpressionStatement(n) => n.src@,
            AstNodeRef::EmitStatement(n) => n.src@,
            AstNodeRef::RevertStatement(n) => n.src@,
            AstNodeRef::Return(n) => n.src@,
            AstNodeRef::InlineAssembly(n) => n.src@,
            AstNodeRef::Break(n) => n.src@,
            AstNodeRef::Continue(n) => n.src@,
            AstNodeRef::PlaceholderStatement(n) => n.src@,
            AstNodeRef::Expression(n) => n.span(),
        }
    }

    /// The kind tag of the node referred to.
    pub open spec fn kind_tag(self) -> NodeType {
        match self {
            AstNodeRef::Block(_) => NodeType::Block,
            AstNodeRef::UncheckedBlock(_) => NodeType::UncheckedBlock,
            AstNodeRef::IfStatement(_) => NodeType::IfStatement,
            AstNodeRef::ForStatement(_) => NodeType::ForStatement,
            AstNodeRef::WhileStatement(_) => NodeType::WhileStatement,
            AstNodeRef::DoWhileStatement(_) => NodeType::DoWhileStatement,
            AstNodeRef::VariableDeclarationStatement(_) => NodeType::VariableDeclarationStatement,
            AstNodeRef::ExpressionStatement(_) => NodeType::ExpressionStatement,
            AstNodeRef::EmitStatement(_) => NodeType::EmitStatement,
            AstNodeRef::RevertStatement(_) => NodeType::RevertStatement,
            AstNodeRef::Return(_) => NodeType::Return,
            AstNodeRef::InlineAssembly(_) => NodeType::InlineAssembly,
            AstNodeRef::Break(_) => NodeType::Break,
            AstNodeRef::Continue(_) => NodeType::Continue,
            AstNodeRef::PlaceholderStatement(_) => NodeType::PlaceholderStatement,
            AstNodeRef::Expression(e) => match e {
                Expression::Literal(_) => NodeType::Literal,
                Expression::Identifier(_) => NodeType::Identifier,
                Expression::UnaryOperation(_) => NodeType::UnaryOperation,
                Expression::BinaryOperation(_) => NodeType::BinaryOperation,
                Expression::Conditional(_) => NodeType::Conditional,
                Expression::Assignment(_) => NodeType::Assignment,
                Expression::FunctionCall(_) => NodeType::FunctionCall,
                Expression::FunctionCallOptions(_) => NodeType::FunctionCallOptions,
                Expression::IndexAccess(_) => NodeType::IndexAccess,
                Expression::IndexRangeAccess(_) => NodeType::IndexRangeAccess,
                Expression::MemberAccess(_) => NodeType::MemberAccess,
                Expression::ElementaryTypeNameExpression(_) => NodeType::ElementaryTypeNameExpression,
                Expression::TupleExpression(_) => NodeType::TupleExpression,
                Expression::NewExpression(_) => NodeType::NewExpression,
            },
        }
    }

    /// The kind tag of the node referred to.
    pub fn node_type(&self) -> (r: NodeType)
        ensures
            r == self.kind_tag(),
    {
        match self {
            AstNodeRef::Block(_) => NodeType::Block,
            AstNodeRef::UncheckedBlock(_) => NodeType::UncheckedBlock,
            AstNodeRef::IfStatement(_) => NodeType::IfStatement,
            AstNodeRef::ForStatement(_) => NodeType::ForStatement,
            AstNodeRef::WhileStatement(_) => NodeType::WhileStatement,
            AstNodeRef::DoWhileStatement(_) => NodeType::DoWhileStatement,
            AstNodeRef::VariableDeclarationStatement(_) => NodeType::VariableDeclarationStatement,
            AstNodeRef::ExpressionStatement(_) => NodeType::ExpressionStatement,
            AstNodeRef::EmitStatement(_) => NodeType::EmitStatement,
            AstNodeRef::RevertStatement(_) => NodeType::RevertStatement,
            AstNodeRef::Return(_) => NodeType::Return,
            AstNodeRef::InlineAssembly(_) => NodeType::InlineAssembly,
            AstNodeRef::Break(_) => NodeType::Break,
            AstNodeRef::Continue(_) => NodeType::Continue,
            AstNodeRef::PlaceholderStatement(_) => NodeType::PlaceholderStatement,
            AstNodeRef::Expression(e) => match e {
                Expression::Literal(_) => NodeType::Literal,
                Expression::Identifier(_) => NodeType::Identifier,
                Expression::UnaryOperation(_) => NodeType::UnaryOperation,
                Expression::BinaryOperation(_) => NodeType::BinaryOperation,
                Expression::Conditional(_) => NodeType::Conditional,
                Expression::Assignment(_) => NodeType::Assignment,
                Expression::FunctionCall(_) => NodeType::FunctionCall,
                Expression::FunctionCallOptions(_) => NodeType::FunctionCallOptions,
                Expression::IndexAccess(_) => NodeType::IndexAccess,
                Expression::IndexRangeAccess(_) => NodeType::IndexRangeAccess,
                Expression::MemberAccess(_) => NodeType::MemberAccess,
                Expression::ElementaryTypeNameExpression(_) => NodeType::ElementaryTypeNameExpression,
                Expression::TupleExpression(_) => NodeType::TupleExpression,
                Expression::NewExpression(_) => NodeType::NewExpression,
            },
        }
    }

    /// The identity of the node referred to.
    pub fn id(&self) -> (r: NodeID)
        ensures
            r == self.ident(),
    {
        match self {
            AstNodeRef::Block(n) => n.id,
            AstNodeRef::UncheckedBlock(n) => n.id,
            AstNodeRef::IfStatement(n) => n.id,
            AstNodeRef::ForStatement(n) => n.id,
            AstNodeRef::WhileStatement(n) => n.id,
            AstNodeRef::DoWhileStatement(n) => n.id,
            AstNodeRef::VariableDeclarationStatement(n) => n.id,
            AstNodeRef::ExpressionStatement(n) => n.id,
            AstNodeRef::EmitStatement(n) => n.id,
            AstNodeRef::RevertStatement(n) => n.id,
            AstNodeRef::Return(n) => n.id,
            AstNodeRef::InlineAssembly(n) => n.id,
            AstNodeRef::Break(n) => n.id,
            AstNodeRef::Continue(n) => n.id,
            AstNodeRef::PlaceholderStatement(n) => n.id,
            AstNodeRef::Expression(n) => match n.get_node_id() {
                Some(id) => id,
                None => 0,
            },
        }
    }

    /// The source span of the node referred to, in the form
    /// `offset:length:file`.
    pub fn src(&self) -> (r: &'a str)
        ensures
            r@ == self.span(),
    {
        match self {
            AstNodeRef::Block(n) => n.src.as_str(),
            AstNodeRef::UncheckedBlock(n) => n.src.as_str(),
            AstNodeRef::IfStatement(n) => n.src.as_str(),
            AstNodeRef::ForStatement(n) => n.src.as_str(),
            AstNodeRef::WhileStatement(n) => n.src.as_str(),
            AstNodeRef::DoWhileStatement(n) => n.src.as_str(),
            AstNodeRef::VariableDeclarationStatement(n) => n.src.as_str(),
            AstNodeRef::ExpressionStatement(n) => n.src.as_str(),
            AstNodeRef::EmitStatement(n) => n.src.as_str(),
            AstNodeRef::RevertStatement(n) => n.src.as_str(),
            AstNodeRef::Return(n) => n.src.as_str(),
            AstNodeRef::InlineAssembly(n) => n.src.as_str(),
            AstNodeRef::Break(n) => n.src.as_str(),
            AstNodeRef::Continue(n) => n.src.as_str(),
            AstNodeRef::PlaceholderStatement(n) => n.src.as_str(),
            AstNodeRef::Expression(n) => n.src(),
        }
    }
}

/// The identity of the statement's own node.
pub open spec fn own_id(s: Statement) -> NodeID {
    match s {
        Statement::Block(n) => n.id,
        Statement::Break(n) => n.id,
        Statement::Continue(n) => n.id,
        Statement::DoWhileStatement(n) => n.id,
        Statement::PlaceholderStatement(n) => n.id,
        Statement::VariableDeclarationStatement(n) => n.id,
        Statement::IfStatement(n) => n.id,
        Statement::ForStatement(n) => n.id,
        Statement::WhileStatement(n) => n.id,
        Statement::EmitStatement(n) => n.id,
        Statement::TryStatement(n) => n.id,
        Statement::UncheckedBlock(n) => n.id,
        Statement::Return(n) => n.id,
        Statement::RevertStatement(n) => n.id,
        Statement::ExpressionStatement(n) => n.id,
        Statement::InlineAssembly(n) => n.id,
    }
}

/// The reference under which a statement is registered. A `try` statement
/// is never registered; for it the value is immaterial.
pub open spec fn statement_ref<'a>(s: &'a Statement) -> AstNodeRef<'a> {
    match s {
        Statement::Block(n) => AstNodeRef::Block(n),
        Statement::Break(n) => AstNodeRef::Break(n),
        Statement::Continue(n) => AstNodeRef::Continue(n),
        Statement::DoWhileStatement(n) => AstNodeRef::DoWhileStatement(n),
        Statement::PlaceholderStatement(n) => AstNodeRef::PlaceholderStatement(n),
        Statement::VariableDeclarationStatement(n) => AstNodeRef::VariableDeclarationStatement(n),
        Statement::IfStatement(n) => AstNodeRef::IfStatement(n),
        Statement::ForStatement(n) => AstNodeRef::ForStatement(n),
        Statement::WhileStatement(n) => AstNodeRef::WhileStatement(n),
        Statement::EmitStatement(n) => AstNodeRef::EmitStatement(n),
        Statement::TryStatement(n) => AstNodeRef::Block(&n.clauses@[0].block),
        Statement::UncheckedBlock(n) => AstNodeRef::UncheckedBlock(n),
        Statement::Return(n) => AstNodeRef::Return(n),
        Statement::RevertStatement(n) => AstNodeRef::RevertStatement(n),
        Statement::ExpressionStatement(n) => AstNodeRef::ExpressionStatement(n),
        Statement::InlineAssembly(n) => AstNodeRef::InlineAssembly(n),
    }
}

/// The registry knows the statement: it is no `try` statement, and its
/// identity leads back to the statement itself.
pub open spec fn holds_statement<'a>(m: Map<NodeID, AstNodeRef<'a>>, s: &'a Statement) -> bool {
    &&& !(s is TryStatement)
    &&& m.contains_key(own_id(*s))
    &&& m[own_id(*s)] == statement_ref(s)
}

/// The registry knows the block: its identity leads back to the block
/// itself.
pub open spec fn holds_block<'a>(m: Map<NodeID, AstNodeRef<'a>>, b: &'a Block) -> bool {
    &&& m.contains_key(b.id)
    &&& m[b.id] == AstNodeRef::Block(b)
}

/// The registry knows the body of a branch or of a loop.
pub open spec fn holds_body<'a>(m: Map<NodeID, AstNodeRef<'a>>, b: &'a BlockOrStatement) -> bool {
    match b {
        BlockOrStatement::Block(block) => holds_block(m, &**block),
        BlockOrStatement::Statement(statement) => holds_statement(m, &**statement),
    }
}

/// The registry knows every statement directly below the node.
pub open spec fn closed<'a>(m: Map<NodeID, AstNodeRef<'a>>, n: AstNodeRef<'a>) -> bool {
    match n {
        AstNodeRef::Block(b) => forall|i: int|
            0 <= i < b.statements@.len() ==> holds_statement(m, #[trigger] &b.statements@[i]),
        AstNodeRef::UncheckedBlock(b) => forall|i: int|
            0 <= i < b.statements@.len() ==> holds_statement(m, #[trigger] &b.statements@[i]),
        AstNodeRef::IfStatement(s) => holds_body(m, &s.true_body) && match &s.false_body {
            Some(f) => holds_body(m, f),
            None => true,
        },
        AstNodeRef::WhileStatement(s) => holds_body(m, &s.body),
        AstNodeRef::ForStatement(s) => holds_body(m, &s.body) && match &s.initialization_expression {
            Some(i) => holds_statement(m, &**i),
            None => true,
        },
        AstNodeRef::DoWhileStatement(s) => holds_block(m, &s.body),
        _ => true,
    }
}

/// The registry with one more node, under an identity that is still free;
/// none if the identity is taken.
pub open spec fn put<'a>(m: Map<NodeID, AstNodeRef<'a>>, id: NodeID, node: AstNodeRef<'a>) -> Option<
    Map<NodeID, AstNodeRef<'a>>,
> {
    if m.contains_key(id) {
        None
    } else {
        Some(m.insert(id, node))
    }
}

/// The registry after the first `upto` statements of a block were
/// registered in order; none if one of them cannot be registered.
pub open spec fn with_statements<'a>(
    m: Map<NodeID, AstNodeRef<'a>>,
    block: &'a Block,
    upto: int,
) -> Option<Map<NodeID, AstNodeRef<'a>>>
    decreases block, upto,
{
    if upto <= 0 || upto > block.statements@.len() {
        Some(m)
    } else {
        match with_statements(m, block, upto - 1) {
            Some(m1) => with_statement(m1, &block.statements@[upto - 1]),
            None => None,
        }
    }
}

/// The registry after a block was registered: its statements first, in
/// order, then the block itself; none if a `try` statement lies in the
/// block or an identity that is met is taken.
pub open spec fn with_block<'a>(m: Map<NodeID, AstNodeRef<'a>>, block: &'a Block) -> Option<
    Map<NodeID, AstNodeRef<'a>>,
>
    decreases block, block.statements@.len() + 1,
{
    match with_statements(m, block, block.statements@.len() as int) {
        Some(m1) => put(m1, block.id, AstNodeRef::Block(block)),
        None => None,
    }
}

/// The registry after the body of a branch or of a loop was registered.
pub open spec fn with_body<'a>(m: Map<NodeID, AstNodeRef<'a>>, body: &'a BlockOrStatement) -> Option<
    Map<NodeID, AstNodeRef<'a>>,
>
    decreases body,
{
    match body {
        BlockOrStatement::Block(block) => with_block(m, &**block),
        BlockOrStatement::Statement(statement) => with_statement(m, &**statement),
    }
}

/// The registry after a statement was registered: what is nested in it
/// first (conditions, then branches and bodies, in source order), then the
/// statement itself; none for a `try` statement, if one is nested in it, or
/// if an identity that is met is taken.
pub open spec fn with_statement<'a>(m: Map<NodeID, AstNodeRef<'a>>, statement: &'a Statement) -> Option<
    Map<NodeID, AstNodeRef<'a>>,
>
    decreases statement,
{
    match statement {
        Statement::Block(n) => with_block(m, n),
        Statement::UncheckedBlock(n) => match with_statements(m, n, n.statements@.len() as int) {
            Some(m1) => put(m1, n.id, AstNodeRef::UncheckedBlock(n)),
            None => None,
        },
        Statement::IfStatement(n) => match put(
            m,
            n.condition.node_id(),
            AstNodeRef::Expression(&n.condition),
        ) {
            Some(m1) => match with_body(m1, &n.true_body) {
                Some(m2) => match &n.false_body {
                    Some(f) => match with_body(m2, f) {
                        Some(m3) => put(m3, n.id, AstNodeRef::IfStatement(n)),
                        None => None,
                    },
                    None => put(m2, n.id, AstNodeRef::IfStatement(n)),
                },
                None => None,
            },
            None => None,
        },
        Statement::WhileStatement(n) => match put(
            m,
            n.condition.node_id(),
            AstNodeRef::Expression(&n.condition),
        ) {
            Some(m1) => match with_body(m1, &n.body) {
                Some(m2) => put(m2, n.id, AstNodeRef::WhileStatement(n)),
                None => None,
            },
            None => None,
        },
        Statement::DoWhileStatement(n) => match put(
            m,
            n.condition.node_id(),
            AstNodeRef::Expression(&n.condition),
        ) {
            Some(m1) => match with_block(m1, &n.body) {
                Some(m2) => put(m2, n.id, AstNodeRef::DoWhileStatement(n)),
                None => None,
            },
            None => None,
        },
        Statement::ForStatement(n) => {
            let after_init = match &n.initialization_expression {
                Some(i) => with_statement(m, &**i),
                None => Some(m),
            };
            let after_condition = match after_init {
                Some(m1) => match &n.condition {
                    Some(c) => put(m1, c.node_id(), AstNodeRef::Expression(c)),
                    None => Some(m1),
                },
                None => None,
            };
            let after_update = match after_condition {
                Some(m2) => match &n.loop_expression {
                    Some(u) => put(m2, u.id, AstNodeRef::ExpressionStatement(&**u)),
                    None => Some(m2),
                },
                None => None,
            };
            match after_update {
                Some(m3) => match with_body(m3, &n.body) {
                    Some(m4) => put(m4, n.id, AstNodeRef::ForStatement(n)),
                    None => None,
                },
                None => None,
            }
        },
        Statement::TryStatement(_) => None,
        _ => put(m, own_id(*statement), statement_ref(statement)),
    }
}

/// Once a statement of a block cannot be registered, no longer run of
/// statements can.
pub proof fn lemma_with_statements_fails<'a>(
    m: Map<NodeID, AstNodeRef<'a>>,
    block: &'a Block,
    at: int,
    upto: int,
)
    requires
        0 <= at <= upto <= block.statements@.len(),
        with_statements(m, block, at) is None,
    ensures
        with_statements(m, block, upto) is None,
    decreases upto - at,
{
    if at < upto {
        lemma_with_statements_fails(m, block, at, upto - 1);
    }
}

/// The second registry holds whatever the first holds, under the same
/// identities.
pub open spec fn grows<'a>(m0: Map<NodeID, AstNodeRef<'a>>, m1: Map<NodeID, AstNodeRef<'a>>) -> bool {
    forall|k: NodeID| #[trigger] m0.contains_key(k) ==> m1.contains_key(k) && m1[k] == m0[k]
}

/// The registry of syntax-tree nodes by identity, together with the source
/// text that their spans point into.
pub struct WorkspaceContext<'a> {
    /// Node registry.
    pub nodes: HashMap<NodeID, AstNodeRef<'a>>,
    /// The text of the source file, if it is at hand.
    pub source: Option<&'a str>,
    /// The identity of the source unit that the nodes belong to, if it is
    /// known.
    pub source_unit_id: Option<NodeID>,
    /// The parent of a node, by identity.
    pub parents: HashMap<NodeID, NodeID>,
    /// The assignments of the workspace.
    pub assignments: Vec<&'a Assignment>,
    /// The binary operations of the workspace.
    pub binary_operations: Vec<&'a BinaryOperation>,
    /// The event definitions of the workspace.
    pub event_definitions: Vec<&'a EventDefinition>,
    /// The function definitions of the workspace.
    pub function_definitions: Vec<&'a FunctionDefinition>,
    /// The identifiers of the workspace.
    pub identifiers: Vec<&'a Identifier>,
    /// The `if` statements of the workspace.
    pub if_statements: Vec<&'a IfStatement>,
    /// The import directives of the workspace.
    pub import_directives: Vec<&'a ImportDirective>,
    /// The member accesses of the workspace.
    pub member_accesses: Vec<&'a MemberAccess>,
    /// The modifier definitions of the workspace.
    pub modifier_definitions: Vec<&'a ModifierDefinition>,
    /// The modifier invocations of the workspace.
    pub modifier_invocations: Vec<&'a ModifierInvocation>,
    /// The variable declarations of the workspace.
    pub variable_declarations: Vec<&'a VariableDeclaration>,
    /// The variable declaration statements of the workspace.
    pub variable_declaration_statements: Vec<&'a VariableDeclarationStatement>,
}

impl<'a> WorkspaceContext<'a> {
    /// Every registered node is closed: whatever statement lies directly
    /// below it is registered too, under its own identity. No registered
    /// construct holds a `try` statement directly.
    pub open spec fn wf(&self) -> bool {
        forall|id: NodeID|
            self.nodes@.contains_key(id) ==> closed(self.nodes@, #[trigger] self.nodes@[id])
                && self.nodes@[id].ident() == id
    }

    /// An empty workspace over the given source text, if any.
    fn over(source: Option<&'a str>) -> (r: Self)
        ensures
            r.wf(),
            r.nodes@ == Map::<NodeID, AstNodeRef<'a>>::empty(),
            r.source == source,
            r.source_unit_id.is_none(),
            r.parents@ == Map::<NodeID, NodeID>::empty(),
            r.assignments@.len() == 0,
            r.binary_operations@.len() == 0,
            r.event_definitions@.len() == 0,
            r.function_definitions@.len() == 0,
            r.identifiers@.len() == 0,
            r.if_statements@.len() == 0,
            r.import_directives@.len() == 0,
            r.member_accesses@.len() == 0,
            r.modifier_definitions@.len() == 0,
            r.modifier_invocations@.len() == 0,
            r.variable_declarations@.len() == 0,
            r.variable_declaration_statements@.len() == 0,
    {
        WorkspaceContext {
            nodes: HashMap::new(),
            source,
            source_unit_id: None,
            parents: HashMap::new(),
            assignments: Vec::new(),
            binary_operations: Vec::new(),
            event_definitions: Vec::new(),
            function_definitions: Vec::new(),
            identifiers: Vec::new(),
            if_statements: Vec::new(),
            import_directives: Vec::new(),
            member_accesses: Vec::new(),
            modifier_definitions: Vec::new(),
            modifier_invocations: Vec::new(),
            variable_declarations: Vec::new(),
            variable_declaration_statements: Vec::new(),
        }
    }

    /// An empty registry without source text.
    pub fn new() -> (r: Self)
        ensures
            r.wf(),
            r.nodes@ == Map::<NodeID, AstNodeRef<'a>>::empty(),
            r.source.is_none(),
    {
        WorkspaceContext::over(None)
    }

    /// An empty registry over the given source text.
    pub fn with_source(source: &'a str) -> (r: Self)
        ensures
            r.wf(),
            r.nodes@ == Map::<NodeID, AstNodeRef<'a>>::empty(),
            r.source == Some(source),
    {
        WorkspaceContext::over(Some(source))
    }

    /// The node registered under an identity.
    pub fn get(&self, id: NodeID) -> (r: Option<AstNodeRef<'a>>)
        ensures
            match r {
                Some(n) => self.nodes@.contains_key(id) && self.nodes@[id] == n,
                None => !self.nodes@.contains_key(id),
            },
    {
        match self.nodes.get(&id) {
            Some(n) => Some(*n),
            None => None,
        }
    }

    /// Registers a closed node under an identity that is still free.
    /// Refuses, and changes nothing, if the identity is taken.
    fn insert_fresh(&mut self, id: NodeID, node: AstNodeRef<'a>) -> (ok: bool)
        requires
            old(self).wf(),
            closed(old(self).nodes@, node),
            node.ident() == id,
        ensures
            final(self).wf(),
            final(self).source == old(self).source,
            ok == !old(self).nodes@.contains_key(id),
            ok ==> final(self).nodes@ == old(self).nodes@.insert(id, node),
            !ok ==> final(self).nodes@ == old(self).nodes@,
            grows(old(self).nodes@, final(self).nodes@),
    {
        if self.nodes.contains_key(&id) {
            return false;
        }
        self.nodes.insert(id, node);
        proof {
            let m0 = old(self).nodes@;
            let m1 = self.nodes@;
            assert(grows(m0, m1));
            assert forall|k: NodeID| m1.contains_key(k) implies closed(m1, #[trigger] m1[k])
                && m1[k].ident() == k by {
                let n = m1[k];
                assert(closed(m0, n));
                lemma_closed_monotone(m0, m1, n);
            }
        }
        true
    }

    /// Registers an expression under its identity.
    pub fn register_expression(&mut self, e: &'a Expression) -> (ok: bool)
        requires
            old(self).wf(),
        ensures
            final(self).wf(),
            final(self).source == old(self).source,
            grows(old(self).nodes@, final(self).nodes@),
            ok == !old(self).nodes@.contains_key(e.node_id()),
            ok ==> final(self).nodes@ == old(self).nodes@.insert(
                e.node_id(),
                AstNodeRef::Expression(e),
            ),
    {
        let node = AstNodeRef::Expression(e);
        self.insert_fresh(node.id(), node)
    }

    /// Registers a block and, before it, every statement nested in it.
    ///
    /// Succeeds when no `try` statement lies in the block and every
    /// identity met is still free; the block is then known to the registry.
    /// On failure what was registered up to that point stays.
    pub fn register_block(&mut self, block: &'a Block) -> (ok: bool)
        requires
            old(self).wf(),
        ensures
            final(self).wf(),
            final(self).source == old(self).source,
            grows(old(self).nodes@, final(self).nodes@),
            ok ==> holds_block(final(self).nodes@, block),
            ok == (with_block(old(self).nodes@, block) is Some),
            ok ==> with_block(old(self).nodes@, block) == Some(final(self).nodes@),
        decreases block, 1int,
    {
        if !self.register_statements(block) {
            return false;
        }
        self.insert_fresh(block.id, AstNodeRef::Block(block))
    }

    /// Registers the statements of a block, in order.
    fn register_statements(&mut self, block: &'a Block) -> (ok: bool)
        requires
            old(self).wf(),
        ensures
            final(self).wf(),
            final(self).source == old(self).source,
            grows(old(self).nodes@, final(self).nodes@),
            ok ==> forall|j: int|
                0 <= j < block.statements@.len() ==> holds_statement(
                    final(self).nodes@,
                    #[trigger] &block.statements@[j],
                ),
            ok == (with_statements(old(self).nodes@, block, block.statements@.len() as int)
                is Some),
            ok ==> with_statements(old(self).nodes@, block, block.statements@.len() as int)
                == Some(final(self).nodes@),
        decreases block, 0int,
    {
        let n = block.statements.len();
        let mut i: usize = 0;
        while i < n
            invariant
                i <= n,
                n == block.statements.len(),
                with_statements(old(self).nodes@, block, i as int) == Some(self.nodes@),
                self.wf(),
                self.source == old(self).source,
                grows(old(self).nodes@, self.nodes@),
                forall|j: int| 0 <= j < i ==> holds_statement(self.nodes@, #[trigger] &block.statements@[j]),
            decreases n - i,
        {
            let ghost before = self.nodes@;
            let ok = self.register_statement(&block.statements[i]);
            assert(grows(before, self.nodes@));
            if !ok {
                proof {
                    assert(with_statements(old(self).nodes@, block, i + 1) is None);
                    lemma_with_statements_fails(old(self).nodes@, block, i + 1, n as int);
                }
                return false;
            }
            i += 1;
        }
        true
    }

    /// Registers the body of a branch or of a loop.
    pub fn register_body(&mut self, body: &'a BlockOrStatement) -> (ok: bool)
        requires
            old(self).wf(),
        ensures
            final(self).wf(),
            final(self).source == old(self).source,
            grows(old(self).nodes@, final(self).nodes@),
            ok ==> holds_body(final(self).nodes@, body),
            ok == (with_body(old(self).nodes@, body) is Some),
            ok ==> with_body(old(self).nodes@, body) == Some(final(self).nodes@),
        decreases body,
    {
        match body {
            BlockOrStatement::Block(block) => self.register_block(block),
            BlockOrStatement::Statement(statement) => self.register_statement(statement),
        }
    }

    /// Registers a statement and, before it, everything nested in it: the
    /// statements of its blocks, its branches and bodies, and the
    /// conditions of `if` and of loops.
    ///
    /// Succeeds when no `try` statement is met and every identity met is
    /// still free; the statement is then known to the registry. On failure
    /// what was registered up to that point stays.
    pub fn register_statement(&mut self, statement: &'a Statement) -> (ok: bool)
        requires
            old(self).wf(),
        ensures
            final(self).wf(),
            final(self).source == old(self).source,
            grows(old(self).nodes@, final(self).nodes@),
            ok ==> holds_statement(final(self).nodes@, statement),
            ok == (with_statement(old(self).nodes@, statement) is Some),
            ok ==> with_statement(old(self).nodes@, statement) == Some(final(self).nodes@),
        decreases statement,
    {
        match statement {
            Statement::Block(n) => self.register_block(n),
            Statement::UncheckedBlock(n) => {
                if !self.register_statements(n) {
                    return false;
                }
                self.insert_fresh(n.id, AstNodeRef::UncheckedBlock(n))
            },
            Statement::IfStatement(n) => {
                if !self.register_expression(&n.condition) {
                    return false;
                }
                if !self.register_body(&n.true_body) {
                    return false;
                }
                if let Some(false_body) = &n.false_body {
                    if !self.register_body(false_body) {
                        return false;
                    }
                }
                self.insert_fresh(n.id, AstNodeRef::IfStatement(n))
            },
            Statement::WhileStatement(n) => {
                if !self.register_expression(&n.condition) {
                    return false;
                }
                if !self.register_body(&n.body) {
                    return false;
                }
                self.insert_fresh(n.id, AstNodeRef::WhileStatement(n))
            },
            Statement::DoWhileStatement(n) => {
                if !self.register_expression(&n.condition) {
                    return false;
                }
                if !self.register_block(&n.body) {
                    return false;
                }
                self.insert_fresh(n.id, AstNodeRef::DoWhileStatement(n))
            },
            Statement::ForStatement(n) => {
                if let Some(init) = &n.initialization_expression {
                    if !self.register_statement(init) {
                        return false;
                    }
                }
                if let Some(condition) = &n.condition {
                    if !self.register_expression(condition) {
                        return false;
                    }
                }
                if let Some(update) = &n.loop_expression {
                    if !self.insert_fresh(update.id, AstNodeRef::ExpressionStatement(update)) {
                        return false;
                    }
                }
                if !self.register_body(&n.body) {
                    return false;
                }
                self.insert_fresh(n.id, AstNodeRef::ForStatement(n))
            },
            Statement::VariableDeclarationStatement(n) => self.insert_fresh(
                n.id,
                AstNodeRef::VariableDeclarationStatement(n),
            ),
            Statement::ExpressionStatement(n) => self.insert_fresh(
                n.id,
                AstNodeRef::ExpressionStatement(n),
            ),
            Statement::EmitStatement(n) => self.insert_fresh(n.id, AstNodeRef::EmitStatement(n)),
            Statement::RevertStatement(n) => self.insert_fresh(
                n.id,
                AstNodeRef::RevertStatement(n),
            ),
            Statement::Return(n) => self.insert_fresh(n.id, AstNodeRef::Return(n)),
            Statement::InlineAssembly(n) => self.insert_fresh(n.id, AstNodeRef::InlineAssembly(n)),
            Statement::Break(n) => self.insert_fresh(n.id, AstNodeRef::Break(n)),
            Statement::Continue(n) => self.insert_fresh(n.id, AstNodeRef::Continue(n)),
            Statement::PlaceholderStatement(n) => self.insert_fresh(
                n.id,
                AstNodeRef::PlaceholderStatement(n),
            ),
            Statement::TryStatement(_) => false,
        }
    }
}

/// The piece of a source text that a span of the form `offset:length:file`
/// points at, if the span is of this form and the piece lies within the
/// text without splitting a character.
pub open spec fn piece_of(text: Seq<char>, span: Seq<char>) -> Option<Seq<char>> {
    let bytes = encode_utf8(text);
    match span_location(encode_utf8(span)) {
        Some((offset, length)) => if cuts_cleanly(bytes, offset as int, length as int) {
            Some(decode_utf8(bytes.subrange(offset as int, (offset + length) as int)))
        } else {
            None
        },
        None => None,
    }
}

impl<'a> WorkspaceContext<'a> {
    /// The source text of a node, if the registry has the text of the file
    /// and the node's span points into it.
    pub open spec fn peeked(&self, node: AstNodeRef<'a>) -> Option<Seq<char>> {
        match self.source {
            Some(text) => piece_of(text@, node.span()),
            None => None,
        }
    }

    /// The source text of the node registered under an identity, if there is
    /// such a node and its text is at hand.
    pub open spec fn peeked_at(&self, id: NodeID) -> Option<Seq<char>> {
        if self.nodes@.contains_key(id) {
            self.peeked(self.nodes@[id])
        } else {
            None
        }
    }

    /// The source text of a node: the piece of the file that the node's
    /// span points at.
    pub fn peek(&self, node: &AstNodeRef<'a>) -> (r: Option<String>)
        ensures
            match r {
                Some(text) => self.peeked(*node) == Some(text@),
                None => self.peeked(*node).is_none(),
            },
    {
        let text = match self.source {
            Some(text) => text,
            None => {
                return None;
            },
        };
        let text_bytes = text.as_bytes();
        let text_length = text_bytes.len();
        let (offset, length) = match parse_span(node.src()) {
            Some(location) => location,
            None => {
                proof {
                    let bytes = encode_utf8(text@);
                    assert(bytes.len() == text_length);
                    vstd::utf8::encode_utf8_valid_utf8(text@);
                    match span_location(encode_utf8(node.span())) {
                        Some((offset, length)) => {
                            if cuts_cleanly(bytes, offset as int, length as int) {
                                lemma_cut_within(bytes, offset as int, length as int);
                            }
                        },
                        None => {},
                    }
                }
                return None;
            },
        };
        match snippet(text, offset, length) {
            Some(piece) => {
                proof {
                    encode_utf8_decode_utf8(piece@);
                }
                Some(String::from_str(piece))
            },
            None => None,
        }
    }

    /// The source text of the node registered under an identity.
    pub fn peek_at(&self, id: NodeID) -> (r: Option<String>)
        ensures
            match r {
                Some(text) => self.peeked_at(id) == Some(text@),
                None => self.peeked_at(id).is_none(),
            },
    {
        match self.get(id) {
            Some(node) => self.peek(&node),
            None => None,
        }
    }
}

/// What a registry knows, a larger registry knows too.
pub proof fn lemma_closed_monotone<'a>(
    m0: Map<NodeID, AstNodeRef<'a>>,
    m1: Map<NodeID, AstNodeRef<'a>>,
    n: AstNodeRef<'a>,
)
    requires
        grows(m0, m1),
        closed(m0, n),
    ensures
        closed(m1, n),
{
    match n {
        AstNodeRef::Block(b) => {
            assert forall|i: int| 0 <= i < b.statements@.len() implies holds_statement(
                m1,
                #[trigger] &b.statements@[i],
            ) by {
                assert(holds_statement(m0, &b.statements@[i]));
            }
        },
        AstNodeRef::UncheckedBlock(b) => {
            assert forall|i: int| 0 <= i < b.statements@.len() implies holds_statement(
                m1,
                #[trigger] &b.statements@[i],
            ) by {
                assert(holds_statement(m0, &b.statements@[i]));
            }
        },
        _ => {},
    }
}

/// The closest node above `id` that has the given kind, looking no
/// further up than `fuel` steps: the first of its parent, its parent's
/// parent and so on that the registry knows as a node of that kind.
pub open spec fn closest_above<'a>(
    parents: Map<NodeID, NodeID>,
    nodes: Map<NodeID, AstNodeRef<'a>>,
    id: NodeID,
    kind: NodeType,
    fuel: nat,
) -> Option<AstNodeRef<'a>>
    decreases fuel,
{
    if fuel == 0 || !parents.contains_key(id) {
        None
    } else {
        let p = parents[id];
        if nodes.contains_key(p) && nodes[p].kind_tag() == kind {
            Some(nodes[p])
        } else {
            closest_above(parents, nodes, p, kind, (fuel - 1) as nat)
        }
    }
}

/// Node `above` is met within `fuel` steps when going up from `id` parent
/// by parent.
pub open spec fn lies_below(parents: Map<NodeID, NodeID>, id: NodeID, above: NodeID, fuel: nat) -> bool
    decreases fuel,
{
    if fuel == 0 || !parents.contains_key(id) {
        false
    } else {
        parents[id] == above || lies_below(parents, parents[id], above, (fuel - 1) as nat)
    }
}

impl<'a> WorkspaceContext<'a> {
    /// The closest node above `id` that has the given kind. The search
    /// goes up parent by parent, for as many steps as there are parent
    /// links.
    pub fn get_closest_ancestor(&self, id: NodeID, kind: NodeType) -> (r: Option<AstNodeRef<'a>>)
        ensures
            r == closest_above(self.parents@, self.nodes@, id, kind, self.parents@.len()),
    {
        let mut fuel = self.parents.len();
        let mut at = id;
        while fuel > 0
            invariant
                closest_above(self.parents@, self.nodes@, at, kind, fuel as nat) == closest_above(
                    self.parents@,
                    self.nodes@,
                    id,
                    kind,
                    self.parents@.len(),
                ),
            decreases fuel,
        {
            let parent = match self.parents.get(&at) {
                Some(p) => *p,
                None => {
                    return None;
                },
            };
            if let Some(node) = self.get(parent) {
                if node.node_type() == kind {
                    return Some(node);
                }
            }
            at = parent;
            fuel -= 1;
        }
        None
    }

    /// Whether node `above` is met when going up from `id` parent by
    /// parent, for as many steps as there are parent links.
    pub fn is_below(&self, id: NodeID, above: NodeID) -> (r: bool)
        ensures
            r == lies_below(self.parents@, id, above, self.parents@.len()),
    {
        let mut fuel = self.parents.len();
        let mut at = id;
        while fuel > 0
            invariant
                lies_below(self.parents@, at, above, fuel as nat) == lies_below(
                    self.parents@,
                    id,
                    above,
                    self.parents@.len(),
                ),
            decreases fuel,
        {
            let parent = match self.parents.get(&at) {
                Some(p) => *p,
                None => {
                    return false;
                },
            };
            if parent == above {
                return true;
            }
            at = parent;
            fuel -= 1;
        }
        false
    }
}

impl<'a> HasUniqueID for AstNodeRef<'a> {
    fn uid(&self, context: &WorkspaceContext) -> (r: Option<UniqueNodeID>)
        ensures
            r == match context.source_unit_id {
                Some(unit) => Some((unit, self.ident())),
                None => None,
            },
    {
        match context.source_unit_id {
            Some(unit) => Some((unit, self.id())),
            None => None,
        }
    }
}

} // verus!
