//! Key fields of syntax nodes: the children that identify a node of a given kind
//! among its siblings, used to build stable pointers into the syntax tree.

use vstd::prelude::*;

verus! {

/// The id of an interned green (immutable, position-independent) syntax node.
#[derive(Clone, Copy, Debug, PartialEq, Eq, Hash, Structural)]
pub struct GreenId(pub u64);

/// The kind of a syntax node.
#[derive(Clone, Copy, Debug, PartialEq, Eq, Hash, Structural)]
pub enum SyntaxKind {
    Terminal,
    TriviumSkippedTerminal,
    Trivia,
    StructArgExpr,
    OptionStructArgExprEmpty,
    StructArgSingle,
    StructArgTail,
    StructArgList,
    ArgListBraced,
    ExprList,
    ExprMissing,
    OptionGenericArgsEmpty,
    OptionGenericArgsSome,
    PathSegment,
    ExprPath,
    ExprLiteral,
    ExprParenthesized,
    ExprUnary,
    ExprBinary,
    ExprTuple,
    ExprListParenthesized,
    ExprFunctionCall,
    ExprStructCtorCall,
    ExprBlock,
    MatchArm,
    MatchArms,
    ExprMatch,
    TypeClause,
    NonOptionTypeClauseMissing,
    OptionTypeClauseEmpty,
    ReturnTypeClause,
    OptionReturnTypeClauseEmpty,
    StatementList,
    StatementMissing,
    StatementLet,
    OptionSemicolonEmpty,
    StatementExpr,
    StatementReturn,
    Param,
    ParamList,
    ParamListParenthesized,
    ParamListBraced,
    FunctionSignature,
    ItemList,
    ItemModule,
    ItemFreeFunction,
    ItemExternFunction,
    ItemExternType,
    ItemTrait,
    ItemImpl,
    ItemStruct,
    ItemEnum,
    ItemUse,
    SyntaxFile,
}

/// The position, among the children of a node of kind `kind`, of the child that is the
/// node's indexing key, or `None` for kinds that have no key field.
pub open spec fn key_field_index(kind: SyntaxKind) -> Option<int> {
    match kind {
        SyntaxKind::StructArgSingle => Some(0),
        SyntaxKind::StatementLet => Some(1),
        SyntaxKind::Param => Some(0),
        SyntaxKind::ItemModule => Some(1),
        SyntaxKind::ItemFreeFunction => Some(1),
        SyntaxKind::ItemExternFunction => Some(2),
        SyntaxKind::ItemExternType => Some(2),
        SyntaxKind::ItemTrait => Some(1),
        SyntaxKind::ItemImpl => Some(1),
        SyntaxKind::ItemStruct => Some(1),
        SyntaxKind::ItemEnum => Some(1),
        SyntaxKind::ItemUse => Some(1),
        _ => None,
    }
}

/// The key fields of a node of kind `kind` whose children are `children`.
pub open spec fn spec_key_fields(kind: SyntaxKind, children: Seq<GreenId>) -> Seq<GreenId> {
    match key_field_index(kind) {
        Some(i) => seq![children[i]],
        None => Seq::empty(),
    }
}

/// Gets the vector of children ids that are the indexing key for this SyntaxKind.
/// Each SyntaxKind has some children that are defined in the spec to be its indexing key
/// for its stable pointer.
pub fn get_key_fields(kind: SyntaxKind, children: Vec<GreenId>) -> (key: Vec<GreenId>)
    requires
        key_field_index(kind) matches Some(i) ==> i < children@.len(),
    ensures
        key@ == spec_key_fields(kind, children@),
{
    match kind {
        SyntaxKind::Terminal => vec![],
        SyntaxKind::TriviumSkippedTerminal => vec![],
        SyntaxKind::Trivia => vec![],
        SyntaxKind::StructArgExpr => vec![],
        SyntaxKind::OptionStructArgExprEmpty => vec![],
        SyntaxKind::StructArgSingle => {
            // identifier
            vec![children[0]]
        },
        SyntaxKind::StructArgTail => vec![],
        SyntaxKind::StructArgList => vec![],
        SyntaxKind::ArgListBraced => vec![],
        SyntaxKind::ExprList => vec![],
        SyntaxKind::ExprMissing => vec![],
        SyntaxKind::OptionGenericArgsEmpty => vec![],
        SyntaxKind::OptionGenericArgsSome => vec![],
        SyntaxKind::PathSegment => vec![],
        SyntaxKind::ExprPath => vec![],
        SyntaxKind::ExprLiteral => vec![],
        SyntaxKind::ExprParenthesized => vec![],
        SyntaxKind::ExprUnary => vec![],
        SyntaxKind::ExprBinary => vec![],
        SyntaxKind::ExprTuple => vec![],
        SyntaxKind::ExprListParenthesized => vec![],
        SyntaxKind::ExprFunctionCall => vec![],
        SyntaxKind::ExprStructCtorCall => vec![],
        SyntaxKind::ExprBlock => vec![],
        SyntaxKind::MatchArm => vec![],
        SyntaxKind::MatchArms => vec![],
        SyntaxKind::ExprMatch => vec![],
        SyntaxKind::TypeClause => vec![],
        SyntaxKind::NonOptionTypeClauseMissing => vec![],
        SyntaxKind::OptionTypeClauseEmpty => vec![],
        SyntaxKind::ReturnTypeClause => vec![],
        SyntaxKind::OptionReturnTypeClauseEmpty => vec![],
        SyntaxKind::StatementList => vec![],
        SyntaxKind::StatementMissing => vec![],
        SyntaxKind::StatementLet => {
            // name
            vec![children[1]]
        },
        SyntaxKind::OptionSemicolonEmpty => vec![],
        SyntaxKind::StatementExpr => vec![],
        SyntaxKind::StatementReturn => vec![],
        SyntaxKind::Param => {
            // name
            vec![children[0]]
        },
        SyntaxKind::ParamList => vec![],
        SyntaxKind::ParamListParenthesized => vec![],
        SyntaxKind::ParamListBraced => vec![],
        SyntaxKind::FunctionSignature => vec![],
        SyntaxKind::ItemList => vec![],
        SyntaxKind::ItemModule => {
            // name
            vec![children[1]]
        },
        SyntaxKind::ItemFreeFunction => {
            // name
            vec![children[1]]
        },
        SyntaxKind::ItemExternFunction => {
            // name
            vec![children[2]]
        },
        SyntaxKind::ItemExternType => {
            // name
            vec![children[2]]
        },
        SyntaxKind::ItemTrait => {
            // name
            vec![children[1]]
        },
        SyntaxKind::ItemImpl => {
            // name
            vec![children[1]]
        },
        SyntaxKind::ItemStruct => {
            // name
            vec![children[1]]
        },
        SyntaxKind::ItemEnum => {
            // name
            vec![children[1]]
        },
        SyntaxKind::ItemUse => {
            // name
            vec![children[1]]
        },
        SyntaxKind::SyntaxFile => vec![],
    }
}

/// A node has at most one key field, and each key field is one of its children.
pub proof fn lemma_key_fields_are_children(kind: SyntaxKind, children: Seq<GreenId>)
    requires
        key_field_index(kind) matches Some(i) ==> 0 <= i < children.len(),
    ensures
        spec_key_fields(kind, children).len() <= 1,
        forall|k: int|
            0 <= k < spec_key_fields(kind, children).len() ==> children.contains(
                #[trigger] spec_key_fields(kind, children)[k],
            ),
{
    if let Some(i) = key_field_index(kind) {
        assert(children[i] == spec_key_fields(kind, children)[0]);
    }
}

/// The key fields of each kind are those that the syntax names: a struct argument by its
/// identifier, a `let` statement, a parameter and each kind of item by its name, at the
/// child position where the name stands. Every other kind, a function call expression
/// among them, has an empty key.
pub proof fn lemma_key_fields_by_kind(kind: SyntaxKind, children: Seq<GreenId>)
    ensures
        kind == SyntaxKind::StructArgSingle ==> spec_key_fields(kind, children) == seq![children[0]],
        kind == SyntaxKind::StatementLet ==> spec_key_fields(kind, children) == seq![children[1]],
        kind == SyntaxKind::Param ==> spec_key_fields(kind, children) == seq![children[0]],
        kind == SyntaxKind::ItemModule ==> spec_key_fields(kind, children) == seq![children[1]],
        kind == SyntaxKind::ItemFreeFunction ==> spec_key_fields(kind, children) == seq![children[1]],
        kind == SyntaxKind::ItemExternFunction ==> spec_key_fields(kind, children) == seq![children[2]],
        kind == SyntaxKind::ItemExternType ==> spec_key_fields(kind, children) == seq![children[2]],
        kind == SyntaxKind::ItemTrait ==> spec_key_fields(kind, children) == seq![children[1]],
        kind == SyntaxKind::ItemImpl ==> spec_key_fields(kind, children) == seq![children[1]],
        kind == SyntaxKind::ItemStruct ==> spec_key_fields(kind, children) == seq![children[1]],
        kind == SyntaxKind::ItemEnum ==> spec_key_fields(kind, children) == seq![children[1]],
        kind == SyntaxKind::ItemUse ==> spec_key_fields(kind, children) == seq![children[1]],
        !(kind == SyntaxKind::StructArgSingle || kind == SyntaxKind::StatementLet
            || kind == SyntaxKind::Param || kind == SyntaxKind::ItemModule
            || kind == SyntaxKind::ItemFreeFunction || kind == SyntaxKind::ItemExternFunction
            || kind == SyntaxKind::ItemExternType || kind == SyntaxKind::ItemTrait
            || kind == SyntaxKind::ItemImpl || kind == SyntaxKind::ItemStruct
            || kind == SyntaxKind::ItemEnum || kind == SyntaxKind::ItemUse)
            ==> spec_key_fields(kind, children) == Seq::<GreenId>::empty(),
{
}

} // verus!
