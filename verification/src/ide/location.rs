//! The kinds of things a name can refer to.
use vstd::prelude::*;

verus! {

/// What a definition found for a name is.
#[derive(Debug, Clone, Copy, PartialEq, Eq, Structural)]
pub enum LocationKind {
    AccessMethod,
    Aggregate,
    CaseExpr,
    Channel,
    Collation,
    Column,
    CommitBegin,
    CommitEnd,
    Constraint,
    Conversion,
    Cursor,
    Database,
    EventTrigger,
    Extension,
    ElementTable,
    ForeignDataWrapper,
    Function,
    Index,
    JsonPath,
    Label,
    Language,
    NamedArgParameter,
    Operator,
    OperatorClass,
    OperatorFamily,
    Policy,
    PreparedStatement,
    PreparedTransaction,
    Procedure,
    Property,
    PropertyGraph,
    Publication,
    Role,
    Rule,
    Savepoint,
    Schema,
    Sequence,
    Server,
    Statistics,
    Subscription,
    Table,
    Tablespace,
    TextSearchConfiguration,
    TextSearchDictionary,
    TextSearchParser,
    TextSearchTemplate,
    Trigger,
    Type,
    View,
    Window,
}

} // verus!
