//! What the linter's rules read of a parsed SQL file: its statements, the
//! parts of them that the rules look at, and their text ranges.
use vstd::prelude::*;
use crate::linter::TextRange;

verus! {

/// The expression of a `DEFAULT`, as far as the rules look into it.
#[derive(Debug, Clone, PartialEq, Eq)]
pub enum DefaultExpr {
    /// A literal: a number, a string, `true`, `null`, ...
    Literal { range: TextRange },
    /// A cast such as `'{}'::jsonb`; `of_literal` when what is cast is a
    /// literal.
    Cast { range: TextRange, of_literal: bool },
    /// A function call: `callee` is the name called, as written, when the
    /// called expression is a plain name (not, say, `pg_catalog.uuid`);
    /// `args` is the number of arguments, `None` when the call has no
    /// argument list.
    Call { range: TextRange, callee: Option<String>, args: Option<usize> },
    /// Any other expression.
    Other { range: TextRange },
}

/// The range of a `DEFAULT` expression.
pub open spec fn default_expr_range(e: DefaultExpr) -> TextRange {
    match e {
        DefaultExpr::Literal { range } => range,
        DefaultExpr::Cast { range, .. } => range,
        DefaultExpr::Call { range, .. } => range,
        DefaultExpr::Other { range } => range,
    }
}

/// The column constraints and table constraints that the rules tell apart.
#[derive(Debug, Clone, PartialEq, Eq)]
pub enum Constraint {
    /// `CHECK (...)`; `not_null_column` is `c` when the check is `c IS NOT NULL`.
    Check { range: TextRange, not_null_column: Option<String> },
    /// `PRIMARY KEY`, possibly `USING INDEX`.
    PrimaryKey { range: TextRange, using_index: bool },
    /// `NOT NULL`
    NotNull { range: TextRange },
    /// `DEFAULT expr`; `expr` is `None` when the parser found no expression.
    Default { range: TextRange, expr: Option<DefaultExpr> },
    /// `GENERATED ...`
    Generated { range: TextRange },
    /// `FOREIGN KEY (...) REFERENCES ...`
    ForeignKey { range: TextRange },
    /// `REFERENCES ...` on a column.
    References { range: TextRange },
    /// `UNIQUE ...`, possibly `USING INDEX`.
    Unique { range: TextRange, using_index: bool },
    /// Any other constraint.
    Other { range: TextRange },
}

/// The `ALTER COLUMN` options that the rules tell apart.
#[derive(Debug, Clone, PartialEq, Eq)]
pub enum AlterColumnOption {
    SetNotNull { range: TextRange },
    DropNotNull { range: TextRange },
    SetType { range: TextRange },
    Other { range: TextRange },
}

/// An action of `ALTER TABLE`.
#[derive(Debug, Clone, PartialEq, Eq)]
pub enum AlterTableAction {
    /// `ADD COLUMN [IF NOT EXISTS] ...`; `column_token` is the `COLUMN` keyword.
    AddColumn {
        range: TextRange,
        if_not_exists: bool,
        column_token: Option<TextRange>,
        constraints: Vec<Constraint>,
    },
    /// `DROP COLUMN [IF EXISTS] ...`
    DropColumn { range: TextRange, if_exists: bool, column_token: Option<TextRange> },
    /// `ADD [CONSTRAINT name] ... [NOT VALID]`
    AddConstraint {
        range: TextRange,
        name: Option<String>,
        not_valid: bool,
        constraint: Option<Constraint>,
    },
    /// `DROP CONSTRAINT [IF EXISTS] name`; `constraint_token` is the `CONSTRAINT` keyword.
    DropConstraint {
        range: TextRange,
        name: Option<String>,
        if_exists: bool,
        constraint_token: Option<TextRange>,
    },
    /// `VALIDATE CONSTRAINT name`
    ValidateConstraint { range: TextRange, name: Option<String> },
    /// `ALTER COLUMN name option`
    AlterColumn { range: TextRange, column: Option<String>, option: Option<AlterColumnOption> },
    /// Any other action.
    Other { range: TextRange },
}

/// A statement, as far as the rules look into it.
#[derive(Debug, Clone, PartialEq, Eq)]
pub enum Stmt {
    /// `BEGIN`, `BEGIN WORK` or `START TRANSACTION`.
    Begin { range: TextRange },
    Commit { range: TextRange },
    Rollback { range: TextRange },
    /// `TRUNCATE ... [CASCADE]`; `cascade` is the `CASCADE` keyword.
    Truncate { range: TextRange, cascade: Option<TextRange> },
    /// `VACUUM`; `full` when `FULL` (or `FULL TRUE`) is among its options;
    /// `tables` is the text of its table list.
    Vacuum { range: TextRange, full: bool, tables: Option<String> },
    /// `CLUSTER [table] [USING index]` or the legacy `CLUSTER index ON table`
    /// (then `has_on` holds, `on_path` is the table and `path` the index); the
    /// paths and the index are their text as written.
    Cluster {
        range: TextRange,
        path: Option<String>,
        has_on: bool,
        on_path: Option<String>,
        using_index: Option<String>,
    },
    /// `ALTER TABLE name actions`
    AlterTable { range: TextRange, table: Option<String>, actions: Vec<AlterTableAction> },
    /// `CREATE INDEX [CONCURRENTLY] [IF NOT EXISTS] [name] ...`
    CreateIndex {
        range: TextRange,
        if_not_exists: bool,
        name: Option<TextRange>,
        concurrently: Option<TextRange>,
    },
    /// `CREATE TABLE [IF NOT EXISTS] name ...`; `table_token` is the `TABLE`
    /// keyword, `name` the last segment of the table's path.
    CreateTable {
        range: TextRange,
        if_not_exists: bool,
        table_token: Option<TextRange>,
        name: Option<String>,
    },
    /// `CREATE DOMAIN ...` with the ranges of its constraints.
    CreateDomain { range: TextRange, constraints: Vec<TextRange> },
    /// `ALTER DOMAIN ...` with the ranges of its `ADD CONSTRAINT` actions.
    AlterDomain { range: TextRange, add_constraints: Vec<TextRange> },
    /// `DROP INDEX [IF EXISTS] ...`; `first_index` is the first index named.
    DropIndex { range: TextRange, if_exists: bool, first_index: Option<TextRange> },
    /// `DROP TABLE [IF EXISTS] ...`
    DropTable { range: TextRange, if_exists: bool, table_token: Option<TextRange> },
    /// `DROP TYPE [IF EXISTS] ...`
    DropType { range: TextRange, if_exists: bool, type_token: Option<TextRange> },
    /// `DROP DATABASE ...`
    DropDatabase { range: TextRange },
    /// Any other statement.
    Other { range: TextRange },
}

/// A name or name reference: `text` is the name it denotes (quotes removed),
/// `raw` the text as written.
#[derive(Debug, Clone, PartialEq, Eq)]
pub struct NameLike {
    pub text: String,
    pub raw: String,
    pub range: TextRange,
}

/// The last segment of a type's path: its text as written and its range.
#[derive(Debug, Clone, PartialEq, Eq)]
pub struct TypeName {
    pub text: String,
    pub range: TextRange,
}

/// A column type, as far as the rules look into it.
#[derive(Debug, PartialEq, Eq)]
pub enum SqlType {
    /// A type named by a path, such as `int4`, `"char"(10)` or
    /// `pg_catalog.varchar(5)`: `first_token` is the text of its first token,
    /// `name` the last segment of the path, `args` the range of its argument
    /// list.
    Path { range: TextRange, first_token: String, name: Option<TypeName>, args: Option<TextRange> },
    /// A character type written with its keywords, such as `char(10)` or
    /// `character varying`: `text` is the name the parser gives the type
    /// (`char`, `varchar`, ...), `args` the range of its argument list.
    Char { range: TextRange, first_token: String, text: String, args: Option<TextRange> },
    /// An array of `elem`.
    Array { range: TextRange, elem: Option<Box<SqlType>> },
    /// Any other type (bit strings, `double precision`, times, intervals,
    /// `%TYPE`).
    Other { range: TextRange, first_token: String },
}

/// The range of a type.
pub open spec fn type_range(t: SqlType) -> TextRange {
    match t {
        SqlType::Path { range, .. } => range,
        SqlType::Char { range, .. } => range,
        SqlType::Array { range, .. } => range,
        SqlType::Other { range, .. } => range,
    }
}

/// What the rules need of a type: the names they read as identifiers can be
/// read (a lone `"` cannot), and an argument list starts no earlier than the
/// type's name.
pub open spec fn type_ok(t: SqlType) -> bool
    decreases t,
{
    match t {
        SqlType::Path { name, args, .. } => match name {
            Some(n) => n.text@ != seq!['"'] && match args {
                Some(a) => n.range.start <= a.start,
                None => true,
            },
            None => true,
        },
        SqlType::Char { range, text, args, .. } => text@ != seq!['"'] && match args {
            Some(a) => range.start <= a.start,
            None => true,
        },
        SqlType::Array { elem, .. } => match elem {
            Some(e) => type_ok(*e),
            None => true,
        },
        SqlType::Other { .. } => true,
    }
}

/// A column that an assignment or an insert names.
#[derive(Debug, Clone, PartialEq, Eq)]
pub struct ColumnTarget {
    /// The name the column reference denotes (quotes removed, folded to
    /// lowercase unless quoted) and its range; `None` when the target names
    /// no column.
    pub name: Option<(String, TextRange)>,
    /// Whether the target is a part of the column: a field or an element.
    pub partial: bool,
}

/// One assignment of a `SET` list.
#[derive(Debug, Clone, PartialEq, Eq)]
pub struct SetColumn {
    pub range: TextRange,
    /// `a = 1`, rather than `(a, b) = (1, 2)`.
    pub single: bool,
    /// The columns assigned, in order.
    pub targets: Vec<ColumnTarget>,
    /// Where the first comment after the comma that follows the assignment
    /// starts, when one comes before the next assignment.
    pub comment_after_comma: Option<u32>,
}

/// A list of columns that receive values.
#[derive(Debug, Clone, PartialEq, Eq)]
pub enum ColumnAssignments {
    /// The `SET` list of an `UPDATE`, of an `ON CONFLICT DO UPDATE` or of a
    /// `MERGE` update.
    Update { set_columns: Vec<SetColumn> },
    /// The column list of an `INSERT` or of a `MERGE` insert.
    Insert { targets: Vec<ColumnTarget> },
}

/// Every assignment of a `SET` list starts no later than the comment after
/// its comma, or else the next assignment.
pub open spec fn set_list_ok(c: ColumnAssignments) -> bool {
    match c {
        ColumnAssignments::Update { set_columns } => forall|i: int|
            0 <= i < set_columns@.len() - 1 ==> set_columns@[i].range.start <= match #[trigger] set_columns@[i].comment_after_comma {
                Some(c) => c,
                None => set_columns@[i + 1].range.start,
            },
        ColumnAssignments::Insert { .. } => true,
    }
}

/// A parsed SQL file: its statements in order, every name in it in order,
/// every column type that a `CREATE TABLE` declares, an `ADD COLUMN` adds or
/// an `ALTER COLUMN ... TYPE` sets, in order, every list of columns that
/// receive values, in the order they appear, and its range.
#[derive(Debug, PartialEq, Eq)]
pub struct SourceFile {
    pub stmts: Vec<Stmt>,
    pub names: Vec<NameLike>,
    pub column_types: Vec<SqlType>,
    pub column_assignments: Vec<ColumnAssignments>,
    pub text_range: TextRange,
}

/// A name that `Identifier::new` accepts (anything but a lone `"`).
pub open spec fn name_ok(n: Option<String>) -> bool {
    match n {
        Some(s) => s@ != seq!['"'],
        None => true,
    }
}

/// The names of a constraint that the rules read as identifiers: the
/// function a `DEFAULT` calls.
pub open spec fn constraint_names_ok(c: Constraint) -> bool {
    match c {
        Constraint::Default { expr: Some(DefaultExpr::Call { callee, .. }), .. } => name_ok(callee),
        _ => true,
    }
}

/// The names of an action that the rules read as identifiers.
pub open spec fn action_names_ok(a: AlterTableAction) -> bool {
    match a {
        AlterTableAction::AddConstraint { name, constraint, .. } => name_ok(name) && match constraint {
            Some(Constraint::Check { not_null_column, .. }) => name_ok(not_null_column),
            _ => true,
        },
        AlterTableAction::DropConstraint { name, .. } => name_ok(name),
        AlterTableAction::ValidateConstraint { name, .. } => name_ok(name),
        AlterTableAction::AlterColumn { column, .. } => name_ok(column),
        AlterTableAction::AddColumn { constraints, .. } => forall|k: int|
            0 <= k < constraints@.len() ==> constraint_names_ok(#[trigger] constraints@[k]),
        _ => true,
    }
}

/// The names of a statement that the rules read as identifiers.
pub open spec fn stmt_names_ok(s: Stmt) -> bool {
    match s {
        Stmt::AlterTable { table, actions, .. } => name_ok(table) && forall|k: int|
            0 <= k < actions@.len() ==> action_names_ok(#[trigger] actions@[k]),
        _ => true,
    }
}

impl SourceFile {
    /// Every name that the rules read as an identifier is one that can be read
    /// (a lone `"` cannot).
    pub open spec fn names_ok(&self) -> bool {
        forall|k: int| 0 <= k < self.stmts@.len() ==> stmt_names_ok(#[trigger] self.stmts@[k])
    }

    /// Every column type is one the rules can read.
    pub open spec fn types_ok(&self) -> bool {
        forall|k: int| 0 <= k < self.column_types@.len() ==> type_ok(#[trigger] self.column_types@[k])
    }

    /// Every assignment of a `SET` list starts no later than the comment that
    /// follows it, or else the next assignment.
    pub open spec fn assignments_ok(&self) -> bool {
        forall|k: int| 0 <= k < self.column_assignments@.len() ==> set_list_ok(#[trigger] self.column_assignments@[k])
    }
}

} // verus!
