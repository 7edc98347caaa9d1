//! The linter's vocabulary: rules, text ranges, edits and fixes, violations,
//! Postgres versions and the linter's settings.
use vstd::prelude::*;
use crate::text::{chars_eq_str, chars_of, push_str};

verus! {

/// A range of byte offsets `[start, end)` in the linted text.
#[derive(Debug, Clone, Copy, PartialEq, Eq, Hash, Structural)]
pub struct TextRange {
    pub start: u32,
    pub end: u32,
}

impl TextRange {
    pub fn new(start: u32, end: u32) -> (r: TextRange)
        requires
            start <= end,
        ensures
            r.start == start,
            r.end == end,
    {
        TextRange { start, end }
    }

    /// The empty range at `offset`.
    pub fn empty(offset: u32) -> (r: TextRange)
        ensures
            r.start == offset,
            r.end == offset,
    {
        TextRange { start: offset, end: offset }
    }
}

pub open spec fn opt_text(o: Option<String>) -> Option<Seq<char>> {
    match o {
        Some(s) => Some(s@),
        None => None,
    }
}

/// A change to the text: replace `text_range` by `text` (or delete it).
#[derive(Debug, Clone, PartialEq, Eq)]
pub struct Edit {
    pub text_range: TextRange,
    pub text: Option<String>,
}

pub struct EditView {
    pub text_range: TextRange,
    pub text: Option<Seq<char>>,
}

impl View for Edit {
    type V = EditView;

    open spec fn view(&self) -> EditView {
        EditView { text_range: self.text_range, text: opt_text(self.text) }
    }
}

impl Edit {
    /// Inserts `text` at `at`.
    pub fn insert(text: &str, at: u32) -> (e: Edit)
        ensures
            e@ == (EditView { text_range: TextRange { start: at, end: at }, text: Some(text@) }),
    {
        Edit { text_range: TextRange::empty(at), text: Some(string_of(text)) }
    }

    /// Replaces `text_range` with `text`.
    pub fn replace(text_range: TextRange, text: String) -> (e: Edit)
        ensures
            e@ == (EditView { text_range, text: Some(text@) }),
    {
        Edit { text_range, text: Some(text) }
    }

    /// Deletes `text_range`.
    pub fn delete(text_range: TextRange) -> (e: Edit)
        ensures
            e@ == (EditView { text_range, text: None }),
    {
        Edit { text_range, text: None }
    }
}

/// A named set of edits that fixes a violation.
#[derive(Debug, Clone, PartialEq, Eq)]
pub struct Fix {
    pub title: String,
    pub edits: Vec<Edit>,
}

pub struct FixView {
    pub title: Seq<char>,
    pub edits: Seq<EditView>,
}

impl View for Fix {
    type V = FixView;

    open spec fn view(&self) -> FixView {
        FixView { title: self.title@, edits: self.edits@.map_values(|e: Edit| e@) }
    }
}

impl Fix {
    pub fn new(title: &str, edits: Vec<Edit>) -> (f: Fix)
        ensures
            f@.title == title@,
            f.edits == edits,
    {
        Fix { title: string_of(title), edits }
    }
}

pub open spec fn opt_fix(o: Option<Fix>) -> Option<FixView> {
    match o {
        Some(f) => Some(f@),
        None => None,
    }
}

/// A copy of `s` as an owned string.
pub fn string_of(s: &str) -> (r: String)
    ensures
        r@ == s@,
{
    let mut r = String::new();
    push_str(&mut r, s);
    r
}

/// A rule the linter can check.
#[derive(Debug, PartialEq, Eq, Clone, Copy, Hash, Structural)]
pub enum Rule {
    RequireConcurrentIndexCreation,
    RequireConcurrentIndexDeletion,
    ConstraintMissingNotValid,
    AddingFieldWithDefault,
    AddingForeignKeyConstraint,
    ChangingColumnType,
    AddingNotNullableField,
    AddingSerialPrimaryKeyField,
    RenamingColumn,
    RenamingTable,
    DisallowedUniqueConstraint,
    BanDropDatabase,
    PreferBigintOverInt,
    PreferBigintOverSmallint,
    PreferIdentity,
    PreferRobustStmts,
    PreferTextField,
    PreferTimestampTz,
    BanCharField,
    BanDropColumn,
    BanDropTable,
    BanDropNotNull,
    TransactionNesting,
    AddingRequiredField,
    BanConcurrentIndexCreationInTransaction,
    UnusedIgnore,
    BanCreateDomainWithConstraint,
    BanAlterDomainWithAddConstraint,
    BanDuplicateColumnAssignments,
    BanTruncateCascade,
    BanUncommittedTransaction,
    IdentifierTooLong,
    PreferBigInt,
    PreferRepack,
}

/// The name under which a rule is shown.
pub open spec fn rule_display_name(r: Rule) -> Seq<char> {
    match r {
        Rule::RequireConcurrentIndexCreation => "require-concurrent-index-creation"@,
        Rule::RequireConcurrentIndexDeletion => "require-concurrent-index-deletion"@,
        Rule::ConstraintMissingNotValid => "constraint-missing-not-valid"@,
        Rule::AddingFieldWithDefault => "adding-field-with-default"@,
        Rule::AddingForeignKeyConstraint => "adding-foreign-key-constraint"@,
        Rule::ChangingColumnType => "changing-column-type"@,
        Rule::AddingNotNullableField => "adding-not-nullable-field"@,
        Rule::AddingSerialPrimaryKeyField => "adding-serial-primary-key-field"@,
        Rule::RenamingColumn => "renaming-column"@,
        Rule::RenamingTable => "renaming-table"@,
        Rule::DisallowedUniqueConstraint => "disallowed-unique-constraint"@,
        Rule::BanDropDatabase => "ban-drop-database"@,
        Rule::PreferBigintOverInt => "prefer-bigint-over-int"@,
        Rule::PreferBigintOverSmallint => "prefer-bigint-over-smallint"@,
        Rule::PreferIdentity => "prefer-identity"@,
        Rule::PreferRobustStmts => "prefer-robust-stmts"@,
        Rule::PreferTextField => "prefer-text-field"@,
        Rule::PreferTimestampTz => "prefer-timestamp-tz"@,
        Rule::BanCharField => "ban-char-field"@,
        Rule::BanDropColumn => "ban-drop-column"@,
        Rule::BanDropTable => "ban-drop-table"@,
        Rule::BanDropNotNull => "ban-drop-not-null"@,
        Rule::TransactionNesting => "transaction-nesting"@,
        Rule::AddingRequiredField => "adding-required-field"@,
        Rule::BanConcurrentIndexCreationInTransaction => "ban-concurrent-index-creation-in-transaction"@,
        Rule::UnusedIgnore => "unused-ignore"@,
        Rule::BanCreateDomainWithConstraint => "ban-create-domain-with-constraint"@,
        Rule::BanAlterDomainWithAddConstraint => "ban-alter-domain-with-add-constraint"@,
        Rule::BanDuplicateColumnAssignments => "ban-duplicate-column-assignments"@,
        Rule::BanTruncateCascade => "ban-truncate-cascade"@,
        Rule::BanUncommittedTransaction => "ban-uncommitted-transaction"@,
        Rule::IdentifierTooLong => "identifier-too-long"@,
        Rule::PreferBigInt => "prefer-big-int"@,
        Rule::PreferRepack => "prefer-repack"@,
    }
}

/// The rule that a name in an ignore comment or a setting refers to.
pub open spec fn rule_from_name(s: Seq<char>) -> Option<Rule> {
    if s == "require-concurrent-index-creation"@ { Some(Rule::RequireConcurrentIndexCreation) }
    else if s == "require-concurrent-index-deletion"@ { Some(Rule::RequireConcurrentIndexDeletion) }
    else if s == "constraint-missing-not-valid"@ { Some(Rule::ConstraintMissingNotValid) }
    else if s == "adding-field-with-default"@ { Some(Rule::AddingFieldWithDefault) }
    else if s == "adding-foreign-key-constraint"@ { Some(Rule::AddingForeignKeyConstraint) }
    else if s == "changing-column-type"@ { Some(Rule::ChangingColumnType) }
    else if s == "adding-not-nullable-field"@ { Some(Rule::AddingNotNullableField) }
    else if s == "adding-serial-primary-key-field"@ { Some(Rule::AddingSerialPrimaryKeyField) }
    else if s == "renaming-column"@ { Some(Rule::RenamingColumn) }
    else if s == "renaming-table"@ { Some(Rule::RenamingTable) }
    else if s == "disallowed-unique-constraint"@ { Some(Rule::DisallowedUniqueConstraint) }
    else if s == "ban-drop-database"@ { Some(Rule::BanDropDatabase) }
    else if s == "prefer-bigint-over-int"@ { Some(Rule::PreferBigintOverInt) }
    else if s == "prefer-bigint-over-smallint"@ { Some(Rule::PreferBigintOverSmallint) }
    else if s == "prefer-identity"@ { Some(Rule::PreferIdentity) }
    else if s == "prefer-robust-stmts"@ { Some(Rule::PreferRobustStmts) }
    else if s == "prefer-text-field"@ { Some(Rule::PreferTextField) }
    else if s == "prefer-timestamptz"@ { Some(Rule::PreferTimestampTz) }
    else if s == "ban-char-field"@ { Some(Rule::BanCharField) }
    else if s == "ban-drop-column"@ { Some(Rule::BanDropColumn) }
    else if s == "ban-drop-table"@ { Some(Rule::BanDropTable) }
    else if s == "ban-drop-not-null"@ { Some(Rule::BanDropNotNull) }
    else if s == "transaction-nesting"@ { Some(Rule::TransactionNesting) }
    else if s == "adding-required-field"@ { Some(Rule::AddingRequiredField) }
    else if s == "ban-concurrent-index-creation-in-transaction"@ { Some(Rule::BanConcurrentIndexCreationInTransaction) }
    else if s == "ban-create-domain-with-constraint"@ { Some(Rule::BanCreateDomainWithConstraint) }
    else if s == "ban-alter-domain-with-add-constraint"@ { Some(Rule::BanAlterDomainWithAddConstraint) }
    else if s == "ban-duplicate-column-assignments"@ { Some(Rule::BanDuplicateColumnAssignments) }
    else if s == "ban-truncate-cascade"@ { Some(Rule::BanTruncateCascade) }
    else if s == "ban-uncommitted-transaction"@ { Some(Rule::BanUncommittedTransaction) }
    else if s == "identifier-too-long"@ { Some(Rule::IdentifierTooLong) }
    else if s == "prefer-big-int"@ { Some(Rule::PreferBigInt) }
    else if s == "prefer-repack"@ { Some(Rule::PreferRepack) }
    else if s == "prefer-timestamp-tz"@ { Some(Rule::PreferTimestampTz) }
    else { None }
}

impl Rule {
    /// The name under which the rule is shown.
    pub fn name(self) -> (r: &'static str)
        ensures
            r@ == rule_display_name(self),
    {
        match self {
            Rule::RequireConcurrentIndexCreation => "require-concurrent-index-creation",
            Rule::RequireConcurrentIndexDeletion => "require-concurrent-index-deletion",
            Rule::ConstraintMissingNotValid => "constraint-missing-not-valid",
            Rule::AddingFieldWithDefault => "adding-field-with-default",
            Rule::AddingForeignKeyConstraint => "adding-foreign-key-constraint",
            Rule::ChangingColumnType => "changing-column-type",
            Rule::AddingNotNullableField => "adding-not-nullable-field",
            Rule::AddingSerialPrimaryKeyField => "adding-serial-primary-key-field",
            Rule::RenamingColumn => "renaming-column",
            Rule::RenamingTable => "renaming-table",
            Rule::DisallowedUniqueConstraint => "disallowed-unique-constraint",
            Rule::BanDropDatabase => "ban-drop-database",
            Rule::PreferBigintOverInt => "prefer-bigint-over-int",
            Rule::PreferBigintOverSmallint => "prefer-bigint-over-smallint",
            Rule::PreferIdentity => "prefer-identity",
            Rule::PreferRobustStmts => "prefer-robust-stmts",
            Rule::PreferTextField => "prefer-text-field",
            Rule::PreferTimestampTz => "prefer-timestamp-tz",
            Rule::BanCharField => "ban-char-field",
            Rule::BanDropColumn => "ban-drop-column",
            Rule::BanDropTable => "ban-drop-table",
            Rule::BanDropNotNull => "ban-drop-not-null",
            Rule::TransactionNesting => "transaction-nesting",
            Rule::AddingRequiredField => "adding-required-field",
            Rule::BanConcurrentIndexCreationInTransaction => "ban-concurrent-index-creation-in-transaction",
            Rule::UnusedIgnore => "unused-ignore",
            Rule::BanCreateDomainWithConstraint => "ban-create-domain-with-constraint",
            Rule::BanAlterDomainWithAddConstraint => "ban-alter-domain-with-add-constraint",
            Rule::BanDuplicateColumnAssignments => "ban-duplicate-column-assignments",
            Rule::BanTruncateCascade => "ban-truncate-cascade",
            Rule::BanUncommittedTransaction => "ban-uncommitted-transaction",
            Rule::IdentifierTooLong => "identifier-too-long",
            Rule::PreferBigInt => "prefer-big-int",
            Rule::PreferRepack => "prefer-repack",
        }
    }

    /// The name under which the rule is shown, as an owned string.
    pub fn to_string(&self) -> (r: String)
        ensures
            r@ == rule_display_name(*self),
    {
        string_of(self.name())
    }

    /// The rule called `s`, or an error that names `s`.
    pub fn try_from_name(s: &str) -> (r: Result<Rule, String>)
        ensures
            rule_from_name(s@) matches Some(rule) ==> r == Ok::<Rule, String>(rule),
            rule_from_name(s@) is None ==> (r matches Err(e) && e@ == "Unknown violation name: "@ + s@),
    {
        let cs = chars_of(s);
        if chars_eq_str(cs.as_slice(), "require-concurrent-index-creation") {
            return Ok(Rule::RequireConcurrentIndexCreation);
        }
        if chars_eq_str(cs.as_slice(), "require-concurrent-index-deletion") {
            return Ok(Rule::RequireConcurrentIndexDeletion);
        }
        if chars_eq_str(cs.as_slice(), "constraint-missing-not-valid") {
            return Ok(Rule::ConstraintMissingNotValid);
        }
        if chars_eq_str(cs.as_slice(), "adding-field-with-default") {
            return Ok(Rule::AddingFieldWithDefault);
        }
        if chars_eq_str(cs.as_slice(), "adding-foreign-key-constraint") {
            return Ok(Rule::AddingForeignKeyConstraint);
        }
        if chars_eq_str(cs.as_slice(), "changing-column-type") {
            return Ok(Rule::ChangingColumnType);
        }
        if chars_eq_str(cs.as_slice(), "adding-not-nullable-field") {
            return Ok(Rule::AddingNotNullableField);
        }
        if chars_eq_str(cs.as_slice(), "adding-serial-primary-key-field") {
            return Ok(Rule::AddingSerialPrimaryKeyField);
        }
        if chars_eq_str(cs.as_slice(), "renaming-column") {
            return Ok(Rule::RenamingColumn);
        }
        if chars_eq_str(cs.as_slice(), "renaming-table") {
            return Ok(Rule::RenamingTable);
        }
        if chars_eq_str(cs.as_slice(), "disallowed-unique-constraint") {
            return Ok(Rule::DisallowedUniqueConstraint);
        }
        if chars_eq_str(cs.as_slice(), "ban-drop-database") {
            return Ok(Rule::BanDropDatabase);
        }
        if chars_eq_str(cs.as_slice(), "prefer-bigint-over-int") {
            return Ok(Rule::PreferBigintOverInt);
        }
        if chars_eq_str(cs.as_slice(), "prefer-bigint-over-smallint") {
            return Ok(Rule::PreferBigintOverSmallint);
        }
        if chars_eq_str(cs.as_slice(), "prefer-identity") {
            return Ok(Rule::PreferIdentity);
        }
        if chars_eq_str(cs.as_slice(), "prefer-robust-stmts") {
            return Ok(Rule::PreferRobustStmts);
        }
        if chars_eq_str(cs.as_slice(), "prefer-text-field") {
            return Ok(Rule::PreferTextField);
        }
        if chars_eq_str(cs.as_slice(), "prefer-timestamptz") {
            return Ok(Rule::PreferTimestampTz);
        }
        if chars_eq_str(cs.as_slice(), "ban-char-field") {
            return Ok(Rule::BanCharField);
        }
        if chars_eq_str(cs.as_slice(), "ban-drop-column") {
            return Ok(Rule::BanDropColumn);
        }
        if chars_eq_str(cs.as_slice(), "ban-drop-table") {
            return Ok(Rule::BanDropTable);
        }
        if chars_eq_str(cs.as_slice(), "ban-drop-not-null") {
            return Ok(Rule::BanDropNotNull);
        }
        if chars_eq_str(cs.as_slice(), "transaction-nesting") {
            return Ok(Rule::TransactionNesting);
        }
        if chars_eq_str(cs.as_slice(), "adding-required-field") {
            return Ok(Rule::AddingRequiredField);
        }
        if chars_eq_str(cs.as_slice(), "ban-concurrent-index-creation-in-transaction") {
            return Ok(Rule::BanConcurrentIndexCreationInTransaction);
        }
        if chars_eq_str(cs.as_slice(), "ban-create-domain-with-constraint") {
            return Ok(Rule::BanCreateDomainWithConstraint);
        }
        if chars_eq_str(cs.as_slice(), "ban-alter-domain-with-add-constraint") {
            return Ok(Rule::BanAlterDomainWithAddConstraint);
        }
        if chars_eq_str(cs.as_slice(), "ban-duplicate-column-assignments") {
            return Ok(Rule::BanDuplicateColumnAssignments);
        }
        if chars_eq_str(cs.as_slice(), "ban-truncate-cascade") {
            return Ok(Rule::BanTruncateCascade);
        }
        if chars_eq_str(cs.as_slice(), "ban-uncommitted-transaction") {
            return Ok(Rule::BanUncommittedTransaction);
        }
        if chars_eq_str(cs.as_slice(), "identifier-too-long") {
            return Ok(Rule::IdentifierTooLong);
        }
        if chars_eq_str(cs.as_slice(), "prefer-big-int") {
            return Ok(Rule::PreferBigInt);
        }
        if chars_eq_str(cs.as_slice(), "prefer-repack") {
            return Ok(Rule::PreferRepack);
        }
        if chars_eq_str(cs.as_slice(), "prefer-timestamp-tz") {
            return Ok(Rule::PreferTimestampTz);
        }
        let mut e = string_of("Unknown violation name: ");
        push_str(&mut e, s);
        Err(e)
    }

    /// Every rule, each once, in declaration order.
    pub fn all() -> (v: Vec<Rule>)
        ensures
            v@ == all_rules(),
    {
        let mut v: Vec<Rule> = Vec::new();
        v.push(Rule::RequireConcurrentIndexCreation);
        v.push(Rule::RequireConcurrentIndexDeletion);
        v.push(Rule::ConstraintMissingNotValid);
        v.push(Rule::AddingFieldWithDefault);
        v.push(Rule::AddingForeignKeyConstraint);
        v.push(Rule::ChangingColumnType);
        v.push(Rule::AddingNotNullableField);
        v.push(Rule::AddingSerialPrimaryKeyField);
        v.push(Rule::RenamingColumn);
        v.push(Rule::RenamingTable);
        v.push(Rule::DisallowedUniqueConstraint);
        v.push(Rule::BanDropDatabase);
        v.push(Rule::PreferBigintOverInt);
        v.push(Rule::PreferBigintOverSmallint);
        v.push(Rule::PreferIdentity);
        v.push(Rule::PreferRobustStmts);
        v.push(Rule::PreferTextField);
        v.push(Rule::PreferTimestampTz);
        v.push(Rule::BanCharField);
        v.push(Rule::BanDropColumn);
        v.push(Rule::BanDropTable);
        v.push(Rule::BanDropNotNull);
        v.push(Rule::TransactionNesting);
        v.push(Rule::AddingRequiredField);
        v.push(Rule::BanConcurrentIndexCreationInTransaction);
        v.push(Rule::UnusedIgnore);
        v.push(Rule::BanCreateDomainWithConstraint);
        v.push(Rule::BanAlterDomainWithAddConstraint);
        v.push(Rule::BanDuplicateColumnAssignments);
        v.push(Rule::BanTruncateCascade);
        v.push(Rule::BanUncommittedTransaction);
        v.push(Rule::IdentifierTooLong);
        v.push(Rule::PreferBigInt);
        v.push(Rule::PreferRepack);
        assert(v@ =~= all_rules());
        v
    }
}

/// Every rule, each once, in declaration order.
pub open spec fn all_rules() -> Seq<Rule> {
    seq![
        Rule::RequireConcurrentIndexCreation,
        Rule::RequireConcurrentIndexDeletion,
        Rule::ConstraintMissingNotValid,
        Rule::AddingFieldWithDefault,
        Rule::AddingForeignKeyConstraint,
        Rule::ChangingColumnType,
        Rule::AddingNotNullableField,
        Rule::AddingSerialPrimaryKeyField,
        Rule::RenamingColumn,
        Rule::RenamingTable,
        Rule::DisallowedUniqueConstraint,
        Rule::BanDropDatabase,
        Rule::PreferBigintOverInt,
        Rule::PreferBigintOverSmallint,
        Rule::PreferIdentity,
        Rule::PreferRobustStmts,
        Rule::PreferTextField,
        Rule::PreferTimestampTz,
        Rule::BanCharField,
        Rule::BanDropColumn,
        Rule::BanDropTable,
        Rule::BanDropNotNull,
        Rule::TransactionNesting,
        Rule::AddingRequiredField,
        Rule::BanConcurrentIndexCreationInTransaction,
        Rule::UnusedIgnore,
        Rule::BanCreateDomainWithConstraint,
        Rule::BanAlterDomainWithAddConstraint,
        Rule::BanDuplicateColumnAssignments,
        Rule::BanTruncateCascade,
        Rule::BanUncommittedTransaction,
        Rule::IdentifierTooLong,
        Rule::PreferBigInt,
        Rule::PreferRepack
    ]
}

/// Every rule is among `all_rules`, once.
pub proof fn lemma_all_rules_complete(r: Rule)
    ensures
        all_rules().contains(r),
        all_rules().no_duplicates(),
{
    let a = all_rules();
    let i: int = match r {
        Rule::RequireConcurrentIndexCreation => 0,
        Rule::RequireConcurrentIndexDeletion => 1,
        Rule::ConstraintMissingNotValid => 2,
        Rule::AddingFieldWithDefault => 3,
        Rule::AddingForeignKeyConstraint => 4,
        Rule::ChangingColumnType => 5,
        Rule::AddingNotNullableField => 6,
        Rule::AddingSerialPrimaryKeyField => 7,
        Rule::RenamingColumn => 8,
        Rule::RenamingTable => 9,
        Rule::DisallowedUniqueConstraint => 10,
        Rule::BanDropDatabase => 11,
        Rule::PreferBigintOverInt => 12,
        Rule::PreferBigintOverSmallint => 13,
        Rule::PreferIdentity => 14,
        Rule::PreferRobustStmts => 15,
        Rule::PreferTextField => 16,
        Rule::PreferTimestampTz => 17,
        Rule::BanCharField => 18,
        Rule::BanDropColumn => 19,
        Rule::BanDropTable => 20,
        Rule::BanDropNotNull => 21,
        Rule::TransactionNesting => 22,
        Rule::AddingRequiredField => 23,
        Rule::BanConcurrentIndexCreationInTransaction => 24,
        Rule::UnusedIgnore => 25,
        Rule::BanCreateDomainWithConstraint => 26,
        Rule::BanAlterDomainWithAddConstraint => 27,
        Rule::BanDuplicateColumnAssignments => 28,
        Rule::BanTruncateCascade => 29,
        Rule::BanUncommittedTransaction => 30,
        Rule::IdentifierTooLong => 31,
        Rule::PreferBigInt => 32,
        Rule::PreferRepack => 33,
    };
    assert(a[i] == r);
    assert(a.no_duplicates()) by {
        assert forall|p: int, q: int| 0 <= p < a.len() && 0 <= q < a.len() && p != q implies a[p] != a[q] by {
        }
    }
}

/// Reading back the name a rule is shown under gives the rule again, for
/// every rule but `unused-ignore`, whose name is not among the names that are
/// read.
pub proof fn lemma_rule_name_round_trip(r: Rule)
    requires
        r != Rule::UnusedIgnore,
    ensures
        rule_from_name(rule_display_name(r)) == Some(r),
{
    reveal_strlit("require-concurrent-index-creation");
    reveal_strlit("require-concurrent-index-deletion");
    reveal_strlit("constraint-missing-not-valid");
    reveal_strlit("adding-field-with-default");
    reveal_strlit("adding-foreign-key-constraint");
    reveal_strlit("changing-column-type");
    reveal_strlit("adding-not-nullable-field");
    reveal_strlit("adding-serial-primary-key-field");
    reveal_strlit("renaming-column");
    reveal_strlit("renaming-table");
    reveal_strlit("disallowed-unique-constraint");
    reveal_strlit("ban-drop-database");
    reveal_strlit("prefer-bigint-over-int");
    reveal_strlit("prefer-bigint-over-smallint");
    reveal_strlit("prefer-identity");
    reveal_strlit("prefer-robust-stmts");
    reveal_strlit("prefer-text-field");
    reveal_strlit("prefer-timestamptz");
    reveal_strlit("ban-char-field");
    reveal_strlit("ban-drop-column");
    reveal_strlit("ban-drop-table");
    reveal_strlit("ban-drop-not-null");
    reveal_strlit("transaction-nesting");
    reveal_strlit("adding-required-field");
    reveal_strlit("ban-concurrent-index-creation-in-transaction");
    reveal_strlit("ban-create-domain-with-constraint");
    reveal_strlit("ban-alter-domain-with-add-constraint");
    reveal_strlit("ban-duplicate-column-assignments");
    reveal_strlit("ban-truncate-cascade");
    reveal_strlit("ban-uncommitted-transaction");
    reveal_strlit("identifier-too-long");
    reveal_strlit("prefer-big-int");
    reveal_strlit("prefer-repack");
    reveal_strlit("prefer-timestamp-tz");
    // The length of each name, and for two names of one length a place
    // where they differ, tell any two names apart.
    assert("require-concurrent-index-creation"@.len() == 33);
    assert("require-concurrent-index-deletion"@.len() == 33);
    assert("constraint-missing-not-valid"@.len() == 28);
    assert("adding-field-with-default"@.len() == 25);
    assert("adding-foreign-key-constraint"@.len() == 29);
    assert("changing-column-type"@.len() == 20);
    assert("adding-not-nullable-field"@.len() == 25);
    assert("adding-serial-primary-key-field"@.len() == 31);
    assert("renaming-column"@.len() == 15);
    assert("renaming-table"@.len() == 14);
    assert("disallowed-unique-constraint"@.len() == 28);
    assert("ban-drop-database"@.len() == 17);
    assert("prefer-bigint-over-int"@.len() == 22);
    assert("prefer-bigint-over-smallint"@.len() == 27);
    assert("prefer-identity"@.len() == 15);
    assert("prefer-robust-stmts"@.len() == 19);
    assert("prefer-text-field"@.len() == 17);
    assert("prefer-timestamptz"@.len() == 18);
    assert("ban-char-field"@.len() == 14);
    assert("ban-drop-column"@.len() == 15);
    assert("ban-drop-table"@.len() == 14);
    assert("ban-drop-not-null"@.len() == 17);
    assert("transaction-nesting"@.len() == 19);
    assert("adding-required-field"@.len() == 21);
    assert("ban-concurrent-index-creation-in-transaction"@.len() == 44);
    assert("ban-create-domain-with-constraint"@.len() == 33);
    assert("ban-alter-domain-with-add-constraint"@.len() == 36);
    assert("ban-duplicate-column-assignments"@.len() == 32);
    assert("ban-truncate-cascade"@.len() == 20);
    assert("ban-uncommitted-transaction"@.len() == 27);
    assert("identifier-too-long"@.len() == 19);
    assert("prefer-big-int"@.len() == 14);
    assert("prefer-repack"@.len() == 13);
    assert("prefer-timestamp-tz"@.len() == 19);
    assert("require-concurrent-index-deletion"@[25] != "require-concurrent-index-creation"@[25]);
    assert("adding-not-nullable-field"@[7] != "adding-field-with-default"@[7]);
    assert("disallowed-unique-constraint"@[0] != "constraint-missing-not-valid"@[0]);
    assert("prefer-identity"@[0] != "renaming-column"@[0]);
    assert("prefer-text-field"@[0] != "ban-drop-database"@[0]);
    assert("ban-char-field"@[0] != "renaming-table"@[0]);
    assert("ban-drop-column"@[0] != "renaming-column"@[0]);
    assert("ban-drop-column"@[0] != "prefer-identity"@[0]);
    assert("ban-drop-table"@[0] != "renaming-table"@[0]);
    assert("ban-drop-table"@[4] != "ban-char-field"@[4]);
    assert("ban-drop-not-null"@[9] != "ban-drop-database"@[9]);
    assert("ban-drop-not-null"@[0] != "prefer-text-field"@[0]);
    assert("transaction-nesting"@[0] != "prefer-robust-stmts"@[0]);
    assert("ban-create-domain-with-constraint"@[0] != "require-concurrent-index-creation"@[0]);
    assert("ban-create-domain-with-constraint"@[0] != "require-concurrent-index-deletion"@[0]);
    assert("ban-truncate-cascade"@[0] != "changing-column-type"@[0]);
    assert("ban-uncommitted-transaction"@[0] != "prefer-bigint-over-smallint"@[0]);
    assert("identifier-too-long"@[0] != "prefer-robust-stmts"@[0]);
    assert("identifier-too-long"@[0] != "transaction-nesting"@[0]);
    assert("prefer-big-int"@[0] != "renaming-table"@[0]);
    assert("prefer-big-int"@[0] != "ban-char-field"@[0]);
    assert("prefer-big-int"@[0] != "ban-drop-table"@[0]);
    assert("prefer-timestamp-tz"@[7] != "prefer-robust-stmts"@[7]);
    assert("prefer-timestamp-tz"@[0] != "transaction-nesting"@[0]);
    assert("prefer-timestamp-tz"@[0] != "identifier-too-long"@[0]);
}

/// A rule name that no rule answers to.
#[derive(Debug, Clone, PartialEq, Eq)]
pub struct UnknownRuleName {
    val: String,
}

impl View for UnknownRuleName {
    type V = Seq<char>;

    closed spec fn view(&self) -> Seq<char> {
        self.val@
    }
}

impl UnknownRuleName {
    pub fn new(val: String) -> (u: UnknownRuleName)
        ensures
            u@ == val@,
    {
        UnknownRuleName { val }
    }

    /// The message shown for the unknown name.
    pub fn message(&self) -> (r: String)
        ensures
            r@ == "invalid rule name "@ + self@,
    {
        let mut r = string_of("invalid rule name ");
        push_str(&mut r, self.val.as_str());
        r
    }
}

/// A rule violation found in the linted text.
#[derive(Debug, Clone, PartialEq, Eq)]
pub struct Violation {
    pub code: Rule,
    pub message: String,
    pub text_range: TextRange,
    pub help: Option<String>,
    pub fix: Option<Fix>,
}

pub struct ViolationView {
    pub code: Rule,
    pub message: Seq<char>,
    pub text_range: TextRange,
    pub help: Option<Seq<char>>,
    pub fix: Option<FixView>,
}

impl View for Violation {
    type V = ViolationView;

    open spec fn view(&self) -> ViolationView {
        ViolationView {
            code: self.code,
            message: self.message@,
            text_range: self.text_range,
            help: opt_text(self.help),
            fix: opt_fix(self.fix),
        }
    }
}

/// A violation with no help and no fix.
pub open spec fn plain_violation(code: Rule, message: Seq<char>, text_range: TextRange) -> ViolationView {
    ViolationView { code, message, text_range, help: None, fix: None }
}

impl Violation {
    pub fn new(code: Rule, message: String, text_range: TextRange, help: Option<String>) -> (v: Violation)
        ensures
            v@ == (ViolationView { code, message: message@, text_range, help: opt_text(help), fix: None }),
    {
        Violation { code, message, text_range, help, fix: None }
    }

    pub fn for_range(code: Rule, message: String, text_range: TextRange) -> (v: Violation)
        ensures
            v@ == plain_violation(code, message@, text_range),
    {
        Violation { code, message, text_range, help: None, fix: None }
    }

    /// The same violation with `help` attached.
    pub fn help(self, help: &str) -> (v: Violation)
        ensures
            v@ == (ViolationView { help: Some(help@), ..self@ }),
    {
        Violation { help: Some(string_of(help)), ..self }
    }

    /// The same violation with `fix` attached.
    pub fn fix(self, fix: Option<Fix>) -> (v: Violation)
        ensures
            v@ == (ViolationView { fix: opt_fix(fix), ..self@ }),
    {
        Violation { fix, ..self }
    }
}

/// The views of a run of violations.
pub open spec fn views(vs: Seq<Violation>) -> Seq<ViolationView> {
    vs.map_values(|v: Violation| v@)
}

fn copy_text(t: &Option<String>) -> (r: Option<String>)
    ensures
        opt_text(r) == opt_text(*t),
{
    match t {
        Some(s) => Some(s.clone()),
        None => None,
    }
}

impl Edit {
    /// A copy of the edit.
    pub fn duplicate(&self) -> (e: Edit)
        ensures
            e@ == self@,
    {
        Edit { text_range: self.text_range, text: copy_text(&self.text) }
    }
}

impl Fix {
    /// A copy of the fix.
    pub fn duplicate(&self) -> (f: Fix)
        ensures
            f@ == self@,
    {
        let mut edits: Vec<Edit> = Vec::new();
        let mut i: usize = 0;
        while i < self.edits.len()
            invariant
                i <= self.edits@.len(),
                edits@.map_values(|e: Edit| e@) == self.edits@.take(i as int).map_values(|e: Edit| e@),
            decreases self.edits@.len() - i,
        {
            edits.push(self.edits[i].duplicate());
            proof {
                assert(self.edits@.take(i + 1).map_values(|e: Edit| e@) =~= self.edits@.take(i as int).map_values(
                    |e: Edit| e@,
                ).push(self.edits@[i as int]@));
                assert(edits@.map_values(|e: Edit| e@) =~= self.edits@.take(i + 1).map_values(|e: Edit| e@));
            }
            i = i + 1;
        }
        proof {
            assert(self.edits@.take(self.edits@.len() as int) =~= self.edits@);
        }
        Fix { title: self.title.clone(), edits }
    }
}

impl Violation {
    /// A copy of the violation.
    pub fn duplicate(&self) -> (v: Violation)
        ensures
            v@ == self@,
    {
        let fix = match &self.fix {
            Some(f) => Some(f.duplicate()),
            None => None,
        };
        Violation {
            code: self.code,
            message: self.message.clone(),
            text_range: self.text_range,
            help: copy_text(&self.help),
            fix,
        }
    }
}

} // verus!
