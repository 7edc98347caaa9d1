//! The classification of tokens for highlighting.
use vstd::prelude::*;
use crate::ide::location::LocationKind;
use crate::linter::TextRange;

verus! {

/// A modifier of a semantic token.
#[derive(Clone, Copy, Debug, PartialEq, Eq, Hash, PartialOrd, Ord, Structural)]
pub enum SemanticTokenModifier {
    Definition,
    Readonly,
    Documentation,
}

/// The types of semantic token the language server reports.
#[derive(Debug, Clone, Copy, PartialEq, Eq, Hash, Structural)]
pub enum SemanticTokenType {
    Keyword,
    String,
    Bool,
    Number,
    Function,
    Operator,
    Punctuation,
    Name,
    NameRef,
    Comment,
    Column,
    Type,
    Parameter,
    PositionalParam,
    Table,
    Schema,
}

/// A semantic token with its position and classification.
#[derive(Debug, Clone, Copy, PartialEq, Eq, Structural)]
pub struct SemanticToken {
    pub range: TextRange,
    pub token_type: SemanticTokenType,
    pub modifiers: Option<SemanticTokenModifier>,
}

/// The token type a name referring to a definition of kind `kind` is shown
/// with, if any.
pub open spec fn token_type_of(kind: LocationKind) -> Option<SemanticTokenType> {
    match kind {
        LocationKind::Aggregate | LocationKind::Function | LocationKind::Procedure => Some(SemanticTokenType::Function),
        LocationKind::Column => Some(SemanticTokenType::Column),
        LocationKind::NamedArgParameter => Some(SemanticTokenType::Parameter),
        LocationKind::Schema => Some(SemanticTokenType::Schema),
        LocationKind::Sequence | LocationKind::Table | LocationKind::View => Some(SemanticTokenType::Table),
        LocationKind::Type => Some(SemanticTokenType::Type),
        _ => None,
    }
}

impl SemanticTokenType {
    /// The token type for a definition of kind `kind`, or the kind back when
    /// such names are not highlighted specially.
    pub fn try_from(kind: LocationKind) -> (r: Result<SemanticTokenType, LocationKind>)
        ensures
            match token_type_of(kind) {
                Some(t) => r == Ok::<SemanticTokenType, LocationKind>(t),
                None => r == Err::<SemanticTokenType, LocationKind>(kind),
            },
    {
        match kind {
            LocationKind::Aggregate | LocationKind::Function | LocationKind::Procedure => {
                Ok(SemanticTokenType::Function)
            },
            LocationKind::Column => Ok(SemanticTokenType::Column),
            LocationKind::NamedArgParameter => Ok(SemanticTokenType::Parameter),
            LocationKind::Schema => Ok(SemanticTokenType::Schema),
            LocationKind::Sequence | LocationKind::Table | LocationKind::View => Ok(SemanticTokenType::Table),
            LocationKind::Type => Ok(SemanticTokenType::Type),
            _ => Err(kind),
        }
    }
}

} // verus!
