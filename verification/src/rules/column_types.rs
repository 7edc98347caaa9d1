//! What the column type rules read of a type: the name it is called by and
//! its first token.
use vstd::prelude::*;
use crate::syntax::{type_ok, SqlType, TypeName};

verus! {

/// The last segment of the path that names the type, looking through arrays
/// to their element type.
pub open spec fn innermost_name(t: SqlType) -> Option<TypeName>
    decreases t,
{
    match t {
        SqlType::Path { name, .. } => name,
        SqlType::Array { elem: Some(e), .. } => innermost_name(*e),
        _ => None,
    }
}

/// The text of the first token of the type.
pub open spec fn first_token(t: SqlType) -> Option<Seq<char>>
    decreases t,
{
    match t {
        SqlType::Path { first_token, .. } => Some(first_token@),
        SqlType::Char { first_token, .. } => Some(first_token@),
        SqlType::Other { first_token, .. } => Some(first_token@),
        SqlType::Array { elem: Some(e), .. } => first_token(*e),
        SqlType::Array { elem: None, .. } => None,
    }
}

/// The name a type is called by, looking through arrays.
pub fn name_of_type(t: &SqlType) -> (r: Option<&TypeName>)
    ensures
        r matches Some(n) ==> innermost_name(*t) == Some(*n),
        r is None ==> innermost_name(*t) is None,
    decreases t,
{
    match t {
        SqlType::Path { name, .. } => match name {
            Some(n) => Some(n),
            None => None,
        },
        SqlType::Array { elem: Some(e), .. } => name_of_type(&**e),
        _ => None,
    }
}

/// The first token of a type.
pub fn first_token_of(t: &SqlType) -> (r: Option<&String>)
    ensures
        r matches Some(f) ==> first_token(*t) == Some(f@),
        r is None ==> first_token(*t) is None,
    decreases t,
{
    match t {
        SqlType::Path { first_token, .. } => Some(first_token),
        SqlType::Char { first_token, .. } => Some(first_token),
        SqlType::Other { first_token, .. } => Some(first_token),
        SqlType::Array { elem: Some(e), .. } => first_token_of(&**e),
        SqlType::Array { elem: None, .. } => None,
    }
}

/// The range of a type.
pub fn range_of_type(t: &SqlType) -> (r: crate::linter::TextRange)
    ensures
        r == crate::syntax::type_range(*t),
{
    match t {
        SqlType::Path { range, .. } => *range,
        SqlType::Char { range, .. } => *range,
        SqlType::Array { range, .. } => *range,
        SqlType::Other { range, .. } => *range,
    }
}

/// The name a readable type is called by can be read as an identifier.
pub proof fn lemma_innermost_name_ok(t: SqlType)
    requires
        type_ok(t),
    ensures
        innermost_name(t) matches Some(n) ==> n.text@ != seq!['"'],
    decreases t,
{
    match t {
        SqlType::Array { elem: Some(e), .. } => lemma_innermost_name_ok(*e),
        _ => {},
    }
}

} // verus!
