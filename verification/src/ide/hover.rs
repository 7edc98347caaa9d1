//! What hovering over a name shows: a SQL snippet and, maybe, a comment.
use vstd::prelude::*;
use crate::linter::string_of;
use crate::text::push_str;

verus! {

/// A hover: a SQL snippet, with the comment that documents it if there is one.
#[derive(Clone, Debug, Eq, PartialEq)]
pub struct Hover {
    pub snippet: String,
    pub comment: Option<String>,
}

/// A hover as the specifications see it.
pub struct HoverView {
    pub snippet: Seq<char>,
    pub comment: Option<Seq<char>>,
}

impl View for Hover {
    type V = HoverView;

    open spec fn view(&self) -> HoverView {
        HoverView {
            snippet: self.snippet@,
            comment: match self.comment {
                Some(c) => Some(c@),
                None => None,
            },
        }
    }
}

/// The markdown shown for a hover: the snippet in a `sql` code block, then a
/// rule and the comment if there is one.
pub open spec fn hover_markdown(h: HoverView) -> Seq<char> {
    let code = "\n```sql\n"@ + h.snippet + "\n```\n"@;
    match h.comment {
        Some(c) => code + "---\n"@ + c + "\n"@,
        None => code,
    }
}

/// The snippets of `hs`, one per line.
pub open spec fn joined_snippets(hs: Seq<HoverView>) -> Seq<char>
    decreases hs.len(),
{
    if hs.len() == 0 {
        seq![]
    } else if hs.len() == 1 {
        hs[0].snippet
    } else {
        joined_snippets(hs.drop_last()) + "\n"@ + hs.last().snippet
    }
}

impl Hover {
    /// A hover with `snippet` and no comment.
    pub fn snippet(snippet: String) -> (h: Hover)
        ensures
            h@ == (HoverView { snippet: snippet@, comment: None }),
    {
        Hover { snippet, comment: None }
    }

    /// A hover with `snippet` and `comment`.
    pub fn new(snippet: String, comment: String) -> (h: Hover)
        ensures
            h@ == (HoverView { snippet: snippet@, comment: Some(comment@) }),
    {
        Hover { snippet, comment: Some(comment) }
    }

    /// The hover as markdown.
    pub fn markdown(&self) -> (r: String)
        ensures
            r@ == hover_markdown(self@),
    {
        let mut out = string_of("\n```sql\n");
        push_str(&mut out, self.snippet.as_str());
        push_str(&mut out, "\n```\n");
        if let Some(comment) = &self.comment {
            push_str(&mut out, "---\n");
            push_str(&mut out, comment.as_str());
            push_str(&mut out, "\n");
        }
        out
    }
}

/// One hover whose snippet holds the snippets of `hovers`, one per line; none
/// when there are no hovers.
pub fn merge_hovers(hovers: Vec<Hover>) -> (r: Option<Hover>)
    ensures
        hovers@.len() == 0 ==> r is None,
        hovers@.len() > 0 ==> (r matches Some(h) && h@ == (HoverView {
            snippet: joined_snippets(hovers@.map_values(|h: Hover| h@)),
            comment: None,
        })),
{
    if hovers.len() == 0 {
        return None;
    }
    let ghost hs = hovers@.map_values(|h: Hover| h@);
    let mut joined = String::new();
    let mut i: usize = 0;
    while i < hovers.len()
        invariant
            hs == hovers@.map_values(|h: Hover| h@),
            hovers@.len() > 0,
            i <= hovers@.len(),
            joined@ == joined_snippets(hs.take(i as int)),
        decreases hovers@.len() - i,
    {
        proof {
            assert(hs.take(i + 1).drop_last() =~= hs.take(i as int));
            assert(hs.take(i + 1).last() == hovers@[i as int]@);
        }
        if i > 0 {
            push_str(&mut joined, "\n");
        } else {
            proof {
                assert(joined@ =~= Seq::<char>::empty());
            }
        }
        push_str(&mut joined, hovers[i].snippet.as_str());
        proof {
            if i == 0 {
                assert(joined@ =~= hs.take(1)[0].snippet);
            }
        }
        i = i + 1;
    }
    proof {
        assert(hs.take(hovers@.len() as int) =~= hs);
    }
    Some(Hover::snippet(joined))
}

/// The snippets that name columns.
pub struct ColumnHover;

impl ColumnHover {
    /// `column table.column`
    pub fn table_column(table_name: &str, column_name: &str) -> (r: String)
        ensures
            r@ == "column "@ + table_name@ + "."@ + column_name@,
    {
        let mut r = string_of("column ");
        push_str(&mut r, table_name);
        push_str(&mut r, ".");
        push_str(&mut r, column_name);
        r
    }

    /// `column table.column type`
    pub fn table_column_type(table_name: &str, column_name: &str, ty: &str) -> (r: String)
        ensures
            r@ == "column "@ + table_name@ + "."@ + column_name@ + " "@ + ty@,
    {
        let mut r = ColumnHover::table_column(table_name, column_name);
        push_str(&mut r, " ");
        push_str(&mut r, ty);
        r
    }

    /// `column schema.table.column type`
    pub fn schema_table_column_type(schema: &str, table_name: &str, column_name: &str, ty: &str) -> (r: String)
        ensures
            r@ == "column "@ + schema@ + "."@ + table_name@ + "."@ + column_name@ + " "@ + ty@,
    {
        let mut r = ColumnHover::schema_table_column(schema, table_name, column_name);
        push_str(&mut r, " ");
        push_str(&mut r, ty);
        r
    }

    /// `column schema.table.column`
    pub fn schema_table_column(schema: &str, table_name: &str, column_name: &str) -> (r: String)
        ensures
            r@ == "column "@ + schema@ + "."@ + table_name@ + "."@ + column_name@,
    {
        let mut r = string_of("column ");
        push_str(&mut r, schema);
        push_str(&mut r, ".");
        push_str(&mut r, table_name);
        push_str(&mut r, ".");
        push_str(&mut r, column_name);
        r
    }

    /// `column name`
    pub fn anon_column(col_name: &str) -> (r: String)
        ensures
            r@ == "column "@ + col_name@,
    {
        let mut r = string_of("column ");
        push_str(&mut r, col_name);
        r
    }

    /// `column name type`
    pub fn anon_column_type(col_name: &str, ty: &str) -> (r: String)
        ensures
            r@ == "column "@ + col_name@ + " "@ + ty@,
    {
        let mut r = ColumnHover::anon_column(col_name);
        push_str(&mut r, " ");
        push_str(&mut r, ty);
        r
    }
}

} // verus!
