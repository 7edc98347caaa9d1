//! `ban-duplicate-column-assignments`: assigning one column twice in a `SET`
//! list or naming it twice in an `INSERT` column list is an error, or a
//! mistake when one of the assignments is to a part of the column.
use vstd::prelude::*;
use vstd::string::StringSliceAdditionalSpecFns;
use vstd::utf8::{decode_utf8, encode_utf8, is_char_boundary};
use crate::lint::Linter;
use crate::linter::{string_of, Edit, EditView, Fix, FixView, Rule, TextRange, Violation, ViolationView};
use crate::rules::{concat_map, lemma_concat_map_step, lemma_take_all, reports};
use crate::rules::identifier_too_long::{floor_boundary, truncated_text, MAX_IDENT_BYTES};
use crate::syntax::{set_list_ok, ColumnAssignments, ColumnTarget, SetColumn, SourceFile};
use crate::text::{contains_string, push_str};

verus! {

broadcast use vstd::utf8::encode_utf8_decode_utf8;

/// An assignment to a named column, as the rule sees it: the name it is
/// grouped by (cut to 63 bytes, as Postgres does), its range, whether it is
/// to a part of the column, and which assignment of the `SET` list it is in.
pub struct Assigned {
    pub name: Seq<char>,
    pub range: TextRange,
    pub partial: bool,
    pub set_index: int,
}

/// The assignments to named columns among `ts`, the targets of the
/// assignment at `index`.
pub open spec fn target_assignments(ts: Seq<ColumnTarget>, index: int) -> Seq<Assigned>
    decreases ts.len(),
{
    if ts.len() == 0 {
        seq![]
    } else {
        let rest = target_assignments(ts.drop_last(), index);
        match ts.last().name {
            Some((n, r)) => rest.push(
                Assigned { name: truncated_text(n@), range: r, partial: ts.last().partial, set_index: index },
            ),
            None => rest,
        }
    }
}

/// The assignments to named columns of a `SET` list.
pub open spec fn set_assignments(cols: Seq<SetColumn>) -> Seq<Assigned>
    decreases cols.len(),
{
    if cols.len() == 0 {
        seq![]
    } else {
        set_assignments(cols.drop_last()) + target_assignments(cols.last().targets@, cols.len() - 1)
    }
}

/// The names assigned, each once, in the order they first appear.
pub open spec fn distinct_names(a: Seq<Assigned>) -> Seq<Seq<char>>
    decreases a.len(),
{
    if a.len() == 0 {
        seq![]
    } else {
        let d = distinct_names(a.drop_last());
        if d.contains(a.last().name) {
            d
        } else {
            d.push(a.last().name)
        }
    }
}

/// The assignments to the name `n`, in order.
pub open spec fn with_name(a: Seq<Assigned>, n: Seq<char>) -> Seq<Assigned>
    decreases a.len(),
{
    if a.len() == 0 {
        seq![]
    } else {
        let r = with_name(a.drop_last(), n);
        if a.last().name == n {
            r.push(a.last())
        } else {
            r
        }
    }
}

pub open spec fn all_partial(g: Seq<Assigned>) -> bool {
    forall|k: int| 0 <= k < g.len() ==> (#[trigger] g[k]).partial
}

/// Where the deletion of the assignment at `i` ends: at the comment after its
/// comma, or else at the next assignment.
pub open spec fn deletion_end(cols: Seq<SetColumn>, i: int) -> u32 {
    match cols[i].comment_after_comma {
        Some(c) => c,
        None => cols[i + 1].range.start,
    }
}

/// The edits that delete the assignments `g`, when each is a single
/// assignment followed by another.
pub open spec fn delete_edits(g: Seq<Assigned>, cols: Seq<SetColumn>) -> Option<Seq<EditView>>
    decreases g.len(),
{
    if g.len() == 0 {
        Some(seq![])
    } else {
        match delete_edits(g.drop_last(), cols) {
            None => None,
            Some(es) => {
                let i = g.last().set_index;
                if 0 <= i && i + 1 < cols.len() && cols[i].single {
                    Some(
                        es.push(
                            EditView {
                                text_range: TextRange { start: cols[i].range.start, end: deletion_end(cols, i) },
                                text: None,
                            },
                        ),
                    )
                } else {
                    None
                }
            },
        }
    }
}

/// The fix for the assignments `g` to `n` of the `SET` list `cols`: delete
/// all of them but the last.
pub open spec fn delete_fix(n: Seq<char>, g: Seq<Assigned>, cols: Seq<SetColumn>) -> Option<FixView> {
    match delete_edits(g.drop_last(), cols) {
        Some(es) => Some(FixView { title: "Delete all but the last assignment to `"@ + n + "`"@, edits: es }),
        None => None,
    }
}

pub open spec fn duplicate_violation(n: Seq<char>, range: TextRange, fix: Option<FixView>) -> ViolationView {
    ViolationView {
        code: Rule::BanDuplicateColumnAssignments,
        message: "Multiple assignments to the same column `"@ + n + "`."@,
        text_range: range,
        help: None,
        fix,
    }
}

/// What the rule reports for the assignments `g` to `n`: each of them, the
/// last with the fix, when there are two or more and not all are to a part
/// of the column.
pub open spec fn group_reports(n: Seq<char>, g: Seq<Assigned>, fix: Option<FixView>) -> Seq<ViolationView> {
    if g.len() < 2 || all_partial(g) {
        seq![]
    } else {
        g.drop_last().map_values(|a: Assigned| duplicate_violation(n, a.range, None)).push(
            duplicate_violation(n, g.last().range, fix),
        )
    }
}

/// The reports for the names `names`, in order; `cols` is the `SET` list the
/// assignments are in, if any.
pub open spec fn names_reports(names: Seq<Seq<char>>, a: Seq<Assigned>, cols: Option<Seq<SetColumn>>) -> Seq<ViolationView>
    decreases names.len(),
{
    if names.len() == 0 {
        seq![]
    } else {
        let n = names.last();
        let g = with_name(a, n);
        names_reports(names.drop_last(), a, cols) + group_reports(
            n,
            g,
            match cols {
                Some(c) => delete_fix(n, g, c),
                None => None,
            },
        )
    }
}

/// What the rule reports for one list of columns that receive values.
pub open spec fn assignment_violations(c: ColumnAssignments) -> Seq<ViolationView> {
    match c {
        ColumnAssignments::Update { set_columns } => {
            let a = set_assignments(set_columns@);
            names_reports(distinct_names(a), a, Some(set_columns@))
        },
        ColumnAssignments::Insert { targets } => {
            let a = target_assignments(targets@, 0);
            names_reports(distinct_names(a), a, None)
        },
    }
}

/// An assignment to a named column, held as strings.
pub struct AssignedName {
    pub name: String,
    pub range: TextRange,
    pub partial: bool,
    pub set_index: usize,
}

impl View for AssignedName {
    type V = Assigned;

    open spec fn view(&self) -> Assigned {
        Assigned { name: self.name@, range: self.range, partial: self.partial, set_index: self.set_index as int }
    }
}

pub open spec fn assigned_views(v: Seq<AssignedName>) -> Seq<Assigned> {
    v.map_values(|a: AssignedName| a@)
}

fn copy_assigned(a: &AssignedName) -> (r: AssignedName)
    ensures
        r@ == a@,
{
    AssignedName { name: a.name.clone(), range: a.range, partial: a.partial, set_index: a.set_index }
}

/// `text` cut to its first 63 bytes, backing off to a whole character.
pub fn truncate_name(text: &str) -> (r: String)
    ensures
        r@ == truncated_text(text@),
{
    let ghost b = text.spec_bytes();
    let len = text.as_bytes().len();
    let mut k: usize = if len < MAX_IDENT_BYTES { len } else { MAX_IDENT_BYTES };
    proof {
        if len < 63 {
            lemma_floor_boundary_past_end(b, 63);
        }
    }
    while k > 0 && !text.is_char_boundary(k)
        invariant
            k <= 63,
            k <= b.len(),
            b == text.spec_bytes(),
            floor_boundary(b, k as int) == floor_boundary(b, 63),
        decreases k,
    {
        k = k - 1;
    }
    proof {
        vstd::utf8::encode_utf8_valid_utf8(text@);
        if k == 0 {
            vstd::utf8::is_char_boundary_start_end_of_seq(b);
        }
    }
    let truncated = text.split_at(k).0;
    proof {
        assert(truncated.spec_bytes() == b.subrange(0, floor_boundary(b, 63)));
        assert(truncated@ == decode_utf8(encode_utf8(truncated@)));
    }
    string_of(truncated)
}

/// Past the end of `b`, the floor boundary is the end of `b`.
proof fn lemma_floor_boundary_past_end(b: Seq<u8>, j: int)
    requires
        b.len() < j,
    ensures
        floor_boundary(b, j) == floor_boundary(b, b.len() as int),
    decreases j - b.len(),
{
    if j - 1 > b.len() {
        lemma_floor_boundary_past_end(b, j - 1);
    }
}

fn collect_targets(ts: &Vec<ColumnTarget>, index: usize, out: &mut Vec<AssignedName>)
    ensures
        assigned_views(final(out)@) == assigned_views(old(out)@) + target_assignments(ts@, index as int),
{
    let mut i: usize = 0;
    while i < ts.len()
        invariant
            i <= ts@.len(),
            assigned_views(out@) == assigned_views(old(out)@) + target_assignments(ts@.take(i as int), index as int),
        decreases ts@.len() - i,
    {
        proof {
            assert(ts@.take(i + 1).drop_last() =~= ts@.take(i as int));
        }
        let ghost before = out@;
        match &ts[i].name {
            Some((n, r)) => {
                out.push(
                    AssignedName { name: truncate_name(n.as_str()), range: *r, partial: ts[i].partial, set_index: index },
                );
                proof {
                    assert(assigned_views(out@) =~= assigned_views(before).push(out@.last()@));
                }
            },
            None => {},
        }
        proof {
            assert(assigned_views(out@) =~= assigned_views(old(out)@) + target_assignments(ts@.take(i + 1), index as int));
        }
        i = i + 1;
    }
    proof {
        assert(ts@.take(ts@.len() as int) =~= ts@);
    }
}

fn collect_set_columns(cols: &Vec<SetColumn>) -> (out: Vec<AssignedName>)
    ensures
        assigned_views(out@) == set_assignments(cols@),
{
    let mut out: Vec<AssignedName> = Vec::new();
    let mut i: usize = 0;
    proof {
        assert(assigned_views(out@) =~= Seq::<Assigned>::empty());
    }
    while i < cols.len()
        invariant
            i <= cols@.len(),
            assigned_views(out@) == set_assignments(cols@.take(i as int)),
        decreases cols@.len() - i,
    {
        proof {
            assert(cols@.take(i + 1).drop_last() =~= cols@.take(i as int));
        }
        collect_targets(&cols[i].targets, i, &mut out);
        i = i + 1;
    }
    proof {
        assert(cols@.take(cols@.len() as int) =~= cols@);
    }
    out
}

fn distinct(a: &Vec<AssignedName>) -> (names: Vec<String>)
    ensures
        names@.map_values(|s: String| s@) == distinct_names(assigned_views(a@)),
{
    let ghost av = assigned_views(a@);
    let mut names: Vec<String> = Vec::new();
    let mut i: usize = 0;
    proof {
        assert(names@.map_values(|s: String| s@) =~= Seq::<Seq<char>>::empty());
    }
    while i < a.len()
        invariant
            i <= a@.len(),
            av == assigned_views(a@),
            names@.map_values(|s: String| s@) == distinct_names(av.take(i as int)),
        decreases a@.len() - i,
    {
        proof {
            assert(av.take(i + 1).drop_last() =~= av.take(i as int));
            assert(av.take(i + 1).last() == a@[i as int]@);
        }
        if !contains_string(&names, &a[i].name) {
            let ghost before = names@;
            names.push(a[i].name.clone());
            proof {
                assert(names@.map_values(|s: String| s@) =~= before.map_values(|s: String| s@).push(a@[i as int].name@));
            }
        }
        i = i + 1;
    }
    proof {
        assert(av.take(a@.len() as int) =~= av);
    }
    names
}

fn group(a: &Vec<AssignedName>, n: &String) -> (g: Vec<AssignedName>)
    ensures
        assigned_views(g@) == with_name(assigned_views(a@), n@),
{
    let ghost av = assigned_views(a@);
    let mut g: Vec<AssignedName> = Vec::new();
    let mut i: usize = 0;
    proof {
        assert(assigned_views(g@) =~= Seq::<Assigned>::empty());
    }
    while i < a.len()
        invariant
            i <= a@.len(),
            av == assigned_views(a@),
            assigned_views(g@) == with_name(av.take(i as int), n@),
        decreases a@.len() - i,
    {
        proof {
            assert(av.take(i + 1).drop_last() =~= av.take(i as int));
            assert(av.take(i + 1).last() == a@[i as int]@);
        }
        if a[i].name == *n {
            let ghost before = g@;
            g.push(copy_assigned(&a[i]));
            proof {
                assert(assigned_views(g@) =~= assigned_views(before).push(a@[i as int]@));
            }
        }
        i = i + 1;
    }
    proof {
        assert(av.take(a@.len() as int) =~= av);
    }
    g
}

fn make_delete_fix(n: &String, g: &Vec<AssignedName>, cols: &Vec<SetColumn>) -> (f: Option<Fix>)
    requires
        g@.len() >= 1,
        set_list_ok(ColumnAssignments::Update { set_columns: *cols }),
    ensures
        opt_fix_view(f) == delete_fix(n@, assigned_views(g@), cols@),
{
    let ghost gv = assigned_views(g@);
    let mut edits: Vec<Edit> = Vec::new();
    let mut k: usize = 0;
    proof {
        assert(edits@.map_values(|e: Edit| e@) =~= Seq::<EditView>::empty());
    }
    while k < g.len() - 1
        invariant
            k + 1 <= g@.len(),
            gv == assigned_views(g@),
            set_list_ok(ColumnAssignments::Update { set_columns: *cols }),
            delete_edits(gv.take(k as int), cols@) == Some(edits@.map_values(|e: Edit| e@)),
        decreases g@.len() - k,
    {
        proof {
            assert(gv.take(k + 1).drop_last() =~= gv.take(k as int));
            assert(gv.take(k + 1).last() == g@[k as int]@);
        }
        let i = g[k].set_index;
        if cols.len() > 0 && i < cols.len() - 1 && cols[i].single {
            let end = match cols[i].comment_after_comma {
                Some(c) => c,
                None => cols[i + 1].range.start,
            };
            assert(cols@[i as int].range.start <= end);
            let ghost before = edits@;
            edits.push(Edit::delete(TextRange::new(cols[i].range.start, end)));
            proof {
                assert(edits@.map_values(|e: Edit| e@) =~= before.map_values(|e: Edit| e@).push(edits@.last()@));
            }
        } else {
            proof {
                lemma_delete_edits_none(gv, cols@, k as int);
                assert(gv.drop_last() =~= gv.take(gv.len() - 1));
            }
            return None;
        }
        k = k + 1;
    }
    proof {
        assert(gv.drop_last() =~= gv.take(k as int));
    }
    let mut title = string_of("Delete all but the last assignment to `");
    push_str(&mut title, n.as_str());
    push_str(&mut title, "`");
    Some(Fix { title, edits })
}

pub open spec fn opt_fix_view(f: Option<Fix>) -> Option<FixView> {
    match f {
        Some(x) => Some(x@),
        None => None,
    }
}

/// Once the edits fail for a prefix, they fail for every longer one.
proof fn lemma_delete_edits_none(g: Seq<Assigned>, cols: Seq<SetColumn>, k: int)
    requires
        0 <= k < g.len(),
        delete_edits(g.take(k + 1), cols) is None,
    ensures
        delete_edits(g.take(g.len() - 1), cols) is None || k == g.len() - 1,
    decreases g.len() - k,
{
    if k + 1 < g.len() - 1 {
        assert(g.take(k + 2).drop_last() =~= g.take(k + 1));
        lemma_delete_edits_none(g, cols, k + 1);
    }
}

fn report_group(ctx: &mut Linter, n: &String, g: &Vec<AssignedName>, fix: Option<Fix>)
    requires
        g@.len() >= 2,
    ensures
        reports(*old(ctx), *final(ctx), group_reports(n@, assigned_views(g@), opt_fix_view(fix))),
        !all_partial(assigned_views(g@)) || final(ctx).reported() == old(ctx).reported(),
{
    let ghost gv = assigned_views(g@);
    let mut all = true;
    let mut k: usize = 0;
    while k < g.len()
        invariant
            k <= g@.len(),
            gv == assigned_views(g@),
            all == forall|j: int| 0 <= j < k ==> (#[trigger] gv[j]).partial,
        decreases g@.len() - k,
    {
        proof {
            assert(gv[k as int] == g@[k as int]@);
        }
        if !g[k].partial {
            all = false;
        }
        k = k + 1;
    }
    if all {
        proof {
            assert(old(ctx).reported() + group_reports(n@, gv, opt_fix_view(fix)) =~= old(ctx).reported());
        }
        return;
    }
    let ghost plain = gv.drop_last().map_values(|a: Assigned| duplicate_violation(n@, a.range, None));
    let mut j: usize = 0;
    while j < g.len() - 1
        invariant
            j + 1 <= g@.len(),
            gv == assigned_views(g@),
            plain == gv.drop_last().map_values(|a: Assigned| duplicate_violation(n@, a.range, None)),
            reports(*old(ctx), *ctx, plain.take(j as int)),
        decreases g@.len() - j,
    {
        let mut message = string_of("Multiple assignments to the same column `");
        push_str(&mut message, n.as_str());
        push_str(&mut message, "`.");
        let v = Violation::for_range(Rule::BanDuplicateColumnAssignments, message, g[j].range);
        proof {
            assert(plain[j as int] == duplicate_violation(n@, gv[j as int].range, None));
            assert(gv[j as int] == g@[j as int]@);
            assert(v@ == plain[j as int]);
        }
        ctx.report(v);
        proof {
            assert(plain.take(j + 1) =~= plain.take(j as int).push(plain[j as int]));
            assert(ctx.reported() =~= old(ctx).reported() + plain.take(j + 1));
        }
        j = j + 1;
    }
    let last = g.len() - 1;
    let mut message = string_of("Multiple assignments to the same column `");
    push_str(&mut message, n.as_str());
    push_str(&mut message, "`.");
    let ghost fv = opt_fix_view(fix);
    let v = Violation::for_range(Rule::BanDuplicateColumnAssignments, message, g[last].range).fix(fix);
    proof {
        assert(gv.last() == g@[last as int]@);
        assert(v@ == duplicate_violation(n@, gv.last().range, fv));
        assert(plain.take(j as int) =~= plain);
    }
    ctx.report(v);
    proof {
        assert(ctx.reported() =~= old(ctx).reported() + group_reports(n@, gv, fv));
    }
}

fn check_list(ctx: &mut Linter, c: &ColumnAssignments)
    requires
        set_list_ok(*c),
    ensures
        reports(*old(ctx), *final(ctx), assignment_violations(*c)),
{
    let (a, cols) = match c {
        ColumnAssignments::Update { set_columns } => (collect_set_columns(set_columns), Some(set_columns)),
        ColumnAssignments::Insert { targets } => {
            let mut out: Vec<AssignedName> = Vec::new();
            proof {
                assert(assigned_views(out@) =~= Seq::<Assigned>::empty());
            }
            collect_targets(targets, 0, &mut out);
            proof {
                assert(assigned_views(out@) =~= target_assignments(targets@, 0));
            }
            (out, None)
        },
    };
    let ghost av = assigned_views(a@);
    let ghost cols_view: Option<Seq<SetColumn>> = match cols {
        Some(x) => Some(x@),
        None => None,
    };
    proof {
        assert(assignment_violations(*c) == names_reports(distinct_names(av), av, cols_view));
    }
    let names = distinct(&a);
    let ghost nv = names@.map_values(|s: String| s@);
    let mut i: usize = 0;
    proof {
        assert(old(ctx).reported() =~= old(ctx).reported() + names_reports(nv.take(0), av, cols_view));
    }
    while i < names.len()
        invariant
            i <= names@.len(),
            nv == names@.map_values(|s: String| s@),
            nv == distinct_names(av),
            av == assigned_views(a@),
            cols_view == (match cols {
                Some(x) => Some(x@),
                None => None::<Seq<SetColumn>>,
            }),
            cols matches Some(x) ==> set_list_ok(ColumnAssignments::Update { set_columns: *x }),
            reports(*old(ctx), *ctx, names_reports(nv.take(i as int), av, cols_view)),
        decreases names@.len() - i,
    {
        proof {
            assert(nv.take(i + 1).drop_last() =~= nv.take(i as int));
            assert(nv.take(i + 1).last() == names@[i as int]@);
        }
        let g = group(&a, &names[i]);
        let ghost gv = assigned_views(g@);
        let ghost fix_view = match cols_view {
            Some(cv) => delete_fix(names@[i as int]@, gv, cv),
            None => None,
        };
        let ghost before = *ctx;
        if g.len() >= 2 {
            let fix = match cols {
                Some(x) => make_delete_fix(&names[i], &g, x),
                None => None,
            };
            proof {
                assert(opt_fix_view(fix) == fix_view);
            }
            report_group(ctx, &names[i], &g, fix);
        } else {
            proof {
                assert(before.reported() + group_reports(names@[i as int]@, gv, fix_view) =~= before.reported());
            }
        }
        proof {
            assert(ctx.reported() =~= old(ctx).reported() + names_reports(nv.take(i + 1), av, cols_view));
        }
        i = i + 1;
    }
    proof {
        assert(nv.take(names@.len() as int) =~= nv);
    }
}

/// Reports the columns assigned more than once in a `SET` list or named more
/// than once in an `INSERT` column list, unless every assignment is to a part
/// of the column.
pub fn ban_duplicate_column_assignments(ctx: &mut Linter, file: &SourceFile)
    requires
        file.assignments_ok(),
    ensures
        reports(
            *old(ctx),
            *final(ctx),
            concat_map(file.column_assignments@, |c: ColumnAssignments| assignment_violations(c)),
        ),
{
    let ghost f = |c: ColumnAssignments| assignment_violations(c);
    let mut i: usize = 0;
    while i < file.column_assignments.len()
        invariant
            i <= file.column_assignments@.len(),
            file.assignments_ok(),
            f == (|c: ColumnAssignments| assignment_violations(c)),
            reports(*old(ctx), *ctx, concat_map(file.column_assignments@.take(i as int), f)),
        decreases file.column_assignments@.len() - i,
    {
        proof {
            lemma_concat_map_step(file.column_assignments@, f, i as int);
        }
        check_list(ctx, &file.column_assignments[i]);
        proof {
            assert(ctx.reported() =~= old(ctx).reported() + concat_map(file.column_assignments@.take(i + 1), f));
        }
        i = i + 1;
    }
    proof {
        lemma_take_all(file.column_assignments@);
    }
}

} // verus!
