//! Which violations the ignore comments of a file switch off.
use vstd::prelude::*;
use vstd::string::StringSliceAdditionalSpecFns;
use vstd::utf8::is_char_boundary;
use crate::ignore::{Ignore, IgnoreKind, IgnoreView, ignore_views};
use crate::linter::{Rule, TextRange};

verus! {

#[verifier::external_type_specification]
#[verifier::external_body]
pub struct ExLineIndex(line_index::LineIndex);

/// The offsets at which the lines of a `LineIndex`'s text start, after the
/// first line (which starts at 0), in order: its `newlines`.
pub uninterp spec fn index_line_starts(li: line_index::LineIndex) -> Seq<u32>;

/// The length of the text a `LineIndex` was built from: its `len`.
pub uninterp spec fn index_len(li: line_index::LineIndex) -> nat;

/// The characters of two or more bytes that a `LineIndex` records (its
/// `line_wide_chars`), each as the byte offsets in the text where it starts
/// and ends; the index keeps them per line, relative to the line's start.
pub uninterp spec fn index_wide_chars(li: line_index::LineIndex) -> Set<(u32, u32)>;

/// The offsets just after each `\n` of `b`, in order: where its lines after
/// the first start.
pub open spec fn lf_starts(b: Seq<u8>) -> Seq<u32>
    decreases b.len(),
{
    if b.len() == 0 {
        seq![]
    } else if b.last() == 0x0a {
        lf_starts(b.drop_last()).push(b.len() as u32)
    } else {
        lf_starts(b.drop_last())
    }
}

/// The byte ranges of the characters of `b` encoded in two or more bytes:
/// from one character boundary to the next, at least two bytes apart.
pub open spec fn multibyte_spans(b: Seq<u8>) -> Set<(u32, u32)> {
    Set::new(
        |p: (u32, u32)|
            p.0 + 2 <= p.1 <= b.len() && is_char_boundary(b, p.0 as int) && is_char_boundary(b, p.1 as int)
                && forall|k: int| p.0 < k < p.1 ==> !is_char_boundary(b, k),
    )
}

/// How many elements of `s` are at most `x`.
pub open spec fn count_at_most(s: Seq<u32>, x: int) -> nat
    decreases s.len(),
{
    if s.len() == 0 {
        0
    } else {
        count_at_most(s.drop_last(), x) + if s.last() <= x {
            1nat
        } else {
            0nat
        }
    }
}

/// Whether `s` is strictly increasing.
pub open spec fn increasing(s: Seq<u32>) -> bool {
    forall|i: int, j: int| 0 <= i < j < s.len() ==> s[i] < s[j]
}

/// Whether `li` is the line index of the text `b`.
pub open spec fn indexes_text(li: line_index::LineIndex, b: Seq<u8>) -> bool {
    &&& index_line_starts(li) == lf_starts(b)
    &&& index_len(li) == b.len()
    &&& index_wide_chars(li) == multibyte_spans(b)
}

/// How many `\n` bytes `b` holds.
pub open spec fn count_newlines(b: Seq<u8>) -> nat
    decreases b.len(),
{
    if b.len() == 0 {
        0
    } else {
        count_newlines(b.drop_last()) + if b.last() == 0x0a {
            1nat
        } else {
            0nat
        }
    }
}

/// The zero-based line of the byte offset `offset` of `b`.
pub open spec fn line_at(b: Seq<u8>, offset: int) -> nat {
    count_newlines(b.take(offset))
}

/// Builds the line index of `text`.
///
/// Calls `LineIndex::new`, which asserts that the length of `text` is below
/// `u32::MAX` and records the offset after each `\n` (where a line starts),
/// the length of `text`, and where each character of two or more bytes
/// starts and ends.
#[verifier::external_body]
fn new_line_index(text: &str) -> (li: line_index::LineIndex)
    requires
        text.spec_bytes().len() < u32::MAX,
    ensures
        index_line_starts(li) == lf_starts(text.spec_bytes()),
        index_len(li) == text.spec_bytes().len(),
        index_wide_chars(li) == multibyte_spans(text.spec_bytes()),
{
    line_index::LineIndex::new(text)
}

/// The zero-based line of `offset`.
///
/// Calls `LineIndex::line_col` and takes its `line`: the number of recorded
/// line starts at or before `offset` (found by a binary search, so the
/// starts must be in increasing order). `line_col` panics on an offset past
/// the length of the text or strictly inside a recorded character, which the
/// precondition leaves out.
#[verifier::external_body]
fn line_of(li: &line_index::LineIndex, offset: u32) -> (line: u32)
    requires
        offset <= index_len(*li),
        increasing(index_line_starts(*li)),
        forall|p: (u32, u32)| #[trigger] index_wide_chars(*li).contains(p) ==> !(p.0 < offset < p.1),
    ensures
        line == count_at_most(index_line_starts(*li), offset as int),
{
    li.line_col(line_index::TextSize::from(offset)).line
}

/// Counting the elements at most `x` of a sequence whose elements all are
/// counts them all.
proof fn lemma_count_all(s: Seq<u32>, x: int)
    requires
        forall|k: int| 0 <= k < s.len() ==> s[k] <= x,
    ensures
        count_at_most(s, x) == s.len(),
    decreases s.len(),
{
    if s.len() > 0 {
        lemma_count_all(s.drop_last(), x);
    }
}

/// The line starts of a text are increasing, lie after its first byte and
/// within it, and the number of them at or before an offset is the number of
/// `\n` bytes before it: the offset's line.
proof fn lemma_lf_starts(b: Seq<u8>)
    requires
        b.len() < u32::MAX,
    ensures
        increasing(lf_starts(b)),
        forall|k: int| 0 <= k < lf_starts(b).len() ==> 1 <= #[trigger] lf_starts(b)[k] <= b.len(),
        forall|x: int| 0 <= x <= b.len() ==> #[trigger] count_at_most(lf_starts(b), x) == line_at(b, x),
    decreases b.len(),
{
    if b.len() > 0 {
        let p = b.drop_last();
        let n = b.len() as int;
        lemma_lf_starts(p);
        let sp = lf_starts(p);
        let s = lf_starts(b);
        assert forall|k: int| 0 <= k < s.len() implies 1 <= #[trigger] s[k] <= b.len() by {
            if k < sp.len() {
                assert(s[k] == sp[k]);
            }
        }
        assert forall|x: int| 0 <= x <= b.len() implies #[trigger] count_at_most(s, x) == line_at(b, x) by {
            if b.last() == 0x0a {
                assert(s.drop_last() == sp);
                assert(s.last() == n);
                assert(count_at_most(s, x) == count_at_most(sp, x) + if n <= x { 1nat } else { 0nat });
            } else {
                assert(s == sp);
            }
            if x < n {
                assert(b.take(x) =~= p.take(x));
                assert(count_at_most(sp, x) == line_at(p, x));
            } else {
                assert(b.take(x) =~= b);
                assert(p.take(n - 1) =~= p);
                lemma_count_all(sp, n);
                lemma_count_all(sp, n - 1);
                assert(count_at_most(sp, n - 1) == line_at(p, n - 1));
                assert(count_newlines(b) == count_newlines(p) + if b.last() == 0x0a { 1nat } else { 0nat });
            }
        }
    }
}

/// Where the text can be looked up at `offset`, so can its line index, and
/// the line the index gives is the offset's line.
proof fn lemma_line_lookup(li: line_index::LineIndex, b: Seq<u8>, offset: u32)
    requires
        indexes_text(li, b),
        b.len() < u32::MAX,
        offset_ok(b, offset as int),
    ensures
        offset <= index_len(li),
        increasing(index_line_starts(li)),
        forall|p: (u32, u32)| #[trigger] index_wide_chars(li).contains(p) ==> !(p.0 < offset < p.1),
        count_at_most(index_line_starts(li), offset as int) == line_at(b, offset as int),
{
    lemma_lf_starts(b);
    assert forall|p: (u32, u32)| #[trigger] index_wide_chars(li).contains(p) implies !(p.0 < offset < p.1) by {
        assert(multibyte_spans(b).contains(p));
        if p.0 < offset < p.1 {
            assert(!is_char_boundary(b, offset as int));
        }
    }
}

/// Whether a file ignore names no rule, which switches every rule off.
pub open spec fn ignores_all(ignores: Seq<IgnoreView>) -> bool {
    exists|k: int| 0 <= k < ignores.len() && ignores[k].kind == IgnoreKind::File && ignores[k].names.len() == 0
}

/// Whether a file ignore names `rule`.
pub open spec fn file_ignores(ignores: Seq<IgnoreView>, rule: Rule) -> bool {
    exists|k: int| 0 <= k < ignores.len() && ignores[k].kind == IgnoreKind::File && ignores[k].names.contains(rule)
}

/// The rules named by the last line ignore on line `line` of `b`, if any.
pub open spec fn line_ignore(ignores: Seq<IgnoreView>, b: Seq<u8>, line: int) -> Option<Seq<Rule>>
    decreases ignores.len(),
{
    if ignores.len() == 0 {
        None
    } else if ignores.last().kind == IgnoreKind::Line && line_at(b, ignores.last().range.start as int) == line {
        Some(ignores.last().names)
    } else {
        line_ignore(ignores.drop_last(), b, line)
    }
}

/// Whether a line ignore on line `line` names `rule`.
pub open spec fn line_ignores(ignores: Seq<IgnoreView>, b: Seq<u8>, line: int, rule: Rule) -> bool {
    match line_ignore(ignores, b, line) {
        Some(names) => names.contains(rule),
        None => false,
    }
}

/// Whether the ignores of the text `b` switch off `rule` for a violation at
/// `range`: a file ignore switches it off everywhere, a line ignore on the
/// violation's line or the line before.
pub open spec fn is_ignored(ignores: Seq<IgnoreView>, b: Seq<u8>, range: TextRange, rule: Rule) -> bool {
    let line = line_at(b, range.start as int) as int;
    ignores_all(ignores) || file_ignores(ignores, rule) || line_ignores(ignores, b, line, rule)
        || line_ignores(ignores, b, if line == 0 { 0 } else { line - 1 }, rule)
}

/// Where an offset can be looked up in the text `b`.
pub open spec fn offset_ok(b: Seq<u8>, offset: int) -> bool {
    offset <= b.len() && is_char_boundary(b, offset)
}

/// Every line ignore starts where its line can be looked up.
pub open spec fn line_ignores_ok(ignores: Seq<IgnoreView>, b: Seq<u8>) -> bool {
    forall|k: int|
        0 <= k < ignores.len() && ignores[k].kind == IgnoreKind::Line ==> offset_ok(b, #[trigger] ignores[k].range.start as int)
}

/// The ignores of a text, indexed by what they switch off.
pub struct IgnoreIndex<'a> {
    ignores: &'a Vec<Ignore>,
    /// For each line ignore, in order: its line and its position in `ignores`.
    line_to_ignored: Vec<(u32, usize)>,
    file_ignored: Vec<Rule>,
    ignore_all: bool,
    line_index: line_index::LineIndex,
    /// The text whose lines `line_index` knows.
    text: Ghost<Seq<u8>>,
}

impl<'a> IgnoreIndex<'a> {
    /// The ignores indexed.
    pub closed spec fn ignores_view(&self) -> Seq<IgnoreView> {
        ignore_views(self.ignores@)
    }

    /// The text whose lines the index knows.
    pub closed spec fn text_view(&self) -> Seq<u8> {
        self.text@
    }

    /// The index agrees with the ignores and the text.
    pub closed spec fn wf(&self) -> bool {
        self.indexes(self.ignores_view(), self.text_view())
    }

    /// The index is that of `ignores` over the text `b`.
    pub closed spec fn indexes(&self, ignores: Seq<IgnoreView>, b: Seq<u8>) -> bool {
        &&& ignore_views(self.ignores@) == ignores
        &&& self.text@ == b
        &&& b.len() < u32::MAX
        &&& indexes_text(self.line_index, b)
        &&& self.ignore_all == ignores_all(ignores)
        &&& forall|r: Rule| #[trigger] self.file_ignored@.contains(r) <==> file_ignores(ignores, r)
        &&& self.line_to_ignored@.len() <= ignores.len()
        &&& forall|k: int|
            0 <= k < self.line_to_ignored@.len() ==> (#[trigger] self.line_to_ignored@[k]).1 < ignores.len()
        &&& forall|line: int| #[trigger] line_ignore(ignores, b, line) == lines_lookup(self.line_to_ignored@, ignores, line)
    }

    /// Indexes `ignores` over `text`.
    pub fn new(text: &str, ignores: &'a Vec<Ignore>) -> (idx: IgnoreIndex<'a>)
        requires
            text.spec_bytes().len() < u32::MAX,
            line_ignores_ok(ignore_views(ignores@), text.spec_bytes()),
        ensures
            idx.wf(),
            idx.ignores_view() == ignore_views(ignores@),
            idx.text_view() == text.spec_bytes(),
    {
        let line_index = new_line_index(text);
        let ghost iv = ignore_views(ignores@);
        let ghost b = text.spec_bytes();
        let mut line_to_ignored: Vec<(u32, usize)> = Vec::new();
        let mut file_ignored: Vec<Rule> = Vec::new();
        let mut ignore_all = false;
        let mut i: usize = 0;
        while i < ignores.len()
            invariant
                iv == ignore_views(ignores@),
                b == text.spec_bytes(),
                indexes_text(line_index, b),
                b.len() < u32::MAX,
                line_ignores_ok(iv, b),
                i <= ignores@.len(),
                ignore_all == ignores_all(iv.take(i as int)),
                forall|r: Rule| file_ignored@.contains(r) <==> file_ignores(iv.take(i as int), r),
                line_to_ignored@.len() <= i,
                forall|k: int| 0 <= k < line_to_ignored@.len() ==> (#[trigger] line_to_ignored@[k]).1 < i,
                forall|line: int| line_ignore(iv.take(i as int), b, line) == lines_lookup(line_to_ignored@, iv, line),
            decreases ignores@.len() - i,
        {
            let ghost prefix = iv.take(i as int);
            let ghost next = iv.take(i + 1);
            proof {
                assert(next.drop_last() =~= prefix);
                assert(next.last() == iv[i as int]);
            }
            let ignore = &ignores[i];
            let ghost lines_before = line_to_ignored@;
            match ignore.kind {
                IgnoreKind::File => {
                    if ignore.violation_names.len() == 0 {
                        ignore_all = true;
                    } else {
                        let ghost before = file_ignored@;
                        let mut m: usize = 0;
                        while m < ignore.violation_names.len()
                            invariant
                                m <= ignore.violation_names@.len(),
                                file_ignored@ == before + ignore.violation_names@.take(m as int),
                            decreases ignore.violation_names@.len() - m,
                        {
                            file_ignored.push(ignore.violation_names[m]);
                            proof {
                                let nm = ignore.violation_names@;
                                assert(before + nm.take(m + 1) =~= (before + nm.take(m as int)).push(nm[m as int]));
                            }
                            m = m + 1;
                        }
                        proof {
                            let nm = ignore.violation_names@;
                            assert(nm.take(nm.len() as int) =~= nm);
                            assert forall|r: Rule| #[trigger] file_ignored@.contains(r) <==> (before.contains(r)
                                || nm.contains(r)) by {
                                if file_ignored@.contains(r) {
                                    let q = choose|q: int| 0 <= q < file_ignored@.len() && file_ignored@[q] == r;
                                    if q >= before.len() {
                                        assert(nm[q - before.len()] == r);
                                    } else {
                                        assert(before[q] == r);
                                    }
                                }
                                if nm.contains(r) {
                                    let q = choose|q: int| 0 <= q < nm.len() && nm[q] == r;
                                    assert(file_ignored@[before.len() + q] == r);
                                }
                                if before.contains(r) {
                                    let q = choose|q: int| 0 <= q < before.len() && before[q] == r;
                                    assert(file_ignored@[q] == r);
                                }
                            }
                        }
                    }
                },
                IgnoreKind::Line => {
                    proof {
                        assert(iv[i as int].kind == IgnoreKind::Line);
                    }
                    proof {
                        lemma_line_lookup(line_index, b, ignore.range.start);
                    }
                    let line = line_of(&line_index, ignore.range.start);
                    let ghost old_lines = line_to_ignored@;
                    line_to_ignored.push((line, i));
                    proof {
                        assert(line_to_ignored@.drop_last() =~= old_lines);
                    }
                },
            }
            proof {
                assert(ignores_all(next) == (ignores_all(prefix) || (next.last().kind == IgnoreKind::File
                    && next.last().names.len() == 0))) by {
                    if ignores_all(next) && !ignores_all(prefix) {
                        let k = choose|k: int|
                            0 <= k < next.len() && next[k].kind == IgnoreKind::File && next[k].names.len() == 0;
                        if k < prefix.len() {
                            assert(prefix[k] == next[k]);
                        }
                    }
                    if ignores_all(prefix) {
                        let k = choose|k: int|
                            0 <= k < prefix.len() && prefix[k].kind == IgnoreKind::File && prefix[k].names.len() == 0;
                        assert(next[k] == prefix[k]);
                    }
                }
                assert forall|r: Rule| file_ignored@.contains(r) <==> file_ignores(next, r) by {
                    if file_ignores(next, r) {
                        let k = choose|k: int|
                            0 <= k < next.len() && next[k].kind == IgnoreKind::File && next[k].names.contains(r);
                        if k < prefix.len() {
                            assert(prefix[k] == next[k]);
                        }
                    }
                    if file_ignores(prefix, r) {
                        let k = choose|k: int|
                            0 <= k < prefix.len() && prefix[k].kind == IgnoreKind::File && prefix[k].names.contains(r);
                        assert(next[k] == prefix[k]);
                    }
                }
                assert forall|line: int| line_ignore(next, b, line) == lines_lookup(line_to_ignored@, iv, line) by {
                    assert(line_ignore(prefix, b, line) == lines_lookup(lines_before, iv, line));
                }
            }
            i = i + 1;
        }
        proof {
            assert(iv.take(ignores@.len() as int) =~= iv);
        }
        IgnoreIndex { ignores, line_to_ignored, file_ignored, ignore_all, line_index, text: Ghost(b) }
    }

    /// Whether `item` is switched off for a violation at `range`.
    pub fn contains(&self, range: TextRange, item: Rule) -> (r: bool)
        requires
            self.wf(),
            offset_ok(self.text_view(), range.start as int),
        ensures
            r == is_ignored(self.ignores_view(), self.text_view(), range, item),
    {
        if self.ignore_all {
            return true;
        }
        let mut k: usize = 0;
        while k < self.file_ignored.len()
            invariant
                self.wf(),
                k <= self.file_ignored@.len(),
                forall|q: int| 0 <= q < k ==> self.file_ignored@[q] != item,
            decreases self.file_ignored@.len() - k,
        {
            if self.file_ignored[k] == item {
                assert(self.file_ignored@[k as int] == item);
                assert(self.file_ignored@.contains(item));
                assert(file_ignores(self.ignores_view(), item));
                return true;
            }
            k = k + 1;
        }
        proof {
            assert(!self.file_ignored@.contains(item));
            assert(!file_ignores(self.ignores_view(), item));
        }
        proof {
            lemma_line_lookup(self.line_index, self.text@, range.start);
        }
        let line = line_of(&self.line_index, range.start);
        if self.line_ignores(line, item) {
            return true;
        }
        let before = if line == 0 {
            0
        } else {
            line - 1
        };
        self.line_ignores(before, item)
    }

    fn line_ignores(&self, line: u32, item: Rule) -> (r: bool)
        requires
            self.wf(),
        ensures
            r == line_ignores(self.ignores_view(), self.text_view(), line as int, item),
    {
        proof {
            assert(line_ignore(self.ignores_view(), self.text_view(), line as int) == lines_lookup(
                self.line_to_ignored@,
                self.ignores_view(),
                line as int,
            ));
        }
        let mut found: Option<usize> = None;
        let mut k: usize = 0;
        while k < self.line_to_ignored.len()
            invariant
                k <= self.line_to_ignored@.len(),
                found == lines_lookup_index(self.line_to_ignored@.take(k as int), line as int),
            decreases self.line_to_ignored@.len() - k,
        {
            proof {
                assert(self.line_to_ignored@.take(k + 1).drop_last() =~= self.line_to_ignored@.take(k as int));
            }
            if self.line_to_ignored[k].0 == line {
                found = Some(self.line_to_ignored[k].1);
            }
            k = k + 1;
        }
        proof {
            assert(self.line_to_ignored@.take(self.line_to_ignored@.len() as int) =~= self.line_to_ignored@);
        }
        match found {
            Some(idx) => {
                proof {
                    lemma_lookup_index_in(self.line_to_ignored@, line as int);
                }
                let names = &self.ignores[idx].violation_names;
                assert(self.ignores_view()[idx as int].names == names@);
                assert(line_ignore(self.ignores_view(), self.text_view(), line as int) == Some(names@));
                let mut m: usize = 0;
                while m < names.len()
                    invariant
                        m <= names@.len(),
                        forall|q: int| 0 <= q < m ==> names@[q] != item,
                        self.ignores_view()[idx as int].names == names@,
                        line_ignore(self.ignores_view(), self.text_view(), line as int) == Some(names@),
                    decreases names@.len() - m,
                {
                    if names[m] == item {
                        assert(names@.contains(item));
                        return true;
                    }
                    m = m + 1;
                }
                false
            },
            None => false,
        }
    }
}

/// The position in `ignores` of the last entry of `lines` on line `line`.
pub open spec fn lines_lookup_index(lines: Seq<(u32, usize)>, line: int) -> Option<usize>
    decreases lines.len(),
{
    if lines.len() == 0 {
        None
    } else if lines.last().0 == line {
        Some(lines.last().1)
    } else {
        lines_lookup_index(lines.drop_last(), line)
    }
}

proof fn lemma_lookup_index_in(lines: Seq<(u32, usize)>, line: int)
    ensures
        lines_lookup_index(lines, line) matches Some(k) ==> exists|q: int| 0 <= q < lines.len() && lines[q].1 == k,
    decreases lines.len(),
{
    if lines.len() > 0 && lines.last().0 != line {
        lemma_lookup_index_in(lines.drop_last(), line);
        if lines_lookup_index(lines, line) is Some {
            let q = choose|q: int| 0 <= q < lines.drop_last().len() && lines.drop_last()[q].1 == lines_lookup_index(lines, line)->0;
            assert(lines[q] == lines.drop_last()[q]);
        }
    } else if lines.len() > 0 {
        assert(lines[lines.len() - 1].1 == lines.last().1);
    }
}

/// The rules named by the ignore that `lines` records last on line `line`.
pub open spec fn lines_lookup(lines: Seq<(u32, usize)>, ignores: Seq<IgnoreView>, line: int) -> Option<Seq<Rule>> {
    match lines_lookup_index(lines, line) {
        Some(k) => Some(ignores[k as int].names),
        None => None,
    }
}

} // verus!
