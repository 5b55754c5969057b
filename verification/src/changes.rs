//! The edit set: tagged edits keyed by source offset, kept sorted and
//! deduplicated by key.

use vstd::prelude::*;
use crate::Span;
use crate::ast::AssignOp;

verus! {

/// One textual edit, produced by the visitor and consumed by the splicer.
pub enum JsChange {
    /// Replace the bytes of `span` with `text` (empty text deletes; an empty
    /// span inserts).
    GenericChange { span: Span, text: Vec<u8> },
    /// Replace `entirespan` with the guarded-assignment template built from
    /// `name`, `op` and the original bytes of `rhsspan`.
    Assignment { name: Vec<u8>, entirespan: Span, rhsspan: Span, op: AssignOp },
    /// Insert a source-map function tag at `tagstart`.
    SourceTag { tagstart: u32 },
}

/// The mathematical form of one edit.
pub enum ChangeV {
    Replace { span: Span, text: Seq<u8> },
    Assign { name: Seq<u8>, entirespan: Span, rhsspan: Span, op: AssignOp },
    Tag { tagstart: u32 },
}

impl View for JsChange {
    type V = ChangeV;

    open spec fn view(&self) -> ChangeV {
        match self {
            JsChange::GenericChange { span, text } => ChangeV::Replace { span: *span, text: text@ },
            JsChange::Assignment { name, entirespan, rhsspan, op } => ChangeV::Assign {
                name: name@,
                entirespan: *entirespan,
                rhsspan: *rhsspan,
                op: *op,
            },
            JsChange::SourceTag { tagstart } => ChangeV::Tag { tagstart: *tagstart },
        }
    }
}

impl JsChange {
    /// A copy of this edit.
    pub fn clone_change(&self) -> (r: JsChange)
        ensures
            r@ == self@,
    {
        match self {
            JsChange::GenericChange { span, text } => JsChange::GenericChange {
                span: *span,
                text: crate::text::clone_bytes(text),
            },
            JsChange::Assignment { name, entirespan, rhsspan, op } => JsChange::Assignment {
                name: crate::text::clone_bytes(name),
                entirespan: *entirespan,
                rhsspan: *rhsspan,
                op: *op,
            },
            JsChange::SourceTag { tagstart } => JsChange::SourceTag { tagstart: *tagstart },
        }
    }
}

/// The sequence of edit views of a vector of edits.
pub open spec fn views(s: Seq<JsChange>) -> Seq<ChangeV> {
    s.map_values(|c: JsChange| c@)
}

/// The primary offset an edit is keyed by.
pub open spec fn change_key(c: ChangeV) -> u32 {
    match c {
        ChangeV::Replace { span, .. } => span.start,
        ChangeV::Assign { entirespan, .. } => entirespan.start,
        ChangeV::Tag { tagstart } => tagstart,
    }
}

/// The key of an edit (executable form).
pub fn key_of(c: &JsChange) -> (r: u32)
    ensures
        r == change_key(c@),
{
    match c {
        JsChange::GenericChange { span, .. } => span.start,
        JsChange::Assignment { entirespan, .. } => entirespan.start,
        JsChange::SourceTag { tagstart } => *tagstart,
    }
}

/// Sortedness: keys strictly increase, so no two edits share a key.
pub open spec fn sorted_by_key(s: Seq<ChangeV>) -> bool {
    forall|i: int, j: int|
        0 <= i < j < s.len() ==> change_key(#[trigger] s[i]) < change_key(#[trigger] s[j])
}

/// Sorted insertion with deduplication: an edit whose key is already present
/// is dropped (the edit inserted first wins).
pub open spec fn insert_change(s: Seq<ChangeV>, c: ChangeV) -> Seq<ChangeV>
    decreases s.len(),
{
    if s.len() == 0 {
        seq![c]
    } else if change_key(s[0]) < change_key(c) {
        seq![s[0]] + insert_change(s.drop_first(), c)
    } else if change_key(s[0]) == change_key(c) {
        s
    } else {
        seq![c] + s
    }
}

/// Folding a whole sequence of edits into a sorted set, first to last.
pub open spec fn insert_all(base: Seq<ChangeV>, cs: Seq<ChangeV>) -> Seq<ChangeV>
    decreases cs.len(),
{
    if cs.len() == 0 {
        base
    } else {
        insert_all(insert_change(base, cs[0]), cs.drop_first())
    }
}

/// Splitting the fold: inserting a concatenation inserts each part in turn.
pub proof fn lemma_insert_all_concat(base: Seq<ChangeV>, a: Seq<ChangeV>, b: Seq<ChangeV>)
    ensures
        insert_all(base, a + b) == insert_all(insert_all(base, a), b),
    decreases a.len(),
{
    if a.len() == 0 {
        assert(a + b =~= b);
        assert(insert_all(base, a) == base);
    } else {
        assert((a + b)[0] == a[0]);
        assert((a + b).drop_first() =~= a.drop_first() + b);
        lemma_insert_all_concat(insert_change(base, a[0]), a.drop_first(), b);
    }
}

/// The index of the first edit whose key is at least `k`.
spec fn first_geq(s: Seq<ChangeV>, k: u32) -> int
    decreases s.len(),
{
    if s.len() == 0 {
        0
    } else if change_key(s[0]) < k {
        1 + first_geq(s.drop_first(), k)
    } else {
        0
    }
}

/// `first_geq` is a valid insertion point: everything before it has a
/// smaller key, and the edit at it (if any) does not.
proof fn lemma_first_geq(s: Seq<ChangeV>, k: u32)
    requires
        sorted_by_key(s),
    ensures
        0 <= first_geq(s, k) <= s.len(),
        forall|j: int| 0 <= j < first_geq(s, k) ==> change_key(#[trigger] s[j]) < k,
        first_geq(s, k) < s.len() ==> change_key(s[first_geq(s, k)]) >= k,
    decreases s.len(),
{
    if s.len() > 0 && change_key(s[0]) < k {
        let t = s.drop_first();
        assert(forall|x: int| 0 <= x < t.len() ==> #[trigger] t[x] == s[x + 1]);
        lemma_first_geq(t, k);
        let i = first_geq(s, k);
        assert forall|j: int| 0 <= j < i implies change_key(#[trigger] s[j]) < k by {
            if j > 0 {
                assert(t[j - 1] == s[j]);
                assert(change_key(t[j - 1]) < k);
            }
        }
        if i < s.len() {
            assert(t[i - 1] == s[i]);
        }
    }
}

/// Sorted insertion keeps the order.
pub proof fn lemma_insert_change_sorted(s: Seq<ChangeV>, c: ChangeV)
    requires
        sorted_by_key(s),
    ensures
        sorted_by_key(insert_change(s, c)),
{
    lemma_first_geq(s, change_key(c));
    lemma_insert_change_sorted_aux(s, c, first_geq(s, change_key(c)));
}

/// Deterministic order: folding any sequence of edits into a sorted set
/// yields a set strictly sorted by primary offset, so no two edits share an
/// offset and the splice reads them in source order.
pub proof fn lemma_insert_all_sorted(base: Seq<ChangeV>, cs: Seq<ChangeV>)
    requires
        sorted_by_key(base),
    ensures
        sorted_by_key(insert_all(base, cs)),
    decreases cs.len(),
{
    if cs.len() > 0 {
        lemma_insert_change_sorted(base, cs[0]);
        lemma_insert_all_sorted(insert_change(base, cs[0]), cs.drop_first());
    }
}

/// Inserting below every key of `s` keeps the order.
proof fn lemma_insert_change_sorted_aux(s: Seq<ChangeV>, c: ChangeV, i: int)
    requires
        sorted_by_key(s),
        0 <= i <= s.len(),
        forall|k: int| 0 <= k < i ==> change_key(#[trigger] s[k]) < change_key(c),
        i < s.len() ==> change_key(s[i]) >= change_key(c),
    ensures
        sorted_by_key(insert_change(s, c)),
        insert_change(s, c) == if i < s.len() && change_key(s[i]) == change_key(c) {
            s
        } else {
            s.take(i) + seq![c] + s.skip(i)
        },
    decreases i,
{
    if i == 0 {
        if s.len() == 0 {
            assert(insert_change(s, c) =~= s.take(0) + seq![c] + s.skip(0));
        } else if change_key(s[0]) == change_key(c) {
        } else {
            assert(change_key(s[0]) > change_key(c));
            assert(insert_change(s, c) =~= s.take(0) + seq![c] + s.skip(0));
            let r = seq![c] + s;
            assert forall|x: int, y: int| 0 <= x < y < r.len() implies change_key(#[trigger] r[x])
                < change_key(#[trigger] r[y]) by {
                if x == 0 {
                    assert(r[y] == s[y - 1]);
                    if y - 1 > 0 {
                        assert(change_key(s[0]) < change_key(s[y - 1]));
                    }
                } else {
                    assert(r[x] == s[x - 1] && r[y] == s[y - 1]);
                }
            }
        }
    } else {
        let t = s.drop_first();
        assert(change_key(s[0]) < change_key(c));
        assert(sorted_by_key(t)) by {
            assert(forall|x: int, y: int|
                0 <= x < y < t.len() ==> change_key(#[trigger] t[x]) < change_key(
                    #[trigger] t[y],
                )) by {
                assert(forall|x: int| 0 <= x < t.len() ==> t[x] == s[x + 1]);
            }
        }
        assert(forall|k: int| 0 <= k < i - 1 ==> change_key(#[trigger] t[k]) < change_key(c)) by {
            assert(forall|k: int| 0 <= k < t.len() ==> t[k] == s[k + 1]);
        }
        assert(i - 1 < t.len() ==> change_key(t[i - 1]) >= change_key(c));
        lemma_insert_change_sorted_aux(t, c, i - 1);
        if i < s.len() && change_key(s[i]) == change_key(c) {
            assert(t[i - 1] == s[i]);
            assert(insert_change(s, c) =~= seq![s[0]] + t);
            assert(insert_change(s, c) =~= s);
        } else {
            assert(insert_change(s, c) =~= seq![s[0]] + (t.take(i - 1) + seq![c] + t.skip(i - 1)));
            assert(insert_change(s, c) =~= s.take(i) + seq![c] + s.skip(i));
            let r = s.take(i) + seq![c] + s.skip(i);
            let r2 = seq![s[0]] + (t.take(i - 1) + seq![c] + t.skip(i - 1));
            assert(sorted_by_key(r2)) by {
                let inner = t.take(i - 1) + seq![c] + t.skip(i - 1);
                assert(sorted_by_key(inner));
                assert forall|x: int, y: int| 0 <= x < y < r2.len() implies change_key(
                    #[trigger] r2[x],
                ) < change_key(#[trigger] r2[y]) by {
                    if x == 0 {
                        assert(r2[y] == inner[y - 1]);
                        if y - 1 < i - 1 {
                            assert(inner[y - 1] == t[y - 1]);
                            assert(change_key(s[0]) < change_key(t[y - 1]));
                        } else if y - 1 == i - 1 {
                            assert(inner[y - 1] == c);
                        } else {
                            assert(inner[y - 1] == t[y - 2]);
                            assert(change_key(s[0]) < change_key(t[y - 2]));
                        }
                    } else {
                        assert(r2[x] == inner[x - 1] && r2[y] == inner[y - 1]);
                    }
                }
            }
            assert(r =~= r2);
        }
    }
}

/// The ordered, deduplicated container of edits.
pub struct JsChanges {
    pub v: Vec<JsChange>,
}

impl JsChanges {
    /// The edits, in key order.
    pub open spec fn view(&self) -> Seq<ChangeV> {
        views(self.v@)
    }

    /// Well-formed: strictly sorted by key.
    pub open spec fn wf(&self) -> bool {
        sorted_by_key(self@)
    }

    pub fn new() -> (r: JsChanges)
        ensures
            r@ == Seq::<ChangeV>::empty(),
            r.wf(),
    {
        let r = JsChanges { v: Vec::new() };
        proof {
            assert(r@ =~= Seq::<ChangeV>::empty());
        }
        r
    }

    /// Insert one edit in key order; an edit whose key is already present is
    /// dropped.
    pub fn insert(&mut self, c: JsChange)
        requires
            old(self).wf(),
        ensures
            final(self).wf(),
            final(self)@ == insert_change(old(self)@, c@),
    {
        let k: u32 = key_of(&c);
        let n: usize = self.v.len();
        let mut i: usize = 0;
        while i < n && key_of(&self.v[i]) < k
            invariant
                0 <= i <= n,
                n == self.v@.len(),
                k == change_key(c@),
                sorted_by_key(views(self.v@)),
                forall|j: int| 0 <= j < i ==> change_key(#[trigger] views(self.v@)[j]) < k,
            decreases n - i,
        {
            i = i + 1;
        }
        proof {
            let s = views(self.v@);
            assert(i < s.len() ==> change_key(s[i as int]) >= k);
            lemma_insert_change_sorted_aux(s, c@, i as int);
        }
        if i < n && key_of(&self.v[i]) == k {
            proof {
                assert(views(self.v@)[i as int] == self.v@[i as int]@);
                assert(insert_change(views(self.v@), c@) == views(self.v@));
            }
            return ;
        }
        self.v.insert(i, c);
        proof {
            let olds = views(old(self).v@);
            assert(views(self.v@) =~= olds.take(i as int) + seq![c@] + olds.skip(i as int));
        }
    }
}

} // verus!
