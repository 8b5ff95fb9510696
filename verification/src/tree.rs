//! The course tree and its flat form.
//!
//! A tree of course entries is written down as a list of raw entries: a leaf stands for
//! itself, and a group is written as a marker that names its connective, then its entries,
//! then an end marker. The assembler is the inverse of this flattening.

use crate::error::StructureErrorView;
use crate::model::{CourseEntryView, CourseView, LabelView};
use vstd::prelude::*;

verus! {

/// The mathematical value of a raw course entry.
pub enum RawView {
    /// Opens a group all of whose entries are asked for.
    And,
    /// Opens a group any one of whose entries will do.
    Or,
    /// Closes the innermost open group.
    End,
    /// A narrative entry.
    Label(LabelView),
    /// A course.
    Course(CourseView),
}

/// The raw entries that stand for one entry of the tree.
pub open spec fn flatten_entry(e: CourseEntryView) -> Seq<RawView>
    decreases e, 0nat,
{
    match e {
        CourseEntryView::And(items) => seq![RawView::And] + flatten_first(items, items.len())
            + seq![RawView::End],
        CourseEntryView::Or(items) => seq![RawView::Or] + flatten_first(items, items.len())
            + seq![RawView::End],
        CourseEntryView::Label(label) => seq![RawView::Label(label)],
        CourseEntryView::Course(course) => seq![RawView::Course(course)],
    }
}

/// The raw entries that stand for the first `n` entries of a list.
pub open spec fn flatten_first(items: Seq<CourseEntryView>, n: nat) -> Seq<RawView>
    decreases items, n,
{
    if n == 0 || n > items.len() {
        Seq::empty()
    } else {
        flatten_first(items, (n - 1) as nat) + flatten_entry(items[n - 1])
    }
}

/// The raw entries that stand for a list of entries: those of each entry, in order.
pub open spec fn flatten(items: Seq<CourseEntryView>) -> Seq<RawView> {
    flatten_first(items, items.len())
}

/// What a raw entry does to the number of open groups.
pub open spec fn step(t: RawView) -> int {
    match t {
        RawView::And => 1,
        RawView::Or => 1,
        RawView::End => -1,
        _ => 0,
    }
}

/// The number of groups opened and not yet closed by the first `n` raw entries.
pub open spec fn depth(tokens: Seq<RawView>, n: int) -> int
    decreases n,
{
    if n <= 0 {
        0
    } else {
        depth(tokens, n - 1) + step(tokens[n - 1])
    }
}

/// Among the first `n` raw entries no end marker comes without an open group.
pub open spec fn never_negative(tokens: Seq<RawView>, n: int) -> bool {
    forall|k: int| 0 <= k <= n ==> depth(tokens, k) >= 0
}

/// The raw entry at `i` is the first end marker that comes without an open group.
pub open spec fn first_unmatched(tokens: Seq<RawView>, i: int) -> bool {
    0 <= i < tokens.len() && never_negative(tokens, i) && depth(tokens, i + 1) < 0
}

/// Every end marker closes a group, and every group is closed.
pub open spec fn balanced(tokens: Seq<RawView>) -> bool {
    never_negative(tokens, tokens.len() as int) && depth(tokens, tokens.len() as int) == 0
}

/// The tree that a list of raw entries describes: the one whose flat form the list is.
/// A list with an end marker that closes nothing, or with a group left open, describes
/// none.
pub open spec fn assemble_spec(tokens: Seq<RawView>) -> Result<
    Seq<CourseEntryView>,
    StructureErrorView,
> {
    if exists|i: int| first_unmatched(tokens, i) {
        Err(StructureErrorView::UnmatchedEnd { index: choose|i: int| first_unmatched(tokens, i) })
    } else if depth(tokens, tokens.len() as int) > 0 {
        Err(StructureErrorView::UnclosedGroup { open: depth(tokens, tokens.len() as int) })
    } else {
        Ok(choose|tree: Seq<CourseEntryView>| flatten(tree) == tokens)
    }
}

/// The flat form of the first `n` entries looks only at those entries.
pub proof fn lemma_flatten_first_agrees(a: Seq<CourseEntryView>, b: Seq<CourseEntryView>, n: nat)
    requires
        n <= a.len(),
        n <= b.len(),
        forall|k: int| 0 <= k < n ==> a[k] == b[k],
    ensures
        flatten_first(a, n) == flatten_first(b, n),
    decreases n,
{
    if n > 0 {
        lemma_flatten_first_agrees(a, b, (n - 1) as nat);
    }
}

/// The flat form of a list with one more entry is that of the list, then that of the entry.
pub proof fn lemma_flatten_push(items: Seq<CourseEntryView>, e: CourseEntryView)
    ensures
        flatten(items.push(e)) == flatten(items) + flatten_entry(e),
{
    lemma_flatten_first_agrees(items.push(e), items, items.len());
}

/// The empty list has the empty flat form.
pub proof fn lemma_flatten_empty()
    ensures
        flatten(Seq::<CourseEntryView>::empty()) == Seq::<RawView>::empty(),
{
}

/// Every entry is written with at least one raw entry.
pub proof fn lemma_flatten_entry_len(e: CourseEntryView)
    ensures
        flatten_entry(e).len() >= 1,
{
}

/// The depth within the first `n` raw entries looks only at those entries.
pub proof fn lemma_depth_agrees(a: Seq<RawView>, b: Seq<RawView>, n: int)
    requires
        n <= a.len(),
        n <= b.len(),
        forall|k: int| 0 <= k < n ==> a[k] == b[k],
    ensures
        depth(a, n) == depth(b, n),
    decreases n,
{
    if n > 0 {
        lemma_depth_agrees(a, b, n - 1);
    }
}

/// The depth in a concatenation: that in the first part, then on top of the whole first
/// part that in the second.
pub proof fn lemma_depth_concat(a: Seq<RawView>, b: Seq<RawView>, n: int)
    requires
        0 <= n <= a.len() + b.len(),
    ensures
        depth(a + b, n) == if n <= a.len() {
            depth(a, n)
        } else {
            depth(a, a.len() as int) + depth(b, n - a.len())
        },
    decreases n,
{
    if n > 0 {
        lemma_depth_concat(a, b, n - 1);
        if n <= a.len() {
            assert((a + b)[n - 1] == a[n - 1]);
        } else {
            assert((a + b)[n - 1] == b[n - 1 - a.len()]);
            assert(depth(b, n - a.len()) == depth(b, n - a.len() - 1) + step(b[n - a.len() - 1]));
            if n - 1 == a.len() {
                assert(depth(b, 0) == 0);
            }
        }
    }
}

/// The flat form of an entry opens nothing that it does not close, and inside the flat
/// form of a group at least that group is open.
pub proof fn lemma_depth_entry(e: CourseEntryView)
    ensures
        depth(flatten_entry(e), flatten_entry(e).len() as int) == 0,
        forall|k: int| 0 < k < flatten_entry(e).len() ==> depth(flatten_entry(e), k) >= 1,
    decreases e, 0nat,
{
    let f = flatten_entry(e);
    match e {
        CourseEntryView::And(items) => {
            lemma_depth_first(items, items.len());
            lemma_depth_group(RawView::And, flatten(items));
        },
        CourseEntryView::Or(items) => {
            lemma_depth_first(items, items.len());
            lemma_depth_group(RawView::Or, flatten(items));
        },
        CourseEntryView::Label(label) => {
            assert(depth(f, 1) == depth(f, 0) + step(f[0]));
        },
        CourseEntryView::Course(course) => {
            assert(depth(f, 1) == depth(f, 0) + step(f[0]));
        },
    }
}

/// A balanced list between an opening marker and an end marker is balanced, and inside it
/// the depth is at least one.
pub proof fn lemma_depth_group(open: RawView, inner: Seq<RawView>)
    requires
        step(open) == 1,
        balanced(inner),
    ensures
        depth(seq![open] + inner + seq![RawView::End], (inner.len() + 2) as int) == 0,
        forall|k: int|
            0 < k < inner.len() + 2 ==> depth(seq![open] + inner + seq![RawView::End], k) >= 1,
{
    let head = seq![open];
    let tail = seq![RawView::End];
    let f = head + inner + tail;
    assert(depth(head, 1) == depth(head, 0) + step(head[0]));
    assert(depth(tail, 1) == depth(tail, 0) + step(tail[0]));
    assert forall|k: int| 0 < k <= inner.len() + 1 implies depth(head + inner, k) == 1 + depth(
        inner,
        k - 1,
    ) by {
        lemma_depth_concat(head, inner, k);
    }
    assert forall|k: int| 0 < k < inner.len() + 2 implies depth(f, k) >= 1 by {
        lemma_depth_concat(head + inner, tail, k);
        assert(depth(inner, k - 1) >= 0);
    }
    lemma_depth_concat(head + inner, tail, (inner.len() + 2) as int);
}

/// The flat form of the first `n` entries of a list is balanced.
pub proof fn lemma_depth_first(items: Seq<CourseEntryView>, n: nat)
    requires
        n <= items.len(),
    ensures
        balanced(flatten_first(items, n)),
    decreases items, n,
{
    if n > 0 {
        let before = flatten_first(items, (n - 1) as nat);
        let last = flatten_entry(items[n - 1]);
        lemma_depth_first(items, (n - 1) as nat);
        lemma_depth_entry(items[n - 1]);
        assert forall|k: int| 0 <= k <= before.len() + last.len() implies depth(before + last, k)
            >= 0 by {
            lemma_depth_concat(before, last, k);
            if k > before.len() && k - before.len() < last.len() {
                assert(depth(last, k - before.len()) >= 1);
            }
        }
        lemma_depth_concat(before, last, (before.len() + last.len()) as int);
    }
}

/// The flat form of a tree is balanced.
pub proof fn lemma_flatten_balanced(tree: Seq<CourseEntryView>)
    ensures
        balanced(flatten(tree)),
{
    lemma_depth_first(tree, tree.len());
}

/// Entries with the same flat form are the same entry.
pub proof fn lemma_flatten_entry_injective(x: CourseEntryView, y: CourseEntryView)
    requires
        flatten_entry(x) == flatten_entry(y),
    ensures
        x == y,
    decreases flatten_entry(x).len(), 0nat,
{
    let fx = flatten_entry(x);
    let fy = flatten_entry(y);
    assert(fx[0] == fy[0]);
    match x {
        CourseEntryView::And(xs) => {
            assert(fx[0] == RawView::And);
            match y {
                CourseEntryView::And(ys) => {
                    assert(fx.subrange(1, fx.len() - 1) =~= flatten(xs));
                    assert(fy.subrange(1, fy.len() - 1) =~= flatten(ys));
                    lemma_flatten_injective(xs, ys);
                },
                CourseEntryView::Or(ys) => {
                    assert(fy[0] == RawView::Or);
                },
                CourseEntryView::Label(_) => {},
                CourseEntryView::Course(_) => {},
            }
        },
        CourseEntryView::Or(xs) => {
            assert(fx[0] == RawView::Or);
            match y {
                CourseEntryView::Or(ys) => {
                    assert(fx.subrange(1, fx.len() - 1) =~= flatten(xs));
                    assert(fy.subrange(1, fy.len() - 1) =~= flatten(ys));
                    lemma_flatten_injective(xs, ys);
                },
                CourseEntryView::And(ys) => {
                    assert(fy[0] == RawView::And);
                },
                CourseEntryView::Label(_) => {},
                CourseEntryView::Course(_) => {},
            }
        },
        CourseEntryView::Label(_) => {
            match y {
                CourseEntryView::And(ys) => {
                    assert(fy[0] == RawView::And);
                },
                CourseEntryView::Or(ys) => {
                    assert(fy[0] == RawView::Or);
                },
                _ => {},
            }
        },
        CourseEntryView::Course(_) => {
            match y {
                CourseEntryView::And(ys) => {
                    assert(fy[0] == RawView::And);
                },
                CourseEntryView::Or(ys) => {
                    assert(fy[0] == RawView::Or);
                },
                _ => {},
            }
        },
    }
}

/// The flat form of a longer last entry cannot end in the flat form of a shorter one.
proof fn lemma_last_entries_align(
    before_x: Seq<RawView>,
    x: CourseEntryView,
    before_y: Seq<RawView>,
    y: CourseEntryView,
)
    requires
        before_x + flatten_entry(x) == before_y + flatten_entry(y),
    ensures
        flatten_entry(x).len() >= flatten_entry(y).len(),
{
    let fx = flatten_entry(x);
    let fy = flatten_entry(y);
    let whole = before_x + fx;
    if fx.len() < fy.len() {
        let k = fy.len() - fx.len();
        lemma_depth_entry(x);
        lemma_depth_entry(y);
        assert(depth(fy, k) >= 1);
        assert(whole.len() == before_y.len() + fy.len());
        assert(fy.skip(k) =~= fx) by {
            assert forall|j: int| 0 <= j < fx.len() implies fy.skip(k)[j] == fx[j] by {
                assert(whole[before_x.len() + j] == fx[j]);
                assert(whole[before_y.len() + k + j] == fy[k + j]);
            }
        }
        assert(fy.take(k) + fy.skip(k) =~= fy);
        lemma_depth_concat(fy.take(k), fy.skip(k), fy.len() as int);
        lemma_depth_agrees(fy.take(k), fy, k);
    }
}

/// Trees with the same flat form are the same tree.
pub proof fn lemma_flatten_injective(a: Seq<CourseEntryView>, b: Seq<CourseEntryView>)
    requires
        flatten(a) == flatten(b),
    ensures
        a == b,
    decreases flatten(a).len(), 1nat,
{
    if a.len() == 0 {
        if b.len() > 0 {
            lemma_flatten_entry_len(b[b.len() - 1]);
        }
        assert(a =~= b);
    } else if b.len() == 0 {
        lemma_flatten_entry_len(a[a.len() - 1]);
    } else {
        let init_a = a.drop_last();
        let init_b = b.drop_last();
        let x = a.last();
        let y = b.last();
        assert(init_a.push(x) =~= a);
        assert(init_b.push(y) =~= b);
        lemma_flatten_push(init_a, x);
        lemma_flatten_push(init_b, y);
        let fa = flatten(init_a);
        let fb = flatten(init_b);
        let fx = flatten_entry(x);
        let fy = flatten_entry(y);
        lemma_last_entries_align(fa, x, fb, y);
        lemma_last_entries_align(fb, y, fa, x);
        lemma_flatten_entry_len(x);
        let whole = fa + fx;
        assert(fa =~= fb) by {
            assert forall|j: int| 0 <= j < fa.len() implies fa[j] == fb[j] by {
                assert(whole[j] == fa[j]);
                assert((fb + fy)[j] == fb[j]);
            }
        }
        assert(fx =~= fy) by {
            assert forall|j: int| 0 <= j < fx.len() implies fx[j] == fy[j] by {
                assert(whole[fa.len() + j] == fx[j]);
                assert((fb + fy)[fb.len() + j] == fy[j]);
            }
        }
        lemma_flatten_injective(init_a, init_b);
        lemma_flatten_entry_injective(x, y);
    }
}

/// At most one raw entry is the first end marker that closes nothing.
pub proof fn lemma_first_unmatched_unique(tokens: Seq<RawView>, i: int, j: int)
    requires
        first_unmatched(tokens, i),
        first_unmatched(tokens, j),
    ensures
        i == j,
{
    if i < j {
        assert(depth(tokens, i + 1) >= 0);
    } else if j < i {
        assert(depth(tokens, j + 1) >= 0);
    }
}

/// Assembling the flat form of a tree gives the tree back.
pub proof fn lemma_assemble_flatten(tree: Seq<CourseEntryView>)
    ensures
        assemble_spec(flatten(tree)) == Ok::<_, StructureErrorView>(tree),
{
    let tokens = flatten(tree);
    lemma_flatten_balanced(tree);
    assert forall|i: int| !first_unmatched(tokens, i) by {
        if 0 <= i < tokens.len() {
            assert(depth(tokens, i + 1) >= 0);
        }
    }
    let found = choose|t: Seq<CourseEntryView>| flatten(t) == tokens;
    lemma_flatten_injective(found, tree);
}

/// The depth inside a stretch of a list is the depth in the list less the depth at the
/// start of the stretch.
pub proof fn lemma_depth_stretch(tokens: Seq<RawView>, from: int, to: int, n: int)
    requires
        0 <= from <= to <= tokens.len(),
        0 <= n <= to - from,
    ensures
        depth(tokens.subrange(from, to), n) == depth(tokens, from + n) - depth(tokens, from),
    decreases n,
{
    if n > 0 {
        lemma_depth_stretch(tokens, from, to, n - 1);
        assert(tokens.subrange(from, to)[n - 1] == tokens[from + n - 1]);
    }
}

/// The last position up to `n` at which no group is open.
proof fn lemma_last_closed(tokens: Seq<RawView>, n: int) -> (k: int)
    requires
        0 <= n,
    ensures
        0 <= k <= n,
        depth(tokens, k) == 0,
        forall|j: int| k < j <= n ==> depth(tokens, j) != 0,
    decreases n,
{
    if depth(tokens, n) == 0 {
        n
    } else {
        lemma_last_closed(tokens, n - 1)
    }
}

/// Every balanced list of raw entries is the flat form of a tree.
pub proof fn lemma_balanced_has_tree(tokens: Seq<RawView>) -> (tree: Seq<CourseEntryView>)
    requires
        balanced(tokens),
    ensures
        flatten(tree) == tokens,
    decreases tokens.len(),
{
    let len = tokens.len() as int;
    if len == 0 {
        let tree = Seq::<CourseEntryView>::empty();
        assert(flatten(tree) =~= tokens);
        tree
    } else {
        let last = tokens[len - 1];
        assert(depth(tokens, len) == depth(tokens, len - 1) + step(last));
        assert(depth(tokens, len - 1) >= 0);
        match last {
            RawView::Label(label) => {
                let init = tokens.take(len - 1);
                lemma_balanced_prefix(tokens, len - 1);
                let before = lemma_balanced_has_tree(init);
                let leaf = CourseEntryView::Label(label);
                lemma_flatten_push(before, leaf);
                assert(init + flatten_entry(leaf) =~= tokens);
                before.push(leaf)
            },
            RawView::Course(course) => {
                let init = tokens.take(len - 1);
                lemma_balanced_prefix(tokens, len - 1);
                let before = lemma_balanced_has_tree(init);
                let leaf = CourseEntryView::Course(course);
                lemma_flatten_push(before, leaf);
                assert(init + flatten_entry(leaf) =~= tokens);
                before.push(leaf)
            },
            RawView::End => {
                let k = lemma_last_closed(tokens, len - 1);
                assert(depth(tokens, k + 1) == depth(tokens, k) + step(tokens[k]));
                assert(depth(tokens, k + 1) >= 0);
                let init = tokens.take(k);
                let inner = tokens.subrange(k + 1, len - 1);
                lemma_balanced_prefix(tokens, k);
                assert forall|j: int| 0 <= j <= inner.len() implies depth(inner, j) >= 0 by {
                    lemma_depth_stretch(tokens, k + 1, len - 1, j);
                    assert(depth(tokens, k + 1 + j) >= 0);
                    assert(depth(tokens, k + 1 + j) != 0);
                }
                lemma_depth_stretch(tokens, k + 1, len - 1, inner.len() as int);
                let before = lemma_balanced_has_tree(init);
                let items = lemma_balanced_has_tree(inner);
                let group = if tokens[k] == RawView::And {
                    CourseEntryView::And(items)
                } else {
                    CourseEntryView::Or(items)
                };
                lemma_flatten_push(before, group);
                assert(flatten_entry(group) =~= seq![tokens[k]] + inner + seq![RawView::End]);
                assert(init + flatten_entry(group) =~= tokens);
                before.push(group)
            },
            _ => {
                assert(false);
                Seq::empty()
            },
        }
    }
}

/// A prefix of a balanced list that closes every group it opens is balanced.
proof fn lemma_balanced_prefix(tokens: Seq<RawView>, n: int)
    requires
        0 <= n <= tokens.len(),
        never_negative(tokens, tokens.len() as int),
        depth(tokens, n) == 0,
    ensures
        balanced(tokens.take(n)),
{
    assert forall|k: int| 0 <= k <= n implies depth(tokens.take(n), k) >= 0 by {
        lemma_depth_agrees(tokens.take(n), tokens, k);
        assert(depth(tokens, k) >= 0);
    }
    lemma_depth_agrees(tokens.take(n), tokens, n);
}

/// A list in which some end marker closes nothing has a first such marker.
proof fn lemma_has_first_unmatched(tokens: Seq<RawView>, n: int) -> (i: int)
    requires
        0 <= n <= tokens.len(),
        depth(tokens, n) < 0,
    ensures
        first_unmatched(tokens, i),
    decreases n,
{
    if never_negative(tokens, n - 1) {
        n - 1
    } else {
        let k = choose|k: int| 0 <= k <= n - 1 && depth(tokens, k) < 0;
        lemma_has_first_unmatched(tokens, k)
    }
}

/// The assembler succeeds on the balanced lists and on no others, and what it gives has
/// the list as its flat form.
pub proof fn lemma_assemble_balanced(tokens: Seq<RawView>)
    ensures
        assemble_spec(tokens) is Ok <==> balanced(tokens),
        assemble_spec(tokens) matches Ok(tree) ==> flatten(tree) == tokens,
{
    if balanced(tokens) {
        let tree = lemma_balanced_has_tree(tokens);
        assert forall|i: int| !first_unmatched(tokens, i) by {
            if 0 <= i < tokens.len() {
                assert(depth(tokens, i + 1) >= 0);
            }
        }
    } else if !never_negative(tokens, tokens.len() as int) {
        let k = choose|k: int| 0 <= k <= tokens.len() && depth(tokens, k) < 0;
        let i = lemma_has_first_unmatched(tokens, k);
    }
}

} // verus!
