use vstd::prelude::*;

verus! {

/// What a hybrid list is, apart from how it is laid out in memory: its items
/// in order, and whether it has moved to the heap.
#[verifier::ext_equal]
pub struct Model<T> {
    pub items: Seq<T>,
    pub heap: bool,
}

impl<T> Model<T> {
    /// An inline list holds at most `cap` items.
    pub open spec fn wf(self, cap: nat) -> bool {
        !self.heap ==> self.items.len() <= cap
    }

    /// The empty inline list.
    pub open spec fn empty() -> Self {
        Model { items: Seq::empty(), heap: false }
    }

    /// The list made from a fixed number of items: inline when they fit.
    pub open spec fn of_array(items: Seq<T>, cap: nat) -> Self {
        Model { items, heap: items.len() > cap }
    }

    /// The list made from a vector: on the heap, whatever its length.
    pub open spec fn of_vec(items: Seq<T>) -> Self {
        Model { items, heap: true }
    }

    /// Appending moves a full inline list to the heap.
    pub open spec fn push(self, cap: nat, item: T) -> Self {
        Model { items: self.items.push(item), heap: self.heap || self.items.len() >= cap }
    }

    /// The last item, if there is one.
    pub open spec fn last(self) -> Option<T> {
        if self.items.len() == 0 {
            None
        } else {
            Some(self.items.last())
        }
    }

    /// The list without its last item; the empty list stays as it is.
    pub open spec fn pop(self) -> Self {
        if self.items.len() == 0 {
            self
        } else {
            Model { items: self.items.drop_last(), heap: self.heap }
        }
    }

    /// Inserting moves a full inline list to the heap.
    pub open spec fn insert(self, cap: nat, index: int, item: T) -> Self
        recommends
            0 <= index <= self.items.len(),
    {
        Model { items: self.items.insert(index, item), heap: self.heap || self.items.len() >= cap }
    }

    /// Removing leaves the list where it is, inline or on the heap.
    pub open spec fn remove(self, index: int) -> Self
        recommends
            0 <= index < self.items.len(),
    {
        Model { items: self.items.remove(index), heap: self.heap }
    }

    /// Clearing takes the items and leaves the list where it is.
    pub open spec fn clear(self) -> Self {
        Model { items: Seq::empty(), heap: self.heap }
    }
}

/// One step in the life of a list.
pub enum Op<T> {
    Push(T),
    Pop,
    Insert(int, T),
    Remove(int),
    Clear,
}

impl<T> Op<T> {
    /// Whether the step may be taken on `m`: an index has to be in range.
    pub open spec fn allowed(self, m: Model<T>) -> bool {
        match self {
            Op::Insert(index, _) => 0 <= index <= m.items.len(),
            Op::Remove(index) => 0 <= index < m.items.len(),
            _ => true,
        }
    }

    /// The list after the step.
    pub open spec fn apply(self, m: Model<T>, cap: nat) -> Model<T> {
        match self {
            Op::Push(item) => m.push(cap, item),
            Op::Pop => m.pop(),
            Op::Insert(index, item) => m.insert(cap, index, item),
            Op::Remove(index) => m.remove(index),
            Op::Clear => m.clear(),
        }
    }

    /// What the step counts for in the length of a list: one more for a
    /// push or an insert, one less for a pop or a remove.
    pub open spec fn delta(self) -> int {
        match self {
            Op::Push(_) | Op::Insert(_, _) => 1,
            Op::Pop | Op::Remove(_) => -1,
            Op::Clear => 0,
        }
    }

    /// Whether the step changes the length of `m` by what it counts for: it
    /// adds or takes one item, which a `Pop` does only where there is an
    /// item to take, and a `Clear` never does.
    pub open spec fn counts(self, m: Model<T>) -> bool {
        match self {
            Op::Pop => m.items.len() > 0,
            Op::Clear => false,
            _ => self.allowed(m),
        }
    }
}

/// The list after `ops`, taken in order from `m`.
pub open spec fn run<T>(m: Model<T>, cap: nat, ops: Seq<Op<T>>) -> Model<T>
    decreases ops.len(),
{
    if ops.len() == 0 {
        m
    } else {
        ops.last().apply(run(m, cap, ops.drop_last()), cap)
    }
}

/// Every step of `ops` may be taken on the list that the steps before it
/// leave.
pub open spec fn all_allowed<T>(m: Model<T>, cap: nat, ops: Seq<Op<T>>) -> bool {
    forall|k: int| 0 <= k < ops.len() ==> (#[trigger] ops[k]).allowed(run(m, cap, ops.take(k)))
}

/// Every step of `ops` adds or takes one item of the list that the steps
/// before it leave.
pub open spec fn all_count<T>(m: Model<T>, cap: nat, ops: Seq<Op<T>>) -> bool {
    forall|k: int| 0 <= k < ops.len() ==> (#[trigger] ops[k]).counts(run(m, cap, ops.take(k)))
}

/// The pushes and inserts among `ops`, less the pops and removes.
pub open spec fn total_delta<T>(ops: Seq<Op<T>>) -> int
    decreases ops.len(),
{
    if ops.len() == 0 {
        0
    } else {
        total_delta(ops.drop_last()) + ops.last().delta()
    }
}

/// The steps that push `items` one after the other.
pub open spec fn pushes<T>(items: Seq<T>) -> Seq<Op<T>> {
    Seq::new(items.len(), |k: int| Op::Push(items[k]))
}

/// Steps that may all be taken: so may the first `k` of them.
pub proof fn lemma_allowed_prefix<T>(m: Model<T>, cap: nat, ops: Seq<Op<T>>, k: int)
    requires
        all_allowed(m, cap, ops),
        0 <= k <= ops.len(),
    ensures
        all_allowed(m, cap, ops.take(k)),
{
    let front = ops.take(k);
    assert forall|j: int| 0 <= j < front.len() implies (#[trigger] front[j]).allowed(
        run(m, cap, front.take(j)),
    ) by {
        assert(front.take(j) =~= ops.take(j));
        assert(ops[j].allowed(run(m, cap, ops.take(j))));
    }
}

/// A well-formed list stays well-formed through steps that may be taken.
pub proof fn lemma_run_wf<T>(m: Model<T>, cap: nat, ops: Seq<Op<T>>)
    requires
        m.wf(cap),
        all_allowed(m, cap, ops),
    ensures
        run(m, cap, ops).wf(cap),
    decreases ops.len(),
{
    if ops.len() > 0 {
        let front = ops.drop_last();
        lemma_allowed_prefix(m, cap, ops, ops.len() - 1);
        lemma_run_wf(m, cap, front);
        assert(ops.take(ops.len() - 1) =~= front);
        assert(ops[ops.len() - 1].allowed(run(m, cap, front)));
    }
}

/// Pushing keeps the order: after pushing `items` onto the empty list, the
/// list holds exactly `items`, in the order in which they were pushed, and
/// it is on the heap if and only if they were more than `cap`.
pub proof fn lemma_pushes_keep_order<T>(cap: nat, items: Seq<T>)
    ensures
        run(Model::empty(), cap, pushes(items)).items == items,
        run(Model::empty(), cap, pushes(items)).heap <==> items.len() > cap,
    decreases items.len(),
{
    if items.len() > 0 {
        lemma_pushes_keep_order(cap, items.drop_last());
        assert(pushes(items).drop_last() =~= pushes(items.drop_last()));
        assert(pushes(items).last() == Op::Push(items.last()));
        assert(items.drop_last().push(items.last()) =~= items);
    } else {
        assert(items =~= Seq::empty());
    }
}

/// The same from any list: pushing `items` appends them in order, and the
/// list is on the heap afterwards if it was before or if it had to hold more
/// than `cap` items.
pub proof fn lemma_pushes_append<T>(m: Model<T>, cap: nat, items: Seq<T>)
    requires
        m.wf(cap),
    ensures
        run(m, cap, pushes(items)).items == m.items + items,
        run(m, cap, pushes(items)).heap <==> m.heap || m.items.len() + items.len() > cap,
    decreases items.len(),
{
    if items.len() > 0 {
        lemma_pushes_append(m, cap, items.drop_last());
        assert(pushes(items).drop_last() =~= pushes(items.drop_last()));
        assert(pushes(items).last() == Op::Push(items.last()));
        assert((m.items + items.drop_last()).push(items.last()) =~= m.items + items);
    } else {
        assert(m.items + items =~= m.items);
    }
}

/// No way back: a list that is on the heap stays there, whatever the steps.
pub proof fn lemma_no_demotion<T>(m: Model<T>, cap: nat, ops: Seq<Op<T>>)
    requires
        m.heap,
    ensures
        run(m, cap, ops).heap,
    decreases ops.len(),
{
    if ops.len() > 0 {
        lemma_no_demotion(m, cap, ops.drop_last());
    }
}

/// A list that has ever held more than `cap` items is on the heap from then
/// on: if the list after the first `k` of some steps that may be taken holds
/// more than `cap` items, the list after all the steps is on the heap.
pub proof fn lemma_grown_stays_on_heap<T>(m: Model<T>, cap: nat, ops: Seq<Op<T>>, k: int)
    requires
        m.wf(cap),
        all_allowed(m, cap, ops),
        0 <= k <= ops.len(),
        run(m, cap, ops.take(k)).items.len() > cap,
    ensures
        run(m, cap, ops).heap,
{
    lemma_allowed_prefix(m, cap, ops, k);
    lemma_run_wf(m, cap, ops.take(k));
    lemma_run_split(m, cap, ops, k);
    lemma_no_demotion(run(m, cap, ops.take(k)), cap, ops.skip(k));
}

/// Running `ops` is running its first `k` steps and then the rest.
pub proof fn lemma_run_split<T>(m: Model<T>, cap: nat, ops: Seq<Op<T>>, k: int)
    requires
        0 <= k <= ops.len(),
    ensures
        run(m, cap, ops) == run(run(m, cap, ops.take(k)), cap, ops.skip(k)),
    decreases ops.len(),
{
    if k == ops.len() {
        assert(ops.take(k) =~= ops);
        assert(ops.skip(k) =~= Seq::<Op<T>>::empty());
    } else {
        lemma_run_split(m, cap, ops.drop_last(), k);
        assert(ops.drop_last().take(k) =~= ops.take(k));
        assert(ops.skip(k).drop_last() =~= ops.drop_last().skip(k));
        assert(ops.skip(k).last() == ops.last());
    }
}

/// The length after pushes, pops, inserts and removes is the length that
/// the list was made with, plus the pushes and inserts, less the pops and
/// removes, and it is never negative. This holds where each step adds or
/// takes an item: a pop of the empty list takes none.
pub proof fn lemma_length_after<T>(m: Model<T>, cap: nat, ops: Seq<Op<T>>)
    requires
        all_count(m, cap, ops),
    ensures
        run(m, cap, ops).items.len() == m.items.len() + total_delta(ops),
        m.items.len() + total_delta(ops) >= 0,
    decreases ops.len(),
{
    if ops.len() > 0 {
        let front = ops.drop_last();
        assert forall|k: int| 0 <= k < front.len() implies (#[trigger] front[k]).counts(
            run(m, cap, front.take(k)),
        ) by {
            assert(front.take(k) =~= ops.take(k));
            assert(ops[k].counts(run(m, cap, ops.take(k))));
        }
        lemma_length_after(m, cap, front);
        assert(ops.take(ops.len() - 1) =~= front);
        assert(ops[ops.len() - 1].counts(run(m, cap, front)));
    }
}

/// A list made from `items` holds exactly `items`, in their order, whether
/// they are fewer than `cap`, exactly `cap`, or more.
pub proof fn lemma_round_trip<T>(items: Seq<T>, cap: nat)
    ensures
        Model::of_array(items, cap).items == items,
        Model::of_array(items, cap).wf(cap),
        Model::of_array(items, cap).heap <==> items.len() > cap,
{
}

/// Inserting `item` at `index` and then removing at `index` gives `item`
/// back and leaves the items as they were, inline or on the heap.
pub proof fn lemma_insert_then_remove<T>(m: Model<T>, cap: nat, index: int, item: T)
    requires
        0 <= index <= m.items.len(),
    ensures
        m.insert(cap, index, item).items[index] == item,
        m.insert(cap, index, item).remove(index).items == m.items,
{
    assert(m.items.insert(index, item).remove(index) =~= m.items);
}

} // verus!
