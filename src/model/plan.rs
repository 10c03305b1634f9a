use vstd::prelude::*;

use crate::model::shape::{disjoint, Shape};
use crate::model::vec2::Vec2;

verus! {

broadcast use vstd::seq_lib::group_seq_properties, vstd::seq_lib::group_filter_ensures;

/// Handle of a shape in a [`Plan`]: positive, allocated in increasing order and
/// never reused.
#[derive(Debug, Clone, Copy, PartialEq, Eq, Structural, Hash)]
pub struct ShapeId(u32);

impl ShapeId {
    #[verifier::type_invariant]
    spec fn positive(self) -> bool {
        self.0 != 0
    }

    /// The number behind the handle.
    pub closed spec fn value(self) -> nat {
        self.0 as nat
    }

    /// Handles with the same number are the same handle.
    pub proof fn lemma_eq(a: ShapeId, b: ShapeId)
        requires
            a.value() == b.value(),
        ensures
            a == b,
    {
    }
}

/// One entry of a plan.
pub type Entry = (ShapeId, Shape);

/// The entries that carry `id`.
pub open spec fn has_id(id: ShapeId) -> spec_fn(Entry) -> bool {
    |e: Entry| e.0 == id
}

/// The entries that do not carry `id`.
pub open spec fn lacks_id(id: ShapeId) -> spec_fn(Entry) -> bool {
    |e: Entry| e.0 != id
}

/// The entries whose shape holds `p`.
pub open spec fn holds_point(p: Vec2) -> spec_fn(Entry) -> bool {
    |e: Entry| e.1.holds(p)
}

/// The first entry of `s` that meets `p`, if any.
pub open spec fn first_where(s: Seq<Entry>, p: spec_fn(Entry) -> bool) -> Option<Entry> {
    let f = s.filter(p);
    if f.len() > 0 {
        Some(f[0])
    } else {
        None
    }
}

/// The shape of the first entry of `s` that carries `id`, if any.
pub open spec fn lookup(s: Seq<Entry>, id: ShapeId) -> Option<Shape> {
    match first_where(s, has_id(id)) {
        Some(e) => Some(e.1),
        None => None,
    }
}

/// `s` with every entry that carries `id` taken out, the others in their order.
pub open spec fn without(s: Seq<Entry>, id: ShapeId) -> Seq<Entry> {
    s.filter(lacks_id(id))
}

/// `shape` is disjoint from every shape of `s` but those carrying `ignore`.
pub open spec fn disjoint_from_all(s: Seq<Entry>, shape: Shape, ignore: Option<ShapeId>) -> bool {
    forall|i: int|
        0 <= i < s.len() && ignore != Some(#[trigger] s[i].0) ==> disjoint(s[i].1, shape)
}

proof fn lemma_filter_split(s: Seq<Entry>, i: int, p: spec_fn(Entry) -> bool)
    requires
        0 <= i <= s.len(),
    ensures
        s.filter(p) == s.subrange(0, i).filter(p) + s.subrange(i, s.len() as int).filter(p),
{
    assert(s =~= s.subrange(0, i) + s.subrange(i, s.len() as int));
    Seq::filter_distributes_over_add(s.subrange(0, i), s.subrange(i, s.len() as int), p);
}

proof fn lemma_none_before(s: Seq<Entry>, p: spec_fn(Entry) -> bool)
    requires
        forall|j: int| 0 <= j < s.len() ==> !p(#[trigger] s[j]),
    ensures
        s.filter(p) =~= Seq::<Entry>::empty(),
{
    assert(s.all(|x: Entry| !p(x)));
    s.lemma_all_neg_filter_empty(p);
}

/// The first entry that meets `p` is the one at `i` when none before it does.
proof fn lemma_first_where_at(s: Seq<Entry>, p: spec_fn(Entry) -> bool, i: int)
    requires
        0 <= i < s.len(),
        p(s[i]),
        forall|j: int| 0 <= j < i ==> !p(#[trigger] s[j]),
    ensures
        first_where(s, p) == Some(s[i]),
{
    let pre = s.subrange(0, i);
    let rest = s.subrange(i + 1, s.len() as int);
    lemma_filter_split(s, i, p);
    lemma_none_before(pre, p);
    assert(s.subrange(i, s.len() as int) =~= seq![s[i]] + rest);
    rest.lemma_filter_prepend(s[i], p);
}

/// No entry of `s` meets `p`.
proof fn lemma_first_where_none(s: Seq<Entry>, p: spec_fn(Entry) -> bool)
    requires
        forall|j: int| 0 <= j < s.len() ==> !p(#[trigger] s[j]),
    ensures
        first_where(s, p) == None::<Entry>,
{
    lemma_none_before(s, p);
}

/// The ordered registry of the shapes on the canvas, with the counter that
/// allocates their ids. Insertion order is drawing order.
#[derive(Debug)]
pub struct Plan {
    /// How many ids have been handed out; the next one is one more.
    issued: u32,
    shapes: Vec<Entry>,
}

impl View for Plan {
    type V = Seq<Entry>;

    closed spec fn view(&self) -> Seq<Entry> {
        self.shapes@
    }
}

impl Default for Plan {
    /// An empty plan whose first id is 1.
    fn default() -> (r: Self)
        ensures
            r@ == Seq::<Entry>::empty(),
            r.next() == 1,
    {
        Self { issued: 0, shapes: Vec::new() }
    }
}

impl Plan {
    /// The id that the next call of `generate_shape_id` hands out.
    pub closed spec fn next(self) -> nat {
        self.issued as nat + 1
    }

    /// The counter has an id left to hand out.
    pub open spec fn can_generate(self) -> bool {
        self.next() < u32::MAX
    }

    /// `post` is `pre` after handing out `id`: the entries are kept and the
    /// counter moves one step past `id`.
    pub open spec fn generated(pre: Plan, post: Plan, id: ShapeId) -> bool {
        &&& id.value() == pre.next()
        &&& id.value() >= 1
        &&& post.next() == pre.next() + 1
        &&& post@ == pre@
    }

    /// The counter has an id left to hand out.
    pub fn has_ids_left(&self) -> (r: bool)
        ensures
            r == self.can_generate(),
    {
        self.issued < u32::MAX - 1
    }

    /// Hands out a fresh id. The counter is 32 bits wide: the last one is left
    /// out, as the step past it would not fit.
    pub fn generate_shape_id(&mut self) -> (r: ShapeId)
        requires
            old(self).can_generate(),
        ensures
            Plan::generated(*old(self), *final(self), r),
    {
        self.issued = self.issued + 1;
        ShapeId(self.issued)
    }

    /// Appends `shape` under `shape_id` at the end; ids are not checked.
    pub fn add_shape(&mut self, shape_id: ShapeId, shape: Shape)
        ensures
            final(self)@ == old(self)@.push((shape_id, shape)),
            final(self).next() == old(self).next(),
    {
        self.shapes.push((shape_id, shape));
    }

    pub fn get_shape(&self, shape_id: ShapeId) -> (r: Option<&Shape>)
        ensures
            match r {
                Some(s) => lookup(self@, shape_id) == Some(*s),
                None => lookup(self@, shape_id) == None::<Shape>,
            },
    {
        let mut i: usize = 0;
        while i < self.shapes.len()
            invariant
                0 <= i <= self@.len(),
                forall|j: int| 0 <= j < i ==> !has_id(shape_id)(#[trigger] self@[j]),
            decreases self@.len() - i,
        {
            if self.shapes[i].0 == shape_id {
                proof {
                    lemma_first_where_at(self@, has_id(shape_id), i as int);
                }
                return Some(&self.shapes[i].1);
            }
            i = i + 1;
        }
        proof {
            lemma_first_where_none(self@, has_id(shape_id));
        }
        None
    }

    /// The first entry, in drawing order, whose shape holds `point`.
    pub fn get_shape_at(&self, point: &Vec2) -> (r: Option<&Entry>)
        ensures
            match r {
                Some(e) => first_where(self@, holds_point(*point)) == Some(*e),
                None => first_where(self@, holds_point(*point)) == None::<Entry>,
            },
    {
        let mut i: usize = 0;
        while i < self.shapes.len()
            invariant
                0 <= i <= self@.len(),
                forall|j: int| 0 <= j < i ==> !holds_point(*point)(#[trigger] self@[j]),
            decreases self@.len() - i,
        {
            if self.shapes[i].1.contains(point) {
                proof {
                    lemma_first_where_at(self@, holds_point(*point), i as int);
                }
                return Some(&self.shapes[i]);
            }
            i = i + 1;
        }
        proof {
            lemma_first_where_none(self@, holds_point(*point));
        }
        None
    }

    /// Takes out every entry that carries `shape_id`; the others keep their order.
    pub fn remove_shape(&mut self, shape_id: ShapeId)
        ensures
            final(self)@ == without(old(self)@, shape_id),
            final(self).next() == old(self).next(),
    {
        let ghost s = self@;
        let mut kept: Vec<Entry> = Vec::new();
        let mut i: usize = 0;
        while i < self.shapes.len()
            invariant
                s == self@,
                0 <= i <= s.len(),
                kept@ == s.subrange(0, i as int).filter(lacks_id(shape_id)),
            decreases s.len() - i,
        {
            let e = self.shapes[i];
            proof {
                assert(s.subrange(0, i + 1) =~= s.subrange(0, i as int).push(e));
                s.subrange(0, i as int).lemma_filter_push(e, lacks_id(shape_id));
            }
            if e.0 != shape_id {
                kept.push(e);
            }
            i = i + 1;
        }
        assert(s.subrange(0, s.len() as int) =~= s);
        self.shapes = kept;
    }

    /// Takes out the entries of `shape_id` and appends `shape` under it at the end,
    /// which moves the shape to the back of drawing order.
    pub fn replace_shape(&mut self, shape_id: ShapeId, shape: Shape)
        ensures
            final(self)@ == without(old(self)@, shape_id).push((shape_id, shape)),
            final(self).next() == old(self).next(),
    {
        self.remove_shape(shape_id);
        self.shapes.push((shape_id, shape));
    }

    /// The entries in drawing order.
    pub fn iter(&self) -> (r: &[Entry])
        ensures
            r@ == self@,
    {
        self.shapes.as_slice()
    }

    /// `shape` is disjoint from every shape of the plan but the one of `ignore`.
    pub fn is_disjoint(&self, shape: &Shape, ignore: Option<ShapeId>) -> (r: bool)
        ensures
            r == disjoint_from_all(self@, *shape, ignore),
    {
        let mut i: usize = 0;
        while i < self.shapes.len()
            invariant
                0 <= i <= self@.len(),
                disjoint_from_all(self@.subrange(0, i as int), *shape, ignore),
            decreases self@.len() - i,
        {
            let e = &self.shapes[i];
            let skip = match ignore {
                Some(ignore_id) => e.0 == ignore_id,
                None => false,
            };
            if !skip && !e.1.is_disjoint(shape) {
                assert(ignore != Some(self@[i as int].0));
                assert(!disjoint(self@[i as int].1, *shape));
                return false;
            }
            proof {
                let t = self@.subrange(0, i + 1);
                assert forall|j: int|
                    0 <= j < t.len() && ignore != Some(#[trigger] t[j].0) implies disjoint(
                    t[j].1,
                    *shape,
                ) by {
                    if j < i {
                        assert(t[j] == self@.subrange(0, i as int)[j]);
                    }
                }
            }
            i = i + 1;
        }
        assert(self@.subrange(0, self@.len() as int) =~= self@);
        true
    }
}

/// `plans` runs through successive calls of `generate_shape_id`, the call from
/// `plans[i]` to `plans[i + 1]` handing out `ids[i]`.
pub open spec fn generation_run(plans: Seq<Plan>, ids: Seq<ShapeId>) -> bool {
    &&& plans.len() == ids.len() + 1
    &&& forall|i: int|
        0 <= i < ids.len() ==> Plan::generated(#[trigger] plans[i], plans[i + 1], ids[i])
}

proof fn lemma_counter_after(plans: Seq<Plan>, ids: Seq<ShapeId>, k: int)
    requires
        generation_run(plans, ids),
        0 <= k <= ids.len(),
    ensures
        plans[k].next() == plans[0].next() + k,
    decreases k,
{
    if k > 0 {
        lemma_counter_after(plans, ids, k - 1);
        assert(Plan::generated(plans[k - 1], plans[k], ids[k - 1]));
    }
}

/// Any number of successive calls of `generate_shape_id` hand out pairwise
/// distinct ids.
pub proof fn lemma_generated_ids_distinct(plans: Seq<Plan>, ids: Seq<ShapeId>)
    requires
        generation_run(plans, ids),
    ensures
        forall|i: int, j: int| 0 <= i < j < ids.len() ==> ids[i] != ids[j],
        forall|i: int, j: int| 0 <= i < j < ids.len() ==> ids[i].value() < ids[j].value(),
        forall|i: int| 0 <= i < ids.len() ==> ids[i].value() >= 1,
{
    assert forall|i: int| 0 <= i < ids.len() implies ids[i].value() >= 1 by {
        assert(Plan::generated(plans[i], plans[i + 1], ids[i]));
    }
    assert forall|i: int, j: int|
        0 <= i < j < ids.len() implies ids[i] != ids[j] && ids[i].value() < ids[j].value() by {
        lemma_counter_after(plans, ids, i);
        lemma_counter_after(plans, ids, j);
        assert(Plan::generated(plans[i], plans[i + 1], ids[i]));
        assert(Plan::generated(plans[j], plans[j + 1], ids[j]));
    }
}

} // verus!
