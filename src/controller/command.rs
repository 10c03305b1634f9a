pub mod add;
pub mod update;

pub use self::add::{add_shape, AddShape};
pub use self::update::{update_shape, UpdateShape};

use vstd::prelude::*;

use crate::model::plan::{has_id, lacks_id, lookup, without, Entry, Plan, ShapeId};

verus! {

broadcast use vstd::seq_lib::group_seq_properties, vstd::seq_lib::group_filter_ensures;

/// A reversible edit of a plan.
#[derive(Debug, Clone, Copy)]
pub enum Command {
    Add(AddShape),
    Update(UpdateShape),
}

impl Command {
    /// The id whose entry the command edits.
    pub open spec fn target(self) -> ShapeId {
        match self {
            Command::Add(a) => a.id(),
            Command::Update(u) => u.id(),
        }
    }

    /// The entries after applying the command to `s`.
    pub open spec fn applied(self, s: Seq<Entry>) -> Seq<Entry> {
        match self {
            Command::Add(a) => s.push((a.id(), a.added())),
            Command::Update(u) => without(s, u.id()).push((u.id(), u.after())),
        }
    }

    /// The entries after undoing the command on `s`.
    pub open spec fn reverted(self, s: Seq<Entry>) -> Seq<Entry> {
        match self {
            Command::Add(a) => without(s, a.id()),
            Command::Update(u) => without(s, u.id()).push((u.id(), u.before())),
        }
    }

    /// The command was made for entries `s`: an addition under an id that `s`
    /// lacks, or an update whose old shape is the current shape of its id.
    pub open spec fn made_for(self, s: Seq<Entry>) -> bool {
        match self {
            Command::Add(a) => lookup(s, a.id()) == None::<crate::model::shape::Shape>,
            Command::Update(u) => lookup(s, u.id()) == Some(u.before()),
        }
    }

    /// Performs the edit.
    pub fn apply(&self, plan: &mut Plan)
        ensures
            final(plan)@ == self.applied(old(plan)@),
            final(plan).next() == old(plan).next(),
    {
        match self {
            Command::Add(a) => a.apply(plan),
            Command::Update(u) => u.apply(plan),
        }
    }

    /// Reverses the edit, on a plan in the state that `apply` left.
    pub fn undo(&self, plan: &mut Plan)
        ensures
            final(plan)@ == self.reverted(old(plan)@),
            final(plan).next() == old(plan).next(),
    {
        match self {
            Command::Add(a) => a.undo(plan),
            Command::Update(u) => u.undo(plan),
        }
    }
}

proof fn lemma_filter_keeps_all(s: Seq<Entry>, p: spec_fn(Entry) -> bool)
    requires
        forall|i: int| 0 <= i < s.len() ==> p(#[trigger] s[i]),
    ensures
        s.filter(p) == s,
    decreases s.len(),
{
    reveal(Seq::filter);
    if s.len() > 0 {
        lemma_filter_keeps_all(s.drop_last(), p);
        assert(s.drop_last().push(s.last()) =~= s);
    }
}

/// Taking the entries of `id` out twice is taking them out once.
proof fn lemma_without_twice(s: Seq<Entry>, id: ShapeId)
    ensures
        without(without(s, id), id) == without(s, id),
{
    let w = without(s, id);
    assert forall|i: int| 0 <= i < w.len() implies lacks_id(id)(#[trigger] w[i]) by {
        s.lemma_filter_pred(lacks_id(id), i);
    }
    lemma_filter_keeps_all(w, lacks_id(id));
}

/// `without(s, id)` followed by an entry of `id`: that entry is the one found,
/// and the other entries are those of `s`.
proof fn lemma_replaced(s: Seq<Entry>, id: ShapeId, e: Entry)
    requires
        e.0 == id,
    ensures
        lookup(without(s, id).push(e), id) == Some(e.1),
        without(without(s, id).push(e), id) == without(s, id),
{
    let w = without(s, id);
    lemma_without_twice(s, id);
    w.lemma_filter_push(e, lacks_id(id));
    w.lemma_filter_push(e, has_id(id));
    assert forall|i: int| 0 <= i < w.len() implies lacks_id(id)(#[trigger] w[i]) by {
        s.lemma_filter_pred(lacks_id(id), i);
    }
    assert(w.all(|x: Entry| !has_id(id)(x)));
    w.lemma_all_neg_filter_empty(has_id(id));
    assert(w.filter(has_id(id)).push(e)[0] == e);
}

/// Applying a command and then undoing it leaves the affected id with the shape
/// it had and every other entry as it was, in order; an addition is undone
/// exactly.
pub proof fn lemma_undo_after_apply(cmd: Command, s: Seq<Entry>)
    requires
        cmd.made_for(s),
    ensures
        lookup(cmd.reverted(cmd.applied(s)), cmd.target()) == lookup(s, cmd.target()),
        without(cmd.reverted(cmd.applied(s)), cmd.target()) == without(s, cmd.target()),
        cmd is Add ==> cmd.reverted(cmd.applied(s)) == s,
{
    let id = cmd.target();
    match cmd {
        Command::Add(a) => {
            s.lemma_filter_push((a.id(), a.added()), lacks_id(id));
            assert forall|i: int| 0 <= i < s.len() implies lacks_id(id)(#[trigger] s[i]) by {
                if s[i].0 == id {
                    s.lemma_filter_contains(has_id(id), i);
                }
            }
            lemma_filter_keeps_all(s, lacks_id(id));
        },
        Command::Update(u) => {
            let applied = without(s, id).push((id, u.after()));
            lemma_replaced(s, id, (id, u.after()));
            lemma_replaced(applied, id, (id, u.before()));
        },
    }
}

} // verus!
