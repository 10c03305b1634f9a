pub mod command;
pub mod state;

use vstd::prelude::*;

use crate::controller::command::{add_shape, update_shape, Command};
use crate::controller::state::{ControllerState, ShapeType};
use crate::message::Message;
use crate::model::plan::{lacks_id, lookup, without, Entry, Plan, ShapeId};

verus! {

/// Pixels per world unit when a session starts.
pub const INITIAL_SCALE: u32 = 20;

/// How much one zoom step changes the scale.
pub const SCALE_STEP: u32 = 5;

/// The scale never drops below this.
pub const MIN_SCALE: u32 = 5;

/// Owns the plan, the two history stacks, the interaction mode and the zoom,
/// and consumes the messages of the presentation layer.
#[derive(Debug)]
pub struct Controller {
    plan: Plan,
    done_commands: Vec<Command>,
    undone_commands: Vec<Command>,
    state: ControllerState,
    scale: u32,
}

impl Default for Controller {
    /// An empty plan, empty history, idle, at the initial scale.
    fn default() -> (r: Self)
        ensures
            r.layout()@ == Seq::<crate::model::plan::Entry>::empty(),
            r.layout().next() == 1,
            r.done() == Seq::<Command>::empty(),
            r.undone() == Seq::<Command>::empty(),
            r.mode() == ControllerState::Idle,
            r.zoom() == INITIAL_SCALE,
            r.ids_below_counter(),
            r.history_consistent(),
    {
        Self {
            plan: Plan::default(),
            done_commands: Vec::new(),
            undone_commands: Vec::new(),
            state: ControllerState::Idle,
            scale: INITIAL_SCALE,
        }
    }
}

impl Controller {
    /// The plan.
    pub closed spec fn layout(self) -> Plan {
        self.plan
    }

    /// The commands that can be undone, the latest last.
    pub closed spec fn done(self) -> Seq<Command> {
        self.done_commands@
    }

    /// The commands that can be redone, the next one last.
    pub closed spec fn undone(self) -> Seq<Command> {
        self.undone_commands@
    }

    /// The interaction mode.
    pub closed spec fn mode(self) -> ControllerState {
        self.state
    }

    /// Pixels per world unit.
    pub closed spec fn zoom(self) -> nat {
        self.scale as nat
    }

    /// `pre` and `post` hold the same plan and the same history.
    pub open spec fn same_content(pre: Controller, post: Controller) -> bool {
        &&& post.layout()@ == pre.layout()@
        &&& post.layout().next() == pre.layout().next()
        &&& post.done() == pre.done()
        &&& post.undone() == pre.undone()
    }

    /// `pre` and `post` differ in nothing that can be observed.
    pub open spec fn same(pre: Controller, post: Controller) -> bool {
        &&& Controller::same_content(pre, post)
        &&& post.mode() == pre.mode()
        &&& post.zoom() == pre.zoom()
    }

    /// `post` is `pre` after executing `cmd`: it is applied, pushed on the done
    /// stack, and the redo stack is emptied.
    pub open spec fn executed(pre: Controller, cmd: Command, post: Controller) -> bool {
        &&& post.layout()@ == cmd.applied(pre.layout()@)
        &&& post.layout().next() == pre.layout().next()
        &&& post.done() == pre.done().push(cmd)
        &&& post.undone() == Seq::<Command>::empty()
        &&& post.mode() == pre.mode()
        &&& post.zoom() == pre.zoom()
    }

    /// `post` is `pre` after an undo: the latest done command, if any, is
    /// reverted and moves to the redo stack.
    pub open spec fn undone_from(pre: Controller, post: Controller) -> bool {
        if pre.done().len() == 0 {
            Controller::same(pre, post)
        } else {
            let cmd = pre.done().last();
            &&& post.layout()@ == cmd.reverted(pre.layout()@)
            &&& post.layout().next() == pre.layout().next()
            &&& post.done() == pre.done().drop_last()
            &&& post.undone() == pre.undone().push(cmd)
            &&& post.mode() == pre.mode()
            &&& post.zoom() == pre.zoom()
        }
    }

    /// `post` is `pre` after a redo: the latest undone command, if any, is
    /// applied again and moves back to the done stack.
    pub open spec fn redone_from(pre: Controller, post: Controller) -> bool {
        if pre.undone().len() == 0 {
            Controller::same(pre, post)
        } else {
            let cmd = pre.undone().last();
            &&& post.layout()@ == cmd.applied(pre.layout()@)
            &&& post.layout().next() == pre.layout().next()
            &&& post.done() == pre.done().push(cmd)
            &&& post.undone() == pre.undone().drop_last()
            &&& post.mode() == pre.mode()
            &&& post.zoom() == pre.zoom()
        }
    }

    /// The scale after one step in; it stays put where the step would leave
    /// the range of `u32`.
    pub open spec fn zoomed_in(scale: nat) -> nat {
        if scale + SCALE_STEP <= u32::MAX {
            (scale + SCALE_STEP) as nat
        } else {
            scale
        }
    }

    /// The scale after one step out: never below the minimum.
    pub open spec fn zoomed_out(scale: nat) -> nat {
        if scale >= MIN_SCALE + SCALE_STEP {
            (scale - SCALE_STEP) as nat
        } else {
            MIN_SCALE as nat
        }
    }

    /// `post` is `pre` with the mode set to `m`.
    pub open spec fn switched(pre: Controller, m: ControllerState, post: Controller) -> bool {
        &&& Controller::same_content(pre, post)
        &&& post.mode() == m
        &&& post.zoom() == pre.zoom()
    }

    /// `post` is `pre` after `update(msg)`.
    pub open spec fn stepped(pre: Controller, msg: Message, post: Controller) -> bool {
        match (pre.mode(), msg) {
            (ControllerState::Idle, Message::AddRectangleButton) => Controller::switched(
                pre,
                ControllerState::AddingShape(ShapeType::Rectangle),
                post,
            ),
            (ControllerState::Idle, Message::AddCircleButton) => Controller::switched(
                pre,
                ControllerState::AddingShape(ShapeType::Circle),
                post,
            ),
            (ControllerState::Idle, Message::MoveButton) => Controller::switched(
                pre,
                ControllerState::MovingShapes,
                post,
            ),
            (ControllerState::Idle, Message::Undo) => Controller::undone_from(pre, post),
            (ControllerState::Idle, Message::Redo) => Controller::redone_from(pre, post),
            (_, Message::ScaleUp) => {
                &&& Controller::same_content(pre, post)
                &&& post.mode() == pre.mode()
                &&& post.zoom() == Controller::zoomed_in(pre.zoom())
            },
            (_, Message::ScaleDown) => {
                &&& Controller::same_content(pre, post)
                &&& post.mode() == pre.mode()
                &&& post.zoom() == Controller::zoomed_out(pre.zoom())
            },
            (_, Message::Cancel) => Controller::switched(pre, ControllerState::Idle, post),
            (_, Message::AddShape(shape)) => {
                let cmd = post.done().last();
                &&& post.done().len() > 0
                &&& match cmd {
                    Command::Add(a) => a.id().value() == pre.layout().next() && a.added()
                        == shape,
                    Command::Update(_) => false,
                }
                &&& post.layout()@ == cmd.applied(pre.layout()@)
                &&& post.layout().next() == pre.layout().next() + 1
                &&& post.done() == pre.done().push(cmd)
                &&& post.undone() == Seq::<Command>::empty()
                &&& post.mode() == ControllerState::Idle
                &&& post.zoom() == pre.zoom()
            },
            (_, Message::UpdateShape(id, shape)) => match lookup(pre.layout()@, id) {
                Some(old) => {
                    let cmd = post.done().last();
                    &&& post.done().len() > 0
                    &&& match cmd {
                        Command::Update(u) => u.id() == id && u.before() == old && u.after()
                            == shape,
                        Command::Add(_) => false,
                    }
                    &&& Controller::executed(pre, cmd, post)
                },
                None => Controller::same(pre, post),
            },
            _ => Controller::same(pre, post),
        }
    }

    /// Handles one message of the presentation layer. Adding a shape allocates
    /// an id, so the id counter must have one left.
    pub fn update(&mut self, message: Message)
        requires
            message is AddShape ==> old(self).layout().can_generate(),
        ensures
            Controller::stepped(*old(self), message, *final(self)),
    {
        match (self.state, message) {
            (ControllerState::Idle, Message::AddRectangleButton) => {
                self.state = ControllerState::AddingShape(ShapeType::Rectangle)
            },
            (ControllerState::Idle, Message::AddCircleButton) => {
                self.state = ControllerState::AddingShape(ShapeType::Circle)
            },
            (ControllerState::Idle, Message::MoveButton) => {
                self.state = ControllerState::MovingShapes
            },
            (ControllerState::Idle, Message::Undo) => self.undo(),
            (ControllerState::Idle, Message::Redo) => self.redo(),
            (_, Message::ScaleUp) => {
                if self.scale <= u32::MAX - SCALE_STEP {
                    self.scale = self.scale + SCALE_STEP;
                }
            },
            (_, Message::ScaleDown) => {
                if self.scale >= MIN_SCALE + SCALE_STEP {
                    self.scale = self.scale - SCALE_STEP;
                } else {
                    self.scale = MIN_SCALE;
                }
            },
            (_, Message::Cancel) => self.state = ControllerState::Idle,
            (_, Message::AddShape(shape)) => {
                let id = self.plan.generate_shape_id();
                self.do_command(add_shape(id, shape));
                self.state = ControllerState::Idle;
            },
            (_, Message::UpdateShape(shape_id, shape)) => {
                let found = match self.plan.get_shape(shape_id) {
                    Some(old) => Some(*old),
                    None => None,
                };
                if let Some(old) = found {
                    self.do_command(update_shape(shape_id, old, shape));
                }
            },
            _ => {},
        }
    }

    /// The plan, for drawing and for the queries made during a gesture.
    pub fn plan(&self) -> (r: &Plan)
        ensures
            *r == self.layout(),
    {
        &self.plan
    }

    /// An undo would have an effect: the controller is idle and has a done command.
    pub fn can_undo(&self) -> (r: bool)
        ensures
            r == (self.mode() == ControllerState::Idle && self.done().len() > 0),
    {
        self.idle() && !self.done_commands.is_empty()
    }

    /// A redo would have an effect: the controller is idle and has an undone command.
    pub fn can_redo(&self) -> (r: bool)
        ensures
            r == (self.mode() == ControllerState::Idle && self.undone().len() > 0),
    {
        self.idle() && !self.undone_commands.is_empty()
    }

    /// Applies `command` and records it; whatever could be redone is dropped.
    pub fn do_command(&mut self, command: Command)
        ensures
            Controller::executed(*old(self), command, *final(self)),
    {
        command.apply(&mut self.plan);
        self.undone_commands.clear();
        self.done_commands.push(command);
    }

    /// Reverts the latest done command, if any.
    pub fn undo(&mut self)
        ensures
            Controller::undone_from(*old(self), *final(self)),
    {
        if let Some(command) = self.done_commands.pop() {
            command.undo(&mut self.plan);
            self.undone_commands.push(command);
        }
    }

    /// Applies again the latest undone command, if any.
    pub fn redo(&mut self)
        ensures
            Controller::redone_from(*old(self), *final(self)),
    {
        if let Some(command) = self.undone_commands.pop() {
            command.apply(&mut self.plan);
            self.done_commands.push(command);
        }
    }

    pub fn state(&self) -> (r: &ControllerState)
        ensures
            *r == self.mode(),
    {
        &self.state
    }

    pub fn idle(&self) -> (r: bool)
        ensures
            r == (self.mode() == ControllerState::Idle),
    {
        matches!(self.state, ControllerState::Idle)
    }

    /// Pixels per world unit.
    pub fn scale(&self) -> (r: u32)
        ensures
            r == self.zoom(),
    {
        self.scale
    }
}

/// Every entry of `s` has an id below `n`.
pub open spec fn entries_below(s: Seq<Entry>, n: nat) -> bool {
    forall|i: int| 0 <= i < s.len() ==> (#[trigger] s[i]).0.value() < n
}

/// Every command of `h` edits an id below `n`.
pub open spec fn commands_below(h: Seq<Command>, n: nat) -> bool {
    forall|i: int| 0 <= i < h.len() ==> (#[trigger] h[i]).target().value() < n
}

impl Controller {
    /// Every id in the plan and in both history stacks was handed out by the
    /// plan's counter: it is below the next id.
    pub open spec fn ids_below_counter(self) -> bool {
        let n = self.layout().next();
        &&& entries_below(self.layout()@, n)
        &&& commands_below(self.done(), n)
        &&& commands_below(self.undone(), n)
    }
}

proof fn lemma_without_below(s: Seq<Entry>, id: crate::model::plan::ShapeId, n: nat)
    requires
        entries_below(s, n),
    ensures
        entries_below(crate::model::plan::without(s, id), n),
{
    let f = crate::model::plan::without(s, id);
    assert forall|i: int| 0 <= i < f.len() implies (#[trigger] f[i]).0.value() < n by {
        assert(f.contains(f[i]));
        s.lemma_filter_contains_rev(crate::model::plan::lacks_id(id), f[i]);
    }
}

proof fn lemma_command_below(cmd: Command, s: Seq<Entry>, n: nat)
    requires
        entries_below(s, n),
        cmd.target().value() < n,
    ensures
        entries_below(cmd.applied(s), n),
        entries_below(cmd.reverted(s), n),
{
    lemma_without_below(s, cmd.target(), n);
    let w = crate::model::plan::without(s, cmd.target());
    match cmd {
        Command::Add(a) => {
            assert forall|i: int| 0 <= i < cmd.applied(s).len() implies (#[trigger] cmd.applied(
                s,
            )[i]).0.value() < n by {
                if i < s.len() {
                    assert(cmd.applied(s)[i] == s[i]);
                }
            }
        },
        Command::Update(u) => {
            assert forall|i: int| 0 <= i < cmd.applied(s).len() implies (#[trigger] cmd.applied(
                s,
            )[i]).0.value() < n by {
                if i < w.len() {
                    assert(cmd.applied(s)[i] == w[i]);
                }
            }
            assert forall|i: int| 0 <= i < cmd.reverted(s).len() implies (#[trigger] cmd.reverted(
                s,
            )[i]).0.value() < n by {
                if i < w.len() {
                    assert(cmd.reverted(s)[i] == w[i]);
                }
            }
        },
    }
}

proof fn lemma_push_below(h: Seq<Command>, cmd: Command, n: nat)
    requires
        commands_below(h, n),
        cmd.target().value() < n,
    ensures
        commands_below(h.push(cmd), n),
{
    assert forall|i: int| 0 <= i < h.push(cmd).len() implies (#[trigger] h.push(cmd)[i]).target().value()
        < n by {
        if i < h.len() {
            assert(h.push(cmd)[i] == h[i]);
        }
    }
}

proof fn lemma_drop_last_below(h: Seq<Command>, n: nat)
    requires
        commands_below(h, n),
        h.len() > 0,
    ensures
        commands_below(h.drop_last(), n),
        h.last().target().value() < n,
{
    assert forall|i: int| 0 <= i < h.drop_last().len() implies (#[trigger] h.drop_last()[i]).target().value()
        < n by {
        assert(h.drop_last()[i] == h[i]);
    }
}

proof fn lemma_raise_bound(s: Seq<Entry>, h1: Seq<Command>, h2: Seq<Command>, n: nat, m: nat)
    requires
        entries_below(s, n),
        commands_below(h1, n),
        commands_below(h2, n),
        n <= m,
    ensures
        entries_below(s, m),
        commands_below(h1, m),
        commands_below(h2, m),
{
}

/// Every message keeps all ids of the plan and of the history below the
/// counter, so a newly handed-out id is never one already in use.
pub proof fn lemma_step_keeps_ids_below_counter(pre: Controller, msg: Message, post: Controller)
    requires
        pre.ids_below_counter(),
        Controller::stepped(pre, msg, post),
    ensures
        post.ids_below_counter(),
{
    let s = pre.layout()@;
    let n = pre.layout().next();
    match (pre.mode(), msg) {
        (ControllerState::Idle, Message::Undo) => {
            if pre.done().len() > 0 {
                lemma_drop_last_below(pre.done(), n);
                lemma_command_below(pre.done().last(), s, n);
                lemma_push_below(pre.undone(), pre.done().last(), n);
            }
        },
        (ControllerState::Idle, Message::Redo) => {
            if pre.undone().len() > 0 {
                lemma_drop_last_below(pre.undone(), n);
                lemma_command_below(pre.undone().last(), s, n);
                lemma_push_below(pre.done(), pre.undone().last(), n);
            }
        },
        (ControllerState::Idle, Message::AddRectangleButton) => {},
        (ControllerState::Idle, Message::AddCircleButton) => {},
        (ControllerState::Idle, Message::MoveButton) => {},
        (_, Message::AddShape(shape)) => {
            let cmd = post.done().last();
            lemma_raise_bound(s, pre.done(), pre.undone(), n, n + 1);
            lemma_command_below(cmd, s, n + 1);
            lemma_push_below(pre.done(), cmd, n + 1);
        },
        (_, Message::UpdateShape(id, shape)) => {
            if lookup(s, id) is Some {
                let cmd = post.done().last();
                let f = s.filter(crate::model::plan::has_id(id));
                assert(f.contains(f[0]));
                s.lemma_filter_contains_rev(crate::model::plan::has_id(id), f[0]);
                lemma_command_below(cmd, s, n);
                lemma_push_below(pre.done(), cmd, n);
            }
        },
        _ => {},
    }
}

/// No entry of `s` carries `x`.
pub open spec fn absent(s: Seq<Entry>, x: ShapeId) -> bool {
    forall|i: int| 0 <= i < s.len() ==> (#[trigger] s[i]).0 != x
}

/// No two entries of `s` carry the same id.
pub open spec fn distinct_ids(s: Seq<Entry>) -> bool {
    forall|i: int, j: int| 0 <= i < s.len() && 0 <= j < s.len() && i != j ==> (#[trigger] s[i]).0
        != (#[trigger] s[j]).0
}

impl Controller {
    /// The plan and the two history stacks fit together as one linear history
    /// in which each id is added once, before any edit of it: the plan's ids
    /// are pairwise distinct; an addition waiting on the redo stack is for an
    /// id that is not in the plan, that no done command edits, and that no
    /// command redone before it edits; and no done command edits the id of a
    /// done addition that came after it.
    pub open spec fn history_consistent(self) -> bool {
        let s = self.layout()@;
        let d = self.done();
        let u = self.undone();
        &&& distinct_ids(s)
        &&& forall|j: int| 0 <= j < u.len() && (#[trigger] u[j]) is Add ==> absent(s, u[j].target())
        &&& forall|i: int, j: int|
            0 <= j < i < u.len() && (#[trigger] u[j]) is Add ==> (#[trigger] u[i]).target()
                != u[j].target()
        &&& forall|i: int, j: int|
            0 <= j < u.len() && 0 <= i < d.len() && (#[trigger] u[j]) is Add ==> (#[trigger] d[
                i
            ]).target() != u[j].target()
        &&& forall|i: int, k: int|
            0 <= i < k < d.len() && (#[trigger] d[k]) is Add ==> (#[trigger] d[i]).target()
                != d[k].target()
    }
}

proof fn lemma_without_absent(s: Seq<Entry>, y: ShapeId, x: ShapeId)
    requires
        absent(s, x) || x == y,
    ensures
        absent(without(s, y), x),
{
    let f = without(s, y);
    assert forall|i: int| 0 <= i < f.len() implies (#[trigger] f[i]).0 != x by {
        assert(f.contains(f[i]));
        s.lemma_filter_contains_rev(lacks_id(y), f[i]);
        s.lemma_filter_pred(lacks_id(y), i);
    }
}

proof fn lemma_push_distinct(s: Seq<Entry>, e: Entry)
    requires
        distinct_ids(s),
        absent(s, e.0),
    ensures
        distinct_ids(s.push(e)),
{
    let t = s.push(e);
    assert forall|i: int, j: int|
        0 <= i < t.len() && 0 <= j < t.len() && i != j implies (#[trigger] t[i]).0 != (#[trigger] t[
        j]).0 by {
        if i < s.len() && j < s.len() {
            assert(t[i] == s[i] && t[j] == s[j]);
        } else if i < s.len() {
            assert(t[i] == s[i]);
        } else {
            assert(t[j] == s[j]);
        }
    }
}

proof fn lemma_without_distinct(s: Seq<Entry>, y: ShapeId)
    requires
        distinct_ids(s),
    ensures
        distinct_ids(without(s, y)),
    decreases s.len(),
{
    reveal(Seq::filter);
    if s.len() > 0 {
        let d = s.drop_last();
        assert forall|i: int, j: int|
            0 <= i < d.len() && 0 <= j < d.len() && i != j implies (#[trigger] d[i]).0 != (
            #[trigger] d[j]).0 by {
            assert(d[i] == s[i] && d[j] == s[j]);
        }
        lemma_without_distinct(d, y);
        if s.last().0 != y {
            assert forall|i: int| 0 <= i < d.len() implies (#[trigger] d[i]).0 != s.last().0 by {
                assert(d[i] == s[i]);
            }
            lemma_without_absent(d, y, s.last().0);
            lemma_push_distinct(without(d, y), s.last());
        }
    }
}

/// After applying or undoing `cmd`, distinct entries stay distinct.
proof fn lemma_command_distinct(cmd: Command, s: Seq<Entry>)
    requires
        distinct_ids(s),
    ensures
        (cmd is Add ==> absent(s, cmd.target())) ==> distinct_ids(cmd.applied(s)),
        distinct_ids(cmd.reverted(s)),
{
    let y = cmd.target();
    let w = without(s, y);
    lemma_without_distinct(s, y);
    lemma_without_absent(s, y, y);
    match cmd {
        Command::Add(a) => {
            if absent(s, a.id()) {
                lemma_push_distinct(s, (a.id(), a.added()));
            }
        },
        Command::Update(u) => {
            lemma_push_distinct(w, (u.id(), u.after()));
            lemma_push_distinct(w, (u.id(), u.before()));
        },
    }
}

/// After applying or undoing `cmd`, an id other than its target that was
/// absent stays absent.
proof fn lemma_command_absent(cmd: Command, s: Seq<Entry>, x: ShapeId)
    requires
        absent(s, x),
        cmd.target() != x,
    ensures
        absent(cmd.applied(s), x),
        absent(cmd.reverted(s), x),
{
    let y = cmd.target();
    let w = without(s, y);
    lemma_without_absent(s, y, x);
    match cmd {
        Command::Add(a) => {
            let t = s.push((a.id(), a.added()));
            assert forall|i: int| 0 <= i < t.len() implies (#[trigger] t[i]).0 != x by {
                if i < s.len() {
                    assert(t[i] == s[i]);
                }
            }
        },
        Command::Update(u) => {
            let t1 = w.push((u.id(), u.after()));
            let t2 = w.push((u.id(), u.before()));
            assert forall|i: int| 0 <= i < t1.len() implies (#[trigger] t1[i]).0 != x by {
                if i < w.len() {
                    assert(t1[i] == w[i]);
                }
            }
            assert forall|i: int| 0 <= i < t2.len() implies (#[trigger] t2[i]).0 != x by {
                if i < w.len() {
                    assert(t2[i] == w[i]);
                }
            }
        },
    }
}

proof fn lemma_undo_consistent(pre: Controller, post: Controller)
    requires
        pre.history_consistent(),
        pre.done().len() > 0,
        Controller::undone_from(pre, post),
    ensures
        post.history_consistent(),
{
    let s = pre.layout()@;
    let d = pre.done();
    let u = pre.undone();
    let t = d.last();
    let s2 = post.layout()@;
    let d2 = post.done();
    let u2 = post.undone();
    lemma_without_absent(s, t.target(), t.target());
    lemma_command_distinct(t, s);
    assert forall|j: int| 0 <= j < u2.len() && (#[trigger] u2[j]) is Add implies absent(
        s2,
        u2[j].target(),
    ) by {
        if j < u.len() {
            assert(u2[j] == u[j]);
            assert(d[d.len() - 1].target() != u[j].target());
            lemma_command_absent(t, s, u[j].target());
        }
    }
    assert forall|i: int, j: int|
        0 <= j < i < u2.len() && (#[trigger] u2[j]) is Add implies (#[trigger] u2[i]).target()
        != u2[j].target() by {
        assert(u2[j] == u[j]);
        if i < u.len() {
            assert(u2[i] == u[i]);
        } else {
            assert(d[d.len() - 1].target() != u[j].target());
        }
    }
    assert forall|i: int, j: int|
        0 <= j < u2.len() && 0 <= i < d2.len() && (#[trigger] u2[j]) is Add implies (
        #[trigger] d2[i]).target() != u2[j].target() by {
        assert(d2[i] == d[i]);
        if j < u.len() {
            assert(u2[j] == u[j]);
        } else {
            assert(d[i].target() != d[d.len() - 1].target());
        }
    }
    assert forall|i: int, k: int|
        0 <= i < k < d2.len() && (#[trigger] d2[k]) is Add implies (#[trigger] d2[i]).target()
        != d2[k].target() by {
        assert(d2[i] == d[i] && d2[k] == d[k]);
    }
}

proof fn lemma_redo_consistent(pre: Controller, post: Controller)
    requires
        pre.history_consistent(),
        pre.undone().len() > 0,
        Controller::redone_from(pre, post),
    ensures
        post.history_consistent(),
{
    let s = pre.layout()@;
    let d = pre.done();
    let u = pre.undone();
    let t = u.last();
    let s2 = post.layout()@;
    let d2 = post.done();
    let u2 = post.undone();
    lemma_command_distinct(t, s);
    assert forall|j: int| 0 <= j < u2.len() && (#[trigger] u2[j]) is Add implies absent(
        s2,
        u2[j].target(),
    ) by {
        assert(u2[j] == u[j]);
        assert(u[u.len() - 1].target() != u[j].target());
        lemma_command_absent(t, s, u[j].target());
    }
    assert forall|i: int, j: int|
        0 <= j < i < u2.len() && (#[trigger] u2[j]) is Add implies (#[trigger] u2[i]).target()
        != u2[j].target() by {
        assert(u2[j] == u[j] && u2[i] == u[i]);
    }
    assert forall|i: int, j: int|
        0 <= j < u2.len() && 0 <= i < d2.len() && (#[trigger] u2[j]) is Add implies (
        #[trigger] d2[i]).target() != u2[j].target() by {
        assert(u2[j] == u[j]);
        if i < d.len() {
            assert(d2[i] == d[i]);
        } else {
            assert(u[u.len() - 1].target() != u[j].target());
        }
    }
    assert forall|i: int, k: int|
        0 <= i < k < d2.len() && (#[trigger] d2[k]) is Add implies (#[trigger] d2[i]).target()
        != d2[k].target() by {
        assert(d2[i] == d[i]);
        if k < d.len() {
            assert(d2[k] == d[k]);
        } else {
            assert(d[i].target() != u[u.len() - 1].target());
        }
    }
}

proof fn lemma_execute_consistent(pre: Controller, cmd: Command, post: Controller)
    requires
        pre.history_consistent(),
        pre.ids_below_counter(),
        post.done() == pre.done().push(cmd),
        post.undone() == Seq::<Command>::empty(),
        post.layout()@ == cmd.applied(pre.layout()@),
        cmd is Add ==> cmd.target().value() == pre.layout().next(),
    ensures
        post.history_consistent(),
{
    let s = pre.layout()@;
    let d = pre.done();
    let d2 = post.done();
    let n = pre.layout().next();
    if cmd is Add {
        assert forall|i: int| 0 <= i < s.len() implies (#[trigger] s[i]).0 != cmd.target() by {
            assert(s[i].0.value() < n);
        }
    }
    lemma_command_distinct(cmd, s);
    assert forall|i: int, k: int|
        0 <= i < k < d2.len() && (#[trigger] d2[k]) is Add implies (#[trigger] d2[i]).target()
        != d2[k].target() by {
        assert(d2[i] == d[i]);
        if k < d.len() {
            assert(d2[k] == d[k]);
        } else {
            assert(d[i].target().value() < n);
        }
    }
}

/// Every message keeps the history consistent, and so keeps the ids of the
/// plan pairwise distinct: undo and redo never bring back an id that is
/// already in the plan, and a new shape always gets an id not in use.
pub proof fn lemma_step_keeps_history_consistent(pre: Controller, msg: Message, post: Controller)
    requires
        pre.ids_below_counter(),
        pre.history_consistent(),
        Controller::stepped(pre, msg, post),
    ensures
        post.history_consistent(),
        distinct_ids(post.layout()@),
{
    match (pre.mode(), msg) {
        (ControllerState::Idle, Message::Undo) => {
            if pre.done().len() > 0 {
                lemma_undo_consistent(pre, post);
            }
        },
        (ControllerState::Idle, Message::Redo) => {
            if pre.undone().len() > 0 {
                lemma_redo_consistent(pre, post);
            }
        },
        (ControllerState::Idle, Message::AddRectangleButton) => {},
        (ControllerState::Idle, Message::AddCircleButton) => {},
        (ControllerState::Idle, Message::MoveButton) => {},
        (_, Message::AddShape(shape)) => {
            lemma_execute_consistent(pre, post.done().last(), post);
        },
        (_, Message::UpdateShape(id, shape)) => {
            if lookup(pre.layout()@, id) is Some {
                lemma_execute_consistent(pre, post.done().last(), post);
            }
        },
        _ => {},
    }
}

/// Once a command has been executed there is nothing to redo: a redo right
/// after it changes nothing, whatever was undone before.
pub proof fn lemma_redo_after_execute(pre: Controller, cmd: Command, mid: Controller, post: Controller)
    requires
        Controller::executed(pre, cmd, mid),
        Controller::redone_from(mid, post),
    ensures
        Controller::same(mid, post),
{
}

} // verus!
