//! A row whose items can be reordered by dragging.
use vstd::prelude::*;

use crate::widget::drag::{
    DragEvent, Goal, displacement, goal_slot, landing, lemma_preview_is_reorder, moved,
    spec_displacement,
};

verus! {

/// The amount of space a widget asks for along one axis. `F` is the type of
/// a fixed amount of pixels, which the row carries without reading it.
#[derive(Clone, Copy, Debug)]
pub enum Length<F> {
    /// Fill all the remaining space.
    Fill,
    /// Fill a share of the remaining space.
    FillPortion(u16),
    /// Take as little space as the contents need.
    Shrink,
    /// A fixed amount of space.
    Fixed(F),
}

impl<F> Length<F> {
    /// Whether the length asks for remaining space.
    pub open spec fn is_fill(self) -> bool {
        self is Fill || self is FillPortion
    }

    /// The length of a container that holds `self` and a child of length
    /// `other`: a shrinking container takes the filling strategy of its
    /// child, any other keeps its own.
    pub open spec fn spec_enclose(self, other: Length<F>) -> Length<F> {
        if self is Shrink && other.is_fill() {
            other
        } else {
            self
        }
    }

    /// Computes [`Length::spec_enclose`].
    pub fn enclose(self, other: Length<F>) -> (r: Length<F>)
        ensures
            r == self.spec_enclose(other),
    {
        match (&self, &other) {
            (Length::Shrink, Length::Fill) => other,
            (Length::Shrink, Length::FillPortion(_)) => other,
            _ => self,
        }
    }
}

/// The size that a child asks for, as the row reads it before taking the
/// child in.
#[derive(Clone, Copy, Debug)]
pub struct SizeHint<F> {
    /// The width the child asks for.
    pub width: Length<F>,
    /// The height the child asks for.
    pub height: Length<F>,
    /// Whether the child takes no space at all (a fixed length of zero on
    /// either axis), as the caller found it.
    pub is_void: bool,
}

/// The alignment of the contents of the row across its axis.
#[derive(Clone, Copy, Debug, PartialEq, Eq, Structural)]
pub enum Alignment {
    /// Towards the top.
    Start,
    /// In the middle.
    Center,
    /// Towards the bottom.
    End,
}

/// What a [`Row`] holds, as a mathematical value.
pub struct RowView<E, H, F> {
    pub children: Seq<E>,
    pub width: Length<F>,
    pub height: Length<F>,
    pub align: Alignment,
    pub clip: bool,
    pub on_drag: Option<H>,
}

/// A container that distributes its children horizontally and lets them be
/// reordered by dragging. `E` is the type of a child, `H` that of the handler
/// of drag events, `F` that of a fixed amount of pixels.
pub struct Row<E, H, F> {
    children: Vec<E>,
    width: Length<F>,
    height: Length<F>,
    align: Alignment,
    clip: bool,
    on_drag: Option<H>,
}

impl<E, H, F> View for Row<E, H, F> {
    type V = RowView<E, H, F>;

    closed spec fn view(&self) -> RowView<E, H, F> {
        RowView {
            children: self.children@,
            width: self.width,
            height: self.height,
            align: self.align,
            clip: self.clip,
            on_drag: self.on_drag,
        }
    }
}

impl<E, H, F> RowView<E, H, F> {
    /// A row of the given children with the default settings: shrinking
    /// on both axes, aligned to the start, not clipped, no drag handler.
    pub open spec fn initial(children: Seq<E>) -> RowView<E, H, F> {
        RowView {
            children,
            width: Length::Shrink,
            height: Length::Shrink,
            align: Alignment::Start,
            clip: false,
            on_drag: None,
        }
    }

    /// The row after a child of the given size hint is pushed: a void child
    /// is left out; any other child is appended, and the row's lengths
    /// enclose the child's.
    pub open spec fn pushed(self, child: E, hint: SizeHint<F>) -> RowView<E, H, F> {
        if hint.is_void {
            self
        } else {
            RowView {
                children: self.children.push(child),
                width: self.width.spec_enclose(hint.width),
                height: self.height.spec_enclose(hint.height),
                ..self
            }
        }
    }

    /// The row after each of `items` is pushed, in order.
    pub open spec fn extended(self, items: Seq<(E, SizeHint<F>)>) -> RowView<E, H, F>
        decreases items.len(),
    {
        if items.len() == 0 {
            self
        } else {
            self.extended(items.drop_last()).pushed(items.last().0, items.last().1)
        }
    }
}

impl<E, H, F> Row<E, H, F> {
    /// Creates an empty [`Row`].
    pub fn new() -> (row: Self)
        ensures
            row@ == RowView::<E, H, F>::initial(Seq::empty()),
    {
        Self::from_vec(Vec::new())
    }

    /// Creates an empty [`Row`] with room for `capacity` children.
    pub fn with_capacity(capacity: usize) -> (row: Self)
        ensures
            row@ == RowView::<E, H, F>::initial(Seq::empty()),
    {
        Self::from_vec(Vec::with_capacity(capacity))
    }

    /// Creates a [`Row`] with the given children, each pushed with its
    /// size hint.
    pub fn with_children(children: Vec<(E, SizeHint<F>)>) -> (row: Self)
        ensures
            row@ == RowView::<E, H, F>::initial(Seq::empty()).extended(children@),
    {
        let capacity = children.len();
        Self::with_capacity(capacity).extend(children)
    }

    /// Creates a [`Row`] from an already allocated [`Vec`]. The row does not
    /// inspect the children: its lengths stay those of an empty row.
    pub fn from_vec(children: Vec<E>) -> (row: Self)
        ensures
            row@ == RowView::<E, H, F>::initial(children@),
    {
        Row {
            children,
            width: Length::Shrink,
            height: Length::Shrink,
            align: Alignment::Start,
            clip: false,
            on_drag: None,
        }
    }

    /// Sets the width of the [`Row`].
    pub fn width(self, width: Length<F>) -> (row: Self)
        ensures
            row@ == (RowView { width, ..self@ }),
    {
        Row { width, ..self }
    }

    /// Sets the height of the [`Row`].
    pub fn height(self, height: Length<F>) -> (row: Self)
        ensures
            row@ == (RowView { height, ..self@ }),
    {
        Row { height, ..self }
    }

    /// Sets the alignment of the contents of the [`Row`] across its axis.
    pub fn align_y(self, align: Alignment) -> (row: Self)
        ensures
            row@ == (RowView { align, ..self@ }),
    {
        Row { align, ..self }
    }

    /// Sets whether the contents of the [`Row`] are clipped on overflow.
    pub fn clip(self, clip: bool) -> (row: Self)
        ensures
            row@ == (RowView { clip, ..self@ }),
    {
        Row { clip, ..self }
    }

    /// Sets the handler of drag events: with one, the children can be
    /// dragged and reordered.
    pub fn on_drag(self, on_drag: H) -> (row: Self)
        ensures
            row@ == (RowView { on_drag: Some(on_drag), ..self@ }),
    {
        Row { on_drag: Some(on_drag), ..self }
    }

    /// Adds a child to the [`Row`], unless it is void.
    pub fn push(self, child: E, hint: SizeHint<F>) -> (row: Self)
        ensures
            row@ == self@.pushed(child, hint),
    {
        if hint.is_void {
            self
        } else {
            let Row { mut children, width, height, align, clip, on_drag } = self;
            children.push(child);
            Row {
                children,
                width: width.enclose(hint.width),
                height: height.enclose(hint.height),
                align,
                clip,
                on_drag,
            }
        }
    }

    /// Adds a child to the [`Row`], if there is one.
    pub fn push_maybe(self, child: Option<(E, SizeHint<F>)>) -> (row: Self)
        ensures
            row@ == match child {
                Some((c, hint)) => self@.pushed(c, hint),
                None => self@,
            },
    {
        match child {
            Some((c, hint)) => self.push(c, hint),
            None => self,
        }
    }

    /// Pushes each of the given children, in order.
    pub fn extend(self, children: Vec<(E, SizeHint<F>)>) -> (row: Self)
        ensures
            row@ == self@.extended(children@),
    {
        let ghost start = self@;
        let ghost items = children@;
        let mut row = self;
        for item in it: children.into_iter()
            invariant
                it.seq() == items,
                row@ == start.extended(items.take(it.index() as int)),
        {
            assert(items.take(it.index() + 1).drop_last() == items.take(it.index() as int));
            let (child, hint) = item;
            row = row.push(child, hint);
        }
        assert(items.take(items.len() as int) == items);
        row
    }
}

impl<E, H, F> Row<E, H, F> {
    /// The children of the [`Row`].
    pub fn children(&self) -> (children: &Vec<E>)
        ensures
            children@ == self@.children,
    {
        &self.children
    }

    /// The children of the [`Row`], to be updated in place.
    pub fn children_mut(&mut self) -> (children: &mut Vec<E>)
        ensures
            children@ == old(self)@.children,
            final(self)@ == (RowView { children: final(children)@, ..old(self)@ }),
    {
        &mut self.children
    }

    /// The width and height of the [`Row`].
    pub fn size(&self) -> (size: (&Length<F>, &Length<F>))
        ensures
            *size.0 == self@.width,
            *size.1 == self@.height,
    {
        (&self.width, &self.height)
    }

    /// The alignment of the contents of the [`Row`] across its axis.
    pub fn alignment(&self) -> (align: Alignment)
        ensures
            align == self@.align,
    {
        self.align
    }

    /// Whether the contents of the [`Row`] are clipped on overflow.
    pub fn is_clipped(&self) -> (clip: bool)
        ensures
            clip == self@.clip,
    {
        self.clip
    }

    /// The handler of drag events, if there is one.
    pub fn drag_handler(&self) -> (handler: Option<&H>)
        ensures
            match handler {
                Some(h) => self@.on_drag == Some(*h),
                None => self@.on_drag is None,
            },
    {
        self.on_drag.as_ref()
    }
}

/// The animated offsets of the children of a row, one per child.
pub struct ItemAnimations<T> {
    /// The offset of each child, by index.
    pub offsets: Vec<T>,
}

impl<T> ItemAnimations<T> {
    /// No offsets at all.
    pub fn new() -> (animations: Self)
        ensures
            animations.offsets@ == Seq::<T>::empty(),
    {
        ItemAnimations { offsets: Vec::new() }
    }

    /// Makes room for at least `count` offsets: the existing ones are kept
    /// and, where there are fewer than `count`, new ones made by `fresh` are
    /// appended.
    pub fn with_capacity<G: Fn() -> T>(&mut self, count: usize, fresh: G)
        requires
            call_requires(fresh, ()),
        ensures
            final(self).offsets@.len() == if old(self).offsets@.len() < count {
                count as nat
            } else {
                old(self).offsets@.len()
            },
            forall|i: int|
                0 <= i < old(self).offsets@.len() ==> #[trigger] final(self).offsets@[i] == old(
                    self,
                ).offsets@[i],
            forall|i: int|
                old(self).offsets@.len() <= i < final(self).offsets@.len() ==> call_ensures(
                    fresh,
                    (),
                    #[trigger] final(self).offsets@[i],
                ),
    {
        let start = self.offsets.len();
        if start < count {
            let mut k = start;
            while k < count
                invariant
                    start <= k <= count,
                    self.offsets@.len() == k,
                    call_requires(fresh, ()),
                    forall|i: int| 0 <= i < start ==> #[trigger] self.offsets@[i] == old(self).offsets@[i],
                    forall|i: int|
                        start <= i < k ==> call_ensures(fresh, (), #[trigger] self.offsets@[i]),
                decreases count - k,
            {
                let item = fresh();
                self.offsets.push(item);
                k = k + 1;
            }
        }
    }
}

/// The first slot, from `k` on, that the cursor reaches.
pub open spec fn first_reach(reaches: Seq<bool>, k: nat) -> Option<nat>
    decreases reaches.len() - k,
{
    if k >= reaches.len() {
        None
    } else if reaches[k as int] {
        Some(k)
    } else {
        first_reach(reaches, k + 1)
    }
}

/// The first reached slot from `k` on is the least reached index from `k`.
pub proof fn lemma_first_reach(reaches: Seq<bool>, k: nat)
    ensures
        match first_reach(reaches, k) {
            Some(j) => k <= j < reaches.len() && reaches[j as int] && forall|m: int|
                k <= m < j ==> !#[trigger] reaches[m],
            None => forall|m: int| k <= m < reaches.len() ==> !#[trigger] reaches[m],
        },
    decreases reaches.len() - k,
{
    if k < reaches.len() && !reaches[k as int] {
        lemma_first_reach(reaches, k + 1);
    }
}

/// The last slot of a row of `n` children (the first one when there is none).
pub open spec fn last_slot(n: nat) -> nat {
    if n > 0 {
        (n - 1) as nat
    } else {
        0
    }
}

/// What the caller measured of a cursor position against the row's layout.
pub struct Probe {
    /// Whether the cursor is before the start of the row's bounds.
    pub before_start: bool,
    /// For the layout of each child, in order, whether the cursor is at or
    /// before the child's far edge.
    pub reaches: Vec<bool>,
}

/// The slot a cursor points at, in a row of `n` children: the first slot
/// when the cursor is before the row, else the first child it reaches, else
/// the last slot.
pub open spec fn target_slot(probe: Probe, n: nat) -> nat {
    if probe.before_start {
        0
    } else {
        match first_reach(probe.reaches@, 0) {
            Some(i) => i,
            None => last_slot(n),
        }
    }
}

/// The state of a drag in a row.
#[derive(Clone, Copy, Debug, PartialEq, Eq, Structural)]
pub enum Phase {
    /// Nothing is being dragged.
    Idle,
    /// The item at `index` was pressed, and the cursor has not yet left the
    /// deadband around the press.
    Picking { index: usize },
    /// The item at `index` is being dragged.
    Dragging { index: usize },
}

impl Phase {
    /// The index of the item that is picked or dragged.
    pub open spec fn held(self) -> Option<usize> {
        match self {
            Phase::Idle => None,
            Phase::Picking { index } => Some(index),
            Phase::Dragging { index } => Some(index),
        }
    }

    /// Whether an item is being dragged: the cursor then shows a grabbing
    /// hand, whatever the children would show.
    pub fn is_dragging(&self) -> (dragging: bool)
        ensures
            dragging == (*self is Dragging),
    {
        match self {
            Phase::Dragging { .. } => true,
            _ => false,
        }
    }
}

impl Default for Phase {
    /// Nothing is being dragged.
    fn default() -> (phase: Phase)
        ensures
            phase == Phase::Idle,
    {
        Phase::Idle
    }
}

/// What the caller saw of the cursor when it moved.
pub struct Sighting {
    /// The cursor position measured against the row's layout.
    pub probe: Probe,
    /// Whether the cursor is farther than the deadband distance from where
    /// the item was pressed.
    pub beyond_deadband: bool,
}

/// An event that reached the row, as the row reads it.
pub enum Input {
    /// A frame is about to be drawn; `animating` tells whether any offset
    /// is still moving at that time.
    Redraw { animating: bool },
    /// The left button was pressed; `over` is the cursor position, when the
    /// cursor is over the row.
    Press { over: Option<Probe> },
    /// The cursor moved; `cursor` is absent when it left the window.
    Move { cursor: Option<Sighting> },
    /// The left button was released; `at` is the cursor position, absent
    /// when the cursor is not in the window.
    Release { at: Option<Probe> },
    /// Any other event.
    Other,
}

/// What to do to the offset of one child.
#[derive(Clone, Copy, Debug, PartialEq, Eq, Structural)]
pub enum Motion {
    /// Leave it as it is.
    Hold,
    /// Set it to the goal at once.
    Snap(Goal),
    /// Animate it towards the goal.
    Go(Goal),
}

/// A rule for the motions of all the children.
#[derive(Clone, Copy, Debug, PartialEq, Eq, Structural)]
pub enum Plan {
    /// Every offset is left as it is.
    Hold,
    /// Every offset is set to rest.
    Zero,
    /// The item at `index` is lifted and follows the cursor, which points at
    /// `target`; its neighbours head for their displaced slots.
    Drag { index: usize, target: usize },
    /// The item at `index` is dropped at `target`: it settles at once, its
    /// neighbours head for their displaced slots.
    Drop { index: usize, target: usize },
}

impl Plan {
    /// The motion of the child at `i`.
    pub open spec fn motion_at(self, i: int) -> Motion {
        match self {
            Plan::Hold => Motion::Hold,
            Plan::Zero => Motion::Snap(Goal::Rest),
            Plan::Drag { index, target } => if i == index {
                Motion::Go(Goal::Lifted)
            } else {
                Motion::Go(spec_displacement(i, index as int, target as int))
            },
            Plan::Drop { index, target } => if i == index {
                Motion::Snap(spec_displacement(i, index as int, target as int))
            } else {
                Motion::Go(spec_displacement(i, index as int, target as int))
            },
        }
    }

    /// The motions of `len` children.
    pub open spec fn motions(self, len: nat) -> Seq<Motion> {
        Seq::new(len, |i: int| self.motion_at(i))
    }

    /// Computes [`Plan::motions`].
    pub fn spell(self, len: usize) -> (motions: Vec<Motion>)
        ensures
            motions@ == self.motions(len as nat),
    {
        let mut motions: Vec<Motion> = Vec::with_capacity(len);
        let mut i: usize = 0;
        while i < len
            invariant
                i <= len,
                motions@.len() == i,
                forall|j: int| 0 <= j < i ==> #[trigger] motions@[j] == self.motion_at(j),
            decreases len - i,
        {
            let motion = match self {
                Plan::Hold => Motion::Hold,
                Plan::Zero => Motion::Snap(Goal::Rest),
                Plan::Drag { index, target } => if i == index {
                    Motion::Go(Goal::Lifted)
                } else {
                    Motion::Go(displacement(i, index, target))
                },
                Plan::Drop { index, target } => if i == index {
                    Motion::Snap(displacement(i, index, target))
                } else {
                    Motion::Go(displacement(i, index, target))
                },
            };
            motions.push(motion);
            i = i + 1;
        }
        assert(motions@ =~= self.motions(len as nat));
        motions
    }
}

/// How the row reacts to an event, as a mathematical value.
pub struct Outcome {
    pub phase: Phase,
    pub redraw: bool,
    pub capture: bool,
    pub publish: Option<DragEvent>,
    pub motions: Seq<Motion>,
}

/// How the row reacts to an event.
pub struct Reaction {
    /// The phase of the drag after the event.
    pub phase: Phase,
    /// Whether a new frame is to be drawn.
    pub redraw: bool,
    /// Whether the event is consumed by the row.
    pub capture: bool,
    /// The drag event to hand to the handler, if any.
    pub publish: Option<DragEvent>,
    /// What to do to the offset of each child; where there are more motions
    /// than offsets, fresh offsets at rest are appended first.
    pub motions: Vec<Motion>,
}

impl View for Reaction {
    type V = Outcome;

    open spec fn view(&self) -> Outcome {
        Outcome {
            phase: self.phase,
            redraw: self.redraw,
            capture: self.capture,
            publish: self.publish,
            motions: self.motions@,
        }
    }
}

impl<E, H, F> RowView<E, H, F> {
    /// The slot a cursor points at in this row.
    pub open spec fn target(self, probe: Probe) -> nat {
        target_slot(probe, self.children.len())
    }

    /// How the row reacts to `input` in `phase`, with `len` offsets, when the
    /// event was or was not `captured` by a child already.
    pub open spec fn reaction(self, phase: Phase, input: Input, len: nat, captured: bool) -> Outcome {
        let n = self.children.len();
        let handler = self.on_drag is Some;
        let grown = if len < n {
            n
        } else {
            len
        };
        let still = Outcome {
            phase,
            redraw: false,
            capture: false,
            publish: None,
            motions: Plan::Hold.motions(len),
        };
        if captured {
            still
        } else {
            match input {
                Input::Redraw { animating } => Outcome {
                    redraw: !(phase is Idle) || animating,
                    ..still
                },
                Input::Press { over } => match over {
                    Some(p) => if handler {
                        Outcome {
                            phase: Phase::Picking { index: self.target(p) as usize },
                            redraw: true,
                            capture: true,
                            publish: None,
                            motions: Plan::Zero.motions(len),
                        }
                    } else {
                        still
                    },
                    None => still,
                },
                Input::Move { cursor } => match phase {
                    Phase::Picking { index } => match cursor {
                        Some(s) => if s.beyond_deadband {
                            Outcome {
                                phase: Phase::Dragging { index },
                                redraw: true,
                                capture: true,
                                publish: if handler {
                                    Some(DragEvent::Picked { index })
                                } else {
                                    None
                                },
                                ..still
                            }
                        } else {
                            still
                        },
                        None => still,
                    },
                    Phase::Dragging { index } => match cursor {
                        Some(s) => Outcome {
                            phase,
                            redraw: true,
                            capture: true,
                            publish: None,
                            motions: (Plan::Drag {
                                index,
                                target: self.target(s.probe) as usize,
                            }).motions(grown),
                        },
                        None => Outcome {
                            phase: Phase::Idle,
                            redraw: true,
                            capture: false,
                            publish: if handler {
                                Some(DragEvent::Canceled { index })
                            } else {
                                None
                            },
                            ..still
                        },
                    },
                    Phase::Idle => still,
                },
                Input::Release { at } => match phase {
                    Phase::Dragging { index } => match at {
                        Some(p) => Outcome {
                            phase: Phase::Idle,
                            redraw: true,
                            capture: handler,
                            publish: if handler {
                                Some(
                                    DragEvent::Dropped {
                                        index,
                                        target_index: self.target(p) as usize,
                                    },
                                )
                            } else {
                                None
                            },
                            motions: (Plan::Drop {
                                index,
                                target: self.target(p) as usize,
                            }).motions(grown),
                        },
                        None => Outcome {
                            phase: Phase::Idle,
                            redraw: true,
                            capture: handler,
                            publish: if handler {
                                Some(DragEvent::Canceled { index })
                            } else {
                                None
                            },
                            motions: Plan::Hold.motions(grown),
                        },
                    },
                    _ => Outcome { phase: Phase::Idle, redraw: true, ..still },
                },
                Input::Other => still,
            }
        }
    }
}

impl<E, H, F> Row<E, H, F> {
    /// Computes the slot at which a dragged item would be dropped, for a
    /// cursor measured by `probe`.
    pub fn compute_target_index(&self, probe: &Probe) -> (index: usize)
        ensures
            index == self@.target(*probe),
    {
        let count = probe.reaches.len();
        let mut i: usize = 0;
        if probe.before_start {
            return 0;
        }
        while i < count
            invariant
                i <= count,
                count == probe.reaches@.len(),
                !probe.before_start,
                first_reach(probe.reaches@, 0) == first_reach(probe.reaches@, i as nat),
            decreases count - i,
        {
            if probe.reaches[i] {
                return i;
            }
            i = i + 1;
        }
        self.children.len().saturating_sub(1)
    }

    /// The slot that the neighbours of the dragged item at `index` make room
    /// at, in a frame drawn while the last cursor position was measured by
    /// `probe`: the slot it points at, within the children, while the cursor
    /// is in the window; the item's own slot otherwise.
    pub fn draw_target(&self, cursor_present: bool, probe: &Probe, index: usize) -> (target: usize)
        requires
            self@.children.len() > 0,
        ensures
            target == if cursor_present {
                if self@.target(*probe) < self@.children.len() {
                    self@.target(*probe)
                } else {
                    (self@.children.len() - 1) as nat
                }
            } else {
                index as nat
            },
    {
        if cursor_present {
            let target = self.compute_target_index(probe);
            let last = self.children.len() - 1;
            if target < last {
                target
            } else {
                last
            }
        } else {
            index
        }
    }

    /// Decides how the row reacts to `input` in `phase`, with `animations`
    /// offsets, when the event was or was not `captured` by a child already.
    pub fn react(&self, phase: Phase, input: &Input, animations: usize, captured: bool) -> (reaction: Reaction)
        ensures
            reaction@ == self@.reaction(phase, *input, animations as nat, captured),
    {
        let n = self.children.len();
        let handler = self.on_drag.is_some();
        let grown = if animations < n {
            n
        } else {
            animations
        };
        let still = Reaction {
            phase,
            redraw: false,
            capture: false,
            publish: None,
            motions: Plan::Hold.spell(animations),
        };
        if captured {
            return still;
        }
        match input {
            Input::Redraw { animating } => Reaction {
                redraw: !matches!(phase, Phase::Idle) || *animating,
                ..still
            },
            Input::Press { over } => match over {
                Some(p) => if handler {
                    Reaction {
                        phase: Phase::Picking { index: self.compute_target_index(p) },
                        redraw: true,
                        capture: true,
                        publish: None,
                        motions: Plan::Zero.spell(animations),
                    }
                } else {
                    still
                },
                None => still,
            },
            Input::Move { cursor } => match phase {
                Phase::Picking { index } => match cursor {
                    Some(s) => if s.beyond_deadband {
                        Reaction {
                            phase: Phase::Dragging { index },
                            redraw: true,
                            capture: true,
                            publish: if handler {
                                Some(DragEvent::Picked { index })
                            } else {
                                None
                            },
                            ..still
                        }
                    } else {
                        still
                    },
                    None => still,
                },
                Phase::Dragging { index } => match cursor {
                    Some(s) => {
                        let target = self.compute_target_index(&s.probe);
                        Reaction {
                            phase,
                            redraw: true,
                            capture: true,
                            publish: None,
                            motions: (Plan::Drag { index, target }).spell(grown),
                        }
                    },
                    None => Reaction {
                        phase: Phase::Idle,
                        redraw: true,
                        capture: false,
                        publish: if handler {
                            Some(DragEvent::Canceled { index })
                        } else {
                            None
                        },
                        ..still
                    },
                },
                Phase::Idle => still,
            },
            Input::Release { at } => match phase {
                Phase::Dragging { index } => match at {
                    Some(p) => {
                        let target = self.compute_target_index(p);
                        Reaction {
                            phase: Phase::Idle,
                            redraw: true,
                            capture: handler,
                            publish: if handler {
                                Some(DragEvent::Dropped { index, target_index: target })
                            } else {
                                None
                            },
                            motions: (Plan::Drop { index, target }).spell(grown),
                        }
                    },
                    None => Reaction {
                        phase: Phase::Idle,
                        redraw: true,
                        capture: handler,
                        publish: if handler {
                            Some(DragEvent::Canceled { index })
                        } else {
                            None
                        },
                        motions: Plan::Hold.spell(grown),
                    },
                },
                _ => Reaction { phase: Phase::Idle, redraw: true, ..still },
            },
            Input::Other => still,
        }
    }
}

impl Input {
    /// Whether each cursor position in the input was measured against at
    /// most `n` child layouts, as a row of `n` children lays them out.
    pub open spec fn fits(self, n: nat) -> bool {
        match self {
            Input::Press { over: Some(p) } => p.reaches@.len() <= n,
            Input::Move { cursor: Some(s) } => s.probe.reaches@.len() <= n,
            Input::Release { at: Some(p) } => p.reaches@.len() <= n,
            _ => true,
        }
    }
}

/// The slot a cursor points at lies in the row: it is never past the last
/// child (and is the first slot when there is no child).
pub proof fn lemma_target_in_row<E, H, F>(row: RowView<E, H, F>, probe: Probe)
    requires
        probe.reaches@.len() <= row.children.len(),
    ensures
        row.target(probe) <= last_slot(row.children.len()),
{
    lemma_first_reach(probe.reaches@, 0);
}

/// An event that a child already consumed changes nothing: the phase, the
/// offsets and the frame stay as they are, and nothing is published.
pub proof fn lemma_captured_event_changes_nothing<E, H, F>(
    row: RowView<E, H, F>,
    phase: Phase,
    input: Input,
    len: nat,
)
    ensures
        row.reaction(phase, input, len, true) == (Outcome {
            phase,
            redraw: false,
            capture: false,
            publish: None,
            motions: Plan::Hold.motions(len),
        }),
{
}

/// A row without a drag handler publishes no drag event, and never starts a
/// drag.
pub proof fn lemma_no_handler_no_drag<E, H, F>(
    row: RowView<E, H, F>,
    phase: Phase,
    input: Input,
    len: nat,
    captured: bool,
)
    requires
        row.on_drag is None,
    ensures
        row.reaction(phase, input, len, captured).publish is None,
        phase is Idle ==> row.reaction(phase, input, len, captured).phase is Idle,
{
}

/// Releasing the button ends any drag, and the row is drawn again.
pub proof fn lemma_release_ends_drag<E, H, F>(
    row: RowView<E, H, F>,
    phase: Phase,
    at: Option<Probe>,
    len: nat,
)
    ensures
        row.reaction(phase, Input::Release { at }, len, false).phase is Idle,
        row.reaction(phase, Input::Release { at }, len, false).redraw,
{
}

/// Every drag event names the item that was pressed: `Picked` is published
/// exactly when a picked item starts being dragged, and `Dropped` or
/// `Canceled` only when a dragged item is let go, which ends the drag.
pub proof fn lemma_events_follow_held_item<E, H, F>(
    row: RowView<E, H, F>,
    phase: Phase,
    input: Input,
    len: nat,
    captured: bool,
)
    ensures
        ({
            let out = row.reaction(phase, input, len, captured);
            match out.publish {
                Some(DragEvent::Picked { index }) => phase == (Phase::Picking { index })
                    && out.phase == (Phase::Dragging { index }),
                Some(DragEvent::Dropped { index, .. }) => phase == (Phase::Dragging { index })
                    && out.phase is Idle,
                Some(DragEvent::Canceled { index }) => phase == (Phase::Dragging { index })
                    && out.phase is Idle,
                None => true,
            }
        }),
        ({
            let out = row.reaction(phase, input, len, captured);
            (phase is Picking && out.phase is Dragging && row.on_drag is Some) ==> out.publish
                == Some(DragEvent::Picked { index: phase->Picking_index })
        }),
{
}

/// The phase only moves along the life of a drag: a press over the row of a
/// row with a handler picks an item; moving beyond the deadband starts the
/// drag of the picked item; a release, or a cursor leaving the window
/// during a drag, ends it.
pub proof fn lemma_phase_transitions<E, H, F>(
    row: RowView<E, H, F>,
    phase: Phase,
    input: Input,
    len: nat,
    captured: bool,
)
    ensures
        ({
            let next = row.reaction(phase, input, len, captured).phase;
            next != phase ==> {
                ||| (next is Picking && row.on_drag is Some && (input matches Input::Press {
                    over: Some(_),
                }))
                ||| (phase is Picking && next == (Phase::Dragging { index: phase->Picking_index })
                    && (input matches Input::Move { cursor: Some(s) } && s.beyond_deadband))
                ||| (phase is Dragging && next is Idle && (input is Release || input
                    matches Input::Move { cursor: None }))
                ||| (phase is Picking && next is Idle && input is Release)
            }
        }),
{
}

/// The indices a row hands out stay in the row: the held item and the
/// target of a drop are never past the last child, as long as the cursor
/// positions were measured against the row's own layout.
pub proof fn lemma_indices_stay_in_row<E, H, F>(
    row: RowView<E, H, F>,
    phase: Phase,
    input: Input,
    len: nat,
    captured: bool,
)
    requires
        input.fits(row.children.len()),
        phase.held() matches Some(i) ==> i <= last_slot(row.children.len()),
    ensures
        ({
            let out = row.reaction(phase, input, len, captured);
            &&& out.phase.held() matches Some(i) ==> i <= last_slot(row.children.len())
            &&& out.publish matches Some(DragEvent::Dropped { target_index, .. })
                ==> target_index <= last_slot(row.children.len())
        }),
{
    match input {
        Input::Press { over: Some(p) } => lemma_target_in_row(row, p),
        Input::Release { at: Some(p) } => lemma_target_in_row(row, p),
        _ => {},
    }
}

/// The offsets are never shortened, and while an item is dragged or dropped
/// there is one for every child.
pub proof fn lemma_offsets_cover_children<E, H, F>(
    row: RowView<E, H, F>,
    phase: Phase,
    input: Input,
    len: nat,
    captured: bool,
)
    ensures
        len <= row.reaction(phase, input, len, captured).motions.len(),
        (!captured && phase is Dragging && (input is Release || input matches Input::Move {
            cursor: Some(_),
        })) ==> row.children.len() <= row.reaction(phase, input, len, captured).motions.len(),
{
}

/// While an item is dragged, each neighbour heads for the very slot where
/// the drop leaves it; the dropped item itself settles at once, at rest.
pub proof fn lemma_drop_settles_drag_preview(index: usize, target: usize)
    ensures
        forall|i: int|
            i != index ==> #[trigger] (Plan::Drop { index, target }).motion_at(i) == (Plan::Drag {
                index,
                target,
            }).motion_at(i),
        (Plan::Drop { index, target }).motion_at(index as int) == Motion::Snap(Goal::Rest),
        (Plan::Drag { index, target }).motion_at(index as int) == Motion::Go(Goal::Lifted),
{
}

/// The children kept by a row out of the pushed `items`: those that are not
/// void, in order.
pub open spec fn kept<E, F>(items: Seq<(E, SizeHint<F>)>) -> Seq<E> {
    items.filter(|item: (E, SizeHint<F>)| !item.1.is_void).map_values(|item: (E, SizeHint<F>)| item.0)
}

/// Pushing children appends exactly the ones that are not void, in order.
pub proof fn lemma_extended_children<E, H, F>(row: RowView<E, H, F>, items: Seq<(E, SizeHint<F>)>)
    ensures
        row.extended(items).children == row.children + kept(items),
    decreases items.len(),
{
    reveal_with_fuel(Seq::filter, 1);
    if items.len() > 0 {
        lemma_extended_children(row, items.drop_last());
        let pred = |item: (E, SizeHint<F>)| !item.1.is_void;
        let first = |item: (E, SizeHint<F>)| item.0;
        let prior = items.drop_last().filter(pred);
        if pred(items.last()) {
            assert(items.filter(pred) == prior.push(items.last()));
            assert(items.filter(pred).map_values(first) =~= prior.map_values(first).push(items.last().0));
        } else {
            assert(items.filter(pred) == prior);
        }
        assert(row.children + kept(items) =~= row.extended(items).children);
    } else {
        assert(kept(items) =~= Seq::<E>::empty());
        assert(row.children + kept(items) =~= row.children);
    }
}

/// A row that does not shrink keeps its lengths whatever children it takes;
/// a shrinking row only ever takes a filling length from a child.
pub proof fn lemma_extended_lengths<E, H, F>(row: RowView<E, H, F>, items: Seq<(E, SizeHint<F>)>)
    ensures
        !(row.width is Shrink) ==> row.extended(items).width == row.width,
        !(row.height is Shrink) ==> row.extended(items).height == row.height,
        row.extended(items).width == row.width || row.extended(items).width.is_fill(),
        row.extended(items).height == row.height || row.extended(items).height.is_fill(),
    decreases items.len(),
{
    if items.len() > 0 {
        lemma_extended_lengths(row, items.drop_last());
    }
}

/// The slot a cursor points at, stated over the measurements alone: the
/// first slot when the cursor is before the row; else the first child whose
/// far edge the cursor has not passed; else the last slot.
pub proof fn lemma_target_is_first_reached<E, H, F>(row: RowView<E, H, F>, probe: Probe)
    ensures
        probe.before_start ==> row.target(probe) == 0,
        forall|j: int|
            #![trigger probe.reaches@[j]]
            !probe.before_start && 0 <= j < probe.reaches@.len() && probe.reaches@[j] && (forall|
                m: int,
            | 0 <= m < j ==> !#[trigger] probe.reaches@[m]) ==> row.target(probe) == j,
        (!probe.before_start && forall|m: int|
            0 <= m < probe.reaches@.len() ==> !#[trigger] probe.reaches@[m]) ==> row.target(probe)
            == if row.children.len() > 0 {
            row.children.len() - 1
        } else {
            0
        },
{
    lemma_first_reach(probe.reaches@, 0);
    assert forall|j: int|
        #![trigger probe.reaches@[j]]
        !probe.before_start && 0 <= j < probe.reaches@.len() && probe.reaches@[j] && (forall|m: int|
            0 <= m < j ==> !#[trigger] probe.reaches@[m]) implies row.target(probe) == j by {
        match first_reach(probe.reaches@, 0) {
            Some(k) => {
                if k < j {
                    assert(!probe.reaches@[k as int]);
                } else if k > j {
                    assert(!probe.reaches@[j]);
                }
            },
            None => {
                assert(!probe.reaches@[j]);
            },
        }
    }
}

/// While the item at `index` is dragged over slot `target` of a row of `n`
/// children, each other child heads for the slot where moving the dragged
/// item to `target` puts it: the children from `target` up to the dragged
/// one move one slot forward, those after it up to `target` one slot back,
/// all others stay. The drop sends them to the same slots, and settles the
/// dropped item at rest.
pub proof fn lemma_neighbours_make_room(n: nat, index: usize, target: usize)
    requires
        index < n,
        target < n,
    ensures
        forall|i: int|
            #![trigger (Plan::Drag { index, target }).motions(n)[i]]
            0 <= i < n && i != index ==> {
                let drag = (Plan::Drag { index, target }).motions(n)[i];
                let drop = (Plan::Drop { index, target }).motions(n)[i];
                &&& drag == drop
                &&& (drag == Motion::Go(Goal::Forward) <==> (target <= i && i < index))
                &&& (drag == Motion::Go(Goal::Backward) <==> (index < i && i <= target))
                &&& (drag == Motion::Go(Goal::Rest) <==> !(target <= i && i < index) && !(index
                    < i && i <= target))
                &&& exists|goal: Goal|
                    #![trigger goal_slot(i, goal)]
                    drag == Motion::Go(goal) && moved(
                        Seq::new(n, |k: int| k),
                        index as int,
                        target as int,
                    )[goal_slot(i, goal)] == i
            },
        (Plan::Drag { index, target }).motions(n)[index as int] == Motion::Go(Goal::Lifted),
        (Plan::Drop { index, target }).motions(n)[index as int] == Motion::Snap(Goal::Rest),
{
    let ids = Seq::new(n, |k: int| k);
    lemma_preview_is_reorder(ids, index as int, target as int);
    assert forall|i: int|
        #![trigger (Plan::Drag { index, target }).motions(n)[i]]
        0 <= i < n && i != index implies {
        let drag = (Plan::Drag { index, target }).motions(n)[i];
        let drop = (Plan::Drop { index, target }).motions(n)[i];
        &&& drag == drop
        &&& (drag == Motion::Go(Goal::Forward) <==> (target <= i && i < index))
        &&& (drag == Motion::Go(Goal::Backward) <==> (index < i && i <= target))
        &&& (drag == Motion::Go(Goal::Rest) <==> !(target <= i && i < index) && !(index < i && i
            <= target))
        &&& exists|goal: Goal|
            #![trigger goal_slot(i, goal)]
            drag == Motion::Go(goal) && moved(ids, index as int, target as int)[goal_slot(
                i,
                goal,
            )] == i
    } by {
        let goal = spec_displacement(i, index as int, target as int);
        assert(goal_slot(i, goal) == landing(i, index as int, target as int));
        assert(moved(ids, index as int, target as int)[landing(i, index as int, target as int)]
            == ids[i]);
    }
}

/// Releasing a dragged item over the window, in a row with a handler,
/// always publishes the drop of that item at the slot the cursor points at,
/// also when that slot is the item's own: every drag that was announced is
/// closed.
pub proof fn lemma_release_publishes_drop<E, H, F>(
    row: RowView<E, H, F>,
    index: usize,
    p: Probe,
    len: nat,
)
    requires
        row.on_drag is Some,
    ensures
        ({
            let out = row.reaction(Phase::Dragging { index }, Input::Release { at: Some(p) }, len, false);
            &&& out.publish == Some(DragEvent::Dropped { index, target_index: row.target(p) as usize })
            &&& out.phase == Phase::Idle
            &&& out.capture
        }),
        row.reaction(Phase::Dragging { index }, Input::Release { at: None }, len, false).publish
            == Some(DragEvent::Canceled { index }),
{
}

/// A frame is requested exactly while an item is picked or dragged, or
/// while an offset is still moving.
pub proof fn lemma_redraw_while_held_or_animating<E, H, F>(
    row: RowView<E, H, F>,
    phase: Phase,
    animating: bool,
    len: nat,
)
    ensures
        row.reaction(phase, Input::Redraw { animating }, len, false).redraw == (phase is Picking
            || phase is Dragging || animating),
        row.reaction(phase, Input::Redraw { animating }, len, false).phase == phase,
{
}

/// Pushing two batches of children one after the other is pushing them all
/// at once.
pub proof fn lemma_extended_concat<E, H, F>(
    row: RowView<E, H, F>,
    a: Seq<(E, SizeHint<F>)>,
    b: Seq<(E, SizeHint<F>)>,
)
    ensures
        row.extended(a + b) == row.extended(a).extended(b),
    decreases b.len(),
{
    if b.len() == 0 {
        assert(a + b =~= a);
    } else {
        assert((a + b).drop_last() =~= a + b.drop_last());
        assert((a + b).last() == b.last());
        lemma_extended_concat(row, a, b.drop_last());
    }
}

/// The width of a row after children are pushed, stated over the children:
/// a row that does not shrink keeps its width; a shrinking row takes the
/// width of the first child that is not void and fills, and shrinks still
/// when there is none. The height follows the same rule.
pub proof fn lemma_extended_width<E, H, F>(row: RowView<E, H, F>, items: Seq<(E, SizeHint<F>)>)
    ensures
        !(row.width is Shrink) ==> row.extended(items).width == row.width,
        (row.width is Shrink && forall|m: int|
            0 <= m < items.len() ==> (#[trigger] items[m]).1.is_void || !items[m].1.width.is_fill())
            ==> row.extended(items).width is Shrink,
        forall|j: int|
            #![trigger items[j]]
            row.width is Shrink && 0 <= j < items.len() && !items[j].1.is_void
                && items[j].1.width.is_fill() && (forall|m: int|
                0 <= m < j ==> (#[trigger] items[m]).1.is_void || !items[m].1.width.is_fill())
                ==> row.extended(items).width == items[j].1.width,
        !(row.height is Shrink) ==> row.extended(items).height == row.height,
        (row.height is Shrink && forall|m: int|
            0 <= m < items.len() ==> (#[trigger] items[m]).1.is_void || !items[m].1.height.is_fill())
            ==> row.extended(items).height is Shrink,
        forall|j: int|
            #![trigger items[j]]
            row.height is Shrink && 0 <= j < items.len() && !items[j].1.is_void
                && items[j].1.height.is_fill() && (forall|m: int|
                0 <= m < j ==> (#[trigger] items[m]).1.is_void || !items[m].1.height.is_fill())
                ==> row.extended(items).height == items[j].1.height,
    decreases items.len(),
{
    lemma_extended_lengths(row, items);
    if items.len() > 0 {
        let init = items.drop_last();
        lemma_extended_width(row, init);
        assert forall|m: int| 0 <= m < init.len() implies #[trigger] init[m] == items[m] by {}
        assert forall|j: int|
            #![trigger items[j]]
            row.width is Shrink && 0 <= j < items.len() && !items[j].1.is_void
                && items[j].1.width.is_fill() && (forall|m: int|
                0 <= m < j ==> (#[trigger] items[m]).1.is_void || !items[m].1.width.is_fill())
                implies row.extended(items).width == items[j].1.width by {
            if j < init.len() {
                assert(init[j] == items[j]);
                lemma_extended_lengths(row, init);
            } else {
                assert forall|m: int| 0 <= m < init.len() implies (#[trigger] init[m]).1.is_void
                    || !init[m].1.width.is_fill() by {
                    assert(init[m] == items[m]);
                }
            }
        }
        assert forall|j: int|
            #![trigger items[j]]
            row.height is Shrink && 0 <= j < items.len() && !items[j].1.is_void
                && items[j].1.height.is_fill() && (forall|m: int|
                0 <= m < j ==> (#[trigger] items[m]).1.is_void || !items[m].1.height.is_fill())
                implies row.extended(items).height == items[j].1.height by {
            if j < init.len() {
                assert(init[j] == items[j]);
            } else {
                assert forall|m: int| 0 <= m < init.len() implies (#[trigger] init[m]).1.is_void
                    || !init[m].1.height.is_fill() by {
                    assert(init[m] == items[m]);
                }
            }
        }
        if row.width is Shrink && forall|m: int|
            0 <= m < items.len() ==> (#[trigger] items[m]).1.is_void || !items[m].1.width.is_fill() {
            assert forall|m: int| 0 <= m < init.len() implies (#[trigger] init[m]).1.is_void
                || !init[m].1.width.is_fill() by {
                assert(init[m] == items[m]);
            }
            assert(items.last() == items[items.len() - 1]);
        }
        if row.height is Shrink && forall|m: int|
            0 <= m < items.len() ==> (#[trigger] items[m]).1.is_void || !items[m].1.height.is_fill() {
            assert forall|m: int| 0 <= m < init.len() implies (#[trigger] init[m]).1.is_void
                || !init[m].1.height.is_fill() by {
                assert(init[m] == items[m]);
            }
            assert(items.last() == items[items.len() - 1]);
        }
    }
}

} // verus!
