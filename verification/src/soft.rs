//! A controller kept in memory.
//!
//! [`SoftGic`] holds the state that a real controller keeps in its
//! registers, and takes the steps of the contract on it. It stands in for
//! the hardware where a kernel's interrupt handling is simulated or tested:
//! besides the driver operations it has the two steps that only a source can
//! take, asserting a line and letting go of it.
//!
//! Among several interrupts that can be acknowledged, it hands out the one
//! with the lowest number.

use crate::gic::{GenericArmGic, GicState, Line, LineState};
use crate::intid::IntId;
use crate::trigger::TriggerMode;
use vstd::prelude::*;

verus! {

/// How many interrupts the controller has.
const LINES: usize = IntId::GIC_MAX_IRQ;

/// A GIC in software: the state of the contract, held in memory.
#[derive(Copy, Clone, Debug)]
pub struct SoftGic {
    primary_done: bool,
    cpu_done: bool,
    lines: [Line; LINES],
    /// The interrupts in service, oldest first, in the first `depth` places.
    stack: [usize; LINES],
    depth: usize,
}

impl SoftGic {
    /// A controller before its initialisation: no interrupt is in service,
    /// every interrupt is masked, level-sensitive and Inactive, and no line is
    /// held up.
    pub fn new() -> (gic: SoftGic)
        ensures
            gic.model().wf(),
            !gic.model().primary_done,
            !gic.model().cpu_done,
            gic.model().in_service.len() == 0,
            forall|id: int|
                0 <= id < IntId::GIC_MAX_IRQ ==> #[trigger] gic.model().lines[id] == (Line {
                    enabled: false,
                    trigger: TriggerMode::Level,
                    state: LineState::Inactive,
                    asserted: false,
                }),
    {
        let line = Line {
            enabled: false,
            trigger: TriggerMode::Level,
            state: LineState::Inactive,
            asserted: false,
        };
        SoftGic {
            primary_done: false,
            cpu_done: false,
            lines: [line; LINES],
            stack: [0usize; LINES],
            depth: 0,
        }
    }

    /// What the controller holds for the interrupt.
    pub fn line(&self, intid: IntId) -> (line: Line)
        requires
            intid@ < IntId::GIC_MAX_IRQ,
        ensures
            line == self.model().lines[intid@ as int],
    {
        let id: usize = usize::from(intid);
        self.lines[id]
    }

    /// The source of the interrupt asserts its line.
    pub fn assert_line(&mut self, intid: IntId)
        requires
            old(self).model().wf(),
            intid@ < IntId::GIC_MAX_IRQ,
        ensures
            final(self).model() == old(self).model().raise(intid@ as int),
            final(self).model().wf(),
    {
        let id: usize = usize::from(intid);
        let line = self.lines[id];
        let state = match line.state {
            LineState::Inactive => if line.enabled {
                LineState::Pending
            } else {
                LineState::Inactive
            },
            LineState::Pending => LineState::Pending,
            LineState::Active => LineState::Active,
        };
        self.put(id, Line { asserted: true, state, ..line });
        proof {
            old(self).model().lemma_steps_preserve_wf(id as int, TriggerMode::Edge);
        }
    }

    /// The source of the interrupt lets go of its line.
    pub fn deassert_line(&mut self, intid: IntId)
        requires
            old(self).model().wf(),
            intid@ < IntId::GIC_MAX_IRQ,
        ensures
            final(self).model() == old(self).model().lower(intid@ as int),
            final(self).model().wf(),
    {
        let id: usize = usize::from(intid);
        let line = self.lines[id];
        let state = match (line.state, line.trigger) {
            (LineState::Pending, TriggerMode::Level) => LineState::Inactive,
            (state, _) => state,
        };
        self.put(id, Line { asserted: false, state, ..line });
        proof {
            old(self).model().lemma_steps_preserve_wf(id as int, TriggerMode::Edge);
        }
    }

    /// Puts `line` in the place of the interrupt `id`.
    fn put(&mut self, id: usize, line: Line)
        requires
            id < LINES,
        ensures
            final(self).model() == old(self).model().with_line(id as int, line),
    {
        self.lines[id] = line;
        assert(self.model() =~= old(self).model().with_line(id as int, line));
    }
}

impl GenericArmGic for SoftGic {
    closed spec fn model(&self) -> GicState {
        GicState {
            primary_done: self.primary_done,
            cpu_done: self.cpu_done,
            lines: self.lines@,
            in_service: Seq::new(self.depth as nat, |k: int| self.stack@[k] as int),
        }
    }

    /// Masks and deactivates every interrupt and empties the list of those
    /// in service. Trigger modes and the lines that sources hold up stay as
    /// they are.
    fn init_primary(&mut self)
        ensures
            forall|id: int|
                0 <= id < IntId::GIC_MAX_IRQ ==> {
                    #[trigger] final(self).model().lines[id] == (Line {
                        enabled: false,
                        state: LineState::Inactive,
                        ..old(self).model().lines[id]
                    })
                },
    {
        let mut id: usize = 0;
        while id < LINES
            invariant
                id <= LINES,
                self.stack == old(self).stack,
                forall|done: int|
                    0 <= done < id ==> #[trigger] self.lines@[done] == (Line {
                        enabled: false,
                        state: LineState::Inactive,
                        ..old(self).lines@[done]
                    }),
                forall|rest: int| id <= rest < LINES ==> self.lines@[rest] == old(self).lines@[rest],
            decreases LINES - id,
        {
            let line = self.lines[id];
            self.lines[id] = Line { enabled: false, state: LineState::Inactive, ..line };
            id += 1;
        }
        self.depth = 0;
        self.primary_done = true;
        self.cpu_done = false;
    }

    fn per_cpu_init(&mut self) {
        self.cpu_done = true;
        proof {
            old(self).model().lemma_steps_preserve_wf(0, TriggerMode::Edge);
            assert(self.model() =~= old(self).model().cpu_init());
        }
    }

    fn set_trigger(&mut self, intid: IntId, trigger: TriggerMode) {
        let id: usize = usize::from(intid);
        let line = self.lines[id];
        self.put(id, Line { trigger, ..line });
        proof {
            old(self).model().lemma_steps_preserve_wf(id as int, trigger);
        }
    }

    fn enable_interrupt(&mut self, intid: IntId) {
        let id: usize = usize::from(intid);
        let line = self.lines[id];
        self.put(id, Line { enabled: true, ..line });
        proof {
            old(self).model().lemma_steps_preserve_wf(id as int, TriggerMode::Edge);
        }
    }

    fn disable_interrupt(&mut self, intid: IntId) {
        let id: usize = usize::from(intid);
        let line = self.lines[id];
        self.put(id, Line { enabled: false, ..line });
        proof {
            old(self).model().lemma_steps_preserve_wf(id as int, TriggerMode::Edge);
        }
    }

    /// Acknowledges the interrupt with the lowest number among those that
    /// are Pending and unmasked.
    fn get_and_acknowledge_interrupt(&mut self) -> (intid: Option<IntId>)
        ensures
            intid matches Some(id) ==> forall|lower: int|
                0 <= lower < id@ ==> !old(self).model().eligible(lower),
    {
        let mut id: usize = 0;
        while id < LINES
            invariant
                id <= LINES,
                *self == *old(self),
                self.model().wf(),
                forall|lower: int| 0 <= lower < id ==> !self.model().eligible(lower),
            decreases LINES - id,
        {
            let line = self.lines[id];
            if line.enabled && line.state == LineState::Pending {
                proof {
                    self.model().lemma_room_in_service(id as int);
                    self.model().lemma_steps_preserve_wf(id as int, TriggerMode::Edge);
                }
                self.lines[id] = Line { state: LineState::Active, ..line };
                self.stack[self.depth] = id;
                self.depth += 1;
                assert(self.model() =~= old(self).model().acknowledge(id as int));
                return Some(IntId::from(id));
            }
            id += 1;
        }
        None
    }

    fn end_interrupt(&mut self, intid: IntId) {
        let id: usize = usize::from(intid);
        proof {
            let top = old(self).model().in_service.len() - 1;
            assert(old(self).model().is_active(old(self).model().in_service[top]));
            old(self).model().lemma_steps_preserve_wf(id as int, TriggerMode::Edge);
        }
        let line = self.lines[id];
        let state = match (line.trigger, line.asserted) {
            (TriggerMode::Level, true) => LineState::Pending,
            _ => LineState::Inactive,
        };
        self.lines[id] = Line { state, ..line };
        self.depth -= 1;
        assert(self.model() =~= old(self).model().end(id as int));
    }
}

} // verus!
