//! The contract that every GIC driver meets, whatever the version of the
//! controller behind it.
//!
//! The controller keeps, for each interrupt, a mask bit, a trigger mode and a
//! place in the cycle Inactive, Pending, Active, Inactive. [`GicState`]
//! is that state as a mathematical value, with one function for each step
//! that software or hardware can take. [`GenericArmGic`] states what each
//! driver operation does in terms of it.
//!
//! A step that the calling discipline forbids (initialising twice, ending an
//! interrupt that is not the one acknowledged last) is left out by a
//! `requires`: what the controller does then is up to the driver.

use crate::intid::IntId;
use crate::trigger::TriggerMode;
use core::fmt::Debug;
use vstd::prelude::*;

verus! {

/// Where an interrupt stands in its life cycle.
#[derive(Copy, Clone, Debug, PartialEq, Eq, Structural)]
pub enum LineState {
    /// Not asserted, or asserted while masked.
    Inactive,
    /// Asserted and waiting for a core to acknowledge it.
    Pending,
    /// Acknowledged by a core that has not yet ended it.
    Active,
}

/// What the controller holds for one interrupt.
#[derive(Copy, Clone, Debug, PartialEq, Eq, Structural)]
pub struct Line {
    /// Whether the interrupt is unmasked.
    pub enabled: bool,
    /// How the line is sampled.
    pub trigger: TriggerMode,
    /// Where the interrupt stands in its life cycle.
    pub state: LineState,
    /// Whether the source currently holds the line up.
    pub asserted: bool,
}

/// The controller as one core sees it.
#[verifier::ext_equal]
pub struct GicState {
    /// Whether the whole controller has been initialised.
    pub primary_done: bool,
    /// Whether this core's interface has been initialised.
    pub cpu_done: bool,
    /// The interrupts, by number: one entry for each identifier below
    /// [`IntId::GIC_MAX_IRQ`].
    pub lines: Seq<Line>,
    /// The interrupts that the core has acknowledged and not yet ended,
    /// the most recent one last.
    pub in_service: Seq<int>,
}

impl GicState {
    /// Whether `id` names an interrupt of the controller.
    pub open spec fn has(self, id: int) -> bool {
        0 <= id < self.lines.len()
    }

    /// Whether the interrupt is Active.
    pub open spec fn is_active(self, id: int) -> bool {
        self.has(id) && self.lines[id].state == LineState::Active
    }

    /// Whether the interrupt can be acknowledged: it is Pending and unmasked.
    pub open spec fn eligible(self, id: int) -> bool {
        self.has(id) && self.lines[id].enabled && self.lines[id].state == LineState::Pending
    }

    /// Whether no interrupt can be acknowledged.
    pub open spec fn idle(self) -> bool {
        forall|id: int| !self.eligible(id)
    }

    /// Whether every interrupt is masked and Inactive and none is in service.
    pub open spec fn quiescent(self) -> bool {
        &&& self.in_service.len() == 0
        &&& forall|id: int|
            self.has(id) ==> !(#[trigger] self.lines[id]).enabled && self.lines[id].state
                == LineState::Inactive
    }

    /// The interrupts in service are exactly the Active ones, each once, and
    /// a core is initialised only after the controller.
    pub open spec fn wf(self) -> bool {
        &&& self.lines.len() == IntId::GIC_MAX_IRQ
        &&& self.cpu_done ==> self.primary_done
        &&& self.in_service.no_duplicates()
        &&& forall|k: int|
            0 <= k < self.in_service.len() ==> self.is_active(#[trigger] self.in_service[k])
        &&& forall|id: int| #[trigger] self.is_active(id) ==> self.in_service.contains(id)
    }

    /// The state with the entry of `id` replaced.
    pub open spec fn with_line(self, id: int, line: Line) -> GicState {
        GicState { lines: self.lines.update(id, line), ..self }
    }

    /// This core's interface is initialised.
    pub open spec fn cpu_init(self) -> GicState {
        GicState { cpu_done: true, ..self }
    }

    /// Software sets the trigger mode of `id`.
    pub open spec fn set_trigger(self, id: int, trigger: TriggerMode) -> GicState {
        self.with_line(id, Line { trigger, ..self.lines[id] })
    }

    /// Software unmasks `id`. An assertion that came while the interrupt was
    /// masked is not delivered afterwards: the source has to assert again.
    pub open spec fn enable(self, id: int) -> GicState {
        self.with_line(id, Line { enabled: true, ..self.lines[id] })
    }

    /// Software masks `id`.
    pub open spec fn disable(self, id: int) -> GicState {
        self.with_line(id, Line { enabled: false, ..self.lines[id] })
    }

    /// The source asserts `id`. An Inactive, unmasked interrupt becomes
    /// Pending; a masked one stays Inactive.
    pub open spec fn raise(self, id: int) -> GicState {
        let line = self.lines[id];
        let state = if line.state == LineState::Inactive && line.enabled {
            LineState::Pending
        } else {
            line.state
        };
        self.with_line(id, Line { asserted: true, state, ..line })
    }

    /// The source lets go of `id`. A level-sensitive interrupt that was
    /// Pending becomes Inactive; an edge-triggered one stays latched.
    pub open spec fn lower(self, id: int) -> GicState {
        let line = self.lines[id];
        let state = if line.state == LineState::Pending && line.trigger == TriggerMode::Level {
            LineState::Inactive
        } else {
            line.state
        };
        self.with_line(id, Line { asserted: false, state, ..line })
    }

    /// The core acknowledges `id`: it becomes Active and is the interrupt
    /// acknowledged last.
    pub open spec fn acknowledge(self, id: int) -> GicState {
        GicState {
            lines: self.lines.update(id, Line { state: LineState::Active, ..self.lines[id] }),
            in_service: self.in_service.push(id),
            ..self
        }
    }

    /// The core ends `id`, the interrupt acknowledged last. It becomes
    /// Inactive, or Pending again if it is level-sensitive and its source
    /// still holds the line up.
    pub open spec fn end(self, id: int) -> GicState {
        let line = self.lines[id];
        let state = if line.trigger == TriggerMode::Level && line.asserted {
            LineState::Pending
        } else {
            LineState::Inactive
        };
        GicState {
            lines: self.lines.update(id, Line { state, ..line }),
            in_service: self.in_service.drop_last(),
            ..self
        }
    }

    /// Whether `id` is the interrupt that the core acknowledged last and has
    /// not ended.
    pub open spec fn acknowledged_last(self, id: int) -> bool {
        self.in_service.len() > 0 && self.in_service.last() == id
    }

    /// While some interrupt is not Active, fewer interrupts are in service
    /// than the controller has.
    pub proof fn lemma_room_in_service(self, id: int)
        requires
            self.wf(),
            self.has(id),
            !self.is_active(id),
        ensures
            self.in_service.len() < IntId::GIC_MAX_IRQ,
    {
        let longer = self.in_service.push(id);
        assert(!self.in_service.contains(id));
        assert(longer.no_duplicates());
        longer.unique_seq_to_set();
        let range = vstd::set_lib::set_int_range(0, IntId::GIC_MAX_IRQ as int);
        vstd::set_lib::lemma_int_range(0, IntId::GIC_MAX_IRQ as int);
        assert forall|i: int| longer.to_set().contains(i) implies range.contains(i) by {
            let k = choose|k: int| 0 <= k < longer.len() && longer[k] == i;
            if k < self.in_service.len() {
                assert(self.is_active(self.in_service[k]));
            }
        }
        vstd::set_lib::lemma_len_subset(longer.to_set(), range);
    }

    /// Every step that the calling discipline allows leads from a
    /// well-formed state to a well-formed state.
    pub proof fn lemma_steps_preserve_wf(self, id: int, trigger: TriggerMode)
        requires
            self.wf(),
            self.has(id),
        ensures
            self.primary_done ==> self.cpu_init().wf(),
            self.set_trigger(id, trigger).wf(),
            self.enable(id).wf(),
            self.disable(id).wf(),
            self.raise(id).wf(),
            self.lower(id).wf(),
            self.eligible(id) ==> self.acknowledge(id).wf(),
            self.acknowledged_last(id) ==> self.end(id).wf(),
    {
        if self.primary_done {
            self.lemma_same_activity_wf(self.cpu_init());
        }
        self.lemma_same_activity_wf(self.set_trigger(id, trigger));
        self.lemma_same_activity_wf(self.enable(id));
        self.lemma_same_activity_wf(self.disable(id));
        self.lemma_same_activity_wf(self.raise(id));
        self.lemma_same_activity_wf(self.lower(id));
        if self.eligible(id) {
            let next = self.acknowledge(id);
            assert(!self.in_service.contains(id));
            assert forall|k: int| 0 <= k < next.in_service.len() implies next.is_active(
                #[trigger] next.in_service[k],
            ) by {
                if k < self.in_service.len() {
                    assert(self.is_active(self.in_service[k]));
                }
            }
            assert forall|other: int| #[trigger]
                next.is_active(other) implies next.in_service.contains(other) by {
                if other == id {
                    assert(next.in_service[self.in_service.len() as int] == id);
                } else {
                    assert(self.is_active(other));
                    let k = self.in_service.index_of(other);
                    assert(next.in_service[k] == other);
                }
            }
        }
        if self.acknowledged_last(id) {
            let next = self.end(id);
            let top = self.in_service.len() - 1;
            assert(self.is_active(self.in_service[top]));
            assert forall|k: int| 0 <= k < next.in_service.len() implies next.is_active(
                #[trigger] next.in_service[k],
            ) by {
                assert(self.is_active(self.in_service[k]));
                assert(self.in_service[k] != self.in_service[top]);
            }
            assert forall|other: int| #[trigger]
                next.is_active(other) implies next.in_service.contains(other) by {
                assert(self.is_active(other));
                let k = self.in_service.index_of(other);
                assert(next.in_service[k] == other);
            }
        }
    }

    /// A state with the same interrupts Active and in service as a
    /// well-formed one is well-formed.
    proof fn lemma_same_activity_wf(self, next: GicState)
        requires
            self.wf(),
            next.lines.len() == self.lines.len(),
            next.in_service == self.in_service,
            next.cpu_done ==> next.primary_done,
            forall|id: int| self.is_active(id) == next.is_active(id),
        ensures
            next.wf(),
    {
        assert forall|k: int| 0 <= k < next.in_service.len() implies next.is_active(
            #[trigger] next.in_service[k],
        ) by {
            assert(self.is_active(self.in_service[k]));
        }
        assert forall|id: int| #[trigger]
            next.is_active(id) implies next.in_service.contains(id) by {
            assert(self.is_active(id));
        }
    }

    /// The life cycle of one interrupt. An interrupt that is not in service,
    /// once unmasked and asserted, can be acknowledged; once acknowledged it
    /// is Active and the one acknowledged last; once ended it is Inactive
    /// again, still unmasked, and its next assertion can be acknowledged
    /// again. This holds of an edge-triggered interrupt, and of a
    /// level-sensitive one whose source lets go of the line (`released`)
    /// before the interrupt is ended.
    pub proof fn lemma_life_cycle(self, id: int, released: bool)
        requires
            self.wf(),
            self.has(id),
            !self.is_active(id),
            self.lines[id].trigger == TriggerMode::Edge || released,
        ensures
            ({
                let asserted = self.enable(id).raise(id);
                let acknowledged = asserted.acknowledge(id);
                let serviced = if released {
                    acknowledged.lower(id)
                } else {
                    acknowledged
                };
                let ended = serviced.end(id);
                &&& asserted.eligible(id)
                &&& acknowledged.is_active(id)
                &&& serviced.acknowledged_last(id)
                &&& ended.wf()
                &&& ended.lines[id].state == LineState::Inactive
                &&& ended.lines[id].enabled
                &&& ended.in_service == self.in_service
                &&& ended.raise(id).eligible(id)
            }),
    {
        let enabled = self.enable(id);
        let asserted = enabled.raise(id);
        let acknowledged = asserted.acknowledge(id);
        let serviced = if released {
            acknowledged.lower(id)
        } else {
            acknowledged
        };
        let ended = serviced.end(id);
        self.lemma_steps_preserve_wf(id, TriggerMode::Edge);
        enabled.lemma_steps_preserve_wf(id, TriggerMode::Edge);
        asserted.lemma_steps_preserve_wf(id, TriggerMode::Edge);
        acknowledged.lemma_steps_preserve_wf(id, TriggerMode::Edge);
        serviced.lemma_steps_preserve_wf(id, TriggerMode::Edge);
        assert(ended.in_service =~= self.in_service);
    }

    /// A level-sensitive interrupt whose source still holds the line up when
    /// the interrupt is ended is Pending again at once.
    pub proof fn lemma_level_held_pends_again(self, id: int)
        requires
            self.wf(),
            self.acknowledged_last(id),
            self.lines[id].trigger == TriggerMode::Level,
            self.lines[id].asserted,
        ensures
            self.end(id).lines[id].state == LineState::Pending,
    {
        assert(self.is_active(self.in_service[self.in_service.len() - 1]));
    }

    /// An interrupt that has been acknowledged cannot be acknowledged again
    /// before it is ended, whatever its source does meanwhile: of two
    /// interrupts acknowledged one after the other, the second is another
    /// one than the first.
    pub proof fn lemma_no_second_acknowledge(self, first: int, second: int)
        requires
            self.eligible(first),
        ensures
            !self.acknowledge(first).eligible(first),
            !self.acknowledge(first).raise(first).eligible(first),
            !self.acknowledge(first).lower(first).eligible(first),
            self.acknowledge(first).eligible(second) ==> first != second,
    {
    }

    /// Unmasking an unmasked interrupt and masking a masked one change
    /// nothing. Either step, taken twice, does what it does taken once, and
    /// neither touches anything but the mask of the one interrupt.
    pub proof fn lemma_mask_idempotent(self, id: int)
        requires
            self.has(id),
        ensures
            self.lines[id].enabled ==> self.enable(id) == self,
            !self.lines[id].enabled ==> self.disable(id) == self,
            self.enable(id).enable(id) == self.enable(id),
            self.disable(id).disable(id) == self.disable(id),
            self.enable(id).lines[id] == (Line { enabled: true, ..self.lines[id] }),
            self.disable(id).lines[id] == (Line { enabled: false, ..self.lines[id] }),
            forall|other: int|
                self.has(other) && other != id ==> {
                    &&& self.enable(id).lines[other] == self.lines[other]
                    &&& self.disable(id).lines[other] == self.lines[other]
                },
    {
        if self.lines[id].enabled {
            assert(self.enable(id).lines =~= self.lines);
        } else {
            assert(self.disable(id).lines =~= self.lines);
        }
        assert(self.enable(id).enable(id).lines =~= self.enable(id).lines);
        assert(self.disable(id).disable(id).lines =~= self.disable(id).lines);
    }
}

/// [`GenericArmGic`].
/// It is used to implement the interface abstraction that the interrupt chip
/// driver should provide to the outside world.
///
/// Each operation is stated as a step of [`GicState`], the state of the
/// controller as the calling core sees it. The operations take `&mut self`,
/// the two that acknowledge and end an interrupt too: each of them changes
/// that state. Between two calls the sources of a real controller take steps
/// of their own ([`GicState::raise`], [`GicState::lower`]); a driver for
/// hardware has to account for them in its `model`.
///
/// Calls for one shared interrupt from several cores have to be serialised
/// by the caller, and so has [`GenericArmGic::init_primary`] against
/// everything else.
pub trait GenericArmGic: Debug + Clone + Copy + Sync + Send + Sized {
    /// The state of the controller that this driver speaks to.
    spec fn model(&self) -> GicState;

    /// Initialises the GIC.
    ///
    /// To be called once, by one core, before anything else. Afterwards every
    /// interrupt is masked and Inactive.
    fn init_primary(&mut self)
        requires
            !old(self).model().primary_done,
        ensures
            final(self).model().wf(),
            final(self).model().primary_done,
            !final(self).model().cpu_done,
            final(self).model().quiescent(),
    ;

    /// Initialises the GIC for the current CPU core.
    ///
    /// To be called once on each core, after [`GenericArmGic::init_primary`]
    /// and before the core acknowledges any interrupt.
    fn per_cpu_init(&mut self)
        requires
            old(self).model().wf(),
            old(self).model().primary_done,
            !old(self).model().cpu_done,
        ensures
            final(self).model() == old(self).model().cpu_init(),
            final(self).model().wf(),
    ;

    /// Configures the trigger type for the interrupt with the given ID.
    ///
    /// The interrupt has to be Inactive: what a controller does with a new
    /// trigger mode for a Pending or Active interrupt is up to the driver.
    fn set_trigger(&mut self, intid: IntId, trigger: TriggerMode)
        requires
            old(self).model().wf(),
            old(self).model().primary_done,
            intid@ < IntId::GIC_MAX_IRQ,
            old(self).model().lines[intid@ as int].state == LineState::Inactive,
        ensures
            final(self).model() == old(self).model().set_trigger(intid@ as int, trigger),
            final(self).model().wf(),
    ;

    /// Enables the interrupt with the given ID.
    fn enable_interrupt(&mut self, intid: IntId)
        requires
            old(self).model().wf(),
            old(self).model().primary_done,
            intid@ < IntId::GIC_MAX_IRQ,
        ensures
            final(self).model() == old(self).model().enable(intid@ as int),
            final(self).model().wf(),
    ;

    /// Disable the interrupt with the given ID.
    fn disable_interrupt(&mut self, intid: IntId)
        requires
            old(self).model().wf(),
            old(self).model().primary_done,
            intid@ < IntId::GIC_MAX_IRQ,
        ensures
            final(self).model() == old(self).model().disable(intid@ as int),
            final(self).model().wf(),
    ;

    /// Gets the ID of the highest priority signalled interrupt, and acknowledges it.
    ///
    /// Returns `None` if there is no pending interrupt of sufficient priority.
    /// Which of several Pending, unmasked interrupts ranks highest is up to
    /// the driver.
    fn get_and_acknowledge_interrupt(&mut self) -> (intid: Option<IntId>)
        requires
            old(self).model().wf(),
            old(self).model().cpu_done,
        ensures
            final(self).model().wf(),
            intid is None <==> old(self).model().idle(),
            intid is None ==> final(self).model() == old(self).model(),
            intid matches Some(id) ==> old(self).model().eligible(id@ as int),
            intid matches Some(id) ==> final(self).model() == old(self).model().acknowledge(
                id@ as int,
            ),
    ;

    /// Informs the interrupt controller that the CPU has completed processing the given interrupt.
    /// This drops the interrupt priority and deactivates the interrupt.
    ///
    /// The interrupt has to be the one that this core acknowledged last and
    /// has not ended yet.
    fn end_interrupt(&mut self, intid: IntId)
        requires
            old(self).model().wf(),
            old(self).model().cpu_done,
            old(self).model().acknowledged_last(intid@ as int),
        ensures
            final(self).model() == old(self).model().end(intid@ as int),
            final(self).model().wf(),
    ;
}

} // verus!
