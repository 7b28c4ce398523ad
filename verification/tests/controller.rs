use arm_gic::{GenericArmGic, IntId, Line, LineState, SoftGic, TriggerMode};

fn ready() -> SoftGic {
    let mut gic = SoftGic::new();
    gic.init_primary();
    gic.per_cpu_init();
    gic
}

fn acknowledged(gic: &mut SoftGic) -> Option<usize> {
    gic.get_and_acknowledge_interrupt().map(usize::from)
}

/// Drives one interrupt through its life cycle on any driver and says what
/// the first acknowledgement gave.
fn service_once<G: GenericArmGic>(gic: &mut G, id: IntId) -> Option<IntId> {
    let got = gic.get_and_acknowledge_interrupt();
    if let Some(taken) = got {
        assert!(taken == id);
        gic.end_interrupt(taken);
    }
    got
}

#[test]
fn a_new_controller_is_quiet() {
    let gic = SoftGic::new();
    for n in [0usize, 15, 16, 31, 32, 500, 1019] {
        let line = gic.line(IntId::from(n));
        assert!(
            line == Line {
                enabled: false,
                trigger: TriggerMode::Level,
                state: LineState::Inactive,
                asserted: false,
            }
        );
    }
}

#[test]
fn init_primary_masks_and_deactivates_everything() {
    let mut gic = ready();
    let id = IntId::spi(3);
    gic.set_trigger(id, TriggerMode::Edge);
    gic.enable_interrupt(id);
    gic.assert_line(id);
    assert!(gic.line(id).state == LineState::Pending);
    let mut again = gic;
    again.init_primary();
    for n in 0..1020usize {
        let line = again.line(IntId::from(n));
        assert!(!line.enabled);
        assert!(line.state == LineState::Inactive);
    }
    assert!(again.line(id).trigger == TriggerMode::Edge);
    assert!(again.line(id).asserted);
    again.per_cpu_init();
    assert_eq!(acknowledged(&mut again), None);
}

#[test]
fn acknowledge_with_nothing_pending_gives_nothing() {
    let mut gic = ready();
    assert_eq!(acknowledged(&mut gic), None);
    gic.enable_interrupt(IntId::spi(0));
    assert_eq!(acknowledged(&mut gic), None);
    assert_eq!(acknowledged(&mut gic), None);
}

#[test]
fn life_cycle_of_an_edge_triggered_interrupt() {
    let mut gic = ready();
    let id = IntId::spi(8);
    gic.set_trigger(id, TriggerMode::Edge);
    gic.enable_interrupt(id);
    assert!(gic.line(id).state == LineState::Inactive);
    gic.assert_line(id);
    assert!(gic.line(id).state == LineState::Pending);
    assert_eq!(acknowledged(&mut gic), Some(40));
    assert!(gic.line(id).state == LineState::Active);
    gic.end_interrupt(id);
    assert!(gic.line(id).state == LineState::Inactive);
    assert!(gic.line(id).enabled);
    gic.assert_line(id);
    assert!(gic.line(id).state == LineState::Pending);
    assert_eq!(acknowledged(&mut gic), Some(40));
    gic.end_interrupt(id);
    assert_eq!(acknowledged(&mut gic), None);
}

#[test]
fn life_cycle_of_a_level_sensitive_interrupt() {
    let mut gic = ready();
    let id = IntId::ppi(5);
    gic.set_trigger(id, TriggerMode::Level);
    gic.enable_interrupt(id);
    gic.assert_line(id);
    assert_eq!(acknowledged(&mut gic), Some(21));
    gic.deassert_line(id);
    assert!(gic.line(id).state == LineState::Active);
    gic.end_interrupt(id);
    assert!(gic.line(id).state == LineState::Inactive);
    assert_eq!(acknowledged(&mut gic), None);
    gic.assert_line(id);
    assert_eq!(acknowledged(&mut gic), Some(21));
}

#[test]
fn level_sensitive_interrupt_still_asserted_pends_again() {
    let mut gic = ready();
    let id = IntId::spi(1);
    gic.set_trigger(id, TriggerMode::Level);
    gic.enable_interrupt(id);
    gic.assert_line(id);
    assert_eq!(acknowledged(&mut gic), Some(33));
    gic.end_interrupt(id);
    assert!(gic.line(id).state == LineState::Pending);
    assert_eq!(acknowledged(&mut gic), Some(33));
    gic.deassert_line(id);
    gic.end_interrupt(id);
    assert!(gic.line(id).state == LineState::Inactive);
}

#[test]
fn level_sensitive_interrupt_withdrawn_before_acknowledge() {
    let mut gic = ready();
    let id = IntId::spi(2);
    gic.enable_interrupt(id);
    gic.assert_line(id);
    assert!(gic.line(id).state == LineState::Pending);
    gic.deassert_line(id);
    assert!(gic.line(id).state == LineState::Inactive);
    assert_eq!(acknowledged(&mut gic), None);
}

#[test]
fn edge_triggered_interrupt_stays_latched() {
    let mut gic = ready();
    let id = IntId::spi(2);
    gic.set_trigger(id, TriggerMode::Edge);
    gic.enable_interrupt(id);
    gic.assert_line(id);
    gic.deassert_line(id);
    assert!(gic.line(id).state == LineState::Pending);
    assert_eq!(acknowledged(&mut gic), Some(34));
}

#[test]
fn acknowledged_interrupt_is_not_handed_out_twice() {
    let mut gic = ready();
    let id = IntId::spi(8);
    gic.set_trigger(id, TriggerMode::Edge);
    gic.enable_interrupt(id);
    gic.assert_line(id);
    assert_eq!(acknowledged(&mut gic), Some(40));
    assert_eq!(acknowledged(&mut gic), None);
    gic.assert_line(id);
    assert!(gic.line(id).state == LineState::Active);
    assert_eq!(acknowledged(&mut gic), None);
}

#[test]
fn two_acknowledgements_give_two_interrupts_lowest_first() {
    let mut gic = ready();
    let high = IntId::spi(100);
    let low = IntId::sgi(4);
    for id in [high, low] {
        gic.set_trigger(id, TriggerMode::Edge);
        gic.enable_interrupt(id);
    }
    gic.assert_line(high);
    gic.assert_line(low);
    assert_eq!(acknowledged(&mut gic), Some(4));
    assert_eq!(acknowledged(&mut gic), Some(132));
    assert_eq!(acknowledged(&mut gic), None);
    gic.end_interrupt(high);
    assert!(gic.line(high).state == LineState::Inactive);
    assert!(gic.line(low).state == LineState::Active);
    gic.end_interrupt(low);
    assert!(gic.line(low).state == LineState::Inactive);
}

#[test]
fn masked_assertion_is_not_delivered_later() {
    let mut gic = ready();
    let id = IntId::spi(7);
    gic.set_trigger(id, TriggerMode::Edge);
    gic.assert_line(id);
    assert!(gic.line(id).state == LineState::Inactive);
    assert!(gic.line(id).asserted);
    gic.enable_interrupt(id);
    assert!(gic.line(id).state == LineState::Inactive);
    assert_eq!(acknowledged(&mut gic), None);
    gic.assert_line(id);
    assert_eq!(acknowledged(&mut gic), Some(39));
}

#[test]
fn pending_interrupt_that_is_masked_waits() {
    let mut gic = ready();
    let id = IntId::spi(7);
    gic.set_trigger(id, TriggerMode::Edge);
    gic.enable_interrupt(id);
    gic.assert_line(id);
    gic.disable_interrupt(id);
    assert!(gic.line(id).state == LineState::Pending);
    assert_eq!(acknowledged(&mut gic), None);
    gic.enable_interrupt(id);
    assert_eq!(acknowledged(&mut gic), Some(39));
}

#[test]
fn enabling_twice_is_enabling_once() {
    let mut gic = ready();
    let id = IntId::ppi(9);
    let other = IntId::ppi(10);
    gic.enable_interrupt(id);
    let once = gic.line(id);
    assert!(once.enabled);
    gic.enable_interrupt(id);
    assert!(gic.line(id) == once);
    assert!(!gic.line(other).enabled);
}

#[test]
fn disabling_twice_is_disabling_once() {
    let mut gic = ready();
    let id = IntId::ppi(9);
    gic.disable_interrupt(id);
    assert!(!gic.line(id).enabled);
    gic.enable_interrupt(id);
    gic.disable_interrupt(id);
    let once = gic.line(id);
    assert!(!once.enabled);
    gic.disable_interrupt(id);
    assert!(gic.line(id) == once);
}

#[test]
fn set_trigger_changes_only_the_trigger_mode() {
    let mut gic = ready();
    let id = IntId::spi(11);
    gic.enable_interrupt(id);
    let before = gic.line(id);
    assert!(before.trigger == TriggerMode::Level);
    gic.set_trigger(id, TriggerMode::Edge);
    assert!(gic.line(id) == Line { trigger: TriggerMode::Edge, ..before });
    gic.set_trigger(id, TriggerMode::Level);
    assert!(gic.line(id) == before);
    assert!(gic.line(IntId::spi(12)).trigger == TriggerMode::Level);
}

#[test]
fn trigger_modes_differ() {
    assert!(TriggerMode::Edge != TriggerMode::Level);
    assert_eq!(format!("{:?}", TriggerMode::Edge), "Edge");
    assert_eq!(format!("{:?}", TriggerMode::Level), "Level");
}

#[test]
fn a_driver_is_used_through_the_trait() {
    let mut gic = ready();
    let id = IntId::sgi(1);
    gic.set_trigger(id, TriggerMode::Edge);
    gic.enable_interrupt(id);
    assert!(service_once(&mut gic, id).is_none());
    gic.assert_line(id);
    assert!(service_once(&mut gic, id) == Some(id));
    assert!(gic.line(id).state == LineState::Inactive);
    assert!(service_once(&mut gic, id).is_none());
}

#[test]
fn every_interrupt_can_be_in_service_at_once() {
    let mut gic = ready();
    for n in 0..1020usize {
        let id = IntId::from(n);
        gic.set_trigger(id, TriggerMode::Edge);
        gic.enable_interrupt(id);
        gic.assert_line(id);
    }
    for n in 0..1020usize {
        assert_eq!(acknowledged(&mut gic), Some(n));
    }
    assert_eq!(acknowledged(&mut gic), None);
    for n in (0..1020usize).rev() {
        gic.end_interrupt(IntId::from(n));
    }
    for n in 0..1020usize {
        assert!(gic.line(IntId::from(n)).state == LineState::Inactive);
    }
}
