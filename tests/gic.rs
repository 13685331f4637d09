use kernel::gicv2::{GICv2, IRQNumber, IrqDispatch, IrqError, MAX_IRQ_NUMBER};
use kernel::irq::{IRQHandlerDescriptor, ARM_NS_PHYSICAL_TIMER, PL011_UART, SGI_9};
use kernel::smp::secondary_kicks;

type Desc = IRQHandlerDescriptor<IRQNumber, &'static str>;

fn desc(n: usize, name: &'static str, handler: &'static str) -> Desc {
    IRQHandlerDescriptor::new(IRQNumber::new(n), name, handler)
}

#[test]
fn double_register_keeps_first_handler() {
    let mut gic: GICv2<&'static str> = GICv2::new();
    assert_eq!(gic.register_handler(desc(9, "A", "ha")), Ok(()));
    assert_eq!(gic.register_handler(desc(9, "B", "hb")), Err(IrqError::AlreadyRegistered));
    match gic.handle_pending_irqs(9) {
        IrqDispatch::Handle(d) => {
            assert_eq!(d.handler(), "ha");
            assert_eq!(d.name(), "A");
            assert_eq!(d.number().get(), 9);
        }
        _ => panic!("IRQ 9 has a handler"),
    }
}

#[test]
fn spurious_irq_is_dropped() {
    let mut gic: GICv2<&'static str> = GICv2::new();
    gic.register_handler(desc(9, "A", "ha")).unwrap();
    assert!(matches!(gic.handle_pending_irqs(1023), IrqDispatch::Spurious));
    assert!(matches!(gic.handle_pending_irqs(1020), IrqDispatch::Spurious));
    assert!(matches!(gic.handle_pending_irqs(MAX_IRQ_NUMBER), IrqDispatch::Unhandled(1019)));
}

#[test]
fn missing_handler_is_reported() {
    let gic: GICv2<&'static str> = GICv2::new();
    assert!(matches!(gic.handle_pending_irqs(30), IrqDispatch::Unhandled(30)));
    assert!(matches!(gic.handle_pending_irqs(0), IrqDispatch::Unhandled(0)));
}

#[test]
fn table_is_read_only_after_init() {
    let mut gic: GICv2<&'static str> = GICv2::new();
    gic.register_handler(desc(SGI_9, "SGI Handler", "sgi")).unwrap();
    gic.end_init();
    assert_eq!(gic.register_handler(desc(PL011_UART, "PL011", "uart")), Err(IrqError::InitDone));
    assert_eq!(gic.register_handler(desc(SGI_9, "other", "x")), Err(IrqError::InitDone));
    assert!(matches!(gic.handle_pending_irqs(PL011_UART), IrqDispatch::Unhandled(153)));
    match gic.handle_pending_irqs(SGI_9) {
        IrqDispatch::Handle(d) => assert_eq!(d.handler(), "sgi"),
        _ => panic!("IRQ 9 has a handler"),
    }
}

#[test]
fn each_slot_set_at_most_once() {
    let mut gic: GICv2<&'static str> = GICv2::new();
    for n in [0usize, 30, 153, 1019] {
        assert_eq!(gic.register_handler(desc(n, "first", "h1")), Ok(()));
        assert_eq!(gic.register_handler(desc(n, "second", "h2")), Err(IrqError::AlreadyRegistered));
        match gic.handle_pending_irqs(n) {
            IrqDispatch::Handle(d) => assert_eq!(d.handler(), "h1"),
            _ => panic!("slot {} was set", n),
        }
    }
}

#[test]
fn error_descriptions() {
    assert_eq!(IrqError::AlreadyRegistered.as_str(), "IRQ handler already registered");
    assert_eq!(IrqError::InitDone.as_str(), "IRQ handler table is read-only after init");
}

#[test]
fn peripheral_handlers_listed_from_32() {
    let mut gic: GICv2<&'static str> = GICv2::new();
    gic.register_handler(desc(PL011_UART, "BCM PL011 UART", "uart")).unwrap();
    gic.register_handler(desc(ARM_NS_PHYSICAL_TIMER, "timer", "t")).unwrap();
    gic.register_handler(desc(SGI_9, "SGI Handler", "sgi")).unwrap();
    gic.register_handler(desc(40, "other", "o")).unwrap();
    assert_eq!(gic.peripheral_handlers(), vec![(40, "other"), (153, "BCM PL011 UART")]);
}

#[test]
fn sgi_word_targets_one_core() {
    let gic: GICv2<&'static str> = GICv2::new();
    assert_eq!(gic.send_sgi(9, 0), Some(0x0001_0009));
    assert_eq!(gic.send_sgi(9, 1), Some(0x0002_0009));
    assert_eq!(gic.send_sgi(9, 3), Some(0x0008_0009));
    assert_eq!(gic.send_sgi(15, 2), Some(0x0004_000f));
    assert_eq!(gic.send_sgi(16, 1), None);
}

#[test]
fn sgi_to_missing_core_is_ignored() {
    let gic: GICv2<&'static str> = GICv2::new();
    for cpu in 4u8..=255 {
        assert_eq!(gic.send_sgi(9, cpu), None);
    }
}

#[test]
fn tick_kicks_cores_three_two_one() {
    let gic: GICv2<&'static str> = GICv2::new();
    assert_eq!(secondary_kicks(&gic), vec![0x0008_0009, 0x0004_0009, 0x0002_0009]);
}

#[test]
fn descriptor_getters() {
    let d = desc(153, "uart", "h");
    assert_eq!(d.number().get(), 153);
    assert_eq!(d.name(), "uart");
    assert_eq!(d.handler(), "h");
    let copy = d;
    assert_eq!(copy.name(), d.name());
}
