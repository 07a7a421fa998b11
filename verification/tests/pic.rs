use my_kernel::pic::{pic_init_sequence, unmask_irq, PortWrite};

#[test]
fn unmask_keyboard_line() {
    assert_eq!(unmask_irq(0xFF, 1), 0xFD);
    assert_eq!(unmask_irq(0xB8, 1), 0xB8);
    assert_eq!(unmask_irq(0xFA, 3), 0xF2);
    assert_eq!(unmask_irq(0x80, 7), 0x00);
    assert_eq!(unmask_irq(0x01, 0), 0x00);
}

#[test]
fn pic_initialisation_writes() {
    let w = |port, value, wait| PortWrite { port, value, wait };
    assert_eq!(
        pic_init_sequence(),
        vec![
            w(0x20, 0x11, true),
            w(0xA0, 0x11, true),
            w(0x21, 0x20, true),
            w(0xA1, 0x28, true),
            w(0x21, 4, true),
            w(0xA1, 2, true),
            w(0x21, 0x01, true),
            w(0xA1, 0x01, true),
            w(0x21, 0xFD, false),
            w(0xA1, 0xFF, false),
        ]
    );
}
