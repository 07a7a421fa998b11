use vstd::prelude::*;

verus! {

/// Command port of the primary PIC.
pub const PIC1_COMMAND: u16 = 0x20;

/// Data port of the primary PIC.
pub const PIC1_DATA: u16 = 0x21;

/// Command port of the secondary PIC.
pub const PIC2_COMMAND: u16 = 0xA0;

/// Data port of the secondary PIC.
pub const PIC2_DATA: u16 = 0xA1;

/// Initialisation command word 1: start initialisation, ICW4 follows.
pub const ICW1_INIT: u8 = 0x11;

/// Initialisation command word 4: 8086 mode.
pub const ICW4_8086: u8 = 0x01;

/// The IRQ line of the keyboard.
pub const KEYBOARD_IRQ: u8 = 1;

/// A byte to write to an I/O port, and whether to wait a moment afterwards.
#[derive(Debug, Clone, Copy, PartialEq, Eq, Structural)]
pub struct PortWrite {
    pub port: u16,
    pub value: u8,
    pub wait: bool,
}

/// `mask` with the bit of `irq` cleared: the interrupt mask register value
/// that lets `irq` through and leaves every other line as it was.
pub fn unmask_irq(mask: u8, irq: u8) -> (r: u8)
    requires
        irq < 8,
    ensures
        r == mask & !(1u8 << irq),
        (r >> irq) & 1 == 0,
        forall|i: u8| i < 8 && i != irq ==> #[trigger] ((r >> i) & 1) == (mask >> i) & 1,
{
    let r = mask & !(1u8 << irq);
    assert((r >> irq) & 1 == 0) by (bit_vector)
        requires
            irq < 8,
            r == mask & !(1u8 << irq),
    ;
    assert(forall|i: u8| i < 8 && i != irq ==> #[trigger] ((r >> i) & 1) == (mask >> i) & 1)
        by (bit_vector)
        requires
            irq < 8,
            r == mask & !(1u8 << irq),
    ;
    r
}

/// The writes that initialise both PICs: ICW1 to both command ports, vector
/// offsets 0x20 and 0x28, the cascade on IRQ 2 (identity 2 for the
/// secondary), 8086 mode, then the masks that let only the keyboard through
/// (0xFD on the primary, 0xFF on the secondary). Each write but the masks is
/// followed by a short wait.
pub open spec fn pic_init_spec() -> Seq<PortWrite> {
    seq![
        PortWrite { port: PIC1_COMMAND, value: ICW1_INIT, wait: true },
        PortWrite { port: PIC2_COMMAND, value: ICW1_INIT, wait: true },
        PortWrite { port: PIC1_DATA, value: 0x20, wait: true },
        PortWrite { port: PIC2_DATA, value: 0x28, wait: true },
        PortWrite { port: PIC1_DATA, value: 4, wait: true },
        PortWrite { port: PIC2_DATA, value: 2, wait: true },
        PortWrite { port: PIC1_DATA, value: ICW4_8086, wait: true },
        PortWrite { port: PIC2_DATA, value: ICW4_8086, wait: true },
        PortWrite { port: PIC1_DATA, value: 0xFD, wait: false },
        PortWrite { port: PIC2_DATA, value: 0xFF, wait: false },
    ]
}

/// The port writes of the PIC initialisation, in order (see `pic_init_spec`).
pub fn pic_init_sequence() -> (r: Vec<PortWrite>)
    ensures
        r@ == pic_init_spec(),
{
    let mut r: Vec<PortWrite> = Vec::new();
    r.push(PortWrite { port: PIC1_COMMAND, value: ICW1_INIT, wait: true });
    r.push(PortWrite { port: PIC2_COMMAND, value: ICW1_INIT, wait: true });
    r.push(PortWrite { port: PIC1_DATA, value: 0x20, wait: true });
    r.push(PortWrite { port: PIC2_DATA, value: 0x28, wait: true });
    r.push(PortWrite { port: PIC1_DATA, value: 4, wait: true });
    r.push(PortWrite { port: PIC2_DATA, value: 2, wait: true });
    r.push(PortWrite { port: PIC1_DATA, value: ICW4_8086, wait: true });
    r.push(PortWrite { port: PIC2_DATA, value: ICW4_8086, wait: true });
    let primary_mask = unmask_irq(0xFFu8, KEYBOARD_IRQ);
    assert(primary_mask == 0xFD) by (bit_vector)
        requires
            primary_mask == 0xFFu8 & !(1u8 << 1u8),
    ;
    r.push(PortWrite { port: PIC1_DATA, value: primary_mask, wait: false });
    r.push(PortWrite { port: PIC2_DATA, value: 0xFF, wait: false });
    assert(r@ =~= pic_init_spec());
    r
}

} // verus!
