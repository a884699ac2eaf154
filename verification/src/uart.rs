//! The console: a 16550 UART.  The functions here say which registers are
//! to be written, and decide on what was read from them.
use vstd::prelude::*;
use crate::memolayout::UART;
use crate::mmio::{byte, spec_byte, MmioWrite};

verus! {

/// Receive holding register (read) and transmit holding register (write).
pub const RHR_THR: u64 = 0;

/// Interrupt enable register.
pub const IER: u64 = 1;

/// FIFO control register (write) and interrupt status register (read).
pub const FCR_ISR: u64 = 2;

/// Line control register.
pub const LCR: u64 = 3;

/// Line status register.
pub const LSR: u64 = 5;

pub const IER_RX_ENABLE: u8 = 0x01;

pub const IER_TX_ENABLE: u8 = 0x02;

pub const FCR_FIFO_ENABLE: u8 = 0x01;

/// Clears the content of the two FIFOs.
pub const FCR_FIFO_CLEAR: u8 = 0x06;

/// Words of eight bits.
pub const LCR_EIGHT_BITS: u8 = 0x03;

/// The mode in which the baud rate is set.
pub const LCR_BAUD_LATCH: u8 = 0x80;

/// Input is waiting to be read.
pub const LSR_RX_READY: u8 = 0x01;

/// The transmitter can take another byte.
pub const LSR_TX_IDLE: u8 = 0x20;

/// In baud-latch mode the first two registers hold the divisor: the low
/// byte and the high byte.
pub const DLL: u64 = 0;

pub const DLM: u64 = 1;

/// The low byte of the divisor for 38.4K baud.
pub const BAUD_LOW: u8 = 0x03;

/// The high byte of the divisor for 38.4K baud.
pub const BAUD_HIGH: u8 = 0x00;

/// The registers of the UART as they were read.
#[derive(Clone, Copy, Debug, PartialEq, Eq, Structural)]
pub struct UartMimo {
    pub rhr_thr: u8,
    pub ier: u8,
    pub fcr_isr: u8,
    pub lcr: u8,
    pub lsr: u8,
}

impl UartMimo {
    /// Sends one byte, as [`uartputc_sync`] does.
    pub fn _write_char(&self, c: u8) -> (r: Option<MmioWrite>)
        ensures
            r == spec_putc(self, c),
    {
        uartputc_sync(self, c)
    }
}

/// The writes that set the UART up: interrupts off; baud-latch mode; the
/// two bytes of the divisor; words of eight bits, which leaves baud-latch
/// mode; FIFOs enabled and cleared; transmit and receive interrupts on.
pub open spec fn spec_uart_init() -> Seq<MmioWrite> {
    seq![
        spec_byte((UART + IER) as u64, 0),
        spec_byte((UART + LCR) as u64, LCR_BAUD_LATCH),
        spec_byte((UART + DLL) as u64, BAUD_LOW),
        spec_byte((UART + DLM) as u64, BAUD_HIGH),
        spec_byte((UART + LCR) as u64, LCR_EIGHT_BITS),
        spec_byte((UART + FCR_ISR) as u64, 0x07),
        spec_byte((UART + IER) as u64, 0x03),
    ]
}

/// Says how the UART is set up: the writes to make, in order.
pub fn uart_init() -> (writes: Vec<MmioWrite>)
    ensures
        writes@ == spec_uart_init(),
{
    let mut writes: Vec<MmioWrite> = Vec::new();
    writes.push(byte(UART + IER, 0));
    writes.push(byte(UART + LCR, LCR_BAUD_LATCH));
    writes.push(byte(UART + DLL, BAUD_LOW));
    writes.push(byte(UART + DLM, BAUD_HIGH));
    writes.push(byte(UART + LCR, LCR_EIGHT_BITS));
    assert(0x01u8 | 0x06u8 == 0x07u8 && 0x02u8 | 0x01u8 == 0x03u8) by (bit_vector);
    writes.push(byte(UART + FCR_ISR, FCR_FIFO_ENABLE | FCR_FIFO_CLEAR));
    writes.push(byte(UART + IER, IER_TX_ENABLE | IER_RX_ENABLE));
    proof {
        assert(writes@ =~= spec_uart_init());
    }
    writes
}

/// Says how the console is set up: as the UART is.
pub fn console_init() -> (writes: Vec<MmioWrite>)
    ensures
        writes@ == spec_uart_init(),
{
    uart_init()
}

/// Whether the transmitter can take a byte.
pub open spec fn spec_tx_idle(lsr: u8) -> bool {
    lsr & LSR_TX_IDLE != 0
}

/// Whether input is waiting.
pub open spec fn spec_rx_ready(lsr: u8) -> bool {
    lsr & LSR_RX_READY != 0
}

/// What sending `c` comes to, for the registers as read.
pub open spec fn spec_putc(uart: &UartMimo, c: u8) -> Option<MmioWrite> {
    if spec_tx_idle(uart.lsr) {
        Some(spec_byte((UART + RHR_THR) as u64, c))
    } else {
        None
    }
}

/// Sends one byte without interrupts.  Where the transmitter is idle, the
/// result is the write that hands it the byte.  Where it is busy the
/// result is `None`: the caller reads the registers again and asks again.
pub fn uartputc_sync(uart: &UartMimo, c: u8) -> (r: Option<MmioWrite>)
    ensures
        r == spec_putc(uart, c),
{
    if uart.lsr & LSR_TX_IDLE == 0 {
        None
    } else {
        Some(byte(UART + RHR_THR, c))
    }
}

/// What is there to read, for the registers as read.
pub open spec fn spec_getc(uart: &UartMimo) -> Option<u8> {
    if spec_rx_ready(uart.lsr) {
        Some(uart.rhr_thr)
    } else {
        None
    }
}

/// Takes one byte of input, if one is waiting.
pub fn uart_getc(uart: &UartMimo) -> (r: Option<u8>)
    ensures
        r == spec_getc(uart),
{
    if uart.lsr & LSR_RX_READY != 0 {
        Some(uart.rhr_thr)
    } else {
        None
    }
}

/// Handles a byte of input: the console echoes it.
pub fn console_intr(uart: &UartMimo, c: u8) -> (r: Option<MmioWrite>)
    ensures
        r == spec_putc(uart, c),
{
    uartputc_sync(uart, c)
}

/// One round of the UART's interrupt handler: the byte of input that is to
/// be handed to `console_intr`, or `None` when no input is left and the
/// handler is done.  The caller reads the registers again for each round.
pub fn uart_intr(uart: &UartMimo) -> (r: Option<u8>)
    ensures
        r == spec_getc(uart),
{
    uart_getc(uart)
}

/// What writing a string to the console sends: its bytes, one by one.
pub fn write_str(s: &[u8]) -> (sent: Vec<u8>)
    ensures
        sent@ == s@,
{
    let mut sent: Vec<u8> = Vec::new();
    let mut i: usize = 0;
    while i < s.len()
        invariant
            i <= s@.len(),
            sent@ == s@.subrange(0, i as int),
        decreases s.len() - i,
    {
        sent.push(s[i]);
        i += 1;
        proof {
            assert(sent@ =~= s@.subrange(0, i as int));
        }
    }
    proof {
        assert(s@.subrange(0, s@.len() as int) =~= s@);
    }
    sent
}

} // verus!
