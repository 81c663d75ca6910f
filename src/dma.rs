//! The DMA channels that copy the waveform engine's output into the PWM
//! compare registers, with no help from the processor.
use vstd::prelude::*;

verus! {

/// The DREQ line of the RX FIFO of state machine `sm` of PIO block `pio`: the
/// four TX FIFOs of a block come first, then its four RX FIFOs, block after
/// block.
pub open spec fn pio_rx_dreq(pio: u8, sm: u8) -> int {
    pio * 8 + 4 + sm
}

/// How one forwarding channel is set up. It copies half-words from the RX FIFO
/// of state machine `pio_sm` to the compare register of `pwm_slice`, one each
/// time `treq_sel` asks, moving neither address, for `trans_count` transfers;
/// then it starts `chain_to`.
#[derive(Clone, Copy, Debug, PartialEq, Eq, Structural)]
pub struct ForwardChannel {
    pub channel: u8,
    pub chain_to: u8,
    pub treq_sel: u8,
    pub pio_sm: u8,
    pub pwm_slice: usize,
    pub trans_count: u32,
    pub incr_read: bool,
    pub incr_write: bool,
}

/// The forwarding channel `channel` of the pair that serves state machine `sm`
/// of PIO block `pio` and PWM slice `pwm_slice`, chained to `partner`.
pub open spec fn forward_channel(channel: u8, partner: u8, pwm_slice: usize, pio: u8, sm: u8) -> ForwardChannel {
    ForwardChannel {
        channel,
        chain_to: partner,
        treq_sel: pio_rx_dreq(pio, sm) as u8,
        pio_sm: sm,
        pwm_slice,
        trans_count: u32::MAX,
        incr_read: false,
        incr_write: false,
    }
}

/// Two channels that each forward every word of the RX FIFO of state machine
/// `sm` of PIO block `pio_number` to the compare register of `pwm_slice`, and
/// each restart the other when their (maximal) count runs out.
pub fn forward_pair(first: u8, second: u8, pwm_slice: usize, pio_number: u8, sm: u8) -> (r: (
    ForwardChannel,
    ForwardChannel,
))
    requires
        pio_number < 2,
        sm < 4,
    ensures
        r.0 == forward_channel(first, second, pwm_slice, pio_number, sm),
        r.1 == forward_channel(second, first, pwm_slice, pio_number, sm),
        r.0.treq_sel == pio_rx_dreq(pio_number, sm),
{
    let treq_sel = pio_number * 8 + 4 + sm;
    let a = ForwardChannel {
        channel: first,
        chain_to: second,
        treq_sel,
        pio_sm: sm,
        pwm_slice,
        trans_count: u32::MAX,
        incr_read: false,
        incr_write: false,
    };
    let b = ForwardChannel { channel: second, chain_to: first, ..a };
    (a, b)
}

} // verus!
