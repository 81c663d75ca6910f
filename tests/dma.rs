use led_streams::dma::{forward_pair, ForwardChannel};

#[test]
fn forward_pair_chains_both_ways() {
    let (a, b) = forward_pair(0, 1, 2, 1, 0);
    assert_eq!(
        a,
        ForwardChannel {
            channel: 0,
            chain_to: 1,
            treq_sel: 12,
            pio_sm: 0,
            pwm_slice: 2,
            trans_count: u32::MAX,
            incr_read: false,
            incr_write: false,
        }
    );
    assert_eq!(b, ForwardChannel { channel: 1, chain_to: 0, ..a });
}

#[test]
fn forward_pair_paces_on_the_state_machine_rx_fifo() {
    assert_eq!(forward_pair(2, 3, 3, 1, 1).0.treq_sel, 13);
    assert_eq!(forward_pair(4, 5, 1, 1, 2).1.treq_sel, 14);
    assert_eq!(forward_pair(4, 5, 1, 0, 3).0.treq_sel, 7);
}
