use c6_open_mac::eb_pool::{cr_pool_alloc, free_len, init, recycle, EbPool};
use c6_open_mac::layout::{DmaDesc, Eb, TxInfo};
use c6_open_mac::mmio::{rd, rd8, Mem};

const BASE: u32 = 0x4081_0000;

fn ready() -> (EbPool, Mem) {
    let mut pool = EbPool::new(BASE);
    let mut m = Mem::new();
    init(&mut pool, &mut m, &[1, 2, 3]);
    (pool, m)
}

#[test]
fn a_new_pool_is_empty() {
    let mut pool = EbPool::new(BASE);
    let mut m = Mem::new();
    assert_eq!(free_len(&pool), 0);
    assert!(cr_pool_alloc(&mut pool, &mut m, &[]).is_null());
    assert!(m.stores().is_empty());
}

#[test]
fn blocks_point_at_their_own_parts() {
    let (pool, m) = ready();
    assert_eq!(free_len(&pool), 12);
    for i in 0..12 {
        let b = BASE + i * 0x2c0;
        let eb = Eb(b);
        assert_eq!(eb.dma_desc(&m), DmaDesc(b + 0x3c));
        assert_eq!(eb.sec_desc(&m), DmaDesc(b + 0x3c));
        assert_eq!(eb.txinfo(&m), TxInfo(b + 0x48));
        assert_eq!(eb.txinfo(&m).flags(&m), 0x2000);
        assert_eq!(rd(&m, b + 0x0c), 1);
        assert_eq!(rd(&m, b + 0x10), b + 0x90);
        assert_eq!(rd8(&m, b + 0x1a), 1);
        assert_eq!(rd(&m, b + 0x3c), 0x68);
        assert_eq!(rd(&m, b + 0x40), b + 0xb8);
        assert_eq!(rd(&m, b + 0x44), 0);
        assert_eq!(eb.payload_len(&m), 3);
        assert_eq!(rd8(&m, b + 0xba), 3);
    }
}

#[test]
fn the_last_block_is_handed_out_first() {
    let (mut pool, mut m) = ready();
    assert_eq!(cr_pool_alloc(&mut pool, &mut m, &[9]), Eb(BASE + 11 * 0x2c0));
    assert_eq!(cr_pool_alloc(&mut pool, &mut m, &[9]), Eb(BASE + 10 * 0x2c0));
    assert_eq!(free_len(&pool), 10);
}

#[test]
fn giving_back_undoes_handing_out() {
    let (mut pool, mut m) = ready();
    let eb = cr_pool_alloc(&mut pool, &mut m, &[9]);
    recycle(&mut pool, eb);
    assert_eq!(free_len(&pool), 12);
    assert_eq!(cr_pool_alloc(&mut pool, &mut m, &[9]), eb);
}

#[test]
fn no_block_is_handed_out_twice() {
    let (mut pool, mut m) = ready();
    let mut seen = Vec::new();
    for _ in 0..12 {
        let eb = cr_pool_alloc(&mut pool, &mut m, &[9]);
        assert!(!eb.is_null());
        assert!(!seen.contains(&eb.0));
        seen.push(eb.0);
    }
    assert!(cr_pool_alloc(&mut pool, &mut m, &[9]).is_null());
    for b in seen {
        recycle(&mut pool, Eb(b));
    }
    assert_eq!(free_len(&pool), 12);
}

#[test]
fn a_used_block_is_handed_out_clean() {
    let (mut pool, mut m) = ready();
    let eb = cr_pool_alloc(&mut pool, &mut m, &[9]);
    eb.set_prefix_len(&mut m, 8);
    eb.set_flags16(&mut m, 0x2000);
    eb.set_pending_next(&mut m, 5);
    eb.dma_desc(&m).set_ctrl(&mut m, 0xffff_ffff);
    eb.dma_desc(&m).set_frame_ptr(&mut m, 0);
    recycle(&mut pool, eb);
    let again = cr_pool_alloc(&mut pool, &mut m, &[7, 8]);
    assert_eq!(again, eb);
    assert_eq!(again.prefix_len(&m), 0);
    assert_eq!(again.flags16(&m), 0);
    assert_eq!(again.pending_next(&m), 0);
    assert_eq!(again.payload_len(&m), 2);
    assert_eq!(again.dma_desc(&m).ctrl(&m), 0x68);
    assert_eq!(again.dma_desc(&m).frame_ptr(&m), eb.0 + 0xb8);
    assert_eq!(rd8(&m, eb.0 + 0xb8), 7);
    assert_eq!(rd8(&m, eb.0 + 0xb9), 8);
}

#[test]
fn foreign_buffers_are_ignored() {
    let (mut pool, mut m) = ready();
    let eb = cr_pool_alloc(&mut pool, &mut m, &[9]);
    for b in [0, BASE - 0x2c0, BASE + 1, eb.0 + 0x10, BASE + 12 * 0x2c0, u32::MAX] {
        recycle(&mut pool, Eb(b));
        assert_eq!(free_len(&pool), 11);
    }
    recycle(&mut pool, eb);
    recycle(&mut pool, eb);
    assert_eq!(free_len(&pool), 12);
}

#[test]
fn long_payloads_are_cut_to_the_block() {
    let (mut pool, mut m) = ready();
    let long = vec![0x55u8; 0x300];
    let eb = cr_pool_alloc(&mut pool, &mut m, &long);
    assert_eq!(eb.payload_len(&m), 0x200);
    assert_eq!(rd8(&m, eb.0 + 0xb8 + 0x1ff), 0x55);
    assert_eq!(rd8(&m, eb.0 + 0xb8 + 0x200), 0);
}
