use pcg32::Pcg32;

#[test]
fn default_first_two_outputs() {
    let mut g = Pcg32::default();
    assert_eq!(g.generate(), 0x152ca78d);
    assert_eq!(g.generate(), 0x027c6003);
}

#[test]
fn seeded_first_two_outputs() {
    let mut g = Pcg32::new(0xff30_6525_39eb_eaa9, 0x315b_fae4_8ade_2146);
    assert_eq!(g.generate(), 0xf986_95e1);
    assert_eq!(g.generate(), 0x7e39_20e2);
}

#[test]
fn same_seed_same_sequence() {
    let mut a = Pcg32::new(0x1234_5678_9abc_def0, 0x0fed_cba9_8765_4321);
    let mut b = Pcg32::new(0x1234_5678_9abc_def0, 0x0fed_cba9_8765_4321);
    assert_eq!(a, b);
    for _ in 0..1000 {
        assert_eq!(a.generate(), b.generate());
    }
    assert_eq!(a, b);
}

#[test]
fn clone_continues_same_sequence() {
    let mut a = Pcg32::new(7, 11);
    a.generate();
    let mut b = a.clone();
    for _ in 0..100 {
        assert_eq!(a.generate(), b.generate());
    }
}

#[test]
fn top_bit_of_sequence_is_ignored() {
    let seqs: [u64; 6] = [0, 1, 2, 0x7fff_ffff_ffff_ffff, u64::MAX, 0x315b_fae4_8ade_2146];
    for seq in seqs {
        let mut a = Pcg32::new(42, seq);
        let mut b = Pcg32::new(42, seq ^ (1u64 << 63));
        assert_eq!(a, b);
        for _ in 0..10 {
            assert_eq!(a.generate(), b.generate());
        }
    }
}

#[test]
fn distinct_streams_differ() {
    let mut a = Pcg32::new(42, 0);
    let mut b = Pcg32::new(42, 1);
    assert_ne!(a, b);
    let xs: Vec<u32> = (0..8).map(|_| a.generate()).collect();
    let ys: Vec<u32> = (0..8).map(|_| b.generate()).collect();
    assert_ne!(xs, ys);
}

#[test]
fn extreme_seeds_never_fail() {
    let values: [u64; 5] = [0, 1, u64::MAX, 0x8000_0000_0000_0000, 0xdead_beef_cafe_f00d];
    for initstate in values {
        for initseq in values {
            let mut g = Pcg32::new(initstate, initseq);
            for _ in 0..100 {
                g.generate();
            }
        }
    }
}

#[test]
fn zero_rotation_returns_folded_word() {
    // This seed pair gives the first state 0x0123_4567_89ab_cdef, whose top
    // five bits are zero.
    let mut g = Pcg32::new(0x439b_3a02_28cc_ea65, 0);
    let s: u64 = 0x0123_4567_89ab_cdef;
    let folded = (((s >> 18) ^ s) >> 27) as u32;
    assert_eq!(folded, 0x2468_a5eb);
    assert_eq!(g.generate(), folded);
    // The next state, 0x0123_4567_89ab_cdef * MUL + 1, rotates by three.
    assert_eq!(g.generate(), 0x4376_de4d);
}

#[test]
fn gen_matches_generate() {
    let mut a = Pcg32::new(0xff30_6525_39eb_eaa9, 0x315b_fae4_8ade_2146);
    let mut b = a.clone();
    for _ in 0..100 {
        assert_eq!(a.gen(), b.generate());
    }
    assert_eq!(a, b);
}
