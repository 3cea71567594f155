use bech32::{Checksum, Engine, Fe32, Hrp, HrpFe32Iter, PackedFe32, PackedNull};

// The constants of the classic bech32 checksum: a degree-6 generator over
// GF(32), packed into a u32, with target residue 1.
fn bech32_config() -> Checksum<u32> {
    Checksum {
        code_length: 1023,
        checksum_length: 6,
        generator_sh: [0x3b6a57b2, 0x26508e6d, 0x1ea119fa, 0x3d4233dd, 0x2a1462b3],
        target_residue: 1,
    }
}

fn null_config() -> Checksum<PackedNull> {
    Checksum {
        code_length: 1023,
        checksum_length: 0,
        generator_sh: [PackedNull, PackedNull, PackedNull, PackedNull, PackedNull],
        target_residue: PackedNull,
    }
}

fn fe(v: u8) -> Fe32 {
    Fe32::new(v).unwrap()
}

#[test]
fn fe32_new_accepts_field_values_only() {
    for v in 0..32u8 {
        let e = Fe32::new(v).unwrap();
        assert_eq!(e.value(), v);
    }
    assert!(Fe32::new(32).is_none());
    assert!(Fe32::new(255).is_none());
    assert_eq!(Fe32::q().value(), 0);
}

#[test]
fn packed_widths() {
    assert_eq!(<u32 as PackedFe32>::width(), 6);
    assert_eq!(<u64 as PackedFe32>::width(), 12);
    assert_eq!(<u128 as PackedFe32>::width(), 25);
    assert_eq!(<PackedNull as PackedFe32>::width(), 0);
}

#[test]
fn packed_one_is_slot_zero_one() {
    assert_eq!(<u32 as PackedFe32>::one(), 1u32);
    assert_eq!(<u64 as PackedFe32>::one(), 1u64);
    assert_eq!(<u128 as PackedFe32>::one(), 1u128);
    assert_eq!(<PackedNull as PackedFe32>::one(), PackedNull);
}

#[test]
fn mul_by_x_then_add_primitive_example() {
    // 32-bit packed vector, width 6: starting from ONE, a step of degree 3
    // adding 5 drops coefficient 0 and leaves 37 (slot 0 = 5, slot 1 = 1).
    let mut x: u32 = <u32 as PackedFe32>::one();
    let dropped = x.mul_by_x_then_add(3, 5);
    assert_eq!(dropped, 0);
    assert_eq!(x, 37);
    assert_eq!(x.unpack(0), 5);
    assert_eq!(x.unpack(1), 1);
    assert_eq!(x.unpack(2), 0);
}

#[test]
fn mul_by_x_then_add_wider_types() {
    let mut x: u64 = 1;
    assert_eq!(x.mul_by_x_then_add(3, 5), 0);
    assert_eq!(x, 37u64);

    let mut y: u128 = 1;
    assert_eq!(y.mul_by_x_then_add(3, 5), 0);
    assert_eq!(y, 37u128);

    // A full-width step drops the top coefficient.
    let mut z: u32 = 0x1f << 25;
    assert_eq!(z.mul_by_x_then_add(6, 7), 0x1f);
    assert_eq!(z, 7);
}

#[test]
fn xor_adds_slotwise() {
    let a: u32 = 0b00001_00011;
    let b: u32 = 0b00010_00001;
    let c = a.xor(b);
    assert_eq!(c.unpack(0), 0b00010);
    assert_eq!(c.unpack(1), 0b00011);
}

#[test]
fn packed_null_is_inert() {
    let mut n = PackedNull;
    assert_eq!(n.unpack(0), 0);
    assert_eq!(n.unpack(17), 0);
    assert_eq!(n.mul_by_x_then_add(0, 9), 0);
    assert_eq!(n.xor(PackedNull), PackedNull);
}

#[test]
fn sanity_check_passes_for_bech32() {
    assert!(bech32_config().sanity_check());
}

#[test]
fn sanity_check_passes_for_null() {
    assert!(null_config().sanity_check());
}

#[test]
fn sanity_check_rejects_one_flipped_bit() {
    let mut ck = bech32_config();
    ck.generator_sh[2] ^= 1 << 7;
    assert!(!ck.sanity_check());
}

#[test]
fn sanity_check_rejects_overlong_checksum() {
    let mut ck = bech32_config();
    ck.checksum_length = 7;
    assert!(!ck.sanity_check());
}

#[test]
fn sanity_check_rejects_zero_length_checksum_on_positive_width() {
    let mut ck = bech32_config();
    ck.checksum_length = 0;
    assert!(!ck.sanity_check());
}

#[test]
fn sequencer_yields_expected_elements() {
    // "bc": first the top three bits of each byte, then the separator,
    // then the bottom five bits of each byte.
    let hrp = Hrp::new(vec![b'b', b'c']).unwrap();
    let mut iter = HrpFe32Iter::new(&hrp);
    assert_eq!(iter.remaining(), 5);
    let expected: [u8; 5] = [b'b' >> 5, b'c' >> 5, 0, b'b' & 0x1f, b'c' & 0x1f];
    for (k, want) in expected.iter().enumerate() {
        let got = iter.next().expect("sequence ended early");
        assert_eq!(got.value(), *want);
        assert_eq!(iter.remaining(), 5 - k - 1);
    }
    assert!(iter.next().is_none());
    assert_eq!(iter.remaining(), 0);
}

#[test]
fn sequencer_empty_prefix_yields_only_separator() {
    let hrp = Hrp::new(vec![]).unwrap();
    let mut iter = HrpFe32Iter::new(&hrp);
    assert_eq!(iter.remaining(), 1);
    assert_eq!(iter.next().unwrap().value(), 0);
    assert!(iter.next().is_none());
}

#[test]
fn sequencer_is_restartable() {
    let hrp = Hrp::new(vec![b'b', b'c', b'1']).unwrap();
    let mut first = Vec::new();
    let mut iter = HrpFe32Iter::new(&hrp);
    while let Some(e) = iter.next() {
        first.push(e.value());
    }
    let mut second = Vec::new();
    let mut iter = HrpFe32Iter::new(&hrp);
    while let Some(e) = iter.next() {
        second.push(e.value());
    }
    assert_eq!(first.len(), 2 * 3 + 1);
    assert_eq!(first, second);
}

#[test]
fn engine_starts_at_one() {
    let engine = Engine::new(bech32_config());
    assert_eq!(*engine.residue(), 1u32);
}

#[test]
fn determinism_same_sequence_twice() {
    let data = [3u8, 3, 0, 2, 3, 0, 1, 2, 31, 16];
    let mut a = Engine::new(bech32_config());
    let mut b = Engine::new(bech32_config());
    for &v in data.iter() {
        a.input_fe(fe(v));
    }
    for &v in data.iter() {
        b.input_fe(fe(v));
    }
    assert_eq!(*a.residue(), *b.residue());
}

#[test]
fn fold_splitting_invariance() {
    let data = [7u8, 0, 31, 12, 4, 9, 1];
    let mut whole = Engine::new(bech32_config());
    for &v in data.iter() {
        whole.input_fe(fe(v));
    }
    let mut parts = Engine::new(bech32_config());
    for &v in data[..3].iter() {
        parts.input_fe(fe(v));
    }
    for &v in data[3..].iter() {
        parts.input_fe(fe(v));
    }
    assert_eq!(*whole.residue(), *parts.residue());
}

#[test]
fn null_checksum_never_changes_residue() {
    let mut engine = Engine::new(null_config());
    let start = *engine.residue();
    for v in [0u8, 5, 31, 16, 1] {
        engine.input_fe(fe(v));
    }
    engine.input_target_residue();
    assert_eq!(*engine.residue(), start);
}

#[test]
fn known_vector_checksum() {
    // The encoded identifier "a12uel5l": prefix "a", empty payload,
    // checksum symbols "2uel5l" in the bech32 character set.
    let hrp = Hrp::new(vec![b'a']).unwrap();
    let mut engine = Engine::new(bech32_config());
    engine.input_hrp(&hrp);
    engine.input_target_residue();
    let residue = *engine.residue();
    let syms: Vec<u8> = (0..6).map(|i| residue.unpack(5 - i)).collect();
    assert_eq!(syms, vec![10, 28, 25, 31, 20, 31]);
}

#[test]
fn round_trip_known_payload() {
    let ck = bech32_config();
    let hrp = Hrp::new(vec![b'b', b'c']).unwrap();
    let payload = [0u8, 1, 2];

    // Generate: prefix contribution, payload, then the target-residue
    // placeholder; the final residue packs the checksum symbols.
    let mut gen = Engine::new(ck);
    gen.input_hrp(&hrp);
    for &v in payload.iter() {
        gen.input_fe(fe(v));
    }
    gen.input_target_residue();
    let packed = *gen.residue();
    let syms: Vec<u8> = (0..6).map(|i| packed.unpack(5 - i)).collect();
    assert_eq!(syms, vec![20, 7, 22, 14, 5, 25]);

    // Verify: feeding prefix, payload and those checksum symbols leaves
    // exactly the target residue.
    let mut check = Engine::new(ck);
    check.input_hrp(&hrp);
    for &v in payload.iter() {
        check.input_fe(fe(v));
    }
    for &s in syms.iter() {
        check.input_fe(fe(s));
    }
    assert_eq!(*check.residue(), ck.target_residue);
}

#[test]
fn input_hrp_matches_manual_sequence() {
    let hrp = Hrp::new(vec![b'b', b'c']).unwrap();
    let mut by_hrp = Engine::new(bech32_config());
    by_hrp.input_hrp(&hrp);

    let mut by_hand = Engine::new(bech32_config());
    let mut iter = HrpFe32Iter::new(&hrp);
    while let Some(e) = iter.next() {
        by_hand.input_fe(e);
    }
    assert_eq!(*by_hrp.residue(), *by_hand.residue());
}

#[test]
fn hrp_exposes_its_bytes() {
    let hrp = Hrp::new(vec![b'x', b'y', b'z']).unwrap();
    assert_eq!(hrp.len(), 3);
    assert_eq!(hrp.byte_at(0), b'x');
    assert_eq!(hrp.byte_at(2), b'z');
}
