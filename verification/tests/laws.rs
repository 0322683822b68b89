use don_sim::checksum::{adler32, Adler32, DataWalk};
use don_sim::leader_production_setup_runtime::{
    decode_income, decode_planning_rate, decode_resource_cap, encode_income,
    encode_planning_rate, encode_resource_cap, CanonicalPlanningRates, PlanningRateCodecError,
};
use don_sim::leader_tribe_bonus_runtime::{
    table_extension_bytes, table_from_extension_bytes, CanonicalConquestRacialPowers,
    ConquestPowerCodecError,
};
use don_sim::leaders::{Leader, RareMask, UnitLeaderStatState};

#[test]
fn rare_mask_reads_back_each_write_and_keeps_the_others() {
    let mut m = RareMask::from_bits(&[3, 30, 43]);
    assert!(m.get(3) && m.get(30) && m.get(43));
    m.set(30, false);
    assert!(!m.get(30));
    assert!(m.get(3) && m.get(43));
    m.set(0, true);
    assert!(m.get(0));
    assert!(!m.get(1));
    let u = m.union(&RareMask::from_bits(&[1]));
    assert!(u.get(0) && u.get(1) && u.get(3) && u.get(43));
    assert!(!u.get(30));
    assert!(!RareMask::empty().get(7));
}

#[test]
fn tribe_bonus_word_reads_back_each_write() {
    let mut s = UnitLeaderStatState::default();
    s.set_tribe_bonus(23, true);
    s.set_tribe_bonus(0, true);
    assert!(s.has_tribe_bonus(23) && s.has_tribe_bonus(0));
    assert!(!s.has_tribe_bonus(22));
    s.set_tribe_bonus(23, false);
    assert!(!s.has_tribe_bonus(23));
    assert!(s.has_tribe_bonus(0));
    let before = s;
    s.set_tribe_bonus(40, true);
    assert_eq!(s, before, "a bonus past the word changes nothing");
    assert!(!s.has_tribe_bonus(40));
}

#[test]
fn conquest_powers_round_trip_through_mask_payload_and_save_bytes() {
    let mut p = CanonicalConquestRacialPowers::from_payload([0, 0, 0]);
    assert!(p.set(17, true));
    assert!(p.set(2, true));
    assert!(!p.set(24, true));
    assert_eq!(p.has(17), Some(true));
    assert_eq!(p.has(16), Some(false));
    assert_eq!(p.has(24), None);
    let mask = p.decoded_mask();
    assert_eq!(mask, (1 << 17) | (1 << 2));
    assert_eq!(CanonicalConquestRacialPowers::from_decoded_mask(mask), Ok(p));
    assert_eq!(
        CanonicalConquestRacialPowers::from_decoded_mask(0x0100_0000),
        Err(ConquestPowerCodecError::BitsOutsideRetailRange(0x0100_0000))
    );
    let bytes = p.save_extension_bytes();
    assert_eq!(
        CanonicalConquestRacialPowers::from_save_extension_bytes(&bytes),
        Ok(p)
    );

    let mut rows = [CanonicalConquestRacialPowers::from_payload([0, 0, 0]); 8];
    rows[5] = p;
    rows[7] = CanonicalConquestRacialPowers::from_payload([0xff, 1, 2]);
    let table = table_extension_bytes(&rows);
    assert_eq!(table_from_extension_bytes(&table), Ok(rows));
    assert_eq!(
        table_from_extension_bytes(&table[..23]),
        Err(ConquestPowerCodecError::Length {
            expected: 24,
            actual: 23
        })
    );
}

#[test]
fn planning_rates_and_xor_codecs_round_trip() {
    for v in [0, 1, -1, 30, i32::MIN, i32::MAX] {
        assert_eq!(decode_planning_rate(encode_planning_rate(v)), v);
        assert_eq!(decode_income(encode_income(v)), v);
        assert_eq!(decode_resource_cap(encode_resource_cap(v)), v);
    }
    // The stored word is the value xored with the key, so a zero decodes to the key.
    assert_ne!(encode_planning_rate(0), 0);

    let rates = CanonicalPlanningRates {
        values: [1, -2, 3, i32::MAX, i32::MIN, 0],
    };
    let bytes = rates.save_extension_bytes();
    assert_eq!(bytes[0..4], 1i32.to_le_bytes());
    assert_eq!(
        CanonicalPlanningRates::from_save_extension_bytes(&bytes),
        Ok(rates)
    );
    assert_eq!(
        CanonicalPlanningRates::from_save_extension_bytes(&bytes[..20]),
        Err(PlanningRateCodecError::Length {
            expected: 24,
            actual: 20
        })
    );
    let encrypted = rates.to_retail_encrypted();
    assert_eq!(CanonicalPlanningRates::from_retail_encrypted(encrypted), rates);
}

#[test]
fn streamed_adler_matches_the_one_shot_checksum() {
    let data: Vec<u8> = (0..1000u32).map(|i| (i * 7 + 3) as u8).collect();
    let mut s = Adler32::new();
    s.walk(&data[..333]);
    s.walk(&data[333..]);
    assert_eq!(s.finish(), adler32(1, &data));
    assert_eq!(adler32(1, b"Wikipedia"), 0x11E6_0398);
    assert_eq!(Adler32::new().finish(), 1);
}

#[test]
fn a_fresh_leader_is_in_no_game() {
    let l = Leader::new(6);
    assert_eq!(l.slot, 6);
    assert_eq!(l.flags, 0);
    assert_eq!(l.diplo_toward(2), 0);
    assert_eq!(l.unit_stats, UnitLeaderStatState::default());
}
