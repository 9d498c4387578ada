//! Identifiers and the texts they are made of.

use herdr_regions::ids::{IdCounter, PaneId, RegionId, TerminalId};
use herdr_regions::text::{decimal, hex, same_text};

#[test]
fn numbers_are_written_in_lower_case_hexadecimal() {
    assert_eq!(hex(0), "0");
    assert_eq!(hex(15), "f");
    assert_eq!(hex(16), "10");
    assert_eq!(hex(0xdead_beef), "deadbeef");
    assert_eq!(hex(u128::MAX), format!("{:x}", u128::MAX));
}

#[test]
fn signed_numbers_are_written_in_base_ten() {
    assert_eq!(decimal(0), "0");
    assert_eq!(decimal(-1), "-1");
    assert_eq!(decimal(130), "130");
    assert_eq!(decimal(i32::MIN), "-2147483648");
    assert_eq!(decimal(i32::MAX), "2147483647");
}

#[test]
fn texts_are_compared_by_their_characters() {
    assert!(same_text("", ""));
    assert!(same_text("pl\u{e4}ne", "pl\u{e4}ne"));
    assert!(!same_text("plane", "planes"));
}

#[test]
fn a_region_id_joins_the_reading_and_the_number() {
    assert_eq!(RegionId::at(Some(0xabc), 0x2f).as_str(), "region_abc2f");
    assert_eq!(RegionId::at(None, 1).to_string(), "region_01");
    assert_eq!(RegionId::from_text("region_01".into()), RegionId::at(None, 1));
}

#[test]
fn a_fresh_region_id_carries_the_clock_and_the_counter() {
    let before = std::time::UNIX_EPOCH.elapsed().unwrap().as_micros();
    let mut ids = IdCounter::new();
    let first = RegionId::allocate(&mut ids);
    let second = RegionId::allocate(&mut ids);
    let after = std::time::UNIX_EPOCH.elapsed().unwrap().as_micros();

    let reading = |id: &RegionId, number: &str| {
        let digits = id.as_str().strip_prefix("region_").unwrap();
        let micros = digits.strip_suffix(number).unwrap();
        u128::from_str_radix(micros, 16).unwrap()
    };
    assert!(before <= reading(&first, "1") && reading(&first, "1") <= after);
    assert!(before <= reading(&second, "2") && reading(&second, "2") <= after);
    assert_ne!(first, second);
}

#[test]
fn ids_of_one_moment_differ() {
    for a in 0..40_u64 {
        for b in 0..40_u64 {
            assert_eq!(RegionId::at(Some(77), a) == RegionId::at(Some(77), b), a == b);
        }
    }
}

#[test]
fn readings_of_unlike_length_may_give_one_id() {
    assert_eq!(RegionId::at(Some(0x1), 0x11), RegionId::at(Some(0x11), 0x1));
}

#[test]
fn a_counter_starts_at_one_and_counts_up() {
    let mut ids = IdCounter::default();

    assert_eq!(PaneId::allocate(&mut ids), PaneId(1));
    assert_eq!(TerminalId::allocate(&mut ids), TerminalId(2));
    assert_eq!(ids.take(), 3);
}
