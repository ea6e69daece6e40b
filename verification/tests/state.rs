use async_prims::collections::state::{StackState, MASK_LOCK, MAX_LENGTH};

fn state(capacity: u32, length: u32, locked: bool) -> StackState {
    StackState { capacity, length, locked }
}

#[test]
fn constants_have_the_documented_values() {
    assert_eq!(MAX_LENGTH, 2_147_483_647);
    assert_eq!(MASK_LOCK, 1u64 << 63);
}

#[test]
fn default_state_is_all_zero() {
    assert_eq!(StackState::default(), state(0, 0, false));
    assert_eq!(StackState::default().encode(), 0);
}

#[test]
fn encode_places_each_field_in_its_bits() {
    assert_eq!(state(0, 1, false).encode(), 1);
    assert_eq!(state(1, 0, false).encode(), 1u64 << 32);
    assert_eq!(state(0, 0, true).encode(), 1u64 << 63);
    assert_eq!(state(3, 2, true).encode(), 0x8000_0003_0000_0002);
    assert_eq!(state(8, 5, false).encode(), 0x0000_0008_0000_0005);
}

#[test]
fn encode_at_the_bounds() {
    let max = MAX_LENGTH as u32;
    assert_eq!(state(max, max, false).encode(), 0x7fff_ffff_7fff_ffff);
    assert_eq!(state(max, max, true).encode(), 0xffff_ffff_7fff_ffff);
}

#[test]
fn decode_reads_each_field_from_its_bits() {
    assert_eq!(StackState::decode(0), state(0, 0, false));
    assert_eq!(StackState::decode(0x0000_0005_0000_0004), state(5, 4, false));
    assert_eq!(StackState::decode(0x8000_0005_0000_0004), state(5, 4, true));
    assert_eq!(StackState::decode(0xffff_ffff_7fff_ffff), state(0x7fff_ffff, 0x7fff_ffff, true));
}

#[test]
fn decode_inverts_encode() {
    let samples = [
        state(0, 0, false),
        state(0, 0, true),
        state(1, 0, false),
        state(1, 1, true),
        state(1024, 1000, false),
        state(0x7fff_ffff, 0, true),
        state(0x7fff_ffff, 0x7fff_ffff, false),
    ];
    for sample in samples {
        assert_eq!(StackState::decode(sample.encode()), sample);
    }
}

#[test]
fn encode_inverts_decode() {
    let words = [0u64, 1, 0x7fff_ffff, 1 << 32, 1 << 63, 0x8000_0001_0000_0001, 0x1234_5678_0abc_def0];
    for word in words {
        assert_eq!(StackState::decode(word).encode(), word);
    }
}

#[test]
fn checked_encode_refuses_sizes_beyond_the_bound() {
    assert_eq!(state(7, 3, false).checked_encode(), Some(0x0000_0007_0000_0003));
    assert_eq!(state(0x7fff_ffff, 0x7fff_ffff, true).checked_encode(), Some(0xffff_ffff_7fff_ffff));
    assert_eq!(state(0x8000_0000, 0, false).checked_encode(), None);
    assert_eq!(state(0, 0x8000_0000, false).checked_encode(), None);
    assert_eq!(state(u32::MAX, u32::MAX, true).checked_encode(), None);
}

#[test]
fn checked_decode_refuses_a_length_beyond_the_bound() {
    assert_eq!(StackState::checked_decode(0x0000_0002_0000_0001), Some(state(2, 1, false)));
    assert_eq!(StackState::checked_decode(0x0000_0000_7fff_ffff), Some(state(0, 0x7fff_ffff, false)));
    assert_eq!(StackState::checked_decode(0x0000_0000_8000_0000), None);
    assert_eq!(StackState::checked_decode(0x8000_0001_ffff_ffff), None);
    assert_eq!(StackState::checked_decode(u64::MAX), None);
}
