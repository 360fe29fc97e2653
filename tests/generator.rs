use snowflake_ids::clock::{Clock, Elapsed, MockClock, SystemClock};
use snowflake_ids::generator::IdGenerator;
use snowflake_ids::id::{
    encode, Id, DATACENTER_ID_BITMASK, DATACENTER_ID_SHIFT, MACHINE_ID_BITMASK,
    MACHINE_ID_SHIFT, SEQUENCE_BITMASK, TIMESTAMP_BITMASK, TIMESTAMP_SHIFT,
};

fn to_parts(id: u64) -> (u64, u64, u64, u64) {
    let timestamp = (id >> TIMESTAMP_SHIFT) & TIMESTAMP_BITMASK;
    let machine_id = (id >> MACHINE_ID_SHIFT) & MACHINE_ID_BITMASK;
    let datacenter_id = (id >> DATACENTER_ID_SHIFT) & DATACENTER_ID_BITMASK;
    let sequence = id & SEQUENCE_BITMASK;
    (timestamp, machine_id, datacenter_id, sequence)
}

#[test]
fn test_id_generator_new() {
    let generator = IdGenerator::new(1, 2);
    assert_eq!(generator.machine_id, 1);
    assert_eq!(generator.datacenter_id, 2);
}

#[test]
fn test_generate_id() {
    let mut generator = IdGenerator::new(1, 2);
    let id = generator.generate_id().unwrap();

    let (timestamp, machine_id, datacenter_id, _) = to_parts(id);

    assert!(timestamp > 0);
    assert_eq!(machine_id, 1);
    assert_eq!(datacenter_id, 2);
}

#[test]
fn test_id_from_u64() {
    let mut generator = IdGenerator::new(1, 2);
    let raw_id = generator.generate_id().unwrap();
    let id = Id::from(raw_id);

    let (timestamp, machine_id, datacenter_id, _) = to_parts(raw_id);

    assert_eq!(id.timestamp.as_secs(), timestamp);
    assert_eq!(id.machine_id as u64, machine_id);
    assert_eq!(id.datacenter_id as u64, datacenter_id);
}

#[test]
fn test_sequence_increment_and_reset() {
    let mock_clock = MockClock::new(Elapsed::from_secs(0));

    let mut generator = IdGenerator::with_clock(1, 2, mock_clock);

    let first_id = generator.generate_id().unwrap();
    let (_, _, _, first_sequence) = to_parts(first_id);

    let second_id = generator.generate_id().unwrap();
    let (_, _, _, second_sequence) = to_parts(second_id);
    assert_eq!(second_sequence, first_sequence + 1);

    generator.clock.advance(Elapsed::from_secs(3));

    let third_id = generator.generate_id().unwrap();
    let (_, _, _, third_sequence) = to_parts(third_id);
    assert_eq!(third_sequence, 0);
}

#[test]
fn sequence_counts_up_within_one_second() {
    let mut generator = IdGenerator::with_clock(3, 4, MockClock::new(Elapsed::from_secs(100)));
    for k in 0..10u64 {
        let (timestamp, _, _, sequence) = to_parts(generator.generate_id().unwrap());
        assert_eq!(timestamp, 100);
        assert_eq!(sequence, k);
    }
}

#[test]
fn gap_of_more_than_one_second_resets_sequence() {
    let mut generator = IdGenerator::with_clock(1, 2, MockClock::new(Elapsed::from_secs(0)));
    assert_eq!(to_parts(generator.generate_id().unwrap()).3, 0);
    assert_eq!(to_parts(generator.generate_id().unwrap()).3, 1);
    generator.clock.advance(Elapsed::from_secs(3));
    let (timestamp, _, _, sequence) = to_parts(generator.generate_id().unwrap());
    assert_eq!(timestamp, 3);
    assert_eq!(sequence, 0);
    assert_eq!(to_parts(generator.generate_id().unwrap()).3, 1);
}

#[test]
fn window_runs_through_the_second_after_a_reset() {
    // The reset at t=10 opens a window that t=11 still belongs to; t=12 starts the next.
    let mut generator = IdGenerator::with_clock(1, 2, MockClock::new(Elapsed::from_secs(10)));
    assert_eq!(to_parts(generator.generate_id().unwrap()).3, 0);
    generator.clock.advance(Elapsed::from_secs(1));
    assert_eq!(to_parts(generator.generate_id().unwrap()).3, 1);
    assert_eq!(to_parts(generator.generate_id().unwrap()).3, 2);
    generator.clock.advance(Elapsed::from_secs(1));
    assert_eq!(to_parts(generator.generate_id().unwrap()).3, 0);
}

#[test]
fn sequence_field_wraps_after_4096_ids_in_one_window() {
    let mut generator = IdGenerator::with_clock(1, 2, MockClock::new(Elapsed::from_secs(5)));
    let first = generator.generate_id().unwrap();
    for _ in 1..4096 {
        generator.generate_id();
    }
    assert!(!generator.counter.window_overrun());
    let wrapped = generator.generate_id().unwrap();
    assert!(generator.counter.window_overrun());
    assert_eq!(to_parts(wrapped).3, 0);
    assert_eq!(wrapped, first);
    assert_eq!(generator.counter.sequence_value, 4097);
}

#[test]
fn generate_id_at_packs_fields() {
    let mut generator = IdGenerator::with_clock(1, 2, MockClock::new(Elapsed::from_secs(0)));
    let id = generator.generate_id_at(Elapsed::from_secs(7));
    assert_eq!(id, (7 << 22) | (1 << 17) | (2 << 12));
    assert_eq!(generator.counter.sequence_value, 1);
    assert_eq!(generator.counter.last_refresh, Elapsed::from_secs(7));
}

#[test]
fn identity_is_kept_in_every_id() {
    let mut generator = IdGenerator::with_clock(17, 9, MockClock::new(Elapsed::from_secs(50)));
    for _ in 0..5 {
        generator.clock.advance(Elapsed::from_secs(2));
        let (_, machine_id, datacenter_id, _) = to_parts(generator.generate_id().unwrap());
        assert_eq!(machine_id, 17);
        assert_eq!(datacenter_id, 9);
    }
}

#[test]
fn identity_of_31_round_trips_and_32_wraps() {
    let mut max = IdGenerator::with_clock(31, 31, MockClock::new(Elapsed::from_secs(1)));
    let id = Id::from(max.generate_id().unwrap());
    assert_eq!(id.machine_id, 31);
    assert_eq!(id.datacenter_id, 31);

    let mut over = IdGenerator::with_clock(32, 33, MockClock::new(Elapsed::from_secs(1)));
    let id = Id::from(over.generate_id().unwrap());
    assert_eq!(id.machine_id, 0);
    assert_eq!(id.datacenter_id, 1);
}

#[test]
fn encode_then_decode_round_trips() {
    let timestamp = 1_700_000_000u64;
    for sequence in [0u64, 1, 4095] {
        let id = Id::from(encode(timestamp, 1, 2, sequence));
        assert_eq!(id.sign, 0);
        assert_eq!(id.timestamp.as_secs(), timestamp);
        assert_eq!(id.machine_id, 1);
        assert_eq!(id.datacenter_id, 2);
        assert_eq!(id.sequence as u64, sequence);
    }
    assert_eq!(encode(1, 1, 2, 3), 4333571);
    let top = Id::from(encode(TIMESTAMP_BITMASK, 31, 31, 4095));
    assert_eq!(top.timestamp.as_secs(), TIMESTAMP_BITMASK);
    assert_eq!(top.sign, 0);
}

#[test]
fn encode_cuts_fields_to_width() {
    let id = Id::from(encode(TIMESTAMP_BITMASK + 2, 1, 2, 4096 + 5));
    assert_eq!(id.timestamp.as_secs(), 1);
    assert_eq!(id.sequence, 5);
    assert_eq!(id.machine_id, 1);
    assert_eq!(id.datacenter_id, 2);
}

#[test]
fn decode_reads_reserved_bit() {
    let id = Id::from(1u64 << 63);
    assert_eq!(id.sign, 1);
    assert_eq!(id.timestamp.as_secs(), 0);
    let zero = Id::new();
    let default = Id::default();
    assert_eq!(zero.sequence, 0);
    assert_eq!(default.machine_id, 0);
}

#[test]
fn mock_clock_advances_with_carry() {
    let mut clock = MockClock::new(Elapsed { secs: 1, nanos: 600_000_000 });
    clock.advance(Elapsed { secs: 2, nanos: 500_000_000 });
    let now = clock.now().unwrap();
    assert_eq!(now.as_secs(), 4);
    assert_eq!(now.subsec_nanos(), 100_000_000);
}

#[test]
fn elapsed_checked_add_overflows_to_none() {
    let a = Elapsed { secs: u64::MAX, nanos: 999_999_999 };
    assert_eq!(a.checked_add(&Elapsed { secs: 0, nanos: 1 }), None);
    assert_eq!(
        Elapsed::from_secs(3).checked_add(&Elapsed::from_secs(4)),
        Some(Elapsed::from_secs(7))
    );
}

#[test]
fn system_clock_reads_after_epoch() {
    let now = SystemClock::new().now().unwrap();
    assert!(now.as_secs() > 1_600_000_000);
    assert!(now.subsec_nanos() < 1_000_000_000);
}

#[test]
fn mock_clock_reads_its_virtual_time() {
    let mut clock = MockClock::new(Elapsed::from_secs(0));
    assert_eq!(clock.now(), Some(Elapsed::from_secs(0)));
    assert_eq!(clock.now(), clock.now());
    clock.advance(Elapsed::from_secs(3));
    assert_eq!(clock.now(), Some(Elapsed::from_secs(3)));
}

#[test]
fn generator_reads_its_clock_once_per_call() {
    let mut generator = IdGenerator::with_clock(1, 2, MockClock::new(Elapsed::from_secs(9)));
    let (timestamp, _, _, _) = to_parts(generator.generate_id().unwrap());
    assert_eq!(timestamp, 9);
    assert_eq!(generator.counter.last_refresh, Elapsed::from_secs(9));
    assert_eq!(generator.counter.sequence_value, 1);
}
