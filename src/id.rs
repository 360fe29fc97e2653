//! The 64-bit identifier layout: packing the fields into a `u64` and reading them back.
//!
//! From the most significant bit down: one reserved bit (always 0), 41 bits of
//! timestamp (seconds since the Unix epoch), 5 bits of machine id, 5 bits of
//! datacenter id and 12 bits of sequence. Each field is cut to its width by its
//! mask, so a machine or datacenter id of 32 or more wraps rather than spilling into
//! a neighbouring field.
use vstd::prelude::*;
use crate::clock::Elapsed;

verus! {

pub const TIMESTAMP_SHIFT: u64 = 22;

pub const MACHINE_ID_SHIFT: u64 = 17;

pub const DATACENTER_ID_SHIFT: u64 = 12;

pub const SIGN_SHIFT: u64 = 63;

/// 41 ones.
pub const TIMESTAMP_BITMASK: u64 = 0x1ff_ffff_ffff;

/// 5 ones.
pub const MACHINE_ID_BITMASK: u64 = 0x1f;

/// 5 ones.
pub const DATACENTER_ID_BITMASK: u64 = 0x1f;

/// 12 ones.
pub const SEQUENCE_BITMASK: u64 = 0xfff;

/// The identifier that holds the given fields, each cut to its width.
pub open spec fn pack(timestamp: u64, machine_id: u64, datacenter_id: u64, sequence: u64) -> u64 {
    ((timestamp & TIMESTAMP_BITMASK) << TIMESTAMP_SHIFT) | ((machine_id & MACHINE_ID_BITMASK)
        << MACHINE_ID_SHIFT) | ((datacenter_id & DATACENTER_ID_BITMASK) << DATACENTER_ID_SHIFT) | (
    sequence & SEQUENCE_BITMASK)
}

/// The reserved top bit of an identifier.
pub open spec fn sign_of(id: u64) -> u64 {
    (id >> SIGN_SHIFT) & 1
}

/// The timestamp field of an identifier.
pub open spec fn timestamp_of(id: u64) -> u64 {
    (id >> TIMESTAMP_SHIFT) & TIMESTAMP_BITMASK
}

/// The machine id field of an identifier.
pub open spec fn machine_id_of(id: u64) -> u64 {
    (id >> MACHINE_ID_SHIFT) & MACHINE_ID_BITMASK
}

/// The datacenter id field of an identifier.
pub open spec fn datacenter_id_of(id: u64) -> u64 {
    (id >> DATACENTER_ID_SHIFT) & DATACENTER_ID_BITMASK
}

/// The sequence field of an identifier.
pub open spec fn sequence_of(id: u64) -> u64 {
    id & SEQUENCE_BITMASK
}

/// Packs the fields into an identifier; each is cut to its width first.
pub fn encode(timestamp: u64, machine_id: u64, datacenter_id: u64, sequence: u64) -> (r: u64)
    ensures
        r == pack(timestamp, machine_id, datacenter_id, sequence),
{
    ((timestamp & TIMESTAMP_BITMASK) << TIMESTAMP_SHIFT) | ((machine_id & MACHINE_ID_BITMASK)
        << MACHINE_ID_SHIFT) | ((datacenter_id & DATACENTER_ID_BITMASK) << DATACENTER_ID_SHIFT) | (
    sequence & SEQUENCE_BITMASK)
}

/// Reading back a packed identifier gives each field modulo its width, and the
/// reserved bit is 0. In particular every field that is in range, such as a machine or
/// datacenter id of 31, comes back unchanged, and an id of 32 or more comes back
/// reduced modulo 32.
pub proof fn lemma_pack_fields(timestamp: u64, machine_id: u64, datacenter_id: u64, sequence: u64)
    ensures
        sign_of(pack(timestamp, machine_id, datacenter_id, sequence)) == 0,
        timestamp_of(pack(timestamp, machine_id, datacenter_id, sequence)) == timestamp % 0x200_0000_0000,
        machine_id_of(pack(timestamp, machine_id, datacenter_id, sequence)) == machine_id % 32,
        datacenter_id_of(pack(timestamp, machine_id, datacenter_id, sequence)) == datacenter_id
            % 32,
        sequence_of(pack(timestamp, machine_id, datacenter_id, sequence)) == sequence % 4096,
{
    assert(sign_of(pack(timestamp, machine_id, datacenter_id, sequence)) == 0) by (bit_vector);
    assert(timestamp_of(pack(timestamp, machine_id, datacenter_id, sequence)) == timestamp
        % 0x200_0000_0000) by (bit_vector);
    assert(machine_id_of(pack(timestamp, machine_id, datacenter_id, sequence)) == machine_id % 32)
        by (bit_vector);
    assert(datacenter_id_of(pack(timestamp, machine_id, datacenter_id, sequence)) == datacenter_id
        % 32) by (bit_vector);
    assert(sequence_of(pack(timestamp, machine_id, datacenter_id, sequence)) == sequence % 4096)
        by (bit_vector);
}

/// An identifier split into its fields.
#[derive(Debug, Clone, Copy)]
pub struct Id {
    pub sign: u8,
    pub timestamp: Elapsed,
    pub machine_id: u8,
    pub datacenter_id: u8,
    pub sequence: u16,
}

impl Id {
    /// The fields that `value` holds.
    pub open spec fn decoded(value: u64) -> Id {
        Id {
            sign: sign_of(value) as u8,
            timestamp: Elapsed { secs: timestamp_of(value), nanos: 0 },
            machine_id: machine_id_of(value) as u8,
            datacenter_id: datacenter_id_of(value) as u8,
            sequence: sequence_of(value) as u16,
        }
    }

    /// The identifier whose fields are all zero.
    pub fn new() -> (r: Id)
        ensures
            r == Id::decoded(0),
    {
        assert(sign_of(0) == 0 && timestamp_of(0) == 0 && machine_id_of(0) == 0 && datacenter_id_of(0)
            == 0 && sequence_of(0) == 0) by (bit_vector);
        Id {
            sign: 0,
            timestamp: Elapsed { secs: 0, nanos: 0 },
            machine_id: 0,
            datacenter_id: 0,
            sequence: 0,
        }
    }
}

impl Default for Id {
    fn default() -> (r: Id)
        ensures
            r == Id::decoded(0),
    {
        Id::new()
    }
}

impl From<u64> for Id {
    fn from(value: u64) -> (r: Id) {
        Id {
            sign: ((value >> SIGN_SHIFT) & 1) as u8,
            timestamp: Elapsed { secs: (value >> TIMESTAMP_SHIFT) & TIMESTAMP_BITMASK, nanos: 0 },
            machine_id: ((value >> MACHINE_ID_SHIFT) & MACHINE_ID_BITMASK) as u8,
            datacenter_id: ((value >> DATACENTER_ID_SHIFT) & DATACENTER_ID_BITMASK) as u8,
            sequence: (value & SEQUENCE_BITMASK) as u16,
        }
    }
}

impl vstd::std_specs::convert::FromSpecImpl<u64> for Id {
    open spec fn obeys_from_spec() -> bool {
        true
    }

    open spec fn from_spec(v: u64) -> Id {
        Id::decoded(v)
    }
}

/// Splitting an identifier packed from in-range fields gives those fields back.
pub proof fn lemma_decode_encode(timestamp: u64, machine_id: u64, datacenter_id: u64, sequence: u64)
    requires
        timestamp <= TIMESTAMP_BITMASK,
        machine_id <= MACHINE_ID_BITMASK,
        datacenter_id <= DATACENTER_ID_BITMASK,
        sequence <= SEQUENCE_BITMASK,
    ensures
        Id::decoded(pack(timestamp, machine_id, datacenter_id, sequence)) == (Id {
            sign: 0,
            timestamp: Elapsed { secs: timestamp, nanos: 0 },
            machine_id: machine_id as u8,
            datacenter_id: datacenter_id as u8,
            sequence: sequence as u16,
        }),
{
    lemma_pack_fields(timestamp, machine_id, datacenter_id, sequence);
}

} // verus!
