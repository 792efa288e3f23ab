//! The byte format of fault event lists: each record takes `RECORD_BYTES` bytes, integers
//! least significant byte first, enumerations and flags as one-byte numbers.

use crate::types::{AccessType, FaultRecord, FaultSyndrome, FaultType, SecurityState, StreamID, IOVA, PASID};
use vstd::prelude::*;

verus! {

/// Bytes taken by one record: stream (4), PASID (4), address (8), fault type, access type and
/// security state (1 each), syndrome register (4), fault level, write flag and valid flag (1
/// each), timestamp (8).
pub const RECORD_BYTES: usize = 34;

/// Number of a `FaultType` in the byte format.
pub open spec fn fault_type_code(v: FaultType) -> u8 {
    match v {
        FaultType::TranslationFault => 0,
        FaultType::PermissionFault => 1,
        FaultType::AccessFlagFault => 2,
        FaultType::AddressSizeFault => 3,
        FaultType::AlignmentFault => 4,
        FaultType::SecurityFault => 5,
        FaultType::ExternalAbort => 6,
        FaultType::TLBConflictAbort => 7,
        FaultType::BadStreamID => 8,
        FaultType::BadSTE => 9,
        FaultType::StreamDisabled => 10,
        FaultType::BadSubstreamId => 11,
        FaultType::BadCD => 12,
        FaultType::CDFetchFault => 13,
        FaultType::STEFetchFault => 14,
        FaultType::WalkEABT => 15,
        FaultType::OutputAddressRangeFault => 16,
        FaultType::UnsupportedAtomicUpdate => 17,
    }
}

/// The `FaultType` with a number, if any.
pub open spec fn fault_type_of(c: u8) -> Option<FaultType> {
    if c == 0 {
        Some(FaultType::TranslationFault)
    } else if c == 1 {
        Some(FaultType::PermissionFault)
    } else if c == 2 {
        Some(FaultType::AccessFlagFault)
    } else if c == 3 {
        Some(FaultType::AddressSizeFault)
    } else if c == 4 {
        Some(FaultType::AlignmentFault)
    } else if c == 5 {
        Some(FaultType::SecurityFault)
    } else if c == 6 {
        Some(FaultType::ExternalAbort)
    } else if c == 7 {
        Some(FaultType::TLBConflictAbort)
    } else if c == 8 {
        Some(FaultType::BadStreamID)
    } else if c == 9 {
        Some(FaultType::BadSTE)
    } else if c == 10 {
        Some(FaultType::StreamDisabled)
    } else if c == 11 {
        Some(FaultType::BadSubstreamId)
    } else if c == 12 {
        Some(FaultType::BadCD)
    } else if c == 13 {
        Some(FaultType::CDFetchFault)
    } else if c == 14 {
        Some(FaultType::STEFetchFault)
    } else if c == 15 {
        Some(FaultType::WalkEABT)
    } else if c == 16 {
        Some(FaultType::OutputAddressRangeFault)
    } else if c == 17 {
        Some(FaultType::UnsupportedAtomicUpdate)
    } else {
        None
    }
}

/// Number of a `FaultType` in the byte format.
fn fault_type_number(v: FaultType) -> (r: u8)
    ensures
        r == fault_type_code(v),
{
    match v {
        FaultType::TranslationFault => 0,
        FaultType::PermissionFault => 1,
        FaultType::AccessFlagFault => 2,
        FaultType::AddressSizeFault => 3,
        FaultType::AlignmentFault => 4,
        FaultType::SecurityFault => 5,
        FaultType::ExternalAbort => 6,
        FaultType::TLBConflictAbort => 7,
        FaultType::BadStreamID => 8,
        FaultType::BadSTE => 9,
        FaultType::StreamDisabled => 10,
        FaultType::BadSubstreamId => 11,
        FaultType::BadCD => 12,
        FaultType::CDFetchFault => 13,
        FaultType::STEFetchFault => 14,
        FaultType::WalkEABT => 15,
        FaultType::OutputAddressRangeFault => 16,
        FaultType::UnsupportedAtomicUpdate => 17,
    }
}

/// The `FaultType` with a number, if any.
fn fault_type_from(c: u8) -> (r: Option<FaultType>)
    ensures
        r == fault_type_of(c),
{
    match c {
        0 => Some(FaultType::TranslationFault),
        1 => Some(FaultType::PermissionFault),
        2 => Some(FaultType::AccessFlagFault),
        3 => Some(FaultType::AddressSizeFault),
        4 => Some(FaultType::AlignmentFault),
        5 => Some(FaultType::SecurityFault),
        6 => Some(FaultType::ExternalAbort),
        7 => Some(FaultType::TLBConflictAbort),
        8 => Some(FaultType::BadStreamID),
        9 => Some(FaultType::BadSTE),
        10 => Some(FaultType::StreamDisabled),
        11 => Some(FaultType::BadSubstreamId),
        12 => Some(FaultType::BadCD),
        13 => Some(FaultType::CDFetchFault),
        14 => Some(FaultType::STEFetchFault),
        15 => Some(FaultType::WalkEABT),
        16 => Some(FaultType::OutputAddressRangeFault),
        17 => Some(FaultType::UnsupportedAtomicUpdate),
        _ => None,
    }
}

proof fn lemma_fault_type_round_trip(v: FaultType)
    ensures
        fault_type_of(fault_type_code(v)) == Some(v),
{
}

/// Number of a `AccessType` in the byte format.
pub open spec fn access_type_code(v: AccessType) -> u8 {
    match v {
        AccessType::NoAccess => 0,
        AccessType::Read => 1,
        AccessType::Write => 2,
        AccessType::Execute => 3,
        AccessType::ReadWrite => 4,
        AccessType::ReadExecute => 5,
        AccessType::WriteExecute => 6,
        AccessType::ReadWriteExecute => 7,
        AccessType::ReadPrivileged => 8,
        AccessType::WritePrivileged => 9,
        AccessType::ReadWritePrivileged => 10,
        AccessType::ExecutePrivileged => 11,
    }
}

/// The `AccessType` with a number, if any.
pub open spec fn access_type_of(c: u8) -> Option<AccessType> {
    if c == 0 {
        Some(AccessType::NoAccess)
    } else if c == 1 {
        Some(AccessType::Read)
    } else if c == 2 {
        Some(AccessType::Write)
    } else if c == 3 {
        Some(AccessType::Execute)
    } else if c == 4 {
        Some(AccessType::ReadWrite)
    } else if c == 5 {
        Some(AccessType::ReadExecute)
    } else if c == 6 {
        Some(AccessType::WriteExecute)
    } else if c == 7 {
        Some(AccessType::ReadWriteExecute)
    } else if c == 8 {
        Some(AccessType::ReadPrivileged)
    } else if c == 9 {
        Some(AccessType::WritePrivileged)
    } else if c == 10 {
        Some(AccessType::ReadWritePrivileged)
    } else if c == 11 {
        Some(AccessType::ExecutePrivileged)
    } else {
        None
    }
}

/// Number of a `AccessType` in the byte format.
fn access_type_number(v: AccessType) -> (r: u8)
    ensures
        r == access_type_code(v),
{
    match v {
        AccessType::NoAccess => 0,
        AccessType::Read => 1,
        AccessType::Write => 2,
        AccessType::Execute => 3,
        AccessType::ReadWrite => 4,
        AccessType::ReadExecute => 5,
        AccessType::WriteExecute => 6,
        AccessType::ReadWriteExecute => 7,
        AccessType::ReadPrivileged => 8,
        AccessType::WritePrivileged => 9,
        AccessType::ReadWritePrivileged => 10,
        AccessType::ExecutePrivileged => 11,
    }
}

/// The `AccessType` with a number, if any.
fn access_type_from(c: u8) -> (r: Option<AccessType>)
    ensures
        r == access_type_of(c),
{
    match c {
        0 => Some(AccessType::NoAccess),
        1 => Some(AccessType::Read),
        2 => Some(AccessType::Write),
        3 => Some(AccessType::Execute),
        4 => Some(AccessType::ReadWrite),
        5 => Some(AccessType::ReadExecute),
        6 => Some(AccessType::WriteExecute),
        7 => Some(AccessType::ReadWriteExecute),
        8 => Some(AccessType::ReadPrivileged),
        9 => Some(AccessType::WritePrivileged),
        10 => Some(AccessType::ReadWritePrivileged),
        11 => Some(AccessType::ExecutePrivileged),
        _ => None,
    }
}

proof fn lemma_access_type_round_trip(v: AccessType)
    ensures
        access_type_of(access_type_code(v)) == Some(v),
{
}

/// Number of a `SecurityState` in the byte format.
pub open spec fn security_state_code(v: SecurityState) -> u8 {
    match v {
        SecurityState::NonSecure => 0,
        SecurityState::Secure => 1,
        SecurityState::Realm => 2,
    }
}

/// The `SecurityState` with a number, if any.
pub open spec fn security_state_of(c: u8) -> Option<SecurityState> {
    if c == 0 {
        Some(SecurityState::NonSecure)
    } else if c == 1 {
        Some(SecurityState::Secure)
    } else if c == 2 {
        Some(SecurityState::Realm)
    } else {
        None
    }
}

/// Number of a `SecurityState` in the byte format.
fn security_state_number(v: SecurityState) -> (r: u8)
    ensures
        r == security_state_code(v),
{
    match v {
        SecurityState::NonSecure => 0,
        SecurityState::Secure => 1,
        SecurityState::Realm => 2,
    }
}

/// The `SecurityState` with a number, if any.
fn security_state_from(c: u8) -> (r: Option<SecurityState>)
    ensures
        r == security_state_of(c),
{
    match c {
        0 => Some(SecurityState::NonSecure),
        1 => Some(SecurityState::Secure),
        2 => Some(SecurityState::Realm),
        _ => None,
    }
}

proof fn lemma_security_state_round_trip(v: SecurityState)
    ensures
        security_state_of(security_state_code(v)) == Some(v),
{
}

/// A 32-bit number as four bytes, least significant first.
pub open spec fn le_bytes_u32(x: u32) -> Seq<u8> {
    seq![(x & 0xff) as u8, ((x >> 8u32) & 0xff) as u8, ((x >> 16u32) & 0xff) as u8, ((x >> 24u32) & 0xff) as u8]
}

/// The 32-bit number that four bytes spell, least significant first.
pub open spec fn u32_from_le(b: Seq<u8>) -> u32 {
    (b[0] as u32) | ((b[1] as u32) << 8u32) | ((b[2] as u32) << 16u32) | ((b[3] as u32) << 24u32)
}

/// A 64-bit number as eight bytes, least significant first.
pub open spec fn le_bytes_u64(x: u64) -> Seq<u8> {
    seq![
        (x & 0xff) as u8,
        ((x >> 8u64) & 0xff) as u8,
        ((x >> 16u64) & 0xff) as u8,
        ((x >> 24u64) & 0xff) as u8,
        ((x >> 32u64) & 0xff) as u8,
        ((x >> 40u64) & 0xff) as u8,
        ((x >> 48u64) & 0xff) as u8,
        ((x >> 56u64) & 0xff) as u8
    ]
}

/// The 64-bit number that eight bytes spell, least significant first.
pub open spec fn u64_from_le(b: Seq<u8>) -> u64 {
    (b[0] as u64) | ((b[1] as u64) << 8u64) | ((b[2] as u64) << 16u64) | ((b[3] as u64) << 24u64) | ((b[4] as u64)
        << 32u64) | ((b[5] as u64) << 40u64) | ((b[6] as u64) << 48u64) | ((b[7] as u64) << 56u64)
}

/// A flag as one byte: 1 for true, 0 for false.
pub open spec fn flag_code(b: bool) -> u8 {
    if b {
        1
    } else {
        0
    }
}

/// The flag a byte stands for: 0 false, 1 true, anything else none.
pub open spec fn flag_of(c: u8) -> Option<bool> {
    if c == 0 {
        Some(false)
    } else if c == 1 {
        Some(true)
    } else {
        None
    }
}

/// The bytes of one record.
pub open spec fn encode_record(f: FaultRecord) -> Seq<u8> {
    le_bytes_u32(f.stream_id@) + le_bytes_u32(f.pasid@) + le_bytes_u64(f.address@) + seq![
        fault_type_code(f.fault_type),
        access_type_code(f.access_type),
        security_state_code(f.security_state)
    ] + le_bytes_u32(f.syndrome.syndrome_register) + seq![
        f.syndrome.fault_level,
        flag_code(f.syndrome.write_not_read),
        flag_code(f.syndrome.valid_syndrome)
    ] + le_bytes_u64(f.timestamp)
}

/// The record that `RECORD_BYTES` bytes hold, if their enumeration and flag bytes are valid.
pub open spec fn decode_record(b: Seq<u8>) -> Option<FaultRecord> {
    match (fault_type_of(b[16]), access_type_of(b[17]), security_state_of(b[18]), flag_of(b[24]), flag_of(b[25])) {
        (Some(fault_type), Some(access_type), Some(security_state), Some(write_not_read), Some(valid_syndrome)) => Some(
            FaultRecord {
                stream_id: StreamID(u32_from_le(b.subrange(0, 4))),
                pasid: PASID(u32_from_le(b.subrange(4, 8))),
                address: IOVA(u64_from_le(b.subrange(8, 16))),
                fault_type,
                access_type,
                security_state,
                syndrome: FaultSyndrome {
                    syndrome_register: u32_from_le(b.subrange(19, 23)),
                    fault_level: b[23],
                    write_not_read,
                    valid_syndrome,
                },
                timestamp: u64_from_le(b.subrange(26, 34)),
            },
        ),
        _ => None,
    }
}

/// The bytes of a list of records: the records' bytes one after another.
pub open spec fn encode_events(s: Seq<FaultRecord>) -> Seq<u8>
    decreases s.len(),
{
    if s.len() == 0 {
        Seq::empty()
    } else {
        encode_record(s[0]) + encode_events(s.drop_first())
    }
}

/// The list of records that bytes hold: none when their length is not a multiple of
/// `RECORD_BYTES` or some record is not valid.
pub open spec fn decode_events(b: Seq<u8>) -> Option<Seq<FaultRecord>>
    decreases b.len(),
{
    if b.len() == 0 {
        Some(Seq::empty())
    } else if b.len() < RECORD_BYTES {
        None
    } else {
        match decode_record(b.take(RECORD_BYTES as int)) {
            None => None,
            Some(f) => match decode_events(b.skip(RECORD_BYTES as int)) {
                None => None,
                Some(rest) => Some(seq![f] + rest),
            },
        }
    }
}

proof fn lemma_u32_round_trip(x: u32)
    ensures
        u32_from_le(le_bytes_u32(x)) == x,
{
    let b0 = (x & 0xff) as u8;
    let b1 = ((x >> 8u32) & 0xff) as u8;
    let b2 = ((x >> 16u32) & 0xff) as u8;
    let b3 = ((x >> 24u32) & 0xff) as u8;
    assert((b0 as u32) | ((b1 as u32) << 8u32) | ((b2 as u32) << 16u32) | ((b3 as u32) << 24u32) == x) by (bit_vector)
        requires
            b0 == (x & 0xff) as u8,
            b1 == ((x >> 8u32) & 0xff) as u8,
            b2 == ((x >> 16u32) & 0xff) as u8,
            b3 == ((x >> 24u32) & 0xff) as u8,
    ;
}

proof fn lemma_u64_round_trip(x: u64)
    ensures
        u64_from_le(le_bytes_u64(x)) == x,
{
    let b0 = (x & 0xff) as u8;
    let b1 = ((x >> 8u64) & 0xff) as u8;
    let b2 = ((x >> 16u64) & 0xff) as u8;
    let b3 = ((x >> 24u64) & 0xff) as u8;
    let b4 = ((x >> 32u64) & 0xff) as u8;
    let b5 = ((x >> 40u64) & 0xff) as u8;
    let b6 = ((x >> 48u64) & 0xff) as u8;
    let b7 = ((x >> 56u64) & 0xff) as u8;
    assert((b0 as u64) | ((b1 as u64) << 8u64) | ((b2 as u64) << 16u64) | ((b3 as u64) << 24u64) | ((b4 as u64)
        << 32u64) | ((b5 as u64) << 40u64) | ((b6 as u64) << 48u64) | ((b7 as u64) << 56u64) == x) by (bit_vector)
        requires
            b0 == (x & 0xff) as u8,
            b1 == ((x >> 8u64) & 0xff) as u8,
            b2 == ((x >> 16u64) & 0xff) as u8,
            b3 == ((x >> 24u64) & 0xff) as u8,
            b4 == ((x >> 32u64) & 0xff) as u8,
            b5 == ((x >> 40u64) & 0xff) as u8,
            b6 == ((x >> 48u64) & 0xff) as u8,
            b7 == ((x >> 56u64) & 0xff) as u8,
    ;
}

/// A record's bytes decode to the record.
pub proof fn lemma_record_round_trip(f: FaultRecord)
    ensures
        encode_record(f).len() == RECORD_BYTES,
        decode_record(encode_record(f)) == Some(f),
{
    let b = encode_record(f);
    lemma_u32_round_trip(f.stream_id@);
    lemma_u32_round_trip(f.pasid@);
    lemma_u64_round_trip(f.address@);
    lemma_u32_round_trip(f.syndrome.syndrome_register);
    lemma_u64_round_trip(f.timestamp);
    lemma_fault_type_round_trip(f.fault_type);
    lemma_access_type_round_trip(f.access_type);
    lemma_security_state_round_trip(f.security_state);
    assert(b.subrange(0, 4) =~= le_bytes_u32(f.stream_id@));
    assert(b.subrange(4, 8) =~= le_bytes_u32(f.pasid@));
    assert(b.subrange(8, 16) =~= le_bytes_u64(f.address@));
    assert(b.subrange(19, 23) =~= le_bytes_u32(f.syndrome.syndrome_register));
    assert(b.subrange(26, 34) =~= le_bytes_u64(f.timestamp));
    assert(b[16] == fault_type_code(f.fault_type));
    assert(b[17] == access_type_code(f.access_type));
    assert(b[18] == security_state_code(f.security_state));
    assert(b[23] == f.syndrome.fault_level);
    assert(b[24] == flag_code(f.syndrome.write_not_read));
    assert(b[25] == flag_code(f.syndrome.valid_syndrome));
}

/// Decoding the bytes of a list of records gives the list back.
pub proof fn lemma_events_round_trip(s: Seq<FaultRecord>)
    ensures
        encode_events(s).len() == s.len() * RECORD_BYTES,
        decode_events(encode_events(s)) == Some(s),
    decreases s.len(),
{
    if s.len() > 0 {
        lemma_events_round_trip(s.drop_first());
        lemma_record_round_trip(s[0]);
        let b = encode_events(s);
        assert(b.take(RECORD_BYTES as int) =~= encode_record(s[0]));
        assert(b.skip(RECORD_BYTES as int) =~= encode_events(s.drop_first()));
        assert(seq![s[0]] + s.drop_first() =~= s);
    } else {
        assert(decode_events(Seq::<u8>::empty()) == Some(Seq::<FaultRecord>::empty()));
    }
}

/// Appends the four bytes of `x`.
fn push_u32(out: &mut Vec<u8>, x: u32)
    ensures
        final(out)@ == old(out)@ + le_bytes_u32(x),
{
    out.push((x & 0xff) as u8);
    out.push(((x >> 8u32) & 0xff) as u8);
    out.push(((x >> 16u32) & 0xff) as u8);
    out.push(((x >> 24u32) & 0xff) as u8);
    assert(out@ =~= old(out)@ + le_bytes_u32(x));
}

/// Appends the eight bytes of `x`.
fn push_u64(out: &mut Vec<u8>, x: u64)
    ensures
        final(out)@ == old(out)@ + le_bytes_u64(x),
{
    out.push((x & 0xff) as u8);
    out.push(((x >> 8u64) & 0xff) as u8);
    out.push(((x >> 16u64) & 0xff) as u8);
    out.push(((x >> 24u64) & 0xff) as u8);
    out.push(((x >> 32u64) & 0xff) as u8);
    out.push(((x >> 40u64) & 0xff) as u8);
    out.push(((x >> 48u64) & 0xff) as u8);
    out.push(((x >> 56u64) & 0xff) as u8);
    assert(out@ =~= old(out)@ + le_bytes_u64(x));
}

/// One for true, zero for false.
fn flag_number(b: bool) -> (r: u8)
    ensures
        r == flag_code(b),
{
    if b {
        1
    } else {
        0
    }
}

/// The flag a byte stands for.
fn flag_from(c: u8) -> (r: Option<bool>)
    ensures
        r == flag_of(c),
{
    if c == 0 {
        Some(false)
    } else if c == 1 {
        Some(true)
    } else {
        None
    }
}

/// Appends the bytes of `f`.
fn push_record(out: &mut Vec<u8>, f: &FaultRecord)
    ensures
        final(out)@ == old(out)@ + encode_record(*f),
{
    push_u32(out, f.stream_id.as_u32());
    push_u32(out, f.pasid.as_u32());
    push_u64(out, f.address.as_u64());
    out.push(fault_type_number(f.fault_type));
    out.push(access_type_number(f.access_type));
    out.push(security_state_number(f.security_state));
    push_u32(out, f.syndrome.syndrome_register);
    out.push(f.syndrome.fault_level);
    out.push(flag_number(f.syndrome.write_not_read));
    out.push(flag_number(f.syndrome.valid_syndrome));
    push_u64(out, f.timestamp);
    assert(out@ =~= old(out)@ + encode_record(*f));
}

/// The bytes of a list of records.
pub fn encode(events: &[FaultRecord]) -> (r: Vec<u8>)
    ensures
        r@ == encode_events(events@),
{
    let mut out: Vec<u8> = Vec::new();
    let mut i: usize = 0;
    assert(events@.subrange(0, events@.len() as int) =~= events@);
    assert(out@ + encode_events(events@) =~= encode_events(events@));
    while i < events.len()
        invariant
            i <= events@.len(),
            out@ + encode_events(events@.subrange(i as int, events@.len() as int)) == encode_events(events@),
        decreases events@.len() - i,
    {
        let ghost rest = events@.subrange(i as int, events@.len() as int);
        assert(rest.drop_first() =~= events@.subrange(i + 1, events@.len() as int));
        push_record(&mut out, &events[i]);
        assert(out@ + encode_events(rest.drop_first()) =~= encode_events(events@));
        i = i + 1;
    }
    assert(events@.subrange(i as int, events@.len() as int) =~= Seq::<FaultRecord>::empty());
    assert(out@ + Seq::<u8>::empty() =~= out@);
    out
}

/// The 32-bit number at `at`, least significant byte first.
fn read_u32(b: &[u8], at: usize) -> (r: u32)
    requires
        at + 4 <= b@.len(),
    ensures
        r == u32_from_le(b@.subrange(at as int, at + 4)),
{
    (b[at] as u32) | ((b[at + 1] as u32) << 8u32) | ((b[at + 2] as u32) << 16u32) | ((b[at + 3] as u32) << 24u32)
}

/// The 64-bit number at `at`, least significant byte first.
fn read_u64(b: &[u8], at: usize) -> (r: u64)
    requires
        at + 8 <= b@.len(),
    ensures
        r == u64_from_le(b@.subrange(at as int, at + 8)),
{
    (b[at] as u64) | ((b[at + 1] as u64) << 8u64) | ((b[at + 2] as u64) << 16u64) | ((b[at + 3] as u64) << 24u64)
        | ((b[at + 4] as u64) << 32u64) | ((b[at + 5] as u64) << 40u64) | ((b[at + 6] as u64) << 48u64)
        | ((b[at + 7] as u64) << 56u64)
}

/// The record at `at`, if valid.
fn read_record(b: &[u8], at: usize) -> (r: Option<FaultRecord>)
    requires
        at + RECORD_BYTES <= b@.len(),
    ensures
        r == decode_record(b@.subrange(at as int, at + RECORD_BYTES)),
{
    let n = b.len();
    assert(at + 34 <= n);
    let ghost w = b@.subrange(at as int, at + RECORD_BYTES);
    assert(b@.subrange(at as int, at + 4) =~= w.subrange(0, 4));
    assert(b@.subrange(at + 4, at + 8) =~= w.subrange(4, 8));
    assert(b@.subrange(at + 8, at + 16) =~= w.subrange(8, 16));
    assert(b@.subrange(at + 19, at + 23) =~= w.subrange(19, 23));
    assert(b@.subrange(at + 26, at + 34) =~= w.subrange(26, 34));
    let fault_type = fault_type_from(b[at + 16]);
    let access_type = access_type_from(b[at + 17]);
    let security_state = security_state_from(b[at + 18]);
    let write_not_read = flag_from(b[at + 24]);
    let valid_syndrome = flag_from(b[at + 25]);
    match (fault_type, access_type, security_state, write_not_read, valid_syndrome) {
        (Some(fault_type), Some(access_type), Some(security_state), Some(write_not_read), Some(valid_syndrome)) => {
            Some(
                FaultRecord {
                    stream_id: StreamID(read_u32(b, at)),
                    pasid: PASID(read_u32(b, at + 4)),
                    address: IOVA(read_u64(b, at + 8)),
                    fault_type,
                    access_type,
                    security_state,
                    syndrome: FaultSyndrome {
                        syndrome_register: read_u32(b, at + 19),
                        fault_level: b[at + 23],
                        write_not_read,
                        valid_syndrome,
                    },
                    timestamp: read_u64(b, at + 26),
                },
            )
        },
        _ => None,
    }
}

/// The list of records that `data` holds, if it holds a valid list.
pub fn decode(data: &[u8]) -> (r: Option<Vec<FaultRecord>>)
    ensures
        match decode_events(data@) {
            Some(s) => r is Some && r->Some_0@ == s,
            None => r is None,
        },
{
    let mut out: Vec<FaultRecord> = Vec::new();
    let mut pos: usize = 0;
    assert(data@.skip(0) =~= data@);
    proof {
        match decode_events(data@) {
            Some(all) => {
                assert(out@ + all =~= all);
            },
            None => {},
        }
    }
    while pos < data.len()
        invariant
            pos <= data@.len(),
            decode_events(data@) == match decode_events(data@.skip(pos as int)) {
                Some(rest) => Some(out@ + rest),
                None => None::<Seq<FaultRecord>>,
            },
        decreases data@.len() - pos,
    {
        let ghost rest = data@.skip(pos as int);
        if data.len() - pos < RECORD_BYTES {
            return None;
        }
        assert(rest.take(RECORD_BYTES as int) =~= data@.subrange(pos as int, pos + RECORD_BYTES));
        assert(rest.skip(RECORD_BYTES as int) =~= data@.skip(pos + RECORD_BYTES));
        match read_record(data, pos) {
            None => {
                return None;
            },
            Some(f) => {
                proof {
                    match decode_events(data@.skip(pos + RECORD_BYTES)) {
                        Some(tail) => {
                            assert(out@ + (seq![f] + tail) =~= out@.push(f) + tail);
                        },
                        None => {},
                    }
                }
                out.push(f);
                pos = pos + RECORD_BYTES;
            },
        }
    }
    assert(data@.skip(pos as int) =~= Seq::<u8>::empty());
    assert(out@ + Seq::<FaultRecord>::empty() =~= out@);
    Some(out)
}

} // verus!
