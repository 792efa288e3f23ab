//! Identifiers, addresses, permissions and fault records shared by every part of the SMMU model.

use vstd::prelude::*;

verus! {

/// Size of a translation granule in bytes (4 KiB).
pub const PAGE_SIZE: u64 = 4096;

/// Largest Process Address Space ID (PASIDs are 20 bits wide).
pub const PASID_MAX: u32 = 0xF_FFFF;

/// Why a raw value could not become an address or identifier.
#[derive(Debug, Clone, Copy, PartialEq, Eq, Structural)]
pub enum ValidationError {
    /// The value had to be page aligned and was not.
    NotPageAligned,
    /// The value exceeds `PASID_MAX`.
    PasidOutOfRange,
}

/// Input/output virtual address presented by a device.
#[derive(Debug, Clone, Copy, PartialEq, Eq, Hash, Structural)]
pub struct IOVA(pub u64);

impl View for IOVA {
    type V = u64;

    open spec fn view(&self) -> u64 {
        self.0
    }
}

impl IOVA {
    /// Every 64-bit value is a valid IOVA.
    pub fn new(value: u64) -> (r: Result<IOVA, ValidationError>)
        ensures
            r == Ok::<IOVA, ValidationError>(IOVA(value)),
    {
        Ok(IOVA(value))
    }

    /// Builds an IOVA without a `Result`.
    pub fn const_new(value: u64) -> (r: IOVA)
        ensures
            r@ == value,
    {
        IOVA(value)
    }

    /// Builds an IOVA that must be page aligned.
    pub fn new_page_aligned(value: u64) -> (r: Result<IOVA, ValidationError>)
        ensures
            value % PAGE_SIZE == 0 ==> r == Ok::<IOVA, ValidationError>(IOVA(value)),
            value % PAGE_SIZE != 0 ==> r == Err::<IOVA, ValidationError>(ValidationError::NotPageAligned),
    {
        if value % PAGE_SIZE == 0 {
            Ok(IOVA(value))
        } else {
            Err(ValidationError::NotPageAligned)
        }
    }

    /// The raw address.
    pub fn as_u64(&self) -> (r: u64)
        ensures
            r == self@,
    {
        self.0
    }

    /// Whether the low 12 bits are zero.
    pub fn is_page_aligned(&self) -> (r: bool)
        ensures
            r == (self@ % PAGE_SIZE == 0),
    {
        self.0 % PAGE_SIZE == 0
    }
}

/// Physical address produced by translation.
#[derive(Debug, Clone, Copy, PartialEq, Eq, Hash, Structural)]
pub struct PA(pub u64);

impl View for PA {
    type V = u64;

    open spec fn view(&self) -> u64 {
        self.0
    }
}

impl PA {
    /// Every 64-bit value is a valid PA.
    pub fn new(value: u64) -> (r: Result<PA, ValidationError>)
        ensures
            r == Ok::<PA, ValidationError>(PA(value)),
    {
        Ok(PA(value))
    }

    /// Builds a PA without a `Result`.
    pub fn const_new(value: u64) -> (r: PA)
        ensures
            r@ == value,
    {
        PA(value)
    }

    /// Builds a PA that must be page aligned.
    pub fn new_page_aligned(value: u64) -> (r: Result<PA, ValidationError>)
        ensures
            value % PAGE_SIZE == 0 ==> r == Ok::<PA, ValidationError>(PA(value)),
            value % PAGE_SIZE != 0 ==> r == Err::<PA, ValidationError>(ValidationError::NotPageAligned),
    {
        if value % PAGE_SIZE == 0 {
            Ok(PA(value))
        } else {
            Err(ValidationError::NotPageAligned)
        }
    }

    /// The raw address.
    pub fn as_u64(&self) -> (r: u64)
        ensures
            r == self@,
    {
        self.0
    }

    /// Whether the low 12 bits are zero.
    pub fn is_page_aligned(&self) -> (r: bool)
        ensures
            r == (self@ % PAGE_SIZE == 0),
    {
        self.0 % PAGE_SIZE == 0
    }
}

/// Identifier of the device stream that issued a transaction.
#[derive(Debug, Clone, Copy, PartialEq, Eq, Hash, Structural)]
pub struct StreamID(pub u32);

impl View for StreamID {
    type V = u32;

    open spec fn view(&self) -> u32 {
        self.0
    }
}

impl StreamID {
    /// Every 32-bit value is a valid StreamID.
    pub fn new(value: u32) -> (r: Result<StreamID, ValidationError>)
        ensures
            r == Ok::<StreamID, ValidationError>(StreamID(value)),
    {
        Ok(StreamID(value))
    }

    /// The raw identifier.
    pub fn as_u32(&self) -> (r: u32)
        ensures
            r == self@,
    {
        self.0
    }
}

/// Process Address Space ID (20 bits).
#[derive(Debug, Clone, Copy, PartialEq, Eq, Hash, Structural)]
pub struct PASID(pub u32);

impl View for PASID {
    type V = u32;

    open spec fn view(&self) -> u32 {
        self.0
    }
}

impl PASID {
    /// Accepts exactly the values up to `PASID_MAX`.
    pub fn new(value: u32) -> (r: Result<PASID, ValidationError>)
        ensures
            value <= PASID_MAX ==> r == Ok::<PASID, ValidationError>(PASID(value)),
            value > PASID_MAX ==> r == Err::<PASID, ValidationError>(ValidationError::PasidOutOfRange),
    {
        if value <= PASID_MAX {
            Ok(PASID(value))
        } else {
            Err(ValidationError::PasidOutOfRange)
        }
    }

    /// The raw identifier.
    pub fn as_u32(&self) -> (r: u32)
        ensures
            r == self@,
    {
        self.0
    }
}

/// Security state of a transaction or mapping.
#[derive(Debug, Clone, Copy, PartialEq, Eq, Hash, Structural)]
pub enum SecurityState {
    /// Non-secure world.
    NonSecure,
    /// Secure world.
    Secure,
    /// Realm world.
    Realm,
}

/// Kind of memory access requested by a transaction.
#[derive(Debug, Clone, Copy, PartialEq, Eq, Hash, Structural)]
pub enum AccessType {
    /// No access.
    NoAccess,
    /// Data read.
    Read,
    /// Data write.
    Write,
    /// Instruction fetch.
    Execute,
    /// Read and write.
    ReadWrite,
    /// Read and instruction fetch.
    ReadExecute,
    /// Write and instruction fetch.
    WriteExecute,
    /// Read, write and instruction fetch.
    ReadWriteExecute,
    /// Privileged read.
    ReadPrivileged,
    /// Privileged write.
    WritePrivileged,
    /// Privileged read and write.
    ReadWritePrivileged,
    /// Privileged instruction fetch.
    ExecutePrivileged,
}

/// Read/write/execute permissions of a page.
#[derive(Debug, Clone, Copy, PartialEq, Eq, Hash, Structural)]
pub struct PagePermissions {
    pub read: bool,
    pub write: bool,
    pub execute: bool,
}

/// Whether `p` grants every right that `access` asks for; the privilege of an access does not
/// change which rights it needs.
pub open spec fn permits(p: PagePermissions, access: AccessType) -> bool {
    match access {
        AccessType::NoAccess => true,
        AccessType::Read | AccessType::ReadPrivileged => p.read,
        AccessType::Write | AccessType::WritePrivileged => p.write,
        AccessType::Execute | AccessType::ExecutePrivileged => p.execute,
        AccessType::ReadWrite | AccessType::ReadWritePrivileged => p.read && p.write,
        AccessType::ReadExecute => p.read && p.execute,
        AccessType::WriteExecute => p.write && p.execute,
        AccessType::ReadWriteExecute => p.read && p.write && p.execute,
    }
}

impl PagePermissions {
    /// Permissions with the three rights given.
    pub fn new(read: bool, write: bool, execute: bool) -> (r: PagePermissions)
        ensures
            r == (PagePermissions { read, write, execute }),
    {
        PagePermissions { read, write, execute }
    }

    /// No rights.
    pub fn none() -> (r: PagePermissions)
        ensures
            r == (PagePermissions { read: false, write: false, execute: false }),
    {
        PagePermissions { read: false, write: false, execute: false }
    }

    /// Read only.
    pub fn read_only() -> (r: PagePermissions)
        ensures
            r == (PagePermissions { read: true, write: false, execute: false }),
    {
        PagePermissions { read: true, write: false, execute: false }
    }

    /// Write only.
    pub fn write_only() -> (r: PagePermissions)
        ensures
            r == (PagePermissions { read: false, write: true, execute: false }),
    {
        PagePermissions { read: false, write: true, execute: false }
    }

    /// Read and write.
    pub fn read_write() -> (r: PagePermissions)
        ensures
            r == (PagePermissions { read: true, write: true, execute: false }),
    {
        PagePermissions { read: true, write: true, execute: false }
    }

    /// Read and execute.
    pub fn read_execute() -> (r: PagePermissions)
        ensures
            r == (PagePermissions { read: true, write: false, execute: true }),
    {
        PagePermissions { read: true, write: false, execute: true }
    }

    /// Read, write and execute.
    pub fn all() -> (r: PagePermissions)
        ensures
            r == (PagePermissions { read: true, write: true, execute: true }),
    {
        PagePermissions { read: true, write: true, execute: true }
    }

    /// Whether reads are allowed.
    pub fn read(&self) -> (r: bool)
        ensures
            r == self.read,
    {
        self.read
    }

    /// Whether writes are allowed.
    pub fn write(&self) -> (r: bool)
        ensures
            r == self.write,
    {
        self.write
    }

    /// Whether instruction fetches are allowed.
    pub fn execute(&self) -> (r: bool)
        ensures
            r == self.execute,
    {
        self.execute
    }

    /// Whether these permissions allow `access`.
    pub fn allows(&self, access: AccessType) -> (r: bool)
        ensures
            r == permits(*self, access),
    {
        match access {
            AccessType::NoAccess => true,
            AccessType::Read | AccessType::ReadPrivileged => self.read,
            AccessType::Write | AccessType::WritePrivileged => self.write,
            AccessType::Execute | AccessType::ExecutePrivileged => self.execute,
            AccessType::ReadWrite | AccessType::ReadWritePrivileged => self.read && self.write,
            AccessType::ReadExecute => self.read && self.execute,
            AccessType::WriteExecute => self.write && self.execute,
            AccessType::ReadWriteExecute => self.read && self.write && self.execute,
        }
    }
}


/// One entry of a page table: where a page goes, with which rights, in which security state.
#[derive(Debug, Clone, Copy, PartialEq, Eq, Structural)]
pub struct PageEntry {
    pub physical_address: PA,
    pub permissions: PagePermissions,
    pub security_state: SecurityState,
    pub valid: bool,
}

impl PageEntry {
    /// A valid non-secure entry.
    pub fn new(physical_address: PA, permissions: PagePermissions) -> (r: PageEntry)
        ensures
            r == (PageEntry {
                physical_address,
                permissions,
                security_state: SecurityState::NonSecure,
                valid: true,
            }),
    {
        PageEntry { physical_address, permissions, security_state: SecurityState::NonSecure, valid: true }
    }

    /// A valid entry in the given security state.
    pub fn with_security_state(
        physical_address: PA,
        permissions: PagePermissions,
        security_state: SecurityState,
    ) -> (r: PageEntry)
        ensures
            r == (PageEntry { physical_address, permissions, security_state, valid: true }),
    {
        PageEntry { physical_address, permissions, security_state, valid: true }
    }

    /// The same entry with other permissions.
    pub fn with_permissions(self, permissions: PagePermissions) -> (r: PageEntry)
        ensures
            r == (PageEntry { permissions, ..self }),
    {
        PageEntry { permissions, ..self }
    }

    /// Physical address of the page.
    pub fn physical_address(&self) -> (r: PA)
        ensures
            r == self.physical_address,
    {
        self.physical_address
    }

    /// Permissions of the page.
    pub fn permissions(&self) -> (r: PagePermissions)
        ensures
            r == self.permissions,
    {
        self.permissions
    }

    /// Security state of the page.
    pub fn security_state(&self) -> (r: SecurityState)
        ensures
            r == self.security_state,
    {
        self.security_state
    }

    /// Whether the entry may be used for translation.
    pub fn is_valid(&self) -> (r: bool)
        ensures
            r == self.valid,
    {
        self.valid
    }
}

/// Outcome of a successful translation.
#[derive(Debug, Clone, Copy, PartialEq, Eq, Structural)]
pub struct TranslationData {
    pub physical_address: PA,
    pub permissions: PagePermissions,
    pub security_state: SecurityState,
}

impl TranslationData {
    /// Bundles a translated address with the rights and security state of its page.
    pub fn new(
        physical_address: PA,
        permissions: PagePermissions,
        security_state: SecurityState,
    ) -> (r: TranslationData)
        ensures
            r == (TranslationData { physical_address, permissions, security_state }),
    {
        TranslationData { physical_address, permissions, security_state }
    }

    /// The translated address.
    pub fn physical_address(&self) -> (r: PA)
        ensures
            r == self.physical_address,
    {
        self.physical_address
    }

    /// Rights of the page that was used.
    pub fn permissions(&self) -> (r: PagePermissions)
        ensures
            r == self.permissions,
    {
        self.permissions
    }

    /// Security state of the page that was used.
    pub fn security_state(&self) -> (r: SecurityState)
        ensures
            r == self.security_state,
    {
        self.security_state
    }
}

/// Why a translation failed.
#[derive(Debug, Clone, Copy, PartialEq, Eq, Structural)]
pub enum TranslationError {
    /// No valid mapping covers the address.
    PageNotMapped,
    /// The page does not grant the requested access.
    PermissionViolation { access: AccessType },
    /// The page belongs to another security state.
    SecurityViolation,
    /// The address or the output address exceeds the supported address size.
    AddressSizeError,
    /// The stream is not configured (or the SMMU is shutting down).
    StreamNotConfigured,
    /// The StreamID lies outside the stream table.
    InvalidStreamID,
    /// The SMMU is disabled and GBPA aborts bypassing transactions.
    GbpaAbort,
    /// The stream is configured to abort every transaction.
    AbortMode,
    /// The stream is disabled.
    StreamDisabled,
    /// The input address exceeds the stage 1 input range.
    VaRangeExceeded,
    /// The context descriptor is invalid.
    BadCD,
    /// The transaction is stalled under the stall tag until software resumes or terminates it.
    Stalled { stag: u16 },
    /// No stall tag is free, so the transaction could not be stalled.
    StallQueueFull,
}

/// Result of a translation.
pub type TranslationResult = Result<TranslationData, TranslationError>;

/// Translation stage at which a fault was raised.
#[derive(Debug, Clone, Copy, PartialEq, Eq, Structural)]
pub enum TranslationStage {
    /// Stage 1 (IOVA to IPA or PA).
    Stage1,
    /// Stage 2 (IPA to PA).
    Stage2,
    /// Both stages.
    Both,
}

/// How faults of a stream are handled.
#[derive(Debug, Clone, Copy, PartialEq, Eq, Structural)]
pub enum FaultMode {
    /// Report and abort the transaction.
    Terminate,
    /// Hold the transaction until software resumes it.
    Stall,
}

/// Fault classes of the SMMU architecture.
#[derive(Debug, Clone, Copy, PartialEq, Eq, Hash, Structural)]
pub enum FaultType {
    TranslationFault,
    PermissionFault,
    AccessFlagFault,
    AddressSizeFault,
    AlignmentFault,
    SecurityFault,
    ExternalAbort,
    TLBConflictAbort,
    BadStreamID,
    BadSTE,
    StreamDisabled,
    BadSubstreamId,
    BadCD,
    CDFetchFault,
    STEFetchFault,
    WalkEABT,
    OutputAddressRangeFault,
    UnsupportedAtomicUpdate,
}

/// Syndrome information attached to a fault.
#[derive(Debug, Clone, Copy, PartialEq, Eq, Structural)]
pub struct FaultSyndrome {
    pub syndrome_register: u32,
    pub fault_level: u8,
    pub write_not_read: bool,
    pub valid_syndrome: bool,
}

impl FaultSyndrome {
    /// A builder that starts from the all-zero syndrome.
    pub fn builder() -> (r: FaultSyndromeBuilder)
        ensures
            r.syndrome == FaultSyndrome::empty(),
    {
        FaultSyndromeBuilder::new()
    }

    /// The all-zero syndrome.
    pub open spec fn empty() -> FaultSyndrome {
        FaultSyndrome { syndrome_register: 0, fault_level: 0, write_not_read: false, valid_syndrome: false }
    }

    /// Raw syndrome register value.
    pub fn syndrome_register(&self) -> (r: u32)
        ensures
            r == self.syndrome_register,
    {
        self.syndrome_register
    }

    /// Translation table level of the fault.
    pub fn fault_level(&self) -> (r: u8)
        ensures
            r == self.fault_level,
    {
        self.fault_level
    }

    /// Whether the faulting access was a write.
    pub fn write_not_read(&self) -> (r: bool)
        ensures
            r == self.write_not_read,
    {
        self.write_not_read
    }

    /// Whether the syndrome holds valid information.
    pub fn valid_syndrome(&self) -> (r: bool)
        ensures
            r == self.valid_syndrome,
    {
        self.valid_syndrome
    }
}

/// Builds a `FaultSyndrome` field by field.
#[derive(Debug, Clone, Copy, PartialEq, Eq, Structural)]
pub struct FaultSyndromeBuilder {
    pub syndrome: FaultSyndrome,
}

impl FaultSyndromeBuilder {
    /// Starts from the all-zero syndrome.
    pub fn new() -> (r: FaultSyndromeBuilder)
        ensures
            r.syndrome == FaultSyndrome::empty(),
    {
        FaultSyndromeBuilder {
            syndrome: FaultSyndrome {
                syndrome_register: 0,
                fault_level: 0,
                write_not_read: false,
                valid_syndrome: false,
            },
        }
    }

    /// Sets the raw register value.
    pub fn syndrome_register(self, v: u32) -> (r: FaultSyndromeBuilder)
        ensures
            r.syndrome == (FaultSyndrome { syndrome_register: v, ..self.syndrome }),
    {
        FaultSyndromeBuilder { syndrome: FaultSyndrome { syndrome_register: v, ..self.syndrome } }
    }

    /// Sets the table level.
    pub fn fault_level(self, v: u8) -> (r: FaultSyndromeBuilder)
        ensures
            r.syndrome == (FaultSyndrome { fault_level: v, ..self.syndrome }),
    {
        FaultSyndromeBuilder { syndrome: FaultSyndrome { fault_level: v, ..self.syndrome } }
    }

    /// Sets the write-not-read flag.
    pub fn write_not_read(self, v: bool) -> (r: FaultSyndromeBuilder)
        ensures
            r.syndrome == (FaultSyndrome { write_not_read: v, ..self.syndrome }),
    {
        FaultSyndromeBuilder { syndrome: FaultSyndrome { write_not_read: v, ..self.syndrome } }
    }

    /// Sets the valid flag.
    pub fn valid_syndrome(self, v: bool) -> (r: FaultSyndromeBuilder)
        ensures
            r.syndrome == (FaultSyndrome { valid_syndrome: v, ..self.syndrome }),
    {
        FaultSyndromeBuilder { syndrome: FaultSyndrome { valid_syndrome: v, ..self.syndrome } }
    }

    /// The syndrome built so far.
    pub fn build(self) -> (r: FaultSyndrome)
        ensures
            r == self.syndrome,
    {
        self.syndrome
    }
}

/// Everything known about one fault.
#[derive(Debug, Clone, Copy, PartialEq, Eq, Structural)]
pub struct FaultRecord {
    pub stream_id: StreamID,
    pub pasid: PASID,
    pub address: IOVA,
    pub fault_type: FaultType,
    pub access_type: AccessType,
    pub security_state: SecurityState,
    pub syndrome: FaultSyndrome,
    pub timestamp: u64,
}

impl FaultRecord {
    /// A builder that starts from `FaultRecord::empty()`.
    pub fn builder() -> (r: FaultRecordBuilder)
        ensures
            r.record == FaultRecord::empty(),
    {
        FaultRecordBuilder::new()
    }

    /// The record a builder starts from: stream 0, PASID 0, address 0, a read translation fault
    /// in the non-secure state, an all-zero syndrome and timestamp 0.
    pub open spec fn empty() -> FaultRecord {
        FaultRecord {
            stream_id: StreamID(0),
            pasid: PASID(0),
            address: IOVA(0),
            fault_type: FaultType::TranslationFault,
            access_type: AccessType::Read,
            security_state: SecurityState::NonSecure,
            syndrome: FaultSyndrome::empty(),
            timestamp: 0,
        }
    }

    /// Stream that faulted.
    pub fn stream_id(&self) -> (r: StreamID)
        ensures
            r == self.stream_id,
    {
        self.stream_id
    }

    /// PASID of the faulting access.
    pub fn pasid(&self) -> (r: PASID)
        ensures
            r == self.pasid,
    {
        self.pasid
    }

    /// Faulting address.
    pub fn address(&self) -> (r: IOVA)
        ensures
            r == self.address,
    {
        self.address
    }

    /// Fault class.
    pub fn fault_type(&self) -> (r: FaultType)
        ensures
            r == self.fault_type,
    {
        self.fault_type
    }

    /// Access that faulted.
    pub fn access_type(&self) -> (r: AccessType)
        ensures
            r == self.access_type,
    {
        self.access_type
    }

    /// Security state of the access.
    pub fn security_state(&self) -> (r: SecurityState)
        ensures
            r == self.security_state,
    {
        self.security_state
    }

    /// Syndrome of the fault.
    pub fn syndrome(&self) -> (r: &FaultSyndrome)
        ensures
            *r == self.syndrome,
    {
        &self.syndrome
    }

    /// When the fault was recorded (0 when not yet stamped).
    pub fn timestamp(&self) -> (r: u64)
        ensures
            r == self.timestamp,
    {
        self.timestamp
    }
}

/// Builds a `FaultRecord` field by field.
#[derive(Debug, Clone, Copy, PartialEq, Eq, Structural)]
pub struct FaultRecordBuilder {
    pub record: FaultRecord,
}

impl FaultRecordBuilder {
    /// Starts from `FaultRecord::empty()`.
    pub fn new() -> (r: FaultRecordBuilder)
        ensures
            r.record == FaultRecord::empty(),
    {
        FaultRecordBuilder {
            record: FaultRecord {
                stream_id: StreamID(0),
                pasid: PASID(0),
                address: IOVA(0),
                fault_type: FaultType::TranslationFault,
                access_type: AccessType::Read,
                security_state: SecurityState::NonSecure,
                syndrome: FaultSyndrome {
                    syndrome_register: 0,
                    fault_level: 0,
                    write_not_read: false,
                    valid_syndrome: false,
                },
                timestamp: 0,
            },
        }
    }

    /// Sets the stream.
    pub fn stream_id(self, v: StreamID) -> (r: FaultRecordBuilder)
        ensures
            r.record == (FaultRecord { stream_id: v, ..self.record }),
    {
        FaultRecordBuilder { record: FaultRecord { stream_id: v, ..self.record } }
    }

    /// Sets the PASID.
    pub fn pasid(self, v: PASID) -> (r: FaultRecordBuilder)
        ensures
            r.record == (FaultRecord { pasid: v, ..self.record }),
    {
        FaultRecordBuilder { record: FaultRecord { pasid: v, ..self.record } }
    }

    /// Sets the faulting address.
    pub fn address(self, v: IOVA) -> (r: FaultRecordBuilder)
        ensures
            r.record == (FaultRecord { address: v, ..self.record }),
    {
        FaultRecordBuilder { record: FaultRecord { address: v, ..self.record } }
    }

    /// Sets the fault class.
    pub fn fault_type(self, v: FaultType) -> (r: FaultRecordBuilder)
        ensures
            r.record == (FaultRecord { fault_type: v, ..self.record }),
    {
        FaultRecordBuilder { record: FaultRecord { fault_type: v, ..self.record } }
    }

    /// Sets the access type.
    pub fn access_type(self, v: AccessType) -> (r: FaultRecordBuilder)
        ensures
            r.record == (FaultRecord { access_type: v, ..self.record }),
    {
        FaultRecordBuilder { record: FaultRecord { access_type: v, ..self.record } }
    }

    /// Sets the security state.
    pub fn security_state(self, v: SecurityState) -> (r: FaultRecordBuilder)
        ensures
            r.record == (FaultRecord { security_state: v, ..self.record }),
    {
        FaultRecordBuilder { record: FaultRecord { security_state: v, ..self.record } }
    }

    /// Sets the syndrome.
    pub fn syndrome(self, v: FaultSyndrome) -> (r: FaultRecordBuilder)
        ensures
            r.record == (FaultRecord { syndrome: v, ..self.record }),
    {
        FaultRecordBuilder { record: FaultRecord { syndrome: v, ..self.record } }
    }

    /// Sets the timestamp.
    pub fn timestamp(self, v: u64) -> (r: FaultRecordBuilder)
        ensures
            r.record == (FaultRecord { timestamp: v, ..self.record }),
    {
        FaultRecordBuilder { record: FaultRecord { timestamp: v, ..self.record } }
    }

    /// The record built so far.
    pub fn build(self) -> (r: FaultRecord)
        ensures
            r == self.record,
    {
        self.record
    }
}

// ---------------------------------------------------------------------------------------------
// Controller configuration, errors, queue records
// ---------------------------------------------------------------------------------------------

/// Exception level and regime a stream's transactions are attributed to (STE.STRW).
#[derive(Debug, Clone, Copy, PartialEq, Eq, Structural)]
pub enum StreamWorld {
    /// Non-secure EL1 (or Secure EL1 for secure streams).
    El1,
    /// EL2.
    El2,
    /// EL2 with the E2H host extension.
    El2E2h,
    /// EL3.
    El3,
}

/// Configuration of one stream (the fields of its stream table entry that the controller
/// checks and keeps).
#[derive(Debug, Clone, Copy, PartialEq, Eq, Structural)]
pub struct StreamConfig {
    /// Whether transactions of the stream are translated (otherwise they bypass).
    pub translation_enabled: bool,
    /// Whether stage 1 translation is enabled.
    pub stage1_enabled: bool,
    /// Whether stage 2 translation is enabled.
    pub stage2_enabled: bool,
    /// Security state of the stream.
    pub security_state: SecurityState,
    /// Exception level the stream's transactions are attributed to.
    pub strw: StreamWorld,
    /// Stage 2 output size code (0..=6 for 32..=52 bits; other codes are read as 48 bits).
    pub s2_ps: u8,
    /// Address of the stage 2 translation table.
    pub s2_ttb: u64,
    /// Whether events of one type are merged per stream (STE.MEV).
    pub mev: bool,
    /// How translation faults of the stream are handled.
    pub fault_mode: FaultMode,
}

impl StreamConfig {
    /// Stage 1 translation only, non-secure, faults terminate.
    pub fn stage1_only() -> (r: StreamConfig)
        ensures
            r == (StreamConfig {
                translation_enabled: true,
                stage1_enabled: true,
                stage2_enabled: false,
                security_state: SecurityState::NonSecure,
                strw: StreamWorld::El1,
                s2_ps: 5,
                s2_ttb: 0,
                mev: false,
                fault_mode: FaultMode::Terminate,
            }),
    {
        StreamConfig {
            translation_enabled: true,
            stage1_enabled: true,
            stage2_enabled: false,
            security_state: SecurityState::NonSecure,
            strw: StreamWorld::El1,
            s2_ps: 5,
            s2_ttb: 0,
            mev: false,
            fault_mode: FaultMode::Terminate,
        }
    }

    /// Stage 2 translation only, non-secure, faults terminate.
    pub fn stage2_only() -> (r: StreamConfig)
        ensures
            r == (StreamConfig { stage1_enabled: false, stage2_enabled: true, ..StreamConfig::stage1_only_spec() }),
    {
        StreamConfig { stage1_enabled: false, stage2_enabled: true, ..StreamConfig::stage1_only() }
    }

    /// Translation disabled: transactions bypass.
    pub fn bypass() -> (r: StreamConfig)
        ensures
            r == (StreamConfig {
                translation_enabled: false,
                stage1_enabled: false,
                stage2_enabled: false,
                ..StreamConfig::stage1_only_spec()
            }),
    {
        StreamConfig {
            translation_enabled: false,
            stage1_enabled: false,
            stage2_enabled: false,
            ..StreamConfig::stage1_only()
        }
    }

    /// What `stage1_only` returns.
    pub open spec fn stage1_only_spec() -> StreamConfig {
        StreamConfig {
            translation_enabled: true,
            stage1_enabled: true,
            stage2_enabled: false,
            security_state: SecurityState::NonSecure,
            strw: StreamWorld::El1,
            s2_ps: 5,
            s2_ttb: 0,
            mev: false,
            fault_mode: FaultMode::Terminate,
        }
    }
}

/// Global configuration of an SMMU: stream limit, queue sizes, TLB size and output address
/// size.
#[derive(Debug, Clone, Copy, PartialEq, Eq, Structural)]
pub struct SMMUConfig {
    /// Most streams that may be configured at once.
    pub max_streams: usize,
    /// Entries of the event queue.
    pub event_queue_size: usize,
    /// Entries of the command queue.
    pub command_queue_size: usize,
    /// Entries of the page request queue.
    pub pri_queue_size: usize,
    /// Entries of the TLB.
    pub tlb_cache_size: usize,
    /// Output address size in bits.
    pub max_pa_bits: u32,
}

/// Fewest entries a queue may have.
pub const MIN_QUEUE_SIZE: usize = 2;

/// Most entries a queue may have (the architecture's LOG2SIZE limit of 19).
pub const MAX_QUEUE_SIZE: usize = 0x8_0000;

impl SMMUConfig {
    /// Whether the configuration is acceptable: at least one stream, every queue between
    /// `MIN_QUEUE_SIZE` and `MAX_QUEUE_SIZE` entries, a TLB of at least one entry, and an
    /// output address size between 32 and 64 bits.
    pub open spec fn valid(&self) -> bool {
        &&& self.max_streams > 0
        &&& MIN_QUEUE_SIZE <= self.event_queue_size <= MAX_QUEUE_SIZE
        &&& MIN_QUEUE_SIZE <= self.command_queue_size <= MAX_QUEUE_SIZE
        &&& MIN_QUEUE_SIZE <= self.pri_queue_size <= MAX_QUEUE_SIZE
        &&& self.tlb_cache_size > 0
        &&& 32 <= self.max_pa_bits <= 64
    }

    /// Checks `valid`.
    pub fn validate(&self) -> (r: bool)
        ensures
            r == self.valid(),
    {
        self.max_streams > 0 && MIN_QUEUE_SIZE <= self.event_queue_size && self.event_queue_size <= MAX_QUEUE_SIZE
            && MIN_QUEUE_SIZE <= self.command_queue_size && self.command_queue_size <= MAX_QUEUE_SIZE
            && MIN_QUEUE_SIZE <= self.pri_queue_size && self.pri_queue_size <= MAX_QUEUE_SIZE
            && self.tlb_cache_size > 0 && 32 <= self.max_pa_bits && self.max_pa_bits <= 64
    }

    /// The smallest configuration: one stream, queues of 16 entries, a TLB of 64 entries.
    pub fn minimal() -> (r: SMMUConfig)
        ensures
            r == (SMMUConfig {
                max_streams: 1,
                event_queue_size: 16,
                command_queue_size: 16,
                pri_queue_size: 16,
                tlb_cache_size: 64,
                max_pa_bits: 48,
            }),
            r.valid(),
    {
        SMMUConfig {
            max_streams: 1,
            event_queue_size: 16,
            command_queue_size: 16,
            pri_queue_size: 16,
            tlb_cache_size: 64,
            max_pa_bits: 48,
        }
    }

    /// A configuration for heavy traffic: large queues and TLB.
    pub fn high_performance() -> (r: SMMUConfig)
        ensures
            r == (SMMUConfig {
                max_streams: 65536,
                event_queue_size: 4096,
                command_queue_size: 2048,
                pri_queue_size: 1024,
                tlb_cache_size: 8192,
                max_pa_bits: 52,
            }),
            r.valid(),
    {
        SMMUConfig {
            max_streams: 65536,
            event_queue_size: 4096,
            command_queue_size: 2048,
            pri_queue_size: 1024,
            tlb_cache_size: 8192,
            max_pa_bits: 52,
        }
    }
}

impl SMMUConfig {
    /// The default configuration: 1024 streams, an event queue of 512, a command queue of 256
    /// and a page request queue of 256 entries, a TLB of 1024 entries and 48-bit output
    /// addresses.
    pub open spec fn default_spec() -> SMMUConfig {
        SMMUConfig {
            max_streams: 1024,
            event_queue_size: 512,
            command_queue_size: 256,
            pri_queue_size: 256,
            tlb_cache_size: 1024,
            max_pa_bits: 48,
        }
    }
}

impl Default for SMMUConfig {
    /// The configuration `default_spec` describes.
    fn default() -> (r: SMMUConfig)
        ensures
            r == SMMUConfig::default_spec(),
    {
        SMMUConfig {
            max_streams: 1024,
            event_queue_size: 512,
            command_queue_size: 256,
            pri_queue_size: 256,
            tlb_cache_size: 1024,
            max_pa_bits: 48,
        }
    }
}

/// Why a stream or SMMU configuration was refused.
#[derive(Debug, Clone, Copy, PartialEq, Eq, Structural)]
pub enum ConfigurationProblem {
    /// Translation enabled with neither stage enabled (a reserved STE.Config).
    ReservedStreamConfig,
    /// STRW selects EL3 for a non-secure stream.
    El3WorldForNonSecure,
    /// The stage 2 table address lies beyond the stage 2 output size.
    Stage2TableBeyondOutputSize,
    /// The page request queue is not enabled (CR0.SMMUEN or CR0.PRIQEN clear).
    PriQueueDisabled,
}

/// Why a command was refused.
#[derive(Debug, Clone, Copy, PartialEq, Eq, Structural)]
pub enum CommandProblem {
    /// An ATC invalidation whose end address lies below its start address.
    EndBeforeStart,
    /// A CMD_SYNC with the reserved completion signal 0b11.
    ReservedSyncSignal,
    /// A dirty page tracking command, which this SMMU does not support.
    DirtyTrackingUnsupported,
}

/// Errors of the SMMU controller.
#[derive(Debug, Clone, Copy, PartialEq, Eq, Structural)]
pub enum SMMUError {
    /// The SMMU has been shut down.
    ShutdownInProgress,
    /// No stream is configured under the StreamID.
    StreamNotFound(StreamID),
    /// A stream is already configured under the StreamID.
    StreamAlreadyExists(StreamID),
    /// The stream limit is reached.
    StreamLimitExceeded { current: usize, max: usize },
    /// A configuration was refused.
    InvalidConfiguration(ConfigurationProblem),
    /// The event queue is full.
    EventQueueFull,
    /// The command queue is full.
    CommandQueueFull,
    /// The page request queue is full.
    PriQueueFull,
    /// A command was refused.
    InvalidCommandParameters(CommandProblem),
}

/// Kind of a transaction presented for translation.
#[derive(Debug, Clone, Copy, PartialEq, Eq, Structural)]
pub enum TransactionType {
    /// An ordinary (untranslated) transaction.
    Ordinary,
    /// An ATS translation request.
    AtsTranslationRequest,
    /// A transaction carrying an address that ATS already translated.
    AtsTranslated,
}

/// Types of the records written to the event queue.
#[derive(Debug, Clone, Copy, PartialEq, Eq, Structural)]
pub enum EventType {
    FUut,
    CBadStreamid,
    FSteFetch,
    CBadSte,
    FBadAtsTreq,
    FStreamDisabled,
    FTranslForbidden,
    CBadSubstreamid,
    FCdFetch,
    CBadCd,
    FWalkEabt,
    FTranslation,
    FAddrSize,
    FAccess,
    FPermission,
    FTlbConflict,
    FCfgConflict,
    EPageRequest,
    FVmsFetch,
    AtcInvalidateCompletion,
    CommandSyncCompletion,
}

/// One record of the event queue.
#[derive(Debug, Clone, Copy, PartialEq, Eq, Structural)]
pub struct EventEntry {
    pub event_type: EventType,
    pub stream_id: u32,
    pub pasid: u32,
    pub address: u64,
    pub security_state: SecurityState,
    pub error_code: u32,
    pub timestamp: u64,
    /// Whether the faulting transaction is stalled.
    pub stall: bool,
    /// Stall tag of a stalled transaction.
    pub stag: u16,
    /// Fault class (2 for faults of the translation walk itself).
    pub event_class: u8,
    /// Whether the fault arose at stage 2.
    pub s2: bool,
    /// Intermediate physical address of a stage 2 fault.
    pub ipa: u64,
    /// Whether the transaction was a write.
    pub rnw: bool,
    /// Whether the transaction was an instruction fetch.
    pub ind: bool,
    /// Whether the PASID field is valid.
    pub ssv: bool,
}

impl EventEntry {
    /// The all-zero record: a non-secure F_UUT at address 0 with every flag clear.
    pub open spec fn zeroed_spec() -> EventEntry {
        EventEntry {
            event_type: EventType::FUut,
            stream_id: 0,
            pasid: 0,
            address: 0,
            security_state: SecurityState::NonSecure,
            error_code: 0,
            timestamp: 0,
            stall: false,
            stag: 0,
            event_class: 0,
            s2: false,
            ipa: 0,
            rnw: false,
            ind: false,
            ssv: false,
        }
    }

    /// The all-zero record.
    pub fn zeroed() -> (r: EventEntry)
        ensures
            r == EventEntry::zeroed_spec(),
    {
        EventEntry {
            event_type: EventType::FUut,
            stream_id: 0,
            pasid: 0,
            address: 0,
            security_state: SecurityState::NonSecure,
            error_code: 0,
            timestamp: 0,
            stall: false,
            stag: 0,
            event_class: 0,
            s2: false,
            ipa: 0,
            rnw: false,
            ind: false,
            ssv: false,
        }
    }

    /// A record of the given type, stream, PASID and address, the rest zero.
    pub fn new(event_type: EventType, stream_id: u32, pasid: u32, address: u64) -> (r: EventEntry)
        ensures
            r == (EventEntry { event_type, stream_id, pasid, address, ..EventEntry::zeroed_spec() }),
    {
        EventEntry { event_type, stream_id, pasid, address, ..EventEntry::zeroed() }
    }
}

/// Commands of the command queue.
#[derive(Debug, Clone, Copy, PartialEq, Eq, Structural)]
pub enum CommandType {
    PrefetchConfig,
    PrefetchAddr,
    CfgiSte,
    CfgiAll,
    CfgiCd,
    CfgiCdAll,
    CfgiVmsPidm,
    TlbiNhAll,
    TlbiNhAsid,
    TlbiNhVa,
    TlbiNhVaa,
    TlbiEl3All,
    TlbiEl3Va,
    TlbiEl2All,
    TlbiEl2Asid,
    TlbiEl2Va,
    TlbiEl2Vaa,
    TlbiS12Vmall,
    TlbiS2Ipa,
    TlbiNsnhAll,
    TlbiSEl2All,
    TlbiSEl2Asid,
    TlbiSEl2Va,
    TlbiSEl2Vaa,
    TlbiSnhAll,
    TlbiSS12Vmall,
    TlbiSS2Ipa,
    AtcInv,
    PriResp,
    Resume,
    StallTerm,
    Sync,
    DptiAll,
    DptiPa,
}

/// One command of the command queue.
#[derive(Debug, Clone, Copy, PartialEq, Eq, Structural)]
pub struct CommandEntry {
    pub cmd_type: CommandType,
    pub stream_id: u32,
    pub pasid: u32,
    pub asid: u16,
    pub vmid: u16,
    pub start_address: u64,
    pub end_address: u64,
    /// Bit 0: global (ATC invalidation of the whole PASID).
    pub flags: u32,
    /// CMD_SYNC completion signal.
    pub cs: u8,
    pub stag: u16,
    /// RESUME: retry the stalled transaction.
    pub action: bool,
    /// RESUME: abort the stalled transaction (when not retried).
    pub abort: bool,
    pub prg_index: u16,
    /// CFGI_ALL range (a StreamID prefix length; 31 or more means every stream).
    pub range: u8,
}

impl CommandEntry {
    /// A command of the given type for a stream and PASID, the rest zero.
    pub fn new(cmd_type: CommandType, stream_id: u32, pasid: u32) -> (r: CommandEntry)
        ensures
            r == (CommandEntry {
                cmd_type,
                stream_id,
                pasid,
                asid: 0,
                vmid: 0,
                start_address: 0,
                end_address: 0,
                flags: 0,
                cs: 0,
                stag: 0,
                action: false,
                abort: false,
                prg_index: 0,
                range: 0,
            }),
    {
        CommandEntry {
            cmd_type,
            stream_id,
            pasid,
            asid: 0,
            vmid: 0,
            start_address: 0,
            end_address: 0,
            flags: 0,
            cs: 0,
            stag: 0,
            action: false,
            abort: false,
            prg_index: 0,
            range: 0,
        }
    }
}

/// One page request of the page request queue.
#[derive(Debug, Clone, Copy, PartialEq, Eq, Structural)]
pub struct PRIEntry {
    pub stream_id: u32,
    pub pasid: u32,
    pub requested_address: u64,
    pub access: AccessType,
    pub prg_index: u16,
    /// Whether this is the last request of its group.
    pub last: bool,
    pub security_state: SecurityState,
}

/// An access is allowed exactly when each right it asks for is granted: a read needs the read
/// right, a write the write right, an instruction fetch the execute right; an access that asks
/// for several rights needs every one of them (one of them is not enough); a privileged access
/// needs the same rights as the plain one; asking for nothing is always allowed.
pub proof fn lemma_access_needs_every_right(p: PagePermissions)
    ensures
        permits(p, AccessType::NoAccess),
        permits(p, AccessType::Read) == p.read,
        permits(p, AccessType::Write) == p.write,
        permits(p, AccessType::Execute) == p.execute,
        permits(p, AccessType::ReadWrite) == (p.read && p.write),
        permits(p, AccessType::ReadExecute) == (p.read && p.execute),
        permits(p, AccessType::WriteExecute) == (p.write && p.execute),
        permits(p, AccessType::ReadWriteExecute) == (p.read && p.write && p.execute),
        permits(p, AccessType::ReadPrivileged) == permits(p, AccessType::Read),
        permits(p, AccessType::WritePrivileged) == permits(p, AccessType::Write),
        permits(p, AccessType::ExecutePrivileged) == permits(p, AccessType::Execute),
        permits(p, AccessType::ReadWritePrivileged) == permits(p, AccessType::ReadWrite),
        !p.write ==> !permits(p, AccessType::ReadWrite) && !permits(p, AccessType::ReadWritePrivileged),
        !p.read ==> !permits(p, AccessType::ReadWrite) && !permits(p, AccessType::ReadExecute),
{
}

} // verus!
