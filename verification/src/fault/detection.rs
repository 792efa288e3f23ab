//! Detection of translation, permission, address-size and alignment faults, each reported as a
//! complete fault record.

use crate::types::{
    permits, AccessType, FaultRecord, FaultSyndrome, FaultType, PagePermissions, SecurityState, StreamID,
    TranslationStage, IOVA, PA, PASID,
};
use vstd::prelude::*;

verus! {

/// Width of an address space.
#[derive(Debug, Clone, Copy, PartialEq, Eq, Structural)]
pub enum AddressSize {
    /// 32-bit addresses (4 GiB).
    Bits32,
    /// 48-bit addresses (256 TiB).
    Bits48,
    /// 52-bit addresses (4 PiB).
    Bits52,
}

/// Largest address of each address size.
pub open spec fn max_address_of(size: AddressSize) -> u64 {
    match size {
        AddressSize::Bits32 => 0xFFFF_FFFF,
        AddressSize::Bits48 => 0x0000_FFFF_FFFF_FFFF,
        AddressSize::Bits52 => 0x000F_FFFF_FFFF_FFFF,
    }
}

impl AddressSize {
    /// The largest address of this size.
    pub fn max_address(self) -> (r: u64)
        ensures
            r == max_address_of(self),
    {
        match self {
            AddressSize::Bits32 => 0xFFFF_FFFF,
            AddressSize::Bits48 => 0x0000_FFFF_FFFF_FFFF,
            AddressSize::Bits52 => 0x000F_FFFF_FFFF_FFFF,
        }
    }

    /// Whether `addr` lies beyond this size.
    pub fn exceeds(self, addr: u64) -> (r: bool)
        ensures
            r == (addr > max_address_of(self)),
    {
        addr > self.max_address()
    }
}

/// `Ok(())` when no fault was found, else the fault.
pub type FaultDetectionResult = Result<(), FaultRecord>;

/// The fault record a detector reports: the access context, a valid syndrome with the given
/// register and level whose write flag says whether the access was a plain write, and the
/// detector's timestamp.
pub open spec fn detected_fault(
    stream_id: StreamID,
    pasid: PASID,
    iova: IOVA,
    fault_type: FaultType,
    access_type: AccessType,
    security_state: SecurityState,
    syndrome_register: u32,
    fault_level: u8,
    timestamp: u64,
) -> FaultRecord {
    FaultRecord {
        stream_id,
        pasid,
        address: iova,
        fault_type,
        access_type,
        security_state,
        syndrome: FaultSyndrome {
            syndrome_register,
            fault_level,
            write_not_read: access_type == AccessType::Write,
            valid_syndrome: true,
        },
        timestamp,
    }
}

/// Builds the record of `detected_fault`.
fn build_fault(
    stream_id: StreamID,
    pasid: PASID,
    iova: IOVA,
    fault_type: FaultType,
    access_type: AccessType,
    security_state: SecurityState,
    syndrome_register: u32,
    fault_level: u8,
    timestamp: u64,
) -> (r: FaultRecord)
    ensures
        r == detected_fault(
            stream_id,
            pasid,
            iova,
            fault_type,
            access_type,
            security_state,
            syndrome_register,
            fault_level,
            timestamp,
        ),
{
    let syndrome = FaultSyndrome::builder().syndrome_register(syndrome_register).fault_level(fault_level).write_not_read(
        access_type == AccessType::Write,
    ).valid_syndrome(true).build();
    FaultRecord::builder().stream_id(stream_id).pasid(pasid).address(iova).fault_type(fault_type).access_type(
        access_type,
    ).security_state(security_state).syndrome(syndrome).timestamp(timestamp).build()
}

/// Syndrome register of a translation fault: class 0x01 in bits 24..31, the table level in bits
/// 16..23, and bit 7 set for a stage-2 fault.
pub open spec fn translation_syndrome(fault_level: u8, stage2: bool) -> u32 {
    (0x0100_0000 + fault_level * 0x1_0000 + if stage2 {
        0x80int
    } else {
        0int
    }) as u32
}

/// Syndrome register of a permission fault: class 0x04 in bits 24..31 and the table level in
/// bits 16..23.
pub open spec fn permission_syndrome(fault_level: u8) -> u32 {
    (0x0400_0000 + fault_level * 0x1_0000) as u32
}

/// Detects translation faults (unmapped pages).
#[derive(Debug, Clone, Copy)]
pub struct TranslationFaultDetector {
    timestamp_generator: u64,
}

impl View for TranslationFaultDetector {
    type V = u64;

    /// Timestamp of the last fault reported (the number of faults reported so far).
    closed spec fn view(&self) -> u64 {
        self.timestamp_generator
    }
}

impl TranslationFaultDetector {
    /// A detector that has reported nothing.
    pub fn new() -> (r: TranslationFaultDetector)
        ensures
            r@ == 0,
    {
        TranslationFaultDetector { timestamp_generator: 0 }
    }

    /// Reports a translation fault at `fault_level`, stamped with the next timestamp.
    pub fn detect_translation_fault(
        &mut self,
        stream_id: StreamID,
        pasid: PASID,
        iova: IOVA,
        access_type: AccessType,
        security_state: SecurityState,
        fault_level: u8,
    ) -> (r: FaultRecord)
        requires
            old(self)@ < u64::MAX,
        ensures
            final(self)@ == old(self)@ + 1,
            r == detected_fault(
                stream_id,
                pasid,
                iova,
                FaultType::TranslationFault,
                access_type,
                security_state,
                translation_syndrome(fault_level, false),
                fault_level,
                final(self)@,
            ),
    {
        let level = fault_level as u32;
        let reg = 0x0100_0000u32 | (level << 16u32);
        assert(0x0100_0000u32 | (level << 16u32) == 0x0100_0000 + level * 0x1_0000) by (bit_vector)
            requires
                level < 256,
        ;
        self.timestamp_generator = self.timestamp_generator + 1;
        build_fault(
            stream_id,
            pasid,
            iova,
            FaultType::TranslationFault,
            access_type,
            security_state,
            reg,
            fault_level,
            self.timestamp_generator,
        )
    }

    /// Reports a translation fault at `fault_level` of `stage`; a stage-2 fault sets bit 7 of the
    /// syndrome register.
    pub fn detect_stage_translation_fault(
        &mut self,
        stream_id: StreamID,
        pasid: PASID,
        iova: IOVA,
        access_type: AccessType,
        security_state: SecurityState,
        stage: TranslationStage,
        fault_level: u8,
    ) -> (r: FaultRecord)
        requires
            old(self)@ < u64::MAX,
        ensures
            final(self)@ == old(self)@ + 1,
            r == detected_fault(
                stream_id,
                pasid,
                iova,
                FaultType::TranslationFault,
                access_type,
                security_state,
                translation_syndrome(fault_level, stage == TranslationStage::Stage2),
                fault_level,
                final(self)@,
            ),
    {
        let stage_bits: u32 = match stage {
            TranslationStage::Stage2 => 0x0000_0080,
            _ => 0x0000_0000,
        };
        let level = fault_level as u32;
        let reg = 0x0100_0000u32 | stage_bits | (level << 16u32);
        assert(0x0100_0000u32 | 0x80u32 | (level << 16u32) == 0x0100_0000 + level * 0x1_0000 + 0x80) by (bit_vector)
            requires
                level < 256,
        ;
        assert(0x0100_0000u32 | 0u32 | (level << 16u32) == 0x0100_0000 + level * 0x1_0000) by (bit_vector)
            requires
                level < 256,
        ;
        self.timestamp_generator = self.timestamp_generator + 1;
        build_fault(
            stream_id,
            pasid,
            iova,
            FaultType::TranslationFault,
            access_type,
            security_state,
            reg,
            fault_level,
            self.timestamp_generator,
        )
    }
}

impl Default for TranslationFaultDetector {
    /// A detector that has reported nothing.
    fn default() -> (r: TranslationFaultDetector)
        ensures
            r@ == 0,
    {
        TranslationFaultDetector::new()
    }
}

/// Detects permission faults.
#[derive(Debug, Clone, Copy)]
pub struct PermissionFaultDetector {
    timestamp_generator: u64,
}

impl View for PermissionFaultDetector {
    type V = u64;

    /// Timestamp of the last fault reported (the number of faults reported so far).
    closed spec fn view(&self) -> u64 {
        self.timestamp_generator
    }
}

impl PermissionFaultDetector {
    /// A detector that has reported nothing.
    pub fn new() -> (r: PermissionFaultDetector)
        ensures
            r@ == 0,
    {
        PermissionFaultDetector { timestamp_generator: 0 }
    }

    /// Whether `permissions` allow `access_type`; a privileged access needs the same rights as
    /// the plain one, and no access needs none.
    pub fn check_permission(permissions: PagePermissions, access_type: AccessType) -> (r: bool)
        ensures
            r == permits(permissions, access_type),
    {
        match access_type {
            AccessType::NoAccess => true,
            AccessType::Read => permissions.read(),
            AccessType::Write => permissions.write(),
            AccessType::Execute => permissions.execute(),
            AccessType::ReadWrite => permissions.read() && permissions.write(),
            AccessType::ReadExecute => permissions.read() && permissions.execute(),
            AccessType::WriteExecute => permissions.write() && permissions.execute(),
            AccessType::ReadWriteExecute => permissions.read() && permissions.write() && permissions.execute(),
            AccessType::ReadPrivileged => permissions.read(),
            AccessType::WritePrivileged => permissions.write(),
            AccessType::ReadWritePrivileged => permissions.read() && permissions.write(),
            AccessType::ExecutePrivileged => permissions.execute(),
        }
    }

    /// Reports a permission fault at `fault_level`, stamped with the next timestamp.
    pub fn detect_permission_fault(
        &mut self,
        stream_id: StreamID,
        pasid: PASID,
        iova: IOVA,
        access_type: AccessType,
        security_state: SecurityState,
        permissions: PagePermissions,
        fault_level: u8,
    ) -> (r: FaultRecord)
        requires
            old(self)@ < u64::MAX,
        ensures
            final(self)@ == old(self)@ + 1,
            r == detected_fault(
                stream_id,
                pasid,
                iova,
                FaultType::PermissionFault,
                access_type,
                security_state,
                permission_syndrome(fault_level),
                fault_level,
                final(self)@,
            ),
    {
        let level = fault_level as u32;
        let reg = 0x0400_0000u32 | (level << 16u32);
        assert(0x0400_0000u32 | (level << 16u32) == 0x0400_0000 + level * 0x1_0000) by (bit_vector)
            requires
                level < 256,
        ;
        self.timestamp_generator = self.timestamp_generator + 1;
        build_fault(
            stream_id,
            pasid,
            iova,
            FaultType::PermissionFault,
            access_type,
            security_state,
            reg,
            fault_level,
            self.timestamp_generator,
        )
    }

    /// `Ok(())` when `permissions` allow `access_type`, else the permission fault that
    /// `detect_permission_fault` reports.
    pub fn validate_permissions(
        &mut self,
        stream_id: StreamID,
        pasid: PASID,
        iova: IOVA,
        access_type: AccessType,
        permissions: PagePermissions,
        security_state: SecurityState,
        fault_level: u8,
    ) -> (r: FaultDetectionResult)
        requires
            old(self)@ < u64::MAX,
        ensures
            permits(permissions, access_type) ==> r == Ok::<(), FaultRecord>(()) && final(self)@ == old(self)@,
            !permits(permissions, access_type) ==> final(self)@ == old(self)@ + 1 && r == Err::<(), FaultRecord>(
                detected_fault(
                    stream_id,
                    pasid,
                    iova,
                    FaultType::PermissionFault,
                    access_type,
                    security_state,
                    permission_syndrome(fault_level),
                    fault_level,
                    final(self)@,
                ),
            ),
    {
        if Self::check_permission(permissions, access_type) {
            Ok(())
        } else {
            Err(
                self.detect_permission_fault(
                    stream_id,
                    pasid,
                    iova,
                    access_type,
                    security_state,
                    permissions,
                    fault_level,
                ),
            )
        }
    }
}

impl Default for PermissionFaultDetector {
    /// A detector that has reported nothing.
    fn default() -> (r: PermissionFaultDetector)
        ensures
            r@ == 0,
    {
        PermissionFaultDetector::new()
    }
}

/// Checks addresses against configured input and output address sizes, and alignment.
#[derive(Debug, Clone, Copy)]
pub struct AddressValidator {
    input_address_size: AddressSize,
    output_address_size: AddressSize,
    timestamp_generator: u64,
}

impl View for AddressValidator {
    type V = (AddressSize, AddressSize, u64);

    /// Input size, output size, and the timestamp of the last fault reported.
    closed spec fn view(&self) -> (AddressSize, AddressSize, u64) {
        (self.input_address_size, self.output_address_size, self.timestamp_generator)
    }
}

impl AddressValidator {
    /// A validator for the given input and output sizes that has reported nothing.
    pub fn new(input_size: AddressSize, output_size: AddressSize) -> (r: AddressValidator)
        ensures
            r@ == (input_size, output_size, 0u64),
    {
        AddressValidator { input_address_size: input_size, output_address_size: output_size, timestamp_generator: 0 }
    }

    /// `Ok(())` when `iova` fits the input size, else an address size fault (register
    /// 0x0200_0000, level 0).
    pub fn validate_input_address(
        &mut self,
        stream_id: StreamID,
        pasid: PASID,
        iova: IOVA,
        access_type: AccessType,
        security_state: SecurityState,
    ) -> (r: FaultDetectionResult)
        requires
            old(self)@.2 < u64::MAX,
        ensures
            iova@ <= max_address_of(old(self)@.0) ==> r == Ok::<(), FaultRecord>(()) && final(self)@ == old(self)@,
            iova@ > max_address_of(old(self)@.0) ==> final(self)@ == (old(self)@.0, old(self)@.1, (old(self)@.2
                + 1) as u64) && r == Err::<(), FaultRecord>(
                detected_fault(
                    stream_id,
                    pasid,
                    iova,
                    FaultType::AddressSizeFault,
                    access_type,
                    security_state,
                    0x0200_0000,
                    0,
                    final(self)@.2,
                ),
            ),
    {
        if self.input_address_size.exceeds(iova.as_u64()) {
            self.timestamp_generator = self.timestamp_generator + 1;
            Err(
                build_fault(
                    stream_id,
                    pasid,
                    iova,
                    FaultType::AddressSizeFault,
                    access_type,
                    security_state,
                    0x0200_0000,
                    0,
                    self.timestamp_generator,
                ),
            )
        } else {
            Ok(())
        }
    }

    /// `Ok(())` when `pa` fits the output size, else an output address range fault reported at
    /// `iova` (register 0x0900_0000, level 3).
    pub fn validate_output_address(
        &mut self,
        stream_id: StreamID,
        pasid: PASID,
        iova: IOVA,
        pa: PA,
        access_type: AccessType,
        security_state: SecurityState,
    ) -> (r: FaultDetectionResult)
        requires
            old(self)@.2 < u64::MAX,
        ensures
            pa@ <= max_address_of(old(self)@.1) ==> r == Ok::<(), FaultRecord>(()) && final(self)@ == old(self)@,
            pa@ > max_address_of(old(self)@.1) ==> final(self)@ == (old(self)@.0, old(self)@.1, (old(self)@.2 + 1)
                as u64) && r == Err::<(), FaultRecord>(
                detected_fault(
                    stream_id,
                    pasid,
                    iova,
                    FaultType::OutputAddressRangeFault,
                    access_type,
                    security_state,
                    0x0900_0000,
                    3,
                    final(self)@.2,
                ),
            ),
    {
        if self.output_address_size.exceeds(pa.as_u64()) {
            self.timestamp_generator = self.timestamp_generator + 1;
            Err(
                build_fault(
                    stream_id,
                    pasid,
                    iova,
                    FaultType::OutputAddressRangeFault,
                    access_type,
                    security_state,
                    0x0900_0000,
                    3,
                    self.timestamp_generator,
                ),
            )
        } else {
            Ok(())
        }
    }

    /// `Ok(())` when the bits of `iova` below `required_alignment` are clear, else an alignment
    /// fault (register 0x0800_0000, level 0).
    pub fn validate_alignment(
        &mut self,
        stream_id: StreamID,
        pasid: PASID,
        iova: IOVA,
        access_type: AccessType,
        security_state: SecurityState,
        required_alignment: u64,
    ) -> (r: FaultDetectionResult)
        requires
            old(self)@.2 < u64::MAX,
            required_alignment > 0,
        ensures
            iova@ & ((required_alignment - 1) as u64) == 0 ==> r == Ok::<(), FaultRecord>(()) && final(self)@ == old(
                self,
            )@,
            iova@ & ((required_alignment - 1) as u64) != 0 ==> final(self)@ == (old(self)@.0, old(self)@.1, (old(
                self,
            )@.2 + 1) as u64) && r == Err::<(), FaultRecord>(
                detected_fault(
                    stream_id,
                    pasid,
                    iova,
                    FaultType::AlignmentFault,
                    access_type,
                    security_state,
                    0x0800_0000,
                    0,
                    final(self)@.2,
                ),
            ),
    {
        if iova.as_u64() & (required_alignment - 1) != 0 {
            self.timestamp_generator = self.timestamp_generator + 1;
            Err(
                build_fault(
                    stream_id,
                    pasid,
                    iova,
                    FaultType::AlignmentFault,
                    access_type,
                    security_state,
                    0x0800_0000,
                    0,
                    self.timestamp_generator,
                ),
            )
        } else {
            Ok(())
        }
    }

    /// The configured input address size.
    pub fn input_address_size(&self) -> (r: AddressSize)
        ensures
            r == self@.0,
    {
        self.input_address_size
    }

    /// The configured output address size.
    pub fn output_address_size(&self) -> (r: AddressSize)
        ensures
            r == self@.1,
    {
        self.output_address_size
    }
}

impl Default for AddressValidator {
    /// A 48-bit input, 48-bit output validator.
    fn default() -> (r: AddressValidator)
        ensures
            r@ == (AddressSize::Bits48, AddressSize::Bits48, 0u64),
    {
        AddressValidator::new(AddressSize::Bits48, AddressSize::Bits48)
    }
}

/// All three detectors together.
#[derive(Debug, Clone, Copy)]
pub struct FaultDetector {
    translation_detector: TranslationFaultDetector,
    permission_detector: PermissionFaultDetector,
    address_validator: AddressValidator,
}

impl View for FaultDetector {
    type V = (u64, u64, (AddressSize, AddressSize, u64));

    /// The views of the translation detector, the permission detector and the address validator.
    closed spec fn view(&self) -> (u64, u64, (AddressSize, AddressSize, u64)) {
        (self.translation_detector@, self.permission_detector@, self.address_validator@)
    }
}

impl FaultDetector {
    /// Fresh detectors with 48-bit input and output sizes.
    pub fn new() -> (r: FaultDetector)
        ensures
            r@ == (0u64, 0u64, (AddressSize::Bits48, AddressSize::Bits48, 0u64)),
    {
        FaultDetector {
            translation_detector: TranslationFaultDetector::new(),
            permission_detector: PermissionFaultDetector::new(),
            address_validator: AddressValidator::new(AddressSize::Bits48, AddressSize::Bits48),
        }
    }

    /// Fresh detectors with the given address sizes.
    pub fn with_address_sizes(input_size: AddressSize, output_size: AddressSize) -> (r: FaultDetector)
        ensures
            r@ == (0u64, 0u64, (input_size, output_size, 0u64)),
    {
        FaultDetector {
            translation_detector: TranslationFaultDetector::new(),
            permission_detector: PermissionFaultDetector::new(),
            address_validator: AddressValidator::new(input_size, output_size),
        }
    }

    /// The translation fault detector.
    pub fn translation_detector(&mut self) -> (r: &mut TranslationFaultDetector)
        ensures
            (*r)@ == old(self)@.0,
            final(self)@ == ((*final(r))@, old(self)@.1, old(self)@.2),
    {
        &mut self.translation_detector
    }

    /// The permission fault detector.
    pub fn permission_detector(&mut self) -> (r: &mut PermissionFaultDetector)
        ensures
            (*r)@ == old(self)@.1,
            final(self)@ == (old(self)@.0, (*final(r))@, old(self)@.2),
    {
        &mut self.permission_detector
    }

    /// The address validator.
    pub fn address_validator(&mut self) -> (r: &mut AddressValidator)
        ensures
            (*r)@ == old(self)@.2,
            final(self)@ == (old(self)@.0, old(self)@.1, (*final(r))@),
    {
        &mut self.address_validator
    }
}

impl Default for FaultDetector {
    /// Fresh detectors with 48-bit input and output sizes.
    fn default() -> (r: FaultDetector)
        ensures
            r@ == (0u64, 0u64, (AddressSize::Bits48, AddressSize::Bits48, 0u64)),
    {
        FaultDetector::new()
    }
}

} // verus!
