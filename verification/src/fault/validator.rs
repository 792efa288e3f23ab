//! Permission checks with readable violation reports, and address range and page alignment
//! checks that report faults.

use crate::fault::detection::{detected_fault, max_address_of, AddressSize, FaultDetectionResult};
use crate::types::{
    permits, AccessType, FaultRecord, FaultSyndrome, FaultType, PagePermissions, SecurityState, StreamID, IOVA,
    PAGE_SIZE, PASID,
};
use vstd::prelude::*;

verus! {

/// Permission checks.
#[derive(Debug, Clone, Copy)]
pub struct PermissionValidator;

/// The word that names an access in a violation report.
pub open spec fn access_word(access: AccessType) -> Seq<char> {
    match access {
        AccessType::NoAccess => "no"@,
        AccessType::Read => "read"@,
        AccessType::Write => "write"@,
        AccessType::Execute => "execute"@,
        AccessType::ReadWrite => "read+write"@,
        AccessType::ReadExecute => "read+execute"@,
        AccessType::WriteExecute => "write+execute"@,
        AccessType::ReadWriteExecute => "read+write+execute"@,
        AccessType::ReadPrivileged => "read(privileged)"@,
        AccessType::WritePrivileged => "write(privileged)"@,
        AccessType::ReadWritePrivileged => "read+write(privileged)"@,
        AccessType::ExecutePrivileged => "execute(privileged)"@,
    }
}

/// `R`, `W` and `X` for the rights granted, `-` for those refused.
pub open spec fn rights_text(p: PagePermissions) -> Seq<char> {
    (if p.read {
        "R"@
    } else {
        "-"@
    }) + (if p.write {
        "W"@
    } else {
        "-"@
    }) + (if p.execute {
        "X"@
    } else {
        "-"@
    })
}

/// The sentence of a violation report.
pub open spec fn violation_text(p: PagePermissions, access: AccessType) -> Seq<char> {
    "Permission violation: attempted "@ + access_word(access) + " access on page with "@ + rights_text(p)
        + " permissions"@
}

impl PermissionValidator {
    /// Whether reads are allowed.
    pub fn can_read(permissions: PagePermissions) -> (r: bool)
        ensures
            r == permissions.read,
    {
        permissions.read()
    }

    /// Whether writes are allowed.
    pub fn can_write(permissions: PagePermissions) -> (r: bool)
        ensures
            r == permissions.write,
    {
        permissions.write()
    }

    /// Whether instruction fetches are allowed.
    pub fn can_execute(permissions: PagePermissions) -> (r: bool)
        ensures
            r == permissions.execute,
    {
        permissions.execute()
    }

    /// Whether `permissions` allow `access_type`; a privileged access needs the same rights as
    /// the plain one.
    pub fn allows_access(permissions: PagePermissions, access_type: AccessType) -> (r: bool)
        ensures
            r == permits(permissions, access_type),
    {
        match access_type {
            AccessType::NoAccess => true,
            AccessType::Read => Self::can_read(permissions),
            AccessType::Write => Self::can_write(permissions),
            AccessType::Execute => Self::can_execute(permissions),
            AccessType::ReadWrite => Self::can_read(permissions) && Self::can_write(permissions),
            AccessType::ReadExecute => Self::can_read(permissions) && Self::can_execute(permissions),
            AccessType::WriteExecute => Self::can_write(permissions) && Self::can_execute(permissions),
            AccessType::ReadWriteExecute => Self::can_read(permissions) && Self::can_write(permissions)
                && Self::can_execute(permissions),
            AccessType::ReadPrivileged => Self::can_read(permissions),
            AccessType::WritePrivileged => Self::can_write(permissions),
            AccessType::ReadWritePrivileged => Self::can_read(permissions) && Self::can_write(permissions),
            AccessType::ExecutePrivileged => Self::can_execute(permissions),
        }
    }

    /// A sentence naming the attempted access and the page's rights.
    pub fn violation_description(permissions: PagePermissions, access_type: AccessType) -> (r: String)
        ensures
            r@ == violation_text(permissions, access_type),
    {
        let r_str = if permissions.read() {
            "R"
        } else {
            "-"
        };
        let w_str = if permissions.write() {
            "W"
        } else {
            "-"
        };
        let x_str = if permissions.execute() {
            "X"
        } else {
            "-"
        };
        let access_str = match access_type {
            AccessType::NoAccess => "no",
            AccessType::Read => "read",
            AccessType::Write => "write",
            AccessType::Execute => "execute",
            AccessType::ReadWrite => "read+write",
            AccessType::ReadExecute => "read+execute",
            AccessType::WriteExecute => "write+execute",
            AccessType::ReadWriteExecute => "read+write+execute",
            AccessType::ReadPrivileged => "read(privileged)",
            AccessType::WritePrivileged => "write(privileged)",
            AccessType::ReadWritePrivileged => "read+write(privileged)",
            AccessType::ExecutePrivileged => "execute(privileged)",
        };
        let mut s = String::from_str("Permission violation: attempted ");
        s.append(access_str);
        s.append(" access on page with ");
        s.append(r_str);
        s.append(w_str);
        s.append(x_str);
        s.append(" permissions");
        assert(s@ =~= violation_text(permissions, access_type));
        s
    }
}

/// Checks addresses against an address size and page alignment.
#[derive(Debug, Clone, Copy)]
pub struct AddressRangeValidator {
    address_size: AddressSize,
    timestamp_generator: u64,
}

impl View for AddressRangeValidator {
    type V = (AddressSize, u64);

    /// The address size and the timestamp of the last fault reported.
    closed spec fn view(&self) -> (AddressSize, u64) {
        (self.address_size, self.timestamp_generator)
    }
}

impl AddressRangeValidator {
    /// A validator for `address_size` that has reported nothing.
    pub fn new(address_size: AddressSize) -> (r: AddressRangeValidator)
        ensures
            r@ == (address_size, 0u64),
    {
        AddressRangeValidator { address_size, timestamp_generator: 0 }
    }

    /// Whether `addr` fits the address size.
    pub fn is_valid_address(&self, addr: u64) -> (r: bool)
        ensures
            r == (addr <= max_address_of(self@.0)),
    {
        addr <= self.address_size.max_address()
    }

    /// `Ok(())` when `iova` fits the address size, else an address size fault (register
    /// 0x0200_0000, level 0).
    pub fn validate_range(
        &mut self,
        stream_id: StreamID,
        pasid: PASID,
        iova: IOVA,
        access_type: AccessType,
        security_state: SecurityState,
    ) -> (r: FaultDetectionResult)
        requires
            old(self)@.1 < u64::MAX,
        ensures
            iova@ <= max_address_of(old(self)@.0) ==> r == Ok::<(), FaultRecord>(()) && final(self)@ == old(self)@,
            iova@ > max_address_of(old(self)@.0) ==> final(self)@ == (old(self)@.0, (old(self)@.1 + 1) as u64) && r
                == Err::<(), FaultRecord>(
                detected_fault(
                    stream_id,
                    pasid,
                    iova,
                    FaultType::AddressSizeFault,
                    access_type,
                    security_state,
                    0x0200_0000,
                    0,
                    final(self)@.1,
                ),
            ),
    {
        if !self.is_valid_address(iova.as_u64()) {
            self.timestamp_generator = self.timestamp_generator + 1;
            let syndrome = FaultSyndrome::builder().syndrome_register(0x0200_0000).fault_level(0).write_not_read(
                access_type == AccessType::Write,
            ).valid_syndrome(true).build();
            Err(
                FaultRecord::builder().stream_id(stream_id).pasid(pasid).address(iova).fault_type(
                    FaultType::AddressSizeFault,
                ).access_type(access_type).security_state(security_state).syndrome(syndrome).timestamp(
                    self.timestamp_generator,
                ).build(),
            )
        } else {
            Ok(())
        }
    }

    /// Whether the low 12 bits of `iova` are zero.
    pub fn is_page_aligned(iova: IOVA) -> (r: bool)
        ensures
            r == (iova@ % PAGE_SIZE == 0),
    {
        iova.is_page_aligned()
    }

    /// `Ok(())` when `iova` is page aligned, else an alignment fault (register 0x0800_0000,
    /// level 0).
    pub fn validate_page_alignment(
        &mut self,
        stream_id: StreamID,
        pasid: PASID,
        iova: IOVA,
        access_type: AccessType,
        security_state: SecurityState,
    ) -> (r: FaultDetectionResult)
        requires
            old(self)@.1 < u64::MAX,
        ensures
            iova@ % PAGE_SIZE == 0 ==> r == Ok::<(), FaultRecord>(()) && final(self)@ == old(self)@,
            iova@ % PAGE_SIZE != 0 ==> final(self)@ == (old(self)@.0, (old(self)@.1 + 1) as u64) && r == Err::<
                (),
                FaultRecord,
            >(
                detected_fault(
                    stream_id,
                    pasid,
                    iova,
                    FaultType::AlignmentFault,
                    access_type,
                    security_state,
                    0x0800_0000,
                    0,
                    final(self)@.1,
                ),
            ),
    {
        if !Self::is_page_aligned(iova) {
            self.timestamp_generator = self.timestamp_generator + 1;
            let syndrome = FaultSyndrome::builder().syndrome_register(0x0800_0000).fault_level(0).write_not_read(
                access_type == AccessType::Write,
            ).valid_syndrome(true).build();
            Err(
                FaultRecord::builder().stream_id(stream_id).pasid(pasid).address(iova).fault_type(
                    FaultType::AlignmentFault,
                ).access_type(access_type).security_state(security_state).syndrome(syndrome).timestamp(
                    self.timestamp_generator,
                ).build(),
            )
        } else {
            Ok(())
        }
    }

    /// The configured address size.
    pub fn address_size(&self) -> (r: AddressSize)
        ensures
            r == self@.0,
    {
        self.address_size
    }
}

impl Default for AddressRangeValidator {
    /// A 48-bit validator.
    fn default() -> (r: AddressRangeValidator)
        ensures
            r@ == (AddressSize::Bits48, 0u64),
    {
        AddressRangeValidator::new(AddressSize::Bits48)
    }
}

/// The context of one access, gathered for validation.
#[derive(Debug, Clone, Copy, PartialEq, Eq, Structural)]
pub struct ValidationContext {
    /// Stream of the transaction.
    pub stream_id: StreamID,
    /// PASID of the transaction.
    pub pasid: PASID,
    /// Address accessed.
    pub address: IOVA,
    /// Kind of access.
    pub access_type: AccessType,
    /// Security state of the access.
    pub security_state: SecurityState,
}

impl ValidationContext {
    /// Gathers the given context.
    pub fn new(
        stream_id: StreamID,
        pasid: PASID,
        address: IOVA,
        access_type: AccessType,
        security_state: SecurityState,
    ) -> (r: ValidationContext)
        ensures
            r == (ValidationContext { stream_id, pasid, address, access_type, security_state }),
    {
        ValidationContext { stream_id, pasid, address, access_type, security_state }
    }
}

} // verus!
