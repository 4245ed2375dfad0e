//! The command set, the results it yields and the errors it reports.

use vstd::prelude::*;

verus! {

/// Relies on `std::io::Error` only as an opaque value carried inside
/// [`DfuLoaderError::IOError`].
#[verifier::external_type_specification]
#[verifier::external_body]
pub struct ExIoError(std::io::Error);

/// A bootloader command, as identified by its opcode byte.
#[derive(Debug, Clone, Copy, PartialEq, Eq, Structural)]
pub enum Functions {
    Get,
    GetVersion,
    GetId,
    ReadMemory,
    Go,
    WriteMemory,
    Erase,
    ExtendedErase,
    Special,
    ExtendedSpecial,
    WriteProtect,
    WriteUnprotect,
    ReadoutProtect,
    ReadoutUnprotect,
    GetChecksum,
    /// An opcode outside the known set, kept as it was received.
    Unknown(u8),
}

/// Whether `b` is the opcode of a known command.
pub open spec fn is_known_opcode(b: u8) -> bool {
    b == 0x00 || b == 0x01 || b == 0x02 || b == 0x11 || b == 0x21 || b == 0x31 || b == 0x43
        || b == 0x44 || b == 0x50 || b == 0x51 || b == 0x63 || b == 0x73 || b == 0x82 || b
        == 0x92 || b == 0xA1
}

/// The command that opcode `b` stands for.
pub open spec fn function_of(b: u8) -> Functions {
    if b == 0x00 {
        Functions::Get
    } else if b == 0x01 {
        Functions::GetVersion
    } else if b == 0x02 {
        Functions::GetId
    } else if b == 0x11 {
        Functions::ReadMemory
    } else if b == 0x21 {
        Functions::Go
    } else if b == 0x31 {
        Functions::WriteMemory
    } else if b == 0x43 {
        Functions::Erase
    } else if b == 0x44 {
        Functions::ExtendedErase
    } else if b == 0x50 {
        Functions::Special
    } else if b == 0x51 {
        Functions::ExtendedSpecial
    } else if b == 0x63 {
        Functions::WriteProtect
    } else if b == 0x73 {
        Functions::WriteUnprotect
    } else if b == 0x82 {
        Functions::ReadoutProtect
    } else if b == 0x92 {
        Functions::ReadoutUnprotect
    } else if b == 0xA1 {
        Functions::GetChecksum
    } else {
        Functions::Unknown(b)
    }
}

/// The opcode of `f`.
pub open spec fn opcode_of(f: Functions) -> u8 {
    match f {
        Functions::Get => 0x00,
        Functions::GetVersion => 0x01,
        Functions::GetId => 0x02,
        Functions::ReadMemory => 0x11,
        Functions::Go => 0x21,
        Functions::WriteMemory => 0x31,
        Functions::Erase => 0x43,
        Functions::ExtendedErase => 0x44,
        Functions::Special => 0x50,
        Functions::ExtendedSpecial => 0x51,
        Functions::WriteProtect => 0x63,
        Functions::WriteUnprotect => 0x73,
        Functions::ReadoutProtect => 0x82,
        Functions::ReadoutUnprotect => 0x92,
        Functions::GetChecksum => 0xA1,
        Functions::Unknown(b) => b,
    }
}

/// The name of `f`.
pub open spec fn name_of(f: Functions) -> Seq<char> {
    match f {
        Functions::Get => "Get"@,
        Functions::GetVersion => "GetVersion"@,
        Functions::GetId => "GetId"@,
        Functions::ReadMemory => "ReadMemory"@,
        Functions::Go => "Go"@,
        Functions::WriteMemory => "WriteMemory"@,
        Functions::Erase => "Erase"@,
        Functions::ExtendedErase => "ExtendedErase"@,
        Functions::Special => "Special"@,
        Functions::ExtendedSpecial => "ExtendedSpecial"@,
        Functions::WriteProtect => "WriteProtect"@,
        Functions::WriteUnprotect => "WriteUnprotect"@,
        Functions::ReadoutProtect => "ReadoutProtect"@,
        Functions::ReadoutUnprotect => "ReadoutUnprotect"@,
        Functions::GetChecksum => "GetChecksum"@,
        Functions::Unknown(_) => "Unknown"@,
    }
}

impl Functions {
    /// Decodes an opcode byte; a byte outside the known set is kept in
    /// [`Functions::Unknown`].
    pub fn from_opcode(value: u8) -> (r: Functions)
        ensures
            r == function_of(value),
    {
        match value {
            0x00 => Functions::Get,
            0x01 => Functions::GetVersion,
            0x02 => Functions::GetId,
            0x11 => Functions::ReadMemory,
            0x21 => Functions::Go,
            0x31 => Functions::WriteMemory,
            0x43 => Functions::Erase,
            0x44 => Functions::ExtendedErase,
            0x50 => Functions::Special,
            0x51 => Functions::ExtendedSpecial,
            0x63 => Functions::WriteProtect,
            0x73 => Functions::WriteUnprotect,
            0x82 => Functions::ReadoutProtect,
            0x92 => Functions::ReadoutUnprotect,
            0xA1 => Functions::GetChecksum,
            _ => Functions::Unknown(value),
        }
    }

    /// The opcode byte of this command.
    pub fn opcode(&self) -> (r: u8)
        ensures
            r == opcode_of(*self),
    {
        match self {
            Functions::Get => 0x00,
            Functions::GetVersion => 0x01,
            Functions::GetId => 0x02,
            Functions::ReadMemory => 0x11,
            Functions::Go => 0x21,
            Functions::WriteMemory => 0x31,
            Functions::Erase => 0x43,
            Functions::ExtendedErase => 0x44,
            Functions::Special => 0x50,
            Functions::ExtendedSpecial => 0x51,
            Functions::WriteProtect => 0x63,
            Functions::WriteUnprotect => 0x73,
            Functions::ReadoutProtect => 0x82,
            Functions::ReadoutUnprotect => 0x92,
            Functions::GetChecksum => 0xA1,
            Functions::Unknown(b) => *b,
        }
    }

    /// The command's name, as shown to an operator.
    pub fn name(&self) -> (r: &'static str)
        ensures
            r@ == name_of(*self),
    {
        match self {
            Functions::Get => "Get",
            Functions::GetVersion => "GetVersion",
            Functions::GetId => "GetId",
            Functions::ReadMemory => "ReadMemory",
            Functions::Go => "Go",
            Functions::WriteMemory => "WriteMemory",
            Functions::Erase => "Erase",
            Functions::ExtendedErase => "ExtendedErase",
            Functions::Special => "Special",
            Functions::ExtendedSpecial => "ExtendedSpecial",
            Functions::WriteProtect => "WriteProtect",
            Functions::WriteUnprotect => "WriteUnprotect",
            Functions::ReadoutProtect => "ReadoutProtect",
            Functions::ReadoutUnprotect => "ReadoutUnprotect",
            Functions::GetChecksum => "GetChecksum",
            Functions::Unknown(_) => "Unknown",
        }
    }
}

impl From<u8> for Functions {
    fn from(value: u8) -> (r: Functions) {
        Functions::from_opcode(value)
    }
}

impl vstd::std_specs::convert::FromSpecImpl<u8> for Functions {
    open spec fn obeys_from_spec() -> bool {
        true
    }

    open spec fn from_spec(v: u8) -> Functions {
        function_of(v)
    }
}

/// Decoding an opcode and taking the opcode back gives the byte again; the
/// known opcodes decode to named commands and every other byte to
/// `Unknown` holding that byte; and a named command survives the trip the
/// other way.
pub proof fn lemma_opcode_round_trip(b: u8, f: Functions)
    ensures
        opcode_of(function_of(b)) == b,
        is_known_opcode(b) <==> !(function_of(b) is Unknown),
        !is_known_opcode(b) ==> function_of(b) == Functions::Unknown(b),
        !(f is Unknown) ==> is_known_opcode(opcode_of(f)) && function_of(opcode_of(f)) == f,
{
}

/// What can go wrong in a session with the bootloader.
#[derive(Debug)]
pub enum DfuLoaderError {
    /// The device did not answer the synchronisation handshake.
    SyncError(),
    /// The device was already in bootloader mode.
    AlreadySynced(),
    /// A response broke the framing, length or acknowledgement rules.
    ProtocolError(),
    /// The link failed for a reason other than a timeout.
    IOError(std::io::Error),
    /// The operation is not available on this transport.
    NotImplemented(),
    /// A bounded wait ended without the response it waited for.
    Timeout(),
    /// The device answered with this status byte instead of an ACK.
    CommandFailed(u8),
}

/// The text that describes the kind of `e`.
pub open spec fn summary_of(e: DfuLoaderError) -> Seq<char> {
    match e {
        DfuLoaderError::ProtocolError() => "Protocol error"@,
        DfuLoaderError::AlreadySynced() => "Connection already synced, dfu ready"@,
        DfuLoaderError::SyncError() => "Failed to sync connection, no bootloader detected"@,
        DfuLoaderError::IOError(_) => "I/O error"@,
        DfuLoaderError::NotImplemented() => "Not implemented"@,
        DfuLoaderError::Timeout() => "Timeout"@,
        DfuLoaderError::CommandFailed(_) => "Command failed"@,
    }
}

impl DfuLoaderError {
    /// A short description of the kind of error; the status byte or the
    /// underlying I/O error, where there is one, is for the caller to add.
    pub fn summary(&self) -> (r: &'static str)
        ensures
            r@ == summary_of(*self),
    {
        match self {
            DfuLoaderError::ProtocolError() => "Protocol error",
            DfuLoaderError::AlreadySynced() => "Connection already synced, dfu ready",
            DfuLoaderError::SyncError() => "Failed to sync connection, no bootloader detected",
            DfuLoaderError::IOError(_) => "I/O error",
            DfuLoaderError::NotImplemented() => "Not implemented",
            DfuLoaderError::Timeout() => "Timeout",
            DfuLoaderError::CommandFailed(_) => "Command failed",
        }
    }
}

/// The answer to the Get command: protocol version and supported commands.
#[derive(Debug)]
pub struct BootLoaderInfo {
    pub version: u8,
    pub supported_functions: Vec<Functions>,
}

/// The answer to the Get Version command: protocol version and option bytes.
#[derive(Debug, Clone, Copy, PartialEq, Eq, Structural)]
pub struct BootloaderOptions {
    pub version: u8,
    pub options: u16,
}

/// The answer to the Get ID command.
#[derive(Debug, Clone, Copy, PartialEq, Eq, Structural)]
pub struct BootloaderChipId {
    pub chipid: u16,
}

/// The operations of a bootloader session, whatever the transport.
///
/// `initialize` comes first, once; the others follow in any order.
pub trait DfuLoader {
    /// Establishes contact with the bootloader.
    fn initialize(&mut self) -> Result<(), DfuLoaderError>;

    /// Reads the protocol version and the option bytes.
    fn get_version(&mut self) -> Result<BootloaderOptions, DfuLoaderError>;

    /// Reads the protocol version and the commands the device supports.
    fn supported_functions(&mut self) -> Result<BootLoaderInfo, DfuLoaderError>;

    /// Reads the chip identifier.
    fn get_id(&mut self) -> Result<BootloaderChipId, DfuLoaderError>;

    /// Removes the write protection of the flash.
    fn write_unprotect(&mut self) -> Result<(), DfuLoaderError>;

    /// Reads `size` bytes of memory from `address`.
    fn read_memory(&mut self, address: u32, size: u8) -> Result<Vec<u8>, DfuLoaderError>;

    /// Writes `data`, one to 256 bytes, to memory at `address`.
    fn write_memory(&mut self, address: u32, data: Vec<u8>) -> Result<(), DfuLoaderError>;

    /// Erases the whole flash.
    fn erase_all(&mut self) -> Result<(), DfuLoaderError>;

    /// Starts the code at `address`.
    fn go(&mut self, address: u32) -> Result<(), DfuLoaderError>;
}

} // verus!
