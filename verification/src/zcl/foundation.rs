//! ZCL foundation (global) commands — the command set shared by all clusters.

use vstd::prelude::*;

verus! {

/// Foundation command identifiers (ZCL Rev 8).
#[derive(Debug, Clone, Copy, PartialEq, Eq, Structural)]
pub enum FoundationCommandId {
    /// 0x00
    ReadAttributes,
    /// 0x01
    ReadAttributesResponse,
    /// 0x02
    WriteAttributes,
    /// 0x03
    WriteAttributesUndivided,
    /// 0x04
    WriteAttributesResponse,
    /// 0x05
    WriteAttributesNoResponse,
    /// 0x06
    ConfigureReporting,
    /// 0x07
    ConfigureReportingResponse,
    /// 0x08
    ReadReportingConfig,
    /// 0x09
    ReadReportingConfigResponse,
    /// 0x0A
    ReportAttributes,
    /// 0x0B
    DefaultResponse,
    /// 0x0C
    DiscoverAttributes,
    /// 0x0D
    DiscoverAttributesResponse,
    /// 0x11
    DiscoverCommandsReceived,
    /// 0x12
    DiscoverCommandsReceivedResponse,
    /// 0x13
    DiscoverCommandsGenerated,
    /// 0x14
    DiscoverCommandsGeneratedResponse,
    /// 0x15
    DiscoverAttributesExtended,
    /// 0x16
    DiscoverAttributesExtendedResponse,
}

impl FoundationCommandId {
    /// Command identifier on the wire.
    pub open spec fn spec_code(self) -> u8 {
        match self {
            FoundationCommandId::ReadAttributes => 0x00,
            FoundationCommandId::ReadAttributesResponse => 0x01,
            FoundationCommandId::WriteAttributes => 0x02,
            FoundationCommandId::WriteAttributesUndivided => 0x03,
            FoundationCommandId::WriteAttributesResponse => 0x04,
            FoundationCommandId::WriteAttributesNoResponse => 0x05,
            FoundationCommandId::ConfigureReporting => 0x06,
            FoundationCommandId::ConfigureReportingResponse => 0x07,
            FoundationCommandId::ReadReportingConfig => 0x08,
            FoundationCommandId::ReadReportingConfigResponse => 0x09,
            FoundationCommandId::ReportAttributes => 0x0A,
            FoundationCommandId::DefaultResponse => 0x0B,
            FoundationCommandId::DiscoverAttributes => 0x0C,
            FoundationCommandId::DiscoverAttributesResponse => 0x0D,
            FoundationCommandId::DiscoverCommandsReceived => 0x11,
            FoundationCommandId::DiscoverCommandsReceivedResponse => 0x12,
            FoundationCommandId::DiscoverCommandsGenerated => 0x13,
            FoundationCommandId::DiscoverCommandsGeneratedResponse => 0x14,
            FoundationCommandId::DiscoverAttributesExtended => 0x15,
            FoundationCommandId::DiscoverAttributesExtendedResponse => 0x16,
        }
    }

    /// Command identifier on the wire.
    pub fn code(&self) -> (r: u8)
        ensures
            r == self.spec_code(),
    {
        match self {
            FoundationCommandId::ReadAttributes => 0x00,
            FoundationCommandId::ReadAttributesResponse => 0x01,
            FoundationCommandId::WriteAttributes => 0x02,
            FoundationCommandId::WriteAttributesUndivided => 0x03,
            FoundationCommandId::WriteAttributesResponse => 0x04,
            FoundationCommandId::WriteAttributesNoResponse => 0x05,
            FoundationCommandId::ConfigureReporting => 0x06,
            FoundationCommandId::ConfigureReportingResponse => 0x07,
            FoundationCommandId::ReadReportingConfig => 0x08,
            FoundationCommandId::ReadReportingConfigResponse => 0x09,
            FoundationCommandId::ReportAttributes => 0x0A,
            FoundationCommandId::DefaultResponse => 0x0B,
            FoundationCommandId::DiscoverAttributes => 0x0C,
            FoundationCommandId::DiscoverAttributesResponse => 0x0D,
            FoundationCommandId::DiscoverCommandsReceived => 0x11,
            FoundationCommandId::DiscoverCommandsReceivedResponse => 0x12,
            FoundationCommandId::DiscoverCommandsGenerated => 0x13,
            FoundationCommandId::DiscoverCommandsGeneratedResponse => 0x14,
            FoundationCommandId::DiscoverAttributesExtended => 0x15,
            FoundationCommandId::DiscoverAttributesExtendedResponse => 0x16,
        }
    }

    /// Try to map a raw byte to a foundation command: 0x00-0x0D and
    /// 0x11-0x16 are foundation commands.
    pub fn from_u8(val: u8) -> (r: Option<Self>)
        ensures
            r is Some <==> (val <= 0x0D || 0x11 <= val <= 0x16),
            r matches Some(c) ==> c.spec_code() == val,
    {
        match val {
            0x00 => Some(Self::ReadAttributes),
            0x01 => Some(Self::ReadAttributesResponse),
            0x02 => Some(Self::WriteAttributes),
            0x03 => Some(Self::WriteAttributesUndivided),
            0x04 => Some(Self::WriteAttributesResponse),
            0x05 => Some(Self::WriteAttributesNoResponse),
            0x06 => Some(Self::ConfigureReporting),
            0x07 => Some(Self::ConfigureReportingResponse),
            0x08 => Some(Self::ReadReportingConfig),
            0x09 => Some(Self::ReadReportingConfigResponse),
            0x0A => Some(Self::ReportAttributes),
            0x0B => Some(Self::DefaultResponse),
            0x0C => Some(Self::DiscoverAttributes),
            0x0D => Some(Self::DiscoverAttributesResponse),
            0x11 => Some(Self::DiscoverCommandsReceived),
            0x12 => Some(Self::DiscoverCommandsReceivedResponse),
            0x13 => Some(Self::DiscoverCommandsGenerated),
            0x14 => Some(Self::DiscoverCommandsGeneratedResponse),
            0x15 => Some(Self::DiscoverAttributesExtended),
            0x16 => Some(Self::DiscoverAttributesExtendedResponse),
            _ => None,
        }
    }
}

} // verus!
