//! Records of the live wire protocol: the handshake, the header, client
//! queries and the responses the server streams.

use vstd::prelude::*;
use crate::codec::{
    DecodeError, tail, le_u16, le_u32, le_u64, u16_at, u32_at, u64_at, lemma_u16_round_trip,
    lemma_u32_round_trip, lemma_u64_round_trip, push_u8, push_u16, push_u32, push_u64,
    push_bytes, get_u16, get_u32, get_u64, get_array, get_bytes,
};
use crate::capture::{array_of, lemma_array_of, SourceLocation, UTracyHeader};

verus! {

broadcast use vstd::array::group_array_axioms;

/// The status byte that answers a client's handshake.
#[derive(Clone, Copy, Debug, PartialEq, Eq)]
pub enum HandshakeStatus {
    HandshakePending,
    HandshakeWelcome,
    HandshakeProtocolMismatch,
    HandshakeNotAvailable,
    HandshakeDropped,
}

impl HandshakeStatus {
    /// The byte that encodes the variant.
    pub open spec fn spec_code(self) -> u8 {
        match self {
            HandshakeStatus::HandshakePending => 0,
            HandshakeStatus::HandshakeWelcome => 1,
            HandshakeStatus::HandshakeProtocolMismatch => 2,
            HandshakeStatus::HandshakeNotAvailable => 3,
            HandshakeStatus::HandshakeDropped => 4,
        }
    }

    /// The variant that a byte encodes, if any.
    pub open spec fn spec_from_code(b: u8) -> Option<HandshakeStatus> {
        match b {
            0 => Some(HandshakeStatus::HandshakePending),
            1 => Some(HandshakeStatus::HandshakeWelcome),
            2 => Some(HandshakeStatus::HandshakeProtocolMismatch),
            3 => Some(HandshakeStatus::HandshakeNotAvailable),
            4 => Some(HandshakeStatus::HandshakeDropped),
            _ => None,
        }
    }

    pub fn to_u8(&self) -> (r: u8)
        ensures
            r == self.spec_code(),
    {
        match self {
            HandshakeStatus::HandshakePending => 0,
            HandshakeStatus::HandshakeWelcome => 1,
            HandshakeStatus::HandshakeProtocolMismatch => 2,
            HandshakeStatus::HandshakeNotAvailable => 3,
            HandshakeStatus::HandshakeDropped => 4,
        }
    }

    pub fn from_u8(b: u8) -> (r: Option<HandshakeStatus>)
        ensures
            r == HandshakeStatus::spec_from_code(b),
    {
        match b {
            0 => Some(HandshakeStatus::HandshakePending),
            1 => Some(HandshakeStatus::HandshakeWelcome),
            2 => Some(HandshakeStatus::HandshakeProtocolMismatch),
            3 => Some(HandshakeStatus::HandshakeNotAvailable),
            4 => Some(HandshakeStatus::HandshakeDropped),
            _ => None,
        }
    }

    /// Each variant is read back from its own byte.
    pub proof fn lemma_code_round_trip(t: HandshakeStatus)
        ensures
            HandshakeStatus::spec_from_code(t.spec_code()) == Some(t),
    {
    }
}

/// The kind of a query that a client sends.
#[derive(Clone, Copy, Debug, PartialEq, Eq)]
pub enum ServerQueryType {
    ServerQueryTerminate,
    ServerQueryString,
    ServerQueryThreadString,
    ServerQuerySourceLocation,
    ServerQueryPlotName,
    ServerQueryFrameName,
    ServerQueryParameter,
    ServerQueryFiberName,
    ServerQueryDisconnect,
    ServerQueryCallstackFrame,
    ServerQueryExternalName,
    ServerQuerySymbol,
    ServerQuerySymbolCode,
    ServerQuerySourceCode,
    ServerQueryDataTransfer,
    ServerQueryDataTransferPart,
}

impl ServerQueryType {
    /// The byte that encodes the variant.
    pub open spec fn spec_code(self) -> u8 {
        match self {
            ServerQueryType::ServerQueryTerminate => 0,
            ServerQueryType::ServerQueryString => 1,
            ServerQueryType::ServerQueryThreadString => 2,
            ServerQueryType::ServerQuerySourceLocation => 3,
            ServerQueryType::ServerQueryPlotName => 4,
            ServerQueryType::ServerQueryFrameName => 5,
            ServerQueryType::ServerQueryParameter => 6,
            ServerQueryType::ServerQueryFiberName => 7,
            ServerQueryType::ServerQueryDisconnect => 8,
            ServerQueryType::ServerQueryCallstackFrame => 9,
            ServerQueryType::ServerQueryExternalName => 10,
            ServerQueryType::ServerQuerySymbol => 11,
            ServerQueryType::ServerQuerySymbolCode => 12,
            ServerQueryType::ServerQuerySourceCode => 13,
            ServerQueryType::ServerQueryDataTransfer => 14,
            ServerQueryType::ServerQueryDataTransferPart => 15,
        }
    }

    /// The variant that a byte encodes, if any.
    pub open spec fn spec_from_code(b: u8) -> Option<ServerQueryType> {
        match b {
            0 => Some(ServerQueryType::ServerQueryTerminate),
            1 => Some(ServerQueryType::ServerQueryString),
            2 => Some(ServerQueryType::ServerQueryThreadString),
            3 => Some(ServerQueryType::ServerQuerySourceLocation),
            4 => Some(ServerQueryType::ServerQueryPlotName),
            5 => Some(ServerQueryType::ServerQueryFrameName),
            6 => Some(ServerQueryType::ServerQueryParameter),
            7 => Some(ServerQueryType::ServerQueryFiberName),
            8 => Some(ServerQueryType::ServerQueryDisconnect),
            9 => Some(ServerQueryType::ServerQueryCallstackFrame),
            10 => Some(ServerQueryType::ServerQueryExternalName),
            11 => Some(ServerQueryType::ServerQuerySymbol),
            12 => Some(ServerQueryType::ServerQuerySymbolCode),
            13 => Some(ServerQueryType::ServerQuerySourceCode),
            14 => Some(ServerQueryType::ServerQueryDataTransfer),
            15 => Some(ServerQueryType::ServerQueryDataTransferPart),
            _ => None,
        }
    }

    pub fn to_u8(&self) -> (r: u8)
        ensures
            r == self.spec_code(),
    {
        match self {
            ServerQueryType::ServerQueryTerminate => 0,
            ServerQueryType::ServerQueryString => 1,
            ServerQueryType::ServerQueryThreadString => 2,
            ServerQueryType::ServerQuerySourceLocation => 3,
            ServerQueryType::ServerQueryPlotName => 4,
            ServerQueryType::ServerQueryFrameName => 5,
            ServerQueryType::ServerQueryParameter => 6,
            ServerQueryType::ServerQueryFiberName => 7,
            ServerQueryType::ServerQueryDisconnect => 8,
            ServerQueryType::ServerQueryCallstackFrame => 9,
            ServerQueryType::ServerQueryExternalName => 10,
            ServerQueryType::ServerQuerySymbol => 11,
            ServerQueryType::ServerQuerySymbolCode => 12,
            ServerQueryType::ServerQuerySourceCode => 13,
            ServerQueryType::ServerQueryDataTransfer => 14,
            ServerQueryType::ServerQueryDataTransferPart => 15,
        }
    }

    pub fn from_u8(b: u8) -> (r: Option<ServerQueryType>)
        ensures
            r == ServerQueryType::spec_from_code(b),
    {
        match b {
            0 => Some(ServerQueryType::ServerQueryTerminate),
            1 => Some(ServerQueryType::ServerQueryString),
            2 => Some(ServerQueryType::ServerQueryThreadString),
            3 => Some(ServerQueryType::ServerQuerySourceLocation),
            4 => Some(ServerQueryType::ServerQueryPlotName),
            5 => Some(ServerQueryType::ServerQueryFrameName),
            6 => Some(ServerQueryType::ServerQueryParameter),
            7 => Some(ServerQueryType::ServerQueryFiberName),
            8 => Some(ServerQueryType::ServerQueryDisconnect),
            9 => Some(ServerQueryType::ServerQueryCallstackFrame),
            10 => Some(ServerQueryType::ServerQueryExternalName),
            11 => Some(ServerQueryType::ServerQuerySymbol),
            12 => Some(ServerQueryType::ServerQuerySymbolCode),
            13 => Some(ServerQueryType::ServerQuerySourceCode),
            14 => Some(ServerQueryType::ServerQueryDataTransfer),
            15 => Some(ServerQueryType::ServerQueryDataTransferPart),
            _ => None,
        }
    }

    /// Each variant is read back from its own byte.
    pub proof fn lemma_code_round_trip(t: ServerQueryType)
        ensures
            ServerQueryType::spec_from_code(t.spec_code()) == Some(t),
    {
    }
}

/// The kind byte that starts every record the server sends.
#[derive(Clone, Copy, Debug, PartialEq, Eq)]
pub enum QueryResponseType {
    ZoneText,
    ZoneName,
    Message,
    MessageColor,
    MessageCallstack,
    MessageColorCallstack,
    MessageAppInfo,
    ZoneBeginAllocSrcLoc,
    ZoneBeginAllocSrcLocCallstack,
    CallstackSerial,
    Callstack,
    CallstackAlloc,
    CallstackSample,
    CallstackSampleContextSwitch,
    FrameImage,
    ZoneBegin,
    ZoneBeginCallstack,
    ZoneEnd,
    LockWait,
    LockObtain,
    LockRelease,
    LockSharedWait,
    LockSharedObtain,
    LockSharedRelease,
    LockName,
    MemAlloc,
    MemAllocNamed,
    MemFree,
    MemFreeNamed,
    MemAllocCallstack,
    MemAllocCallstackNamed,
    MemFreeCallstack,
    MemFreeCallstackNamed,
    GpuZoneBegin,
    GpuZoneBeginCallstack,
    GpuZoneBeginAllocSrcLoc,
    GpuZoneBeginAllocSrcLocCallstack,
    GpuZoneEnd,
    GpuZoneBeginSerial,
    GpuZoneBeginCallstackSerial,
    GpuZoneBeginAllocSrcLocSerial,
    GpuZoneBeginAllocSrcLocCallstackSerial,
    GpuZoneEndSerial,
    PlotDataInt,
    PlotDataFloat,
    PlotDataDouble,
    ContextSwitch,
    ThreadWakeup,
    GpuTime,
    GpuContextName,
    CallstackFrameSize,
    SymbolInformation,
    ExternalNameMetadata,
    SymbolCodeMetadata,
    SourceCodeMetadata,
    FiberEnter,
    FiberLeave,
    Terminate,
    KeepAlive,
    ThreadContext,
    GpuCalibration,
    Crash,
    CrashReport,
    ZoneValidation,
    ZoneColor,
    ZoneValue,
    FrameMarkMsg,
    FrameMarkMsgStart,
    FrameMarkMsgEnd,
    FrameVsync,
    SourceLocation,
    LockAnnounce,
    LockTerminate,
    LockMark,
    MessageLiteral,
    MessageLiteralColor,
    MessageLiteralCallstack,
    MessageLiteralColorCallstack,
    GpuNewContext,
    CallstackFrame,
    SysTimeReport,
    SysPowerReport,
    TidToPid,
    HwSampleCpuCycle,
    HwSampleInstructionRetired,
    HwSampleCacheReference,
    HwSampleCacheMiss,
    HwSampleBranchRetired,
    HwSampleBranchMiss,
    PlotConfig,
    ParamSetup,
    AckServerQueryNoop,
    AckSourceCodeNotAvailable,
    AckSymbolCodeNotAvailable,
    CpuTopology,
    SingleStringData,
    SecondStringData,
    MemNamePayload,
    StringData,
    ThreadName,
    PlotName,
    SourceLocationPayload,
    CallstackPayload,
    CallstackAllocPayload,
    FrameName,
    FrameImageData,
    ExternalName,
    ExternalThreadName,
    SymbolCode,
    SourceCode,
    FiberName,
    NumTypes,
}

impl QueryResponseType {
    /// The byte that encodes the variant.
    pub open spec fn spec_code(self) -> u8 {
        match self {
            QueryResponseType::ZoneText => 0,
            QueryResponseType::ZoneName => 1,
            QueryResponseType::Message => 2,
            QueryResponseType::MessageColor => 3,
            QueryResponseType::MessageCallstack => 4,
            QueryResponseType::MessageColorCallstack => 5,
            QueryResponseType::MessageAppInfo => 6,
            QueryResponseType::ZoneBeginAllocSrcLoc => 7,
            QueryResponseType::ZoneBeginAllocSrcLocCallstack => 8,
            QueryResponseType::CallstackSerial => 9,
            QueryResponseType::Callstack => 10,
            QueryResponseType::CallstackAlloc => 11,
            QueryResponseType::CallstackSample => 12,
            QueryResponseType::CallstackSampleContextSwitch => 13,
            QueryResponseType::FrameImage => 14,
            QueryResponseType::ZoneBegin => 15,
            QueryResponseType::ZoneBeginCallstack => 16,
            QueryResponseType::ZoneEnd => 17,
            QueryResponseType::LockWait => 18,
            QueryResponseType::LockObtain => 19,
            QueryResponseType::LockRelease => 20,
            QueryResponseType::LockSharedWait => 21,
            QueryResponseType::LockSharedObtain => 22,
            QueryResponseType::LockSharedRelease => 23,
            QueryResponseType::LockName => 24,
            QueryResponseType::MemAlloc => 25,
            QueryResponseType::MemAllocNamed => 26,
            QueryResponseType::MemFree => 27,
            QueryResponseType::MemFreeNamed => 28,
            QueryResponseType::MemAllocCallstack => 29,
            QueryResponseType::MemAllocCallstackNamed => 30,
            QueryResponseType::MemFreeCallstack => 31,
            QueryResponseType::MemFreeCallstackNamed => 32,
            QueryResponseType::GpuZoneBegin => 33,
            QueryResponseType::GpuZoneBeginCallstack => 34,
            QueryResponseType::GpuZoneBeginAllocSrcLoc => 35,
            QueryResponseType::GpuZoneBeginAllocSrcLocCallstack => 36,
            QueryResponseType::GpuZoneEnd => 37,
            QueryResponseType::GpuZoneBeginSerial => 38,
            QueryResponseType::GpuZoneBeginCallstackSerial => 39,
            QueryResponseType::GpuZoneBeginAllocSrcLocSerial => 40,
            QueryResponseType::GpuZoneBeginAllocSrcLocCallstackSerial => 41,
            QueryResponseType::GpuZoneEndSerial => 42,
            QueryResponseType::PlotDataInt => 43,
            QueryResponseType::PlotDataFloat => 44,
            QueryResponseType::PlotDataDouble => 45,
            QueryResponseType::ContextSwitch => 46,
            QueryResponseType::ThreadWakeup => 47,
            QueryResponseType::GpuTime => 48,
            QueryResponseType::GpuContextName => 49,
            QueryResponseType::CallstackFrameSize => 50,
            QueryResponseType::SymbolInformation => 51,
            QueryResponseType::ExternalNameMetadata => 52,
            QueryResponseType::SymbolCodeMetadata => 53,
            QueryResponseType::SourceCodeMetadata => 54,
            QueryResponseType::FiberEnter => 55,
            QueryResponseType::FiberLeave => 56,
            QueryResponseType::Terminate => 57,
            QueryResponseType::KeepAlive => 58,
            QueryResponseType::ThreadContext => 59,
            QueryResponseType::GpuCalibration => 60,
            QueryResponseType::Crash => 61,
            QueryResponseType::CrashReport => 62,
            QueryResponseType::ZoneValidation => 63,
            QueryResponseType::ZoneColor => 64,
            QueryResponseType::ZoneValue => 65,
            QueryResponseType::FrameMarkMsg => 66,
            QueryResponseType::FrameMarkMsgStart => 67,
            QueryResponseType::FrameMarkMsgEnd => 68,
            QueryResponseType::FrameVsync => 69,
            QueryResponseType::SourceLocation => 70,
            QueryResponseType::LockAnnounce => 71,
            QueryResponseType::LockTerminate => 72,
            QueryResponseType::LockMark => 73,
            QueryResponseType::MessageLiteral => 74,
            QueryResponseType::MessageLiteralColor => 75,
            QueryResponseType::MessageLiteralCallstack => 76,
            QueryResponseType::MessageLiteralColorCallstack => 77,
            QueryResponseType::GpuNewContext => 78,
            QueryResponseType::CallstackFrame => 79,
            QueryResponseType::SysTimeReport => 80,
            QueryResponseType::SysPowerReport => 81,
            QueryResponseType::TidToPid => 82,
            QueryResponseType::HwSampleCpuCycle => 83,
            QueryResponseType::HwSampleInstructionRetired => 84,
            QueryResponseType::HwSampleCacheReference => 85,
            QueryResponseType::HwSampleCacheMiss => 86,
            QueryResponseType::HwSampleBranchRetired => 87,
            QueryResponseType::HwSampleBranchMiss => 88,
            QueryResponseType::PlotConfig => 89,
            QueryResponseType::ParamSetup => 90,
            QueryResponseType::AckServerQueryNoop => 91,
            QueryResponseType::AckSourceCodeNotAvailable => 92,
            QueryResponseType::AckSymbolCodeNotAvailable => 93,
            QueryResponseType::CpuTopology => 94,
            QueryResponseType::SingleStringData => 95,
            QueryResponseType::SecondStringData => 96,
            QueryResponseType::MemNamePayload => 97,
            QueryResponseType::StringData => 98,
            QueryResponseType::ThreadName => 99,
            QueryResponseType::PlotName => 100,
            QueryResponseType::SourceLocationPayload => 101,
            QueryResponseType::CallstackPayload => 102,
            QueryResponseType::CallstackAllocPayload => 103,
            QueryResponseType::FrameName => 104,
            QueryResponseType::FrameImageData => 105,
            QueryResponseType::ExternalName => 106,
            QueryResponseType::ExternalThreadName => 107,
            QueryResponseType::SymbolCode => 108,
            QueryResponseType::SourceCode => 109,
            QueryResponseType::FiberName => 110,
            QueryResponseType::NumTypes => 111,
        }
    }

    /// The variant that a byte encodes, if any.
    pub open spec fn spec_from_code(b: u8) -> Option<QueryResponseType> {
        match b {
            0 => Some(QueryResponseType::ZoneText),
            1 => Some(QueryResponseType::ZoneName),
            2 => Some(QueryResponseType::Message),
            3 => Some(QueryResponseType::MessageColor),
            4 => Some(QueryResponseType::MessageCallstack),
            5 => Some(QueryResponseType::MessageColorCallstack),
            6 => Some(QueryResponseType::MessageAppInfo),
            7 => Some(QueryResponseType::ZoneBeginAllocSrcLoc),
            8 => Some(QueryResponseType::ZoneBeginAllocSrcLocCallstack),
            9 => Some(QueryResponseType::CallstackSerial),
            10 => Some(QueryResponseType::Callstack),
            11 => Some(QueryResponseType::CallstackAlloc),
            12 => Some(QueryResponseType::CallstackSample),
            13 => Some(QueryResponseType::CallstackSampleContextSwitch),
            14 => Some(QueryResponseType::FrameImage),
            15 => Some(QueryResponseType::ZoneBegin),
            16 => Some(QueryResponseType::ZoneBeginCallstack),
            17 => Some(QueryResponseType::ZoneEnd),
            18 => Some(QueryResponseType::LockWait),
            19 => Some(QueryResponseType::LockObtain),
            20 => Some(QueryResponseType::LockRelease),
            21 => Some(QueryResponseType::LockSharedWait),
            22 => Some(QueryResponseType::LockSharedObtain),
            23 => Some(QueryResponseType::LockSharedRelease),
            24 => Some(QueryResponseType::LockName),
            25 => Some(QueryResponseType::MemAlloc),
            26 => Some(QueryResponseType::MemAllocNamed),
            27 => Some(QueryResponseType::MemFree),
            28 => Some(QueryResponseType::MemFreeNamed),
            29 => Some(QueryResponseType::MemAllocCallstack),
            30 => Some(QueryResponseType::MemAllocCallstackNamed),
            31 => Some(QueryResponseType::MemFreeCallstack),
            32 => Some(QueryResponseType::MemFreeCallstackNamed),
            33 => Some(QueryResponseType::GpuZoneBegin),
            34 => Some(QueryResponseType::GpuZoneBeginCallstack),
            35 => Some(QueryResponseType::GpuZoneBeginAllocSrcLoc),
            36 => Some(QueryResponseType::GpuZoneBeginAllocSrcLocCallstack),
            37 => Some(QueryResponseType::GpuZoneEnd),
            38 => Some(QueryResponseType::GpuZoneBeginSerial),
            39 => Some(QueryResponseType::GpuZoneBeginCallstackSerial),
            40 => Some(QueryResponseType::GpuZoneBeginAllocSrcLocSerial),
            41 => Some(QueryResponseType::GpuZoneBeginAllocSrcLocCallstackSerial),
            42 => Some(QueryResponseType::GpuZoneEndSerial),
            43 => Some(QueryResponseType::PlotDataInt),
            44 => Some(QueryResponseType::PlotDataFloat),
            45 => Some(QueryResponseType::PlotDataDouble),
            46 => Some(QueryResponseType::ContextSwitch),
            47 => Some(QueryResponseType::ThreadWakeup),
            48 => Some(QueryResponseType::GpuTime),
            49 => Some(QueryResponseType::GpuContextName),
            50 => Some(QueryResponseType::CallstackFrameSize),
            51 => Some(QueryResponseType::SymbolInformation),
            52 => Some(QueryResponseType::ExternalNameMetadata),
            53 => Some(QueryResponseType::SymbolCodeMetadata),
            54 => Some(QueryResponseType::SourceCodeMetadata),
            55 => Some(QueryResponseType::FiberEnter),
            56 => Some(QueryResponseType::FiberLeave),
            57 => Some(QueryResponseType::Terminate),
            58 => Some(QueryResponseType::KeepAlive),
            59 => Some(QueryResponseType::ThreadContext),
            60 => Some(QueryResponseType::GpuCalibration),
            61 => Some(QueryResponseType::Crash),
            62 => Some(QueryResponseType::CrashReport),
            63 => Some(QueryResponseType::ZoneValidation),
            64 => Some(QueryResponseType::ZoneColor),
            65 => Some(QueryResponseType::ZoneValue),
            66 => Some(QueryResponseType::FrameMarkMsg),
            67 => Some(QueryResponseType::FrameMarkMsgStart),
            68 => Some(QueryResponseType::FrameMarkMsgEnd),
            69 => Some(QueryResponseType::FrameVsync),
            70 => Some(QueryResponseType::SourceLocation),
            71 => Some(QueryResponseType::LockAnnounce),
            72 => Some(QueryResponseType::LockTerminate),
            73 => Some(QueryResponseType::LockMark),
            74 => Some(QueryResponseType::MessageLiteral),
            75 => Some(QueryResponseType::MessageLiteralColor),
            76 => Some(QueryResponseType::MessageLiteralCallstack),
            77 => Some(QueryResponseType::MessageLiteralColorCallstack),
            78 => Some(QueryResponseType::GpuNewContext),
            79 => Some(QueryResponseType::CallstackFrame),
            80 => Some(QueryResponseType::SysTimeReport),
            81 => Some(QueryResponseType::SysPowerReport),
            82 => Some(QueryResponseType::TidToPid),
            83 => Some(QueryResponseType::HwSampleCpuCycle),
            84 => Some(QueryResponseType::HwSampleInstructionRetired),
            85 => Some(QueryResponseType::HwSampleCacheReference),
            86 => Some(QueryResponseType::HwSampleCacheMiss),
            87 => Some(QueryResponseType::HwSampleBranchRetired),
            88 => Some(QueryResponseType::HwSampleBranchMiss),
            89 => Some(QueryResponseType::PlotConfig),
            90 => Some(QueryResponseType::ParamSetup),
            91 => Some(QueryResponseType::AckServerQueryNoop),
            92 => Some(QueryResponseType::AckSourceCodeNotAvailable),
            93 => Some(QueryResponseType::AckSymbolCodeNotAvailable),
            94 => Some(QueryResponseType::CpuTopology),
            95 => Some(QueryResponseType::SingleStringData),
            96 => Some(QueryResponseType::SecondStringData),
            97 => Some(QueryResponseType::MemNamePayload),
            98 => Some(QueryResponseType::StringData),
            99 => Some(QueryResponseType::ThreadName),
            100 => Some(QueryResponseType::PlotName),
            101 => Some(QueryResponseType::SourceLocationPayload),
            102 => Some(QueryResponseType::CallstackPayload),
            103 => Some(QueryResponseType::CallstackAllocPayload),
            104 => Some(QueryResponseType::FrameName),
            105 => Some(QueryResponseType::FrameImageData),
            106 => Some(QueryResponseType::ExternalName),
            107 => Some(QueryResponseType::ExternalThreadName),
            108 => Some(QueryResponseType::SymbolCode),
            109 => Some(QueryResponseType::SourceCode),
            110 => Some(QueryResponseType::FiberName),
            111 => Some(QueryResponseType::NumTypes),
            _ => None,
        }
    }

    pub fn to_u8(&self) -> (r: u8)
        ensures
            r == self.spec_code(),
    {
        match self {
            QueryResponseType::ZoneText => 0,
            QueryResponseType::ZoneName => 1,
            QueryResponseType::Message => 2,
            QueryResponseType::MessageColor => 3,
            QueryResponseType::MessageCallstack => 4,
            QueryResponseType::MessageColorCallstack => 5,
            QueryResponseType::MessageAppInfo => 6,
            QueryResponseType::ZoneBeginAllocSrcLoc => 7,
            QueryResponseType::ZoneBeginAllocSrcLocCallstack => 8,
            QueryResponseType::CallstackSerial => 9,
            QueryResponseType::Callstack => 10,
            QueryResponseType::CallstackAlloc => 11,
            QueryResponseType::CallstackSample => 12,
            QueryResponseType::CallstackSampleContextSwitch => 13,
            QueryResponseType::FrameImage => 14,
            QueryResponseType::ZoneBegin => 15,
            QueryResponseType::ZoneBeginCallstack => 16,
            QueryResponseType::ZoneEnd => 17,
            QueryResponseType::LockWait => 18,
            QueryResponseType::LockObtain => 19,
            QueryResponseType::LockRelease => 20,
            QueryResponseType::LockSharedWait => 21,
            QueryResponseType::LockSharedObtain => 22,
            QueryResponseType::LockSharedRelease => 23,
            QueryResponseType::LockName => 24,
            QueryResponseType::MemAlloc => 25,
            QueryResponseType::MemAllocNamed => 26,
            QueryResponseType::MemFree => 27,
            QueryResponseType::MemFreeNamed => 28,
            QueryResponseType::MemAllocCallstack => 29,
            QueryResponseType::MemAllocCallstackNamed => 30,
            QueryResponseType::MemFreeCallstack => 31,
            QueryResponseType::MemFreeCallstackNamed => 32,
            QueryResponseType::GpuZoneBegin => 33,
            QueryResponseType::GpuZoneBeginCallstack => 34,
            QueryResponseType::GpuZoneBeginAllocSrcLoc => 35,
            QueryResponseType::GpuZoneBeginAllocSrcLocCallstack => 36,
            QueryResponseType::GpuZoneEnd => 37,
            QueryResponseType::GpuZoneBeginSerial => 38,
            QueryResponseType::GpuZoneBeginCallstackSerial => 39,
            QueryResponseType::GpuZoneBeginAllocSrcLocSerial => 40,
            QueryResponseType::GpuZoneBeginAllocSrcLocCallstackSerial => 41,
            QueryResponseType::GpuZoneEndSerial => 42,
            QueryResponseType::PlotDataInt => 43,
            QueryResponseType::PlotDataFloat => 44,
            QueryResponseType::PlotDataDouble => 45,
            QueryResponseType::ContextSwitch => 46,
            QueryResponseType::ThreadWakeup => 47,
            QueryResponseType::GpuTime => 48,
            QueryResponseType::GpuContextName => 49,
            QueryResponseType::CallstackFrameSize => 50,
            QueryResponseType::SymbolInformation => 51,
            QueryResponseType::ExternalNameMetadata => 52,
            QueryResponseType::SymbolCodeMetadata => 53,
            QueryResponseType::SourceCodeMetadata => 54,
            QueryResponseType::FiberEnter => 55,
            QueryResponseType::FiberLeave => 56,
            QueryResponseType::Terminate => 57,
            QueryResponseType::KeepAlive => 58,
            QueryResponseType::ThreadContext => 59,
            QueryResponseType::GpuCalibration => 60,
            QueryResponseType::Crash => 61,
            QueryResponseType::CrashReport => 62,
            QueryResponseType::ZoneValidation => 63,
            QueryResponseType::ZoneColor => 64,
            QueryResponseType::ZoneValue => 65,
            QueryResponseType::FrameMarkMsg => 66,
            QueryResponseType::FrameMarkMsgStart => 67,
            QueryResponseType::FrameMarkMsgEnd => 68,
            QueryResponseType::FrameVsync => 69,
            QueryResponseType::SourceLocation => 70,
            QueryResponseType::LockAnnounce => 71,
            QueryResponseType::LockTerminate => 72,
            QueryResponseType::LockMark => 73,
            QueryResponseType::MessageLiteral => 74,
            QueryResponseType::MessageLiteralColor => 75,
            QueryResponseType::MessageLiteralCallstack => 76,
            QueryResponseType::MessageLiteralColorCallstack => 77,
            QueryResponseType::GpuNewContext => 78,
            QueryResponseType::CallstackFrame => 79,
            QueryResponseType::SysTimeReport => 80,
            QueryResponseType::SysPowerReport => 81,
            QueryResponseType::TidToPid => 82,
            QueryResponseType::HwSampleCpuCycle => 83,
            QueryResponseType::HwSampleInstructionRetired => 84,
            QueryResponseType::HwSampleCacheReference => 85,
            QueryResponseType::HwSampleCacheMiss => 86,
            QueryResponseType::HwSampleBranchRetired => 87,
            QueryResponseType::HwSampleBranchMiss => 88,
            QueryResponseType::PlotConfig => 89,
            QueryResponseType::ParamSetup => 90,
            QueryResponseType::AckServerQueryNoop => 91,
            QueryResponseType::AckSourceCodeNotAvailable => 92,
            QueryResponseType::AckSymbolCodeNotAvailable => 93,
            QueryResponseType::CpuTopology => 94,
            QueryResponseType::SingleStringData => 95,
            QueryResponseType::SecondStringData => 96,
            QueryResponseType::MemNamePayload => 97,
            QueryResponseType::StringData => 98,
            QueryResponseType::ThreadName => 99,
            QueryResponseType::PlotName => 100,
            QueryResponseType::SourceLocationPayload => 101,
            QueryResponseType::CallstackPayload => 102,
            QueryResponseType::CallstackAllocPayload => 103,
            QueryResponseType::FrameName => 104,
            QueryResponseType::FrameImageData => 105,
            QueryResponseType::ExternalName => 106,
            QueryResponseType::ExternalThreadName => 107,
            QueryResponseType::SymbolCode => 108,
            QueryResponseType::SourceCode => 109,
            QueryResponseType::FiberName => 110,
            QueryResponseType::NumTypes => 111,
        }
    }

    pub fn from_u8(b: u8) -> (r: Option<QueryResponseType>)
        ensures
            r == QueryResponseType::spec_from_code(b),
    {
        match b {
            0 => Some(QueryResponseType::ZoneText),
            1 => Some(QueryResponseType::ZoneName),
            2 => Some(QueryResponseType::Message),
            3 => Some(QueryResponseType::MessageColor),
            4 => Some(QueryResponseType::MessageCallstack),
            5 => Some(QueryResponseType::MessageColorCallstack),
            6 => Some(QueryResponseType::MessageAppInfo),
            7 => Some(QueryResponseType::ZoneBeginAllocSrcLoc),
            8 => Some(QueryResponseType::ZoneBeginAllocSrcLocCallstack),
            9 => Some(QueryResponseType::CallstackSerial),
            10 => Some(QueryResponseType::Callstack),
            11 => Some(QueryResponseType::CallstackAlloc),
            12 => Some(QueryResponseType::CallstackSample),
            13 => Some(QueryResponseType::CallstackSampleContextSwitch),
            14 => Some(QueryResponseType::FrameImage),
            15 => Some(QueryResponseType::ZoneBegin),
            16 => Some(QueryResponseType::ZoneBeginCallstack),
            17 => Some(QueryResponseType::ZoneEnd),
            18 => Some(QueryResponseType::LockWait),
            19 => Some(QueryResponseType::LockObtain),
            20 => Some(QueryResponseType::LockRelease),
            21 => Some(QueryResponseType::LockSharedWait),
            22 => Some(QueryResponseType::LockSharedObtain),
            23 => Some(QueryResponseType::LockSharedRelease),
            24 => Some(QueryResponseType::LockName),
            25 => Some(QueryResponseType::MemAlloc),
            26 => Some(QueryResponseType::MemAllocNamed),
            27 => Some(QueryResponseType::MemFree),
            28 => Some(QueryResponseType::MemFreeNamed),
            29 => Some(QueryResponseType::MemAllocCallstack),
            30 => Some(QueryResponseType::MemAllocCallstackNamed),
            31 => Some(QueryResponseType::MemFreeCallstack),
            32 => Some(QueryResponseType::MemFreeCallstackNamed),
            33 => Some(QueryResponseType::GpuZoneBegin),
            34 => Some(QueryResponseType::GpuZoneBeginCallstack),
            35 => Some(QueryResponseType::GpuZoneBeginAllocSrcLoc),
            36 => Some(QueryResponseType::GpuZoneBeginAllocSrcLocCallstack),
            37 => Some(QueryResponseType::GpuZoneEnd),
            38 => Some(QueryResponseType::GpuZoneBeginSerial),
            39 => Some(QueryResponseType::GpuZoneBeginCallstackSerial),
            40 => Some(QueryResponseType::GpuZoneBeginAllocSrcLocSerial),
            41 => Some(QueryResponseType::GpuZoneBeginAllocSrcLocCallstackSerial),
            42 => Some(QueryResponseType::GpuZoneEndSerial),
            43 => Some(QueryResponseType::PlotDataInt),
            44 => Some(QueryResponseType::PlotDataFloat),
            45 => Some(QueryResponseType::PlotDataDouble),
            46 => Some(QueryResponseType::ContextSwitch),
            47 => Some(QueryResponseType::ThreadWakeup),
            48 => Some(QueryResponseType::GpuTime),
            49 => Some(QueryResponseType::GpuContextName),
            50 => Some(QueryResponseType::CallstackFrameSize),
            51 => Some(QueryResponseType::SymbolInformation),
            52 => Some(QueryResponseType::ExternalNameMetadata),
            53 => Some(QueryResponseType::SymbolCodeMetadata),
            54 => Some(QueryResponseType::SourceCodeMetadata),
            55 => Some(QueryResponseType::FiberEnter),
            56 => Some(QueryResponseType::FiberLeave),
            57 => Some(QueryResponseType::Terminate),
            58 => Some(QueryResponseType::KeepAlive),
            59 => Some(QueryResponseType::ThreadContext),
            60 => Some(QueryResponseType::GpuCalibration),
            61 => Some(QueryResponseType::Crash),
            62 => Some(QueryResponseType::CrashReport),
            63 => Some(QueryResponseType::ZoneValidation),
            64 => Some(QueryResponseType::ZoneColor),
            65 => Some(QueryResponseType::ZoneValue),
            66 => Some(QueryResponseType::FrameMarkMsg),
            67 => Some(QueryResponseType::FrameMarkMsgStart),
            68 => Some(QueryResponseType::FrameMarkMsgEnd),
            69 => Some(QueryResponseType::FrameVsync),
            70 => Some(QueryResponseType::SourceLocation),
            71 => Some(QueryResponseType::LockAnnounce),
            72 => Some(QueryResponseType::LockTerminate),
            73 => Some(QueryResponseType::LockMark),
            74 => Some(QueryResponseType::MessageLiteral),
            75 => Some(QueryResponseType::MessageLiteralColor),
            76 => Some(QueryResponseType::MessageLiteralCallstack),
            77 => Some(QueryResponseType::MessageLiteralColorCallstack),
            78 => Some(QueryResponseType::GpuNewContext),
            79 => Some(QueryResponseType::CallstackFrame),
            80 => Some(QueryResponseType::SysTimeReport),
            81 => Some(QueryResponseType::SysPowerReport),
            82 => Some(QueryResponseType::TidToPid),
            83 => Some(QueryResponseType::HwSampleCpuCycle),
            84 => Some(QueryResponseType::HwSampleInstructionRetired),
            85 => Some(QueryResponseType::HwSampleCacheReference),
            86 => Some(QueryResponseType::HwSampleCacheMiss),
            87 => Some(QueryResponseType::HwSampleBranchRetired),
            88 => Some(QueryResponseType::HwSampleBranchMiss),
            89 => Some(QueryResponseType::PlotConfig),
            90 => Some(QueryResponseType::ParamSetup),
            91 => Some(QueryResponseType::AckServerQueryNoop),
            92 => Some(QueryResponseType::AckSourceCodeNotAvailable),
            93 => Some(QueryResponseType::AckSymbolCodeNotAvailable),
            94 => Some(QueryResponseType::CpuTopology),
            95 => Some(QueryResponseType::SingleStringData),
            96 => Some(QueryResponseType::SecondStringData),
            97 => Some(QueryResponseType::MemNamePayload),
            98 => Some(QueryResponseType::StringData),
            99 => Some(QueryResponseType::ThreadName),
            100 => Some(QueryResponseType::PlotName),
            101 => Some(QueryResponseType::SourceLocationPayload),
            102 => Some(QueryResponseType::CallstackPayload),
            103 => Some(QueryResponseType::CallstackAllocPayload),
            104 => Some(QueryResponseType::FrameName),
            105 => Some(QueryResponseType::FrameImageData),
            106 => Some(QueryResponseType::ExternalName),
            107 => Some(QueryResponseType::ExternalThreadName),
            108 => Some(QueryResponseType::SymbolCode),
            109 => Some(QueryResponseType::SourceCode),
            110 => Some(QueryResponseType::FiberName),
            111 => Some(QueryResponseType::NumTypes),
            _ => None,
        }
    }

    /// Each variant is read back from its own byte.
    pub proof fn lemma_code_round_trip(t: QueryResponseType)
        ensures
            QueryResponseType::spec_from_code(t.spec_code()) == Some(t),
    {
    }
}

/// The capture header in the layout the wire protocol sends after a welcome.
/// The timer multiplier is held as its IEEE-754 bit pattern.
#[derive(Clone, Copy, Debug, PartialEq, Eq)]
pub struct NetworkHeader {
    pub multiplier_bits: u64,
    pub init_begin: u64,
    pub init_end: u64,
    pub delay: u64,
    pub resolution: u64,
    pub epoch: u64,
    pub exec_time: u64,
    pub process_id: u64,
    pub sampling_period: u64,
    pub flags: u8,
    pub cpu_arch: u8,
    pub cpu_manufacturer: [u8; 12],
    pub cpu_id: u32,
    pub program_name: [u8; 64],
    pub host_info: [u8; 1024],
}

impl NetworkHeader {
    /// The canonical bytes of the record.
    #[verifier::opaque]
    pub open spec fn spec_bytes(&self) -> Seq<u8> {
        le_u64(self.multiplier_bits)
            + le_u64(self.init_begin)
            + le_u64(self.init_end)
            + le_u64(self.delay)
            + le_u64(self.resolution)
            + le_u64(self.epoch)
            + le_u64(self.exec_time)
            + le_u64(self.process_id)
            + le_u64(self.sampling_period)
            + seq![self.flags]
            + seq![self.cpu_arch]
            + self.cpu_manufacturer@
            + le_u32(self.cpu_id)
            + self.program_name@
            + self.host_info@
    }

    /// The record whose bytes start at `i` of `s`.
    pub open spec fn spec_read(s: Seq<u8>, i: int) -> NetworkHeader {
        NetworkHeader {
            multiplier_bits: u64_at(s, i + 0),
            init_begin: u64_at(s, i + 8),
            init_end: u64_at(s, i + 16),
            delay: u64_at(s, i + 24),
            resolution: u64_at(s, i + 32),
            epoch: u64_at(s, i + 40),
            exec_time: u64_at(s, i + 48),
            process_id: u64_at(s, i + 56),
            sampling_period: u64_at(s, i + 64),
            flags: s[i + 72],
            cpu_arch: s[i + 73],
            cpu_manufacturer: array_of::<12>(s.subrange(i + 74, i + 86)),
            cpu_id: u32_at(s, i + 86),
            program_name: array_of::<64>(s.subrange(i + 90, i + 154)),
            host_info: array_of::<1024>(s.subrange(i + 154, i + 1178)),
        }
    }

    /// Decodes the record at the start of `s`.
    pub open spec fn spec_parse(s: Seq<u8>) -> Result<NetworkHeader, DecodeError> {
        if s.len() < 1178 {
            Err(DecodeError::UnexpectedEnd { record: "NetworkHeader" })
        } else {
            Ok(NetworkHeader::spec_read(s, 0))
        }
    }

    /// Appends the record's bytes.
    pub fn encode(&self, out: &mut Vec<u8>)
        ensures
            final(out)@ == old(out)@ + self.spec_bytes(),
    {
        reveal(NetworkHeader::spec_bytes);
        push_u64(out, self.multiplier_bits);
        push_u64(out, self.init_begin);
        push_u64(out, self.init_end);
        push_u64(out, self.delay);
        push_u64(out, self.resolution);
        push_u64(out, self.epoch);
        push_u64(out, self.exec_time);
        push_u64(out, self.process_id);
        push_u64(out, self.sampling_period);
        push_u8(out, self.flags);
        push_u8(out, self.cpu_arch);
        push_bytes(out, self.cpu_manufacturer.as_slice());
        push_u32(out, self.cpu_id);
        push_bytes(out, self.program_name.as_slice());
        push_bytes(out, self.host_info.as_slice());
        assert(final(out)@ =~= old(out)@ + self.spec_bytes());
    }

    /// Reads the record whose bytes start at `i`.
    pub fn read(data: &[u8], i: usize) -> (r: NetworkHeader)
        requires
            i + 1178 <= data@.len(),
        ensures
            r == NetworkHeader::spec_read(data@, i as int),
    {
        let len = data.len();
        assert(i + 1178 <= len);
        let multiplier_bits = get_u64(data, i + 0);
        let init_begin = get_u64(data, i + 8);
        let init_end = get_u64(data, i + 16);
        let delay = get_u64(data, i + 24);
        let resolution = get_u64(data, i + 32);
        let epoch = get_u64(data, i + 40);
        let exec_time = get_u64(data, i + 48);
        let process_id = get_u64(data, i + 56);
        let sampling_period = get_u64(data, i + 64);
        let flags = data[i + 72];
        let cpu_arch = data[i + 73];
        let cpu_manufacturer: [u8; 12] = get_array(data, i + 74);
        proof { lemma_array_of(cpu_manufacturer); }
        let cpu_id = get_u32(data, i + 86);
        let program_name: [u8; 64] = get_array(data, i + 90);
        proof { lemma_array_of(program_name); }
        let host_info: [u8; 1024] = get_array(data, i + 154);
        proof { lemma_array_of(host_info); }
        NetworkHeader { multiplier_bits, init_begin, init_end, delay, resolution, epoch, exec_time, process_id, sampling_period, flags, cpu_arch, cpu_manufacturer, cpu_id, program_name, host_info }
    }

    /// Decodes the record that starts at `pos`.
    pub fn decode(data: &[u8], pos: usize) -> (r: Result<NetworkHeader, DecodeError>)
        ensures
            r == NetworkHeader::spec_parse(tail(data@, pos as int)),
    {
        let len = data.len();
        let ghost s = tail(data@, pos as int);
        if pos > len || len - pos < 1178 {
            return Err(DecodeError::UnexpectedEnd { record: "NetworkHeader" });
        }
        let r = NetworkHeader::read(data, pos);
        proof { NetworkHeader::lemma_read_shift(data@, pos as int); }
        Ok(r)
    }

    /// Reading at `pos` is reading at the start of what follows `pos`.
    pub proof fn lemma_read_shift(s: Seq<u8>, pos: int)
        requires
            0 <= pos, pos + 1178 <= s.len(),
        ensures
            NetworkHeader::spec_read(s, pos) == NetworkHeader::spec_read(tail(s, pos), 0),
    {
        let t = tail(s, pos);
        assert(s.subrange(pos + 74, pos + 86) =~= t.subrange(74, 86));
        assert(s.subrange(pos + 90, pos + 154) =~= t.subrange(90, 154));
        assert(s.subrange(pos + 154, pos + 1178) =~= t.subrange(154, 1178));
    }

    #[verifier::spinoff_prover]
    #[verifier::rlimit(100)]
    proof fn lemma_read_part0(v: NetworkHeader, s: Seq<u8>, i: int)
        requires
            0 <= i, i + 1178 <= s.len(),
            s.subrange(i, i + 1178) == v.spec_bytes(),
        ensures
            NetworkHeader::spec_read(s, i).multiplier_bits == v.multiplier_bits,
            NetworkHeader::spec_read(s, i).init_begin == v.init_begin,
    {
        reveal(NetworkHeader::spec_bytes);
        let b = v.spec_bytes();
        assert(s.subrange(i + 0, i + 8) =~= b.subrange(0, 8));
        assert(b.subrange(0, 8) =~= le_u64(v.multiplier_bits));
        lemma_u64_round_trip(v.multiplier_bits, s, i + 0);
        assert(s.subrange(i + 8, i + 16) =~= b.subrange(8, 16));
        assert(b.subrange(8, 16) =~= le_u64(v.init_begin));
        lemma_u64_round_trip(v.init_begin, s, i + 8);
    }

    #[verifier::spinoff_prover]
    #[verifier::rlimit(100)]
    proof fn lemma_read_part1(v: NetworkHeader, s: Seq<u8>, i: int)
        requires
            0 <= i, i + 1178 <= s.len(),
            s.subrange(i, i + 1178) == v.spec_bytes(),
        ensures
            NetworkHeader::spec_read(s, i).init_end == v.init_end,
            NetworkHeader::spec_read(s, i).delay == v.delay,
    {
        reveal(NetworkHeader::spec_bytes);
        let b = v.spec_bytes();
        assert(s.subrange(i + 16, i + 24) =~= b.subrange(16, 24));
        assert(b.subrange(16, 24) =~= le_u64(v.init_end));
        lemma_u64_round_trip(v.init_end, s, i + 16);
        assert(s.subrange(i + 24, i + 32) =~= b.subrange(24, 32));
        assert(b.subrange(24, 32) =~= le_u64(v.delay));
        lemma_u64_round_trip(v.delay, s, i + 24);
    }

    #[verifier::spinoff_prover]
    #[verifier::rlimit(100)]
    proof fn lemma_read_part2(v: NetworkHeader, s: Seq<u8>, i: int)
        requires
            0 <= i, i + 1178 <= s.len(),
            s.subrange(i, i + 1178) == v.spec_bytes(),
        ensures
            NetworkHeader::spec_read(s, i).resolution == v.resolution,
            NetworkHeader::spec_read(s, i).epoch == v.epoch,
    {
        reveal(NetworkHeader::spec_bytes);
        let b = v.spec_bytes();
        assert(s.subrange(i + 32, i + 40) =~= b.subrange(32, 40));
        assert(b.subrange(32, 40) =~= le_u64(v.resolution));
        lemma_u64_round_trip(v.resolution, s, i + 32);
        assert(s.subrange(i + 40, i + 48) =~= b.subrange(40, 48));
        assert(b.subrange(40, 48) =~= le_u64(v.epoch));
        lemma_u64_round_trip(v.epoch, s, i + 40);
    }

    #[verifier::spinoff_prover]
    #[verifier::rlimit(100)]
    proof fn lemma_read_part3(v: NetworkHeader, s: Seq<u8>, i: int)
        requires
            0 <= i, i + 1178 <= s.len(),
            s.subrange(i, i + 1178) == v.spec_bytes(),
        ensures
            NetworkHeader::spec_read(s, i).exec_time == v.exec_time,
            NetworkHeader::spec_read(s, i).process_id == v.process_id,
    {
        reveal(NetworkHeader::spec_bytes);
        let b = v.spec_bytes();
        assert(s.subrange(i + 48, i + 56) =~= b.subrange(48, 56));
        assert(b.subrange(48, 56) =~= le_u64(v.exec_time));
        lemma_u64_round_trip(v.exec_time, s, i + 48);
        assert(s.subrange(i + 56, i + 64) =~= b.subrange(56, 64));
        assert(b.subrange(56, 64) =~= le_u64(v.process_id));
        lemma_u64_round_trip(v.process_id, s, i + 56);
    }

    #[verifier::spinoff_prover]
    #[verifier::rlimit(100)]
    proof fn lemma_read_part4(v: NetworkHeader, s: Seq<u8>, i: int)
        requires
            0 <= i, i + 1178 <= s.len(),
            s.subrange(i, i + 1178) == v.spec_bytes(),
        ensures
            NetworkHeader::spec_read(s, i).sampling_period == v.sampling_period,
            NetworkHeader::spec_read(s, i).flags == v.flags,
    {
        reveal(NetworkHeader::spec_bytes);
        let b = v.spec_bytes();
        assert(s.subrange(i + 64, i + 72) =~= b.subrange(64, 72));
        assert(b.subrange(64, 72) =~= le_u64(v.sampling_period));
        lemma_u64_round_trip(v.sampling_period, s, i + 64);
        assert(s.subrange(i + 72, i + 73) =~= b.subrange(72, 73));
        assert(b.subrange(72, 73) =~= seq![v.flags]);
        assert(s[i + 72] == s.subrange(i + 72, i + 73)[0]);
    }

    #[verifier::spinoff_prover]
    #[verifier::rlimit(100)]
    proof fn lemma_read_part5(v: NetworkHeader, s: Seq<u8>, i: int)
        requires
            0 <= i, i + 1178 <= s.len(),
            s.subrange(i, i + 1178) == v.spec_bytes(),
        ensures
            NetworkHeader::spec_read(s, i).cpu_arch == v.cpu_arch,
            NetworkHeader::spec_read(s, i).cpu_manufacturer == v.cpu_manufacturer,
    {
        reveal(NetworkHeader::spec_bytes);
        let b = v.spec_bytes();
        assert(s.subrange(i + 73, i + 74) =~= b.subrange(73, 74));
        assert(b.subrange(73, 74) =~= seq![v.cpu_arch]);
        assert(s[i + 73] == s.subrange(i + 73, i + 74)[0]);
        assert(s.subrange(i + 74, i + 86) =~= b.subrange(74, 86));
        assert(b.subrange(74, 86) =~= v.cpu_manufacturer@);
        lemma_array_of(v.cpu_manufacturer);
    }

    #[verifier::spinoff_prover]
    #[verifier::rlimit(100)]
    proof fn lemma_read_part6(v: NetworkHeader, s: Seq<u8>, i: int)
        requires
            0 <= i, i + 1178 <= s.len(),
            s.subrange(i, i + 1178) == v.spec_bytes(),
        ensures
            NetworkHeader::spec_read(s, i).cpu_id == v.cpu_id,
            NetworkHeader::spec_read(s, i).program_name == v.program_name,
    {
        reveal(NetworkHeader::spec_bytes);
        let b = v.spec_bytes();
        assert(s.subrange(i + 86, i + 90) =~= b.subrange(86, 90));
        assert(b.subrange(86, 90) =~= le_u32(v.cpu_id));
        lemma_u32_round_trip(v.cpu_id, s, i + 86);
        assert(s.subrange(i + 90, i + 154) =~= b.subrange(90, 154));
        assert(b.subrange(90, 154) =~= v.program_name@);
        lemma_array_of(v.program_name);
    }

    #[verifier::spinoff_prover]
    #[verifier::rlimit(100)]
    proof fn lemma_read_part7(v: NetworkHeader, s: Seq<u8>, i: int)
        requires
            0 <= i, i + 1178 <= s.len(),
            s.subrange(i, i + 1178) == v.spec_bytes(),
        ensures
            NetworkHeader::spec_read(s, i).host_info == v.host_info,
    {
        reveal(NetworkHeader::spec_bytes);
        let b = v.spec_bytes();
        assert(s.subrange(i + 154, i + 1178) =~= b.subrange(154, 1178));
        assert(b.subrange(154, 1178) =~= v.host_info@);
        lemma_array_of(v.host_info);
    }

    /// Reading back the canonical bytes of a record gives the record.
    pub proof fn lemma_read(v: NetworkHeader, s: Seq<u8>, i: int)
        requires
            0 <= i, i + 1178 <= s.len(),
            s.subrange(i, i + 1178) == v.spec_bytes(),
        ensures
            NetworkHeader::spec_read(s, i) == v,
    {
        NetworkHeader::lemma_read_part0(v, s, i);
        NetworkHeader::lemma_read_part1(v, s, i);
        NetworkHeader::lemma_read_part2(v, s, i);
        NetworkHeader::lemma_read_part3(v, s, i);
        NetworkHeader::lemma_read_part4(v, s, i);
        NetworkHeader::lemma_read_part5(v, s, i);
        NetworkHeader::lemma_read_part6(v, s, i);
        NetworkHeader::lemma_read_part7(v, s, i);
    }

    proof fn lemma_bytes_len(v: NetworkHeader)
        ensures
            v.spec_bytes().len() == 1178,
    {
        reveal(NetworkHeader::spec_bytes);
    }

    /// Decoding the canonical bytes of a record, followed by anything, gives
    /// the record back.
    #[verifier::spinoff_prover]
    #[verifier::rlimit(100)]
    pub proof fn lemma_round_trip(v: NetworkHeader, rest: Seq<u8>)
        ensures
            NetworkHeader::spec_parse(v.spec_bytes() + rest) == Ok::<NetworkHeader, DecodeError>(v),
    {
        let s = v.spec_bytes() + rest;
        NetworkHeader::lemma_bytes_len(v);
        assert(s.subrange(0, 1178) =~= v.spec_bytes());
        NetworkHeader::lemma_read(v, s, 0);
    }
}

/// A query record sent by the client.
#[derive(Clone, Copy, Debug, PartialEq, Eq)]
pub struct NetworkQuery {
    pub query_type: ServerQueryType,
    pub pointer: u64,
    pub extra: u32,
}

impl NetworkQuery {
    /// The canonical bytes of the record.
    pub open spec fn spec_bytes(&self) -> Seq<u8> {
        seq![self.query_type.spec_code()]
            + le_u64(self.pointer)
            + le_u32(self.extra)
    }

    /// The record whose bytes start at `i` of `s`.
    pub open spec fn spec_read(query_type: ServerQueryType, s: Seq<u8>, i: int) -> NetworkQuery {
        NetworkQuery {
            query_type: query_type,
            pointer: u64_at(s, i + 1),
            extra: u32_at(s, i + 9),
        }
    }

    /// Decodes the record at the start of `s`.
    pub open spec fn spec_parse(s: Seq<u8>) -> Result<NetworkQuery, DecodeError> {
        if s.len() < 1 {
            Err(DecodeError::UnexpectedEnd { record: "NetworkQuery" })
        } else {
            match ServerQueryType::spec_from_code(s[0]) {
                None => Err(DecodeError::UnexpectedVariant { record: "ServerQueryType", found: s[0] as u32 }),
                Some(t) => if s.len() < 13 {
                    Err(DecodeError::UnexpectedEnd { record: "NetworkQuery" })
                } else {
                    Ok(NetworkQuery::spec_read(t, s, 0))
                },
            }
        }
    }

    /// Appends the record's bytes.
    pub fn encode(&self, out: &mut Vec<u8>)
        ensures
            final(out)@ == old(out)@ + self.spec_bytes(),
    {
        push_u8(out, self.query_type.to_u8());
        push_u64(out, self.pointer);
        push_u32(out, self.extra);
        assert(final(out)@ =~= old(out)@ + self.spec_bytes());
    }

    /// Reads the record whose bytes start at `i`.
    pub fn read(query_type: ServerQueryType, data: &[u8], i: usize) -> (r: NetworkQuery)
        requires
            i + 13 <= data@.len(),
        ensures
            r == NetworkQuery::spec_read(query_type, data@, i as int),
    {
        let len = data.len();
        assert(i + 13 <= len);
        let pointer = get_u64(data, i + 1);
        let extra = get_u32(data, i + 9);
        NetworkQuery { query_type, pointer, extra }
    }

    /// Decodes the record that starts at `pos`.
    pub fn decode(data: &[u8], pos: usize) -> (r: Result<NetworkQuery, DecodeError>)
        ensures
            r == NetworkQuery::spec_parse(tail(data@, pos as int)),
    {
        let len = data.len();
        let ghost s = tail(data@, pos as int);
        if pos >= len {
            return Err(DecodeError::UnexpectedEnd { record: "NetworkQuery" });
        }
        let code = data[pos];
        assert(code == s[0]);
        match ServerQueryType::from_u8(code) {
            None => Err(DecodeError::UnexpectedVariant { record: "ServerQueryType", found: code as u32 }),
            Some(t) => {
                if len - pos < 13 {
                    return Err(DecodeError::UnexpectedEnd { record: "NetworkQuery" });
                }
                let r = NetworkQuery::read(t, data, pos);
                proof { NetworkQuery::lemma_read_shift(t, data@, pos as int); }
                Ok(r)
            },
        }
    }

    /// Reading at `pos` is reading at the start of what follows `pos`.
    pub proof fn lemma_read_shift(query_type: ServerQueryType, s: Seq<u8>, pos: int)
        requires
            0 <= pos, pos + 13 <= s.len(),
        ensures
            NetworkQuery::spec_read(query_type, s, pos) == NetworkQuery::spec_read(query_type, tail(s, pos), 0),
    {
        let t = tail(s, pos);
    }

    /// Reading back the canonical bytes of a record gives the record.
    pub proof fn lemma_read(v: NetworkQuery, s: Seq<u8>, i: int)
        requires
            0 <= i, i + 13 <= s.len(),
            s.subrange(i, i + 13) == v.spec_bytes(),
        ensures
            NetworkQuery::spec_read(v.query_type, s, i) == v,
    {
        let b = v.spec_bytes();
        assert(b.len() == 13);
        assert(s.subrange(i + 1, i + 9) =~= b.subrange(1, 9));
        assert(b.subrange(1, 9) =~= le_u64(v.pointer));
        lemma_u64_round_trip(v.pointer, s, i + 1);
        assert(s.subrange(i + 9, i + 13) =~= b.subrange(9, 13));
        assert(b.subrange(9, 13) =~= le_u32(v.extra));
        lemma_u32_round_trip(v.extra, s, i + 9);
    }

    /// Decoding the canonical bytes of a record, followed by anything, gives
    /// the record back.
    pub proof fn lemma_round_trip(v: NetworkQuery, rest: Seq<u8>)
        ensures
            NetworkQuery::spec_parse(v.spec_bytes() + rest) == Ok::<NetworkQuery, DecodeError>(v),
    {
        let s = v.spec_bytes() + rest;
        assert(s.subrange(0, 13) =~= v.spec_bytes());
        ServerQueryType::lemma_code_round_trip(v.query_type);
        assert(s[0] == v.query_type.spec_code());
        NetworkQuery::lemma_read(v, s, 0);
    }
}

/// Zone-begin response; the timestamp is a delta.
#[derive(Clone, Copy, Debug, PartialEq, Eq)]
pub struct NetworkZoneBegin {
    pub query_type: QueryResponseType,
    pub timestamp: u64,
    pub source_location: u64,
}

impl NetworkZoneBegin {
    /// The canonical bytes of the record.
    pub open spec fn spec_bytes(&self) -> Seq<u8> {
        seq![self.query_type.spec_code()]
            + le_u64(self.timestamp)
            + le_u64(self.source_location)
    }

    /// The record whose bytes start at `i` of `s`.
    pub open spec fn spec_read(query_type: QueryResponseType, s: Seq<u8>, i: int) -> NetworkZoneBegin {
        NetworkZoneBegin {
            query_type: query_type,
            timestamp: u64_at(s, i + 1),
            source_location: u64_at(s, i + 9),
        }
    }

    /// Decodes the record at the start of `s`.
    pub open spec fn spec_parse(s: Seq<u8>) -> Result<NetworkZoneBegin, DecodeError> {
        if s.len() < 1 {
            Err(DecodeError::UnexpectedEnd { record: "NetworkZoneBegin" })
        } else {
            match QueryResponseType::spec_from_code(s[0]) {
                None => Err(DecodeError::UnexpectedVariant { record: "QueryResponseType", found: s[0] as u32 }),
                Some(t) => if s.len() < 17 {
                    Err(DecodeError::UnexpectedEnd { record: "NetworkZoneBegin" })
                } else {
                    Ok(NetworkZoneBegin::spec_read(t, s, 0))
                },
            }
        }
    }

    /// Appends the record's bytes.
    pub fn encode(&self, out: &mut Vec<u8>)
        ensures
            final(out)@ == old(out)@ + self.spec_bytes(),
    {
        push_u8(out, self.query_type.to_u8());
        push_u64(out, self.timestamp);
        push_u64(out, self.source_location);
        assert(final(out)@ =~= old(out)@ + self.spec_bytes());
    }

    /// Reads the record whose bytes start at `i`.
    pub fn read(query_type: QueryResponseType, data: &[u8], i: usize) -> (r: NetworkZoneBegin)
        requires
            i + 17 <= data@.len(),
        ensures
            r == NetworkZoneBegin::spec_read(query_type, data@, i as int),
    {
        let len = data.len();
        assert(i + 17 <= len);
        let timestamp = get_u64(data, i + 1);
        let source_location = get_u64(data, i + 9);
        NetworkZoneBegin { query_type, timestamp, source_location }
    }

    /// Decodes the record that starts at `pos`.
    pub fn decode(data: &[u8], pos: usize) -> (r: Result<NetworkZoneBegin, DecodeError>)
        ensures
            r == NetworkZoneBegin::spec_parse(tail(data@, pos as int)),
    {
        let len = data.len();
        let ghost s = tail(data@, pos as int);
        if pos >= len {
            return Err(DecodeError::UnexpectedEnd { record: "NetworkZoneBegin" });
        }
        let code = data[pos];
        assert(code == s[0]);
        match QueryResponseType::from_u8(code) {
            None => Err(DecodeError::UnexpectedVariant { record: "QueryResponseType", found: code as u32 }),
            Some(t) => {
                if len - pos < 17 {
                    return Err(DecodeError::UnexpectedEnd { record: "NetworkZoneBegin" });
                }
                let r = NetworkZoneBegin::read(t, data, pos);
                proof { NetworkZoneBegin::lemma_read_shift(t, data@, pos as int); }
                Ok(r)
            },
        }
    }

    /// Reading at `pos` is reading at the start of what follows `pos`.
    pub proof fn lemma_read_shift(query_type: QueryResponseType, s: Seq<u8>, pos: int)
        requires
            0 <= pos, pos + 17 <= s.len(),
        ensures
            NetworkZoneBegin::spec_read(query_type, s, pos) == NetworkZoneBegin::spec_read(query_type, tail(s, pos), 0),
    {
        let t = tail(s, pos);
    }

    /// Reading back the canonical bytes of a record gives the record.
    pub proof fn lemma_read(v: NetworkZoneBegin, s: Seq<u8>, i: int)
        requires
            0 <= i, i + 17 <= s.len(),
            s.subrange(i, i + 17) == v.spec_bytes(),
        ensures
            NetworkZoneBegin::spec_read(v.query_type, s, i) == v,
    {
        let b = v.spec_bytes();
        assert(b.len() == 17);
        assert(s.subrange(i + 1, i + 9) =~= b.subrange(1, 9));
        assert(b.subrange(1, 9) =~= le_u64(v.timestamp));
        lemma_u64_round_trip(v.timestamp, s, i + 1);
        assert(s.subrange(i + 9, i + 17) =~= b.subrange(9, 17));
        assert(b.subrange(9, 17) =~= le_u64(v.source_location));
        lemma_u64_round_trip(v.source_location, s, i + 9);
    }

    /// Decoding the canonical bytes of a record, followed by anything, gives
    /// the record back.
    pub proof fn lemma_round_trip(v: NetworkZoneBegin, rest: Seq<u8>)
        ensures
            NetworkZoneBegin::spec_parse(v.spec_bytes() + rest) == Ok::<NetworkZoneBegin, DecodeError>(v),
    {
        let s = v.spec_bytes() + rest;
        assert(s.subrange(0, 17) =~= v.spec_bytes());
        QueryResponseType::lemma_code_round_trip(v.query_type);
        assert(s[0] == v.query_type.spec_code());
        NetworkZoneBegin::lemma_read(v, s, 0);
    }
}

/// Zone-end response; the timestamp is a delta.
#[derive(Clone, Copy, Debug, PartialEq, Eq)]
pub struct NetworkZoneEnd {
    pub query_type: QueryResponseType,
    pub timestamp: u64,
}

impl NetworkZoneEnd {
    /// The canonical bytes of the record.
    pub open spec fn spec_bytes(&self) -> Seq<u8> {
        seq![self.query_type.spec_code()]
            + le_u64(self.timestamp)
    }

    /// The record whose bytes start at `i` of `s`.
    pub open spec fn spec_read(query_type: QueryResponseType, s: Seq<u8>, i: int) -> NetworkZoneEnd {
        NetworkZoneEnd {
            query_type: query_type,
            timestamp: u64_at(s, i + 1),
        }
    }

    /// Decodes the record at the start of `s`.
    pub open spec fn spec_parse(s: Seq<u8>) -> Result<NetworkZoneEnd, DecodeError> {
        if s.len() < 1 {
            Err(DecodeError::UnexpectedEnd { record: "NetworkZoneEnd" })
        } else {
            match QueryResponseType::spec_from_code(s[0]) {
                None => Err(DecodeError::UnexpectedVariant { record: "QueryResponseType", found: s[0] as u32 }),
                Some(t) => if s.len() < 9 {
                    Err(DecodeError::UnexpectedEnd { record: "NetworkZoneEnd" })
                } else {
                    Ok(NetworkZoneEnd::spec_read(t, s, 0))
                },
            }
        }
    }

    /// Appends the record's bytes.
    pub fn encode(&self, out: &mut Vec<u8>)
        ensures
            final(out)@ == old(out)@ + self.spec_bytes(),
    {
        push_u8(out, self.query_type.to_u8());
        push_u64(out, self.timestamp);
        assert(final(out)@ =~= old(out)@ + self.spec_bytes());
    }

    /// Reads the record whose bytes start at `i`.
    pub fn read(query_type: QueryResponseType, data: &[u8], i: usize) -> (r: NetworkZoneEnd)
        requires
            i + 9 <= data@.len(),
        ensures
            r == NetworkZoneEnd::spec_read(query_type, data@, i as int),
    {
        let len = data.len();
        assert(i + 9 <= len);
        let timestamp = get_u64(data, i + 1);
        NetworkZoneEnd { query_type, timestamp }
    }

    /// Decodes the record that starts at `pos`.
    pub fn decode(data: &[u8], pos: usize) -> (r: Result<NetworkZoneEnd, DecodeError>)
        ensures
            r == NetworkZoneEnd::spec_parse(tail(data@, pos as int)),
    {
        let len = data.len();
        let ghost s = tail(data@, pos as int);
        if pos >= len {
            return Err(DecodeError::UnexpectedEnd { record: "NetworkZoneEnd" });
        }
        let code = data[pos];
        assert(code == s[0]);
        match QueryResponseType::from_u8(code) {
            None => Err(DecodeError::UnexpectedVariant { record: "QueryResponseType", found: code as u32 }),
            Some(t) => {
                if len - pos < 9 {
                    return Err(DecodeError::UnexpectedEnd { record: "NetworkZoneEnd" });
                }
                let r = NetworkZoneEnd::read(t, data, pos);
                proof { NetworkZoneEnd::lemma_read_shift(t, data@, pos as int); }
                Ok(r)
            },
        }
    }

    /// Reading at `pos` is reading at the start of what follows `pos`.
    pub proof fn lemma_read_shift(query_type: QueryResponseType, s: Seq<u8>, pos: int)
        requires
            0 <= pos, pos + 9 <= s.len(),
        ensures
            NetworkZoneEnd::spec_read(query_type, s, pos) == NetworkZoneEnd::spec_read(query_type, tail(s, pos), 0),
    {
        let t = tail(s, pos);
    }

    /// Reading back the canonical bytes of a record gives the record.
    pub proof fn lemma_read(v: NetworkZoneEnd, s: Seq<u8>, i: int)
        requires
            0 <= i, i + 9 <= s.len(),
            s.subrange(i, i + 9) == v.spec_bytes(),
        ensures
            NetworkZoneEnd::spec_read(v.query_type, s, i) == v,
    {
        let b = v.spec_bytes();
        assert(b.len() == 9);
        assert(s.subrange(i + 1, i + 9) =~= b.subrange(1, 9));
        assert(b.subrange(1, 9) =~= le_u64(v.timestamp));
        lemma_u64_round_trip(v.timestamp, s, i + 1);
    }

    /// Decoding the canonical bytes of a record, followed by anything, gives
    /// the record back.
    pub proof fn lemma_round_trip(v: NetworkZoneEnd, rest: Seq<u8>)
        ensures
            NetworkZoneEnd::spec_parse(v.spec_bytes() + rest) == Ok::<NetworkZoneEnd, DecodeError>(v),
    {
        let s = v.spec_bytes() + rest;
        assert(s.subrange(0, 9) =~= v.spec_bytes());
        QueryResponseType::lemma_code_round_trip(v.query_type);
        assert(s[0] == v.query_type.spec_code());
        NetworkZoneEnd::lemma_read(v, s, 0);
    }
}

/// Zone-color response.
#[derive(Clone, Copy, Debug, PartialEq, Eq)]
pub struct NetworkZoneColor {
    pub query_type: QueryResponseType,
    pub color_r: u8,
    pub color_g: u8,
    pub color_b: u8,
}

impl NetworkZoneColor {
    /// The canonical bytes of the record.
    pub open spec fn spec_bytes(&self) -> Seq<u8> {
        seq![self.query_type.spec_code()]
            + seq![self.color_r]
            + seq![self.color_g]
            + seq![self.color_b]
    }

    /// The record whose bytes start at `i` of `s`.
    pub open spec fn spec_read(query_type: QueryResponseType, s: Seq<u8>, i: int) -> NetworkZoneColor {
        NetworkZoneColor {
            query_type: query_type,
            color_r: s[i + 1],
            color_g: s[i + 2],
            color_b: s[i + 3],
        }
    }

    /// Decodes the record at the start of `s`.
    pub open spec fn spec_parse(s: Seq<u8>) -> Result<NetworkZoneColor, DecodeError> {
        if s.len() < 1 {
            Err(DecodeError::UnexpectedEnd { record: "NetworkZoneColor" })
        } else {
            match QueryResponseType::spec_from_code(s[0]) {
                None => Err(DecodeError::UnexpectedVariant { record: "QueryResponseType", found: s[0] as u32 }),
                Some(t) => if s.len() < 4 {
                    Err(DecodeError::UnexpectedEnd { record: "NetworkZoneColor" })
                } else {
                    Ok(NetworkZoneColor::spec_read(t, s, 0))
                },
            }
        }
    }

    /// Appends the record's bytes.
    pub fn encode(&self, out: &mut Vec<u8>)
        ensures
            final(out)@ == old(out)@ + self.spec_bytes(),
    {
        push_u8(out, self.query_type.to_u8());
        push_u8(out, self.color_r);
        push_u8(out, self.color_g);
        push_u8(out, self.color_b);
        assert(final(out)@ =~= old(out)@ + self.spec_bytes());
    }

    /// Reads the record whose bytes start at `i`.
    pub fn read(query_type: QueryResponseType, data: &[u8], i: usize) -> (r: NetworkZoneColor)
        requires
            i + 4 <= data@.len(),
        ensures
            r == NetworkZoneColor::spec_read(query_type, data@, i as int),
    {
        let len = data.len();
        assert(i + 4 <= len);
        let color_r = data[i + 1];
        let color_g = data[i + 2];
        let color_b = data[i + 3];
        NetworkZoneColor { query_type, color_r, color_g, color_b }
    }

    /// Decodes the record that starts at `pos`.
    pub fn decode(data: &[u8], pos: usize) -> (r: Result<NetworkZoneColor, DecodeError>)
        ensures
            r == NetworkZoneColor::spec_parse(tail(data@, pos as int)),
    {
        let len = data.len();
        let ghost s = tail(data@, pos as int);
        if pos >= len {
            return Err(DecodeError::UnexpectedEnd { record: "NetworkZoneColor" });
        }
        let code = data[pos];
        assert(code == s[0]);
        match QueryResponseType::from_u8(code) {
            None => Err(DecodeError::UnexpectedVariant { record: "QueryResponseType", found: code as u32 }),
            Some(t) => {
                if len - pos < 4 {
                    return Err(DecodeError::UnexpectedEnd { record: "NetworkZoneColor" });
                }
                let r = NetworkZoneColor::read(t, data, pos);
                proof { NetworkZoneColor::lemma_read_shift(t, data@, pos as int); }
                Ok(r)
            },
        }
    }

    /// Reading at `pos` is reading at the start of what follows `pos`.
    pub proof fn lemma_read_shift(query_type: QueryResponseType, s: Seq<u8>, pos: int)
        requires
            0 <= pos, pos + 4 <= s.len(),
        ensures
            NetworkZoneColor::spec_read(query_type, s, pos) == NetworkZoneColor::spec_read(query_type, tail(s, pos), 0),
    {
        let t = tail(s, pos);
    }

    /// Reading back the canonical bytes of a record gives the record.
    pub proof fn lemma_read(v: NetworkZoneColor, s: Seq<u8>, i: int)
        requires
            0 <= i, i + 4 <= s.len(),
            s.subrange(i, i + 4) == v.spec_bytes(),
        ensures
            NetworkZoneColor::spec_read(v.query_type, s, i) == v,
    {
        let b = v.spec_bytes();
        assert(b.len() == 4);
        assert(s.subrange(i + 1, i + 2) =~= b.subrange(1, 2));
        assert(b.subrange(1, 2) =~= seq![v.color_r]);
        assert(s[i + 1] == s.subrange(i + 1, i + 2)[0]);
        assert(s.subrange(i + 2, i + 3) =~= b.subrange(2, 3));
        assert(b.subrange(2, 3) =~= seq![v.color_g]);
        assert(s[i + 2] == s.subrange(i + 2, i + 3)[0]);
        assert(s.subrange(i + 3, i + 4) =~= b.subrange(3, 4));
        assert(b.subrange(3, 4) =~= seq![v.color_b]);
        assert(s[i + 3] == s.subrange(i + 3, i + 4)[0]);
    }

    /// Decoding the canonical bytes of a record, followed by anything, gives
    /// the record back.
    pub proof fn lemma_round_trip(v: NetworkZoneColor, rest: Seq<u8>)
        ensures
            NetworkZoneColor::spec_parse(v.spec_bytes() + rest) == Ok::<NetworkZoneColor, DecodeError>(v),
    {
        let s = v.spec_bytes() + rest;
        assert(s.subrange(0, 4) =~= v.spec_bytes());
        QueryResponseType::lemma_code_round_trip(v.query_type);
        assert(s[0] == v.query_type.spec_code());
        NetworkZoneColor::lemma_read(v, s, 0);
    }
}

/// Frame-mark response; the timestamp is absolute.
#[derive(Clone, Copy, Debug, PartialEq, Eq)]
pub struct NetworkFrameMark {
    pub query_type: QueryResponseType,
    pub timestamp: u64,
    pub name: u64,
}

impl NetworkFrameMark {
    /// The canonical bytes of the record.
    pub open spec fn spec_bytes(&self) -> Seq<u8> {
        seq![self.query_type.spec_code()]
            + le_u64(self.timestamp)
            + le_u64(self.name)
    }

    /// The record whose bytes start at `i` of `s`.
    pub open spec fn spec_read(query_type: QueryResponseType, s: Seq<u8>, i: int) -> NetworkFrameMark {
        NetworkFrameMark {
            query_type: query_type,
            timestamp: u64_at(s, i + 1),
            name: u64_at(s, i + 9),
        }
    }

    /// Decodes the record at the start of `s`.
    pub open spec fn spec_parse(s: Seq<u8>) -> Result<NetworkFrameMark, DecodeError> {
        if s.len() < 1 {
            Err(DecodeError::UnexpectedEnd { record: "NetworkFrameMark" })
        } else {
            match QueryResponseType::spec_from_code(s[0]) {
                None => Err(DecodeError::UnexpectedVariant { record: "QueryResponseType", found: s[0] as u32 }),
                Some(t) => if s.len() < 17 {
                    Err(DecodeError::UnexpectedEnd { record: "NetworkFrameMark" })
                } else {
                    Ok(NetworkFrameMark::spec_read(t, s, 0))
                },
            }
        }
    }

    /// Appends the record's bytes.
    pub fn encode(&self, out: &mut Vec<u8>)
        ensures
            final(out)@ == old(out)@ + self.spec_bytes(),
    {
        push_u8(out, self.query_type.to_u8());
        push_u64(out, self.timestamp);
        push_u64(out, self.name);
        assert(final(out)@ =~= old(out)@ + self.spec_bytes());
    }

    /// Reads the record whose bytes start at `i`.
    pub fn read(query_type: QueryResponseType, data: &[u8], i: usize) -> (r: NetworkFrameMark)
        requires
            i + 17 <= data@.len(),
        ensures
            r == NetworkFrameMark::spec_read(query_type, data@, i as int),
    {
        let len = data.len();
        assert(i + 17 <= len);
        let timestamp = get_u64(data, i + 1);
        let name = get_u64(data, i + 9);
        NetworkFrameMark { query_type, timestamp, name }
    }

    /// Decodes the record that starts at `pos`.
    pub fn decode(data: &[u8], pos: usize) -> (r: Result<NetworkFrameMark, DecodeError>)
        ensures
            r == NetworkFrameMark::spec_parse(tail(data@, pos as int)),
    {
        let len = data.len();
        let ghost s = tail(data@, pos as int);
        if pos >= len {
            return Err(DecodeError::UnexpectedEnd { record: "NetworkFrameMark" });
        }
        let code = data[pos];
        assert(code == s[0]);
        match QueryResponseType::from_u8(code) {
            None => Err(DecodeError::UnexpectedVariant { record: "QueryResponseType", found: code as u32 }),
            Some(t) => {
                if len - pos < 17 {
                    return Err(DecodeError::UnexpectedEnd { record: "NetworkFrameMark" });
                }
                let r = NetworkFrameMark::read(t, data, pos);
                proof { NetworkFrameMark::lemma_read_shift(t, data@, pos as int); }
                Ok(r)
            },
        }
    }

    /// Reading at `pos` is reading at the start of what follows `pos`.
    pub proof fn lemma_read_shift(query_type: QueryResponseType, s: Seq<u8>, pos: int)
        requires
            0 <= pos, pos + 17 <= s.len(),
        ensures
            NetworkFrameMark::spec_read(query_type, s, pos) == NetworkFrameMark::spec_read(query_type, tail(s, pos), 0),
    {
        let t = tail(s, pos);
    }

    /// Reading back the canonical bytes of a record gives the record.
    pub proof fn lemma_read(v: NetworkFrameMark, s: Seq<u8>, i: int)
        requires
            0 <= i, i + 17 <= s.len(),
            s.subrange(i, i + 17) == v.spec_bytes(),
        ensures
            NetworkFrameMark::spec_read(v.query_type, s, i) == v,
    {
        let b = v.spec_bytes();
        assert(b.len() == 17);
        assert(s.subrange(i + 1, i + 9) =~= b.subrange(1, 9));
        assert(b.subrange(1, 9) =~= le_u64(v.timestamp));
        lemma_u64_round_trip(v.timestamp, s, i + 1);
        assert(s.subrange(i + 9, i + 17) =~= b.subrange(9, 17));
        assert(b.subrange(9, 17) =~= le_u64(v.name));
        lemma_u64_round_trip(v.name, s, i + 9);
    }

    /// Decoding the canonical bytes of a record, followed by anything, gives
    /// the record back.
    pub proof fn lemma_round_trip(v: NetworkFrameMark, rest: Seq<u8>)
        ensures
            NetworkFrameMark::spec_parse(v.spec_bytes() + rest) == Ok::<NetworkFrameMark, DecodeError>(v),
    {
        let s = v.spec_bytes() + rest;
        assert(s.subrange(0, 17) =~= v.spec_bytes());
        QueryResponseType::lemma_code_round_trip(v.query_type);
        assert(s[0] == v.query_type.spec_code());
        NetworkFrameMark::lemma_read(v, s, 0);
    }
}

/// Announces the thread that the following zone records belong to.
#[derive(Clone, Copy, Debug, PartialEq, Eq)]
pub struct NetworkThreadContext {
    pub query_type: QueryResponseType,
    pub thread_id: u32,
}

impl NetworkThreadContext {
    /// The canonical bytes of the record.
    pub open spec fn spec_bytes(&self) -> Seq<u8> {
        seq![self.query_type.spec_code()]
            + le_u32(self.thread_id)
    }

    /// The record whose bytes start at `i` of `s`.
    pub open spec fn spec_read(query_type: QueryResponseType, s: Seq<u8>, i: int) -> NetworkThreadContext {
        NetworkThreadContext {
            query_type: query_type,
            thread_id: u32_at(s, i + 1),
        }
    }

    /// Decodes the record at the start of `s`.
    pub open spec fn spec_parse(s: Seq<u8>) -> Result<NetworkThreadContext, DecodeError> {
        if s.len() < 1 {
            Err(DecodeError::UnexpectedEnd { record: "NetworkThreadContext" })
        } else {
            match QueryResponseType::spec_from_code(s[0]) {
                None => Err(DecodeError::UnexpectedVariant { record: "QueryResponseType", found: s[0] as u32 }),
                Some(t) => if s.len() < 5 {
                    Err(DecodeError::UnexpectedEnd { record: "NetworkThreadContext" })
                } else {
                    Ok(NetworkThreadContext::spec_read(t, s, 0))
                },
            }
        }
    }

    /// Appends the record's bytes.
    pub fn encode(&self, out: &mut Vec<u8>)
        ensures
            final(out)@ == old(out)@ + self.spec_bytes(),
    {
        push_u8(out, self.query_type.to_u8());
        push_u32(out, self.thread_id);
        assert(final(out)@ =~= old(out)@ + self.spec_bytes());
    }

    /// Reads the record whose bytes start at `i`.
    pub fn read(query_type: QueryResponseType, data: &[u8], i: usize) -> (r: NetworkThreadContext)
        requires
            i + 5 <= data@.len(),
        ensures
            r == NetworkThreadContext::spec_read(query_type, data@, i as int),
    {
        let len = data.len();
        assert(i + 5 <= len);
        let thread_id = get_u32(data, i + 1);
        NetworkThreadContext { query_type, thread_id }
    }

    /// Decodes the record that starts at `pos`.
    pub fn decode(data: &[u8], pos: usize) -> (r: Result<NetworkThreadContext, DecodeError>)
        ensures
            r == NetworkThreadContext::spec_parse(tail(data@, pos as int)),
    {
        let len = data.len();
        let ghost s = tail(data@, pos as int);
        if pos >= len {
            return Err(DecodeError::UnexpectedEnd { record: "NetworkThreadContext" });
        }
        let code = data[pos];
        assert(code == s[0]);
        match QueryResponseType::from_u8(code) {
            None => Err(DecodeError::UnexpectedVariant { record: "QueryResponseType", found: code as u32 }),
            Some(t) => {
                if len - pos < 5 {
                    return Err(DecodeError::UnexpectedEnd { record: "NetworkThreadContext" });
                }
                let r = NetworkThreadContext::read(t, data, pos);
                proof { NetworkThreadContext::lemma_read_shift(t, data@, pos as int); }
                Ok(r)
            },
        }
    }

    /// Reading at `pos` is reading at the start of what follows `pos`.
    pub proof fn lemma_read_shift(query_type: QueryResponseType, s: Seq<u8>, pos: int)
        requires
            0 <= pos, pos + 5 <= s.len(),
        ensures
            NetworkThreadContext::spec_read(query_type, s, pos) == NetworkThreadContext::spec_read(query_type, tail(s, pos), 0),
    {
        let t = tail(s, pos);
    }

    /// Reading back the canonical bytes of a record gives the record.
    pub proof fn lemma_read(v: NetworkThreadContext, s: Seq<u8>, i: int)
        requires
            0 <= i, i + 5 <= s.len(),
            s.subrange(i, i + 5) == v.spec_bytes(),
        ensures
            NetworkThreadContext::spec_read(v.query_type, s, i) == v,
    {
        let b = v.spec_bytes();
        assert(b.len() == 5);
        assert(s.subrange(i + 1, i + 5) =~= b.subrange(1, 5));
        assert(b.subrange(1, 5) =~= le_u32(v.thread_id));
        lemma_u32_round_trip(v.thread_id, s, i + 1);
    }

    /// Decoding the canonical bytes of a record, followed by anything, gives
    /// the record back.
    pub proof fn lemma_round_trip(v: NetworkThreadContext, rest: Seq<u8>)
        ensures
            NetworkThreadContext::spec_parse(v.spec_bytes() + rest) == Ok::<NetworkThreadContext, DecodeError>(v),
    {
        let s = v.spec_bytes() + rest;
        assert(s.subrange(0, 5) =~= v.spec_bytes());
        QueryResponseType::lemma_code_round_trip(v.query_type);
        assert(s[0] == v.query_type.spec_code());
        NetworkThreadContext::lemma_read(v, s, 0);
    }
}

/// Answer to a source-code query.
#[derive(Clone, Copy, Debug, PartialEq, Eq)]
pub struct NetworkSourceCode {
    pub query_type: QueryResponseType,
    pub id: u32,
}

impl NetworkSourceCode {
    /// The canonical bytes of the record.
    pub open spec fn spec_bytes(&self) -> Seq<u8> {
        seq![self.query_type.spec_code()]
            + le_u32(self.id)
    }

    /// The record whose bytes start at `i` of `s`.
    pub open spec fn spec_read(query_type: QueryResponseType, s: Seq<u8>, i: int) -> NetworkSourceCode {
        NetworkSourceCode {
            query_type: query_type,
            id: u32_at(s, i + 1),
        }
    }

    /// Decodes the record at the start of `s`.
    pub open spec fn spec_parse(s: Seq<u8>) -> Result<NetworkSourceCode, DecodeError> {
        if s.len() < 1 {
            Err(DecodeError::UnexpectedEnd { record: "NetworkSourceCode" })
        } else {
            match QueryResponseType::spec_from_code(s[0]) {
                None => Err(DecodeError::UnexpectedVariant { record: "QueryResponseType", found: s[0] as u32 }),
                Some(t) => if s.len() < 5 {
                    Err(DecodeError::UnexpectedEnd { record: "NetworkSourceCode" })
                } else {
                    Ok(NetworkSourceCode::spec_read(t, s, 0))
                },
            }
        }
    }

    /// Appends the record's bytes.
    pub fn encode(&self, out: &mut Vec<u8>)
        ensures
            final(out)@ == old(out)@ + self.spec_bytes(),
    {
        push_u8(out, self.query_type.to_u8());
        push_u32(out, self.id);
        assert(final(out)@ =~= old(out)@ + self.spec_bytes());
    }

    /// Reads the record whose bytes start at `i`.
    pub fn read(query_type: QueryResponseType, data: &[u8], i: usize) -> (r: NetworkSourceCode)
        requires
            i + 5 <= data@.len(),
        ensures
            r == NetworkSourceCode::spec_read(query_type, data@, i as int),
    {
        let len = data.len();
        assert(i + 5 <= len);
        let id = get_u32(data, i + 1);
        NetworkSourceCode { query_type, id }
    }

    /// Decodes the record that starts at `pos`.
    pub fn decode(data: &[u8], pos: usize) -> (r: Result<NetworkSourceCode, DecodeError>)
        ensures
            r == NetworkSourceCode::spec_parse(tail(data@, pos as int)),
    {
        let len = data.len();
        let ghost s = tail(data@, pos as int);
        if pos >= len {
            return Err(DecodeError::UnexpectedEnd { record: "NetworkSourceCode" });
        }
        let code = data[pos];
        assert(code == s[0]);
        match QueryResponseType::from_u8(code) {
            None => Err(DecodeError::UnexpectedVariant { record: "QueryResponseType", found: code as u32 }),
            Some(t) => {
                if len - pos < 5 {
                    return Err(DecodeError::UnexpectedEnd { record: "NetworkSourceCode" });
                }
                let r = NetworkSourceCode::read(t, data, pos);
                proof { NetworkSourceCode::lemma_read_shift(t, data@, pos as int); }
                Ok(r)
            },
        }
    }

    /// Reading at `pos` is reading at the start of what follows `pos`.
    pub proof fn lemma_read_shift(query_type: QueryResponseType, s: Seq<u8>, pos: int)
        requires
            0 <= pos, pos + 5 <= s.len(),
        ensures
            NetworkSourceCode::spec_read(query_type, s, pos) == NetworkSourceCode::spec_read(query_type, tail(s, pos), 0),
    {
        let t = tail(s, pos);
    }

    /// Reading back the canonical bytes of a record gives the record.
    pub proof fn lemma_read(v: NetworkSourceCode, s: Seq<u8>, i: int)
        requires
            0 <= i, i + 5 <= s.len(),
            s.subrange(i, i + 5) == v.spec_bytes(),
        ensures
            NetworkSourceCode::spec_read(v.query_type, s, i) == v,
    {
        let b = v.spec_bytes();
        assert(b.len() == 5);
        assert(s.subrange(i + 1, i + 5) =~= b.subrange(1, 5));
        assert(b.subrange(1, 5) =~= le_u32(v.id));
        lemma_u32_round_trip(v.id, s, i + 1);
    }

    /// Decoding the canonical bytes of a record, followed by anything, gives
    /// the record back.
    pub proof fn lemma_round_trip(v: NetworkSourceCode, rest: Seq<u8>)
        ensures
            NetworkSourceCode::spec_parse(v.spec_bytes() + rest) == Ok::<NetworkSourceCode, DecodeError>(v),
    {
        let s = v.spec_bytes() + rest;
        assert(s.subrange(0, 5) =~= v.spec_bytes());
        QueryResponseType::lemma_code_round_trip(v.query_type);
        assert(s[0] == v.query_type.spec_code());
        NetworkSourceCode::lemma_read(v, s, 0);
    }
}

/// Answer to a source-location query.
#[derive(Clone, Copy, Debug, PartialEq, Eq)]
pub struct NetworkMessageSourceLocation {
    pub query_type: QueryResponseType,
    pub location: SourceLocation,
}

impl NetworkMessageSourceLocation {
    /// The canonical bytes of the record.
    pub open spec fn spec_bytes(&self) -> Seq<u8> {
        seq![self.query_type.spec_code()]
            + self.location.spec_bytes()
    }

    /// The record whose bytes start at `i` of `s`.
    pub open spec fn spec_read(query_type: QueryResponseType, s: Seq<u8>, i: int) -> NetworkMessageSourceLocation {
        NetworkMessageSourceLocation {
            query_type: query_type,
            location: SourceLocation::spec_read(s, i + 1),
        }
    }

    /// Decodes the record at the start of `s`.
    pub open spec fn spec_parse(s: Seq<u8>) -> Result<NetworkMessageSourceLocation, DecodeError> {
        if s.len() < 1 {
            Err(DecodeError::UnexpectedEnd { record: "NetworkMessageSourceLocation" })
        } else {
            match QueryResponseType::spec_from_code(s[0]) {
                None => Err(DecodeError::UnexpectedVariant { record: "QueryResponseType", found: s[0] as u32 }),
                Some(t) => if s.len() < 32 {
                    Err(DecodeError::UnexpectedEnd { record: "NetworkMessageSourceLocation" })
                } else {
                    Ok(NetworkMessageSourceLocation::spec_read(t, s, 0))
                },
            }
        }
    }

    /// Appends the record's bytes.
    pub fn encode(&self, out: &mut Vec<u8>)
        ensures
            final(out)@ == old(out)@ + self.spec_bytes(),
    {
        push_u8(out, self.query_type.to_u8());
        self.location.encode(out);
        assert(final(out)@ =~= old(out)@ + self.spec_bytes());
    }

    /// Reads the record whose bytes start at `i`.
    pub fn read(query_type: QueryResponseType, data: &[u8], i: usize) -> (r: NetworkMessageSourceLocation)
        requires
            i + 32 <= data@.len(),
        ensures
            r == NetworkMessageSourceLocation::spec_read(query_type, data@, i as int),
    {
        let len = data.len();
        assert(i + 32 <= len);
        let location = SourceLocation::read(data, i + 1);
        NetworkMessageSourceLocation { query_type, location }
    }

    /// Decodes the record that starts at `pos`.
    pub fn decode(data: &[u8], pos: usize) -> (r: Result<NetworkMessageSourceLocation, DecodeError>)
        ensures
            r == NetworkMessageSourceLocation::spec_parse(tail(data@, pos as int)),
    {
        let len = data.len();
        let ghost s = tail(data@, pos as int);
        if pos >= len {
            return Err(DecodeError::UnexpectedEnd { record: "NetworkMessageSourceLocation" });
        }
        let code = data[pos];
        assert(code == s[0]);
        match QueryResponseType::from_u8(code) {
            None => Err(DecodeError::UnexpectedVariant { record: "QueryResponseType", found: code as u32 }),
            Some(t) => {
                if len - pos < 32 {
                    return Err(DecodeError::UnexpectedEnd { record: "NetworkMessageSourceLocation" });
                }
                let r = NetworkMessageSourceLocation::read(t, data, pos);
                proof { NetworkMessageSourceLocation::lemma_read_shift(t, data@, pos as int); }
                Ok(r)
            },
        }
    }

    /// Reading at `pos` is reading at the start of what follows `pos`.
    pub proof fn lemma_read_shift(query_type: QueryResponseType, s: Seq<u8>, pos: int)
        requires
            0 <= pos, pos + 32 <= s.len(),
        ensures
            NetworkMessageSourceLocation::spec_read(query_type, s, pos) == NetworkMessageSourceLocation::spec_read(query_type, tail(s, pos), 0),
    {
        let t = tail(s, pos);
        SourceLocation::lemma_read_shift(s, pos + 1);
        SourceLocation::lemma_read_shift(t, 1);
        assert(tail(s, pos + 1) =~= tail(t, 1));
    }

    /// Reading back the canonical bytes of a record gives the record.
    pub proof fn lemma_read(v: NetworkMessageSourceLocation, s: Seq<u8>, i: int)
        requires
            0 <= i, i + 32 <= s.len(),
            s.subrange(i, i + 32) == v.spec_bytes(),
        ensures
            NetworkMessageSourceLocation::spec_read(v.query_type, s, i) == v,
    {
        let b = v.spec_bytes();
        assert(b.len() == 32);
        assert(s.subrange(i + 1, i + 32) =~= b.subrange(1, 32));
        assert(b.subrange(1, 32) =~= v.location.spec_bytes());
        SourceLocation::lemma_read(v.location, s, i + 1);
    }

    /// Decoding the canonical bytes of a record, followed by anything, gives
    /// the record back.
    pub proof fn lemma_round_trip(v: NetworkMessageSourceLocation, rest: Seq<u8>)
        ensures
            NetworkMessageSourceLocation::spec_parse(v.spec_bytes() + rest) == Ok::<NetworkMessageSourceLocation, DecodeError>(v),
    {
        let s = v.spec_bytes() + rest;
        assert(s.subrange(0, 32) =~= v.spec_bytes());
        QueryResponseType::lemma_code_round_trip(v.query_type);
        assert(s[0] == v.query_type.spec_code());
        NetworkMessageSourceLocation::lemma_read(v, s, 0);
    }
}

impl QueryResponseType {
    /// Appends the kind byte alone, which is the whole of an acknowledgment.
    pub fn encode(&self, out: &mut Vec<u8>)
        ensures
            final(out)@ == old(out)@.push(self.spec_code()),
    {
        push_u8(out, self.to_u8());
    }
}

impl HandshakeStatus {
    pub fn encode(&self, out: &mut Vec<u8>)
        ensures
            final(out)@ == old(out)@.push(self.spec_code()),
    {
        push_u8(out, self.to_u8());
    }
}

impl NetworkHeader {
    /// The capture header's fields in the wire layout.
    pub open spec fn spec_from_header(h: UTracyHeader) -> NetworkHeader {
        NetworkHeader {
            multiplier_bits: h.multiplier_bits,
            init_begin: h.init_begin,
            init_end: h.init_end,
            delay: h.delay,
            resolution: h.resolution,
            epoch: h.epoch,
            exec_time: h.exec_time,
            process_id: h.process_id,
            sampling_period: h.sampling_period,
            flags: h.flags,
            cpu_arch: h.cpu_arch,
            cpu_manufacturer: h.cpu_manufacturer,
            cpu_id: h.cpu_id,
            program_name: h.program_name,
            host_info: h.host_info,
        }
    }

    pub fn from_header(h: &UTracyHeader) -> (r: NetworkHeader)
        ensures
            r == NetworkHeader::spec_from_header(*h),
    {
        NetworkHeader {
            multiplier_bits: h.multiplier_bits,
            init_begin: h.init_begin,
            init_end: h.init_end,
            delay: h.delay,
            resolution: h.resolution,
            epoch: h.epoch,
            exec_time: h.exec_time,
            process_id: h.process_id,
            sampling_period: h.sampling_period,
            flags: h.flags,
            cpu_arch: h.cpu_arch,
            cpu_manufacturer: h.cpu_manufacturer,
            cpu_id: h.cpu_id,
            program_name: h.program_name,
            host_info: h.host_info,
        }
    }
}

/// A string sent with a 2-byte length prefix, as the wire protocol carries it.
#[derive(Debug)]
pub struct U16SizeString(pub Vec<u8>);

impl U16SizeString {
    pub open spec fn spec_bytes(&self) -> Seq<u8> {
        le_u16(self.0@.len() as u16) + self.0@
    }

    pub fn encode(&self, out: &mut Vec<u8>)
        requires
            self.0@.len() <= u16::MAX,
        ensures
            final(out)@ == old(out)@ + self.spec_bytes(),
    {
        push_u16(out, self.0.len() as u16);
        push_bytes(out, self.0.as_slice());
        assert(final(out)@ =~= old(out)@ + self.spec_bytes());
    }
}

/// Answer to a string query: the queried identifier and the string.
#[derive(Debug)]
pub struct NetworkMessageString {
    pub query_type: QueryResponseType,
    pub pointer: u64,
    pub string: U16SizeString,
}

impl View for NetworkMessageString {
    type V = (QueryResponseType, u64, Seq<u8>);

    open spec fn view(&self) -> Self::V {
        (self.query_type, self.pointer, self.string.0@)
    }
}

impl NetworkMessageString {
    pub open spec fn spec_bytes(&self) -> Seq<u8> {
        seq![self.query_type.spec_code()] + le_u64(self.pointer) + self.string.spec_bytes()
    }

    /// Decodes a string answer at the start of `s`, giving its view and the
    /// number of bytes it took.
    pub open spec fn spec_parse(s: Seq<u8>) -> Result<((QueryResponseType, u64, Seq<u8>), nat), DecodeError> {
        if s.len() < 1 {
            Err(DecodeError::UnexpectedEnd { record: "NetworkMessageString" })
        } else {
            match QueryResponseType::spec_from_code(s[0]) {
                None => Err(DecodeError::UnexpectedVariant { record: "QueryResponseType", found: s[0] as u32 }),
                Some(t) => if s.len() < 11 || s.len() < 11 + u16_at(s, 9) {
                    Err(DecodeError::UnexpectedEnd { record: "NetworkMessageString" })
                } else {
                    Ok(((t, u64_at(s, 1), s.subrange(11, 11 + u16_at(s, 9))), (11 + u16_at(s, 9)) as nat))
                },
            }
        }
    }

    pub fn encode(&self, out: &mut Vec<u8>)
        requires
            self.string.0@.len() <= u16::MAX,
        ensures
            final(out)@ == old(out)@ + self.spec_bytes(),
    {
        push_u8(out, self.query_type.to_u8());
        push_u64(out, self.pointer);
        self.string.encode(out);
        assert(final(out)@ =~= old(out)@ + self.spec_bytes());
    }

    /// Decodes the string answer that starts at `pos`, giving it and the
    /// position just past it.
    pub fn decode(data: &[u8], pos: usize) -> (r: Result<(NetworkMessageString, usize), DecodeError>)
        ensures
            match (r, NetworkMessageString::spec_parse(tail(data@, pos as int))) {
                (Ok((v, p)), Ok((w, n))) => v@ == w && p == pos + n,
                (Err(e), Err(f)) => e == f,
                _ => false,
            },
    {
        let len = data.len();
        let ghost s = tail(data@, pos as int);
        if pos >= len {
            return Err(DecodeError::UnexpectedEnd { record: "NetworkMessageString" });
        }
        let code = data[pos];
        assert(code == s[0]);
        match QueryResponseType::from_u8(code) {
            None => Err(DecodeError::UnexpectedVariant { record: "QueryResponseType", found: code as u32 }),
            Some(query_type) => {
                if len - pos < 11 {
                    return Err(DecodeError::UnexpectedEnd { record: "NetworkMessageString" });
                }
                let pointer = get_u64(data, pos + 1);
                let n = get_u16(data, pos + 9);
                if len - pos - 11 < n as usize {
                    return Err(DecodeError::UnexpectedEnd { record: "NetworkMessageString" });
                }
                let bytes = get_bytes(data, pos + 11, n as usize);
                assert(bytes@ =~= s.subrange(11, 11 + n));
                Ok((NetworkMessageString { query_type, pointer, string: U16SizeString(bytes) }, pos + 11 + n as usize))
            },
        }
    }

    /// Decoding the canonical bytes of a string answer, followed by anything,
    /// gives the answer back.
    pub proof fn lemma_round_trip(v: NetworkMessageString, rest: Seq<u8>)
        requires
            v.string.0@.len() <= u16::MAX,
        ensures
            NetworkMessageString::spec_parse(v.spec_bytes() + rest) == Ok::<_, DecodeError>(
                (v@, v.spec_bytes().len()),
            ),
    {
        let s = v.spec_bytes() + rest;
        let n = v.string.0@.len();
        QueryResponseType::lemma_code_round_trip(v.query_type);
        assert(s[0] == v.query_type.spec_code());
        assert(s.subrange(1, 9) =~= le_u64(v.pointer));
        lemma_u64_round_trip(v.pointer, s, 1);
        assert(s.subrange(9, 11) =~= le_u16(n as u16));
        lemma_u16_round_trip(n as u16, s, 9);
        assert(s.subrange(11, 11 + n as int) =~= v.string.0@);
    }
}

} // verus!
