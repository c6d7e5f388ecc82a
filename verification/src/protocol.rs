//! Diagnostic serial protocol: wire codes, payload codecs and COBS framing.
//!
//! Every codec works on caller-owned byte buffers. Encoders write their bytes
//! at the start of the output buffer and report how many they wrote; decoders
//! read a complete payload and either return the value it carries or say which
//! rule the payload breaks.

pub mod bytes;
pub mod frame;
pub mod store;

use vstd::prelude::*;
use vstd::slice::*;
use vstd::string::*;
use crate::protocol::bytes::{
    copy_prefix, group_le, le16, le32, le_i32, push_i32, push_slice, push_u16, push_u32, read_i32,
    read_u16, read_u32,
};

verus! {

broadcast use group_le, vstd::seq_lib::group_seq_properties, vstd::slice::group_slice_axioms;

pub const PROTOCOL_VERSION: u8 = 2;
pub const MAX_FRAME_BYTES: usize = 4126;
pub const MAX_PAYLOAD_BYTES: usize = 4096;
pub const FRAME_DELIMITER: u8 = 0x00;
pub const MAGIC: [u8; 2] = [0x42, 0x42];

pub const HELLO_ID_MAX_BYTES: usize = 16;

pub const CAP_KEY: u32 = 1;
pub const CAP_PAGE: u32 = 2;
pub const CAP_STATUS: u32 = 4;
pub const CAP_LOG: u32 = 8;
pub const CAP_CRASH: u32 = 16;
pub const CAP_DISPLAY_PROBE: u32 = 32;
pub const CAP_STORAGE: u32 = 64;

/// Capabilities the firmware serves itself; storage requests are answered `Unsupported`.
pub const ALL_CAPABILITIES: u32 = 63;

pub const LOG_RESPONSE_HEADER_BYTES: usize = 10;
pub const CRASH_SUMMARY_BYTES: usize = 128;
pub const LOG_RECORD_BYTES: usize = 24;
pub const STATUS_PAYLOAD_BYTES: usize = 21;
pub const LOG_GET_PAYLOAD_BYTES: usize = 6;

/// Why an encoder or decoder refused its input.
#[derive(Debug, Clone, Copy, PartialEq, Eq, Structural)]
pub enum ProtocolError {
    OutputTooSmall,
    BadMagic,
    BadCrc,
    FrameTooLarge,
    BadCobs,
    UnknownOpcode,
    PayloadTooLarge,
    BadStatus,
    BadPayloadLength,
    BadVersion,
    InvalidValue,
}

/// A frame header whose code bytes have not been checked against the known codes.
#[derive(Debug, Clone, Copy, PartialEq, Eq, Structural)]
pub struct RawFrameHeader {
    pub kind: u8,
    pub opcode: u8,
    pub status: u8,
    pub sequence: u16,
    pub payload_len: u16,
}

/// Kind of a frame: a host request, a device response or an unsolicited event.
#[derive(Debug, Clone, Copy, PartialEq, Eq, Structural)]
pub enum FrameKind {
    Request,
    Response,
    Event,
}

impl FrameKind {
    /// The byte that stands for this value on the wire.
    #[verifier::allow_in_spec]
    pub fn to_u8(self) -> u8
        returns
            (match self {
                FrameKind::Request => 1u8,
                FrameKind::Response => 2u8,
                FrameKind::Event => 3u8,
            }),
    {
        match self {
            FrameKind::Request => 1,
            FrameKind::Response => 2,
            FrameKind::Event => 3,
        }
    }

    /// The value a wire byte stands for, if any.
    pub fn from_u8(value: u8) -> (r: Option<Self>)
        ensures
            r is Some <==> 1 <= value <= 3,
            r matches Some(k) ==> k.to_u8() == value,
    {
        match value {
            1 => Some(FrameKind::Request),
            2 => Some(FrameKind::Response),
            3 => Some(FrameKind::Event),
            _ => None,
        }
    }
}

/// Operation a frame carries.
#[derive(Debug, Clone, Copy, PartialEq, Eq, Structural)]
pub enum Opcode {
    Hello,
    Key,
    Page,
    Status,
    LogGet,
    LogClear,
    CrashGet,
    CrashClear,
    DisplayProbe,
    StoreList,
    StoreUploadBegin,
    StoreUploadWrite,
    StoreUploadCommit,
    StoreAbort,
    StoreDelete,
    StoreRead,
}

impl Opcode {
    /// The byte that stands for this value on the wire.
    #[verifier::allow_in_spec]
    pub fn to_u8(self) -> u8
        returns
            (match self {
                Opcode::Hello => 1u8,
                Opcode::Key => 2u8,
                Opcode::Page => 3u8,
                Opcode::Status => 4u8,
                Opcode::LogGet => 5u8,
                Opcode::LogClear => 6u8,
                Opcode::CrashGet => 7u8,
                Opcode::CrashClear => 8u8,
                Opcode::DisplayProbe => 9u8,
                Opcode::StoreList => 10u8,
                Opcode::StoreUploadBegin => 11u8,
                Opcode::StoreUploadWrite => 12u8,
                Opcode::StoreUploadCommit => 13u8,
                Opcode::StoreAbort => 14u8,
                Opcode::StoreDelete => 15u8,
                Opcode::StoreRead => 16u8,
            }),
    {
        match self {
            Opcode::Hello => 1,
            Opcode::Key => 2,
            Opcode::Page => 3,
            Opcode::Status => 4,
            Opcode::LogGet => 5,
            Opcode::LogClear => 6,
            Opcode::CrashGet => 7,
            Opcode::CrashClear => 8,
            Opcode::DisplayProbe => 9,
            Opcode::StoreList => 10,
            Opcode::StoreUploadBegin => 11,
            Opcode::StoreUploadWrite => 12,
            Opcode::StoreUploadCommit => 13,
            Opcode::StoreAbort => 14,
            Opcode::StoreDelete => 15,
            Opcode::StoreRead => 16,
        }
    }

    /// The value a wire byte stands for, if any.
    pub fn from_u8(value: u8) -> (r: Option<Self>)
        ensures
            r is Some <==> 1 <= value <= 16,
            r matches Some(k) ==> k.to_u8() == value,
    {
        match value {
            1 => Some(Opcode::Hello),
            2 => Some(Opcode::Key),
            3 => Some(Opcode::Page),
            4 => Some(Opcode::Status),
            5 => Some(Opcode::LogGet),
            6 => Some(Opcode::LogClear),
            7 => Some(Opcode::CrashGet),
            8 => Some(Opcode::CrashClear),
            9 => Some(Opcode::DisplayProbe),
            10 => Some(Opcode::StoreList),
            11 => Some(Opcode::StoreUploadBegin),
            12 => Some(Opcode::StoreUploadWrite),
            13 => Some(Opcode::StoreUploadCommit),
            14 => Some(Opcode::StoreAbort),
            15 => Some(Opcode::StoreDelete),
            16 => Some(Opcode::StoreRead),
            _ => None,
        }
    }
}

/// Result status of a response frame.
#[derive(Debug, Clone, Copy, PartialEq, Eq, Structural)]
pub enum Status {
    Success,
    Error,
    BadRequest,
    NotFound,
    InternalError,
    Unsupported,
}

impl Status {
    /// The byte that stands for this value on the wire.
    #[verifier::allow_in_spec]
    pub fn to_u8(self) -> u8
        returns
            (match self {
                Status::Success => 0u8,
                Status::Error => 1u8,
                Status::BadRequest => 2u8,
                Status::NotFound => 3u8,
                Status::InternalError => 4u8,
                Status::Unsupported => 5u8,
            }),
    {
        match self {
            Status::Success => 0,
            Status::Error => 1,
            Status::BadRequest => 2,
            Status::NotFound => 3,
            Status::InternalError => 4,
            Status::Unsupported => 5,
        }
    }

    /// The value a wire byte stands for, if any.
    pub fn from_u8(value: u8) -> (r: Option<Self>)
        ensures
            r is Some <==> value <= 5,
            r matches Some(k) ==> k.to_u8() == value,
    {
        match value {
            0 => Some(Status::Success),
            1 => Some(Status::Error),
            2 => Some(Status::BadRequest),
            3 => Some(Status::NotFound),
            4 => Some(Status::InternalError),
            5 => Some(Status::Unsupported),
            _ => None,
        }
    }
}

/// Physical key named by a key request.
#[derive(Debug, Clone, Copy, PartialEq, Eq, Structural)]
pub enum KeyCode {
    Left,
    Right,
    Up,
    Down,
    Select,
    Back,
    Power,
}

impl KeyCode {
    /// The byte that stands for this value on the wire.
    #[verifier::allow_in_spec]
    pub fn to_u8(self) -> u8
        returns
            (match self {
                KeyCode::Left => 1u8,
                KeyCode::Right => 2u8,
                KeyCode::Up => 3u8,
                KeyCode::Down => 4u8,
                KeyCode::Select => 5u8,
                KeyCode::Back => 6u8,
                KeyCode::Power => 7u8,
            }),
    {
        match self {
            KeyCode::Left => 1,
            KeyCode::Right => 2,
            KeyCode::Up => 3,
            KeyCode::Down => 4,
            KeyCode::Select => 5,
            KeyCode::Back => 6,
            KeyCode::Power => 7,
        }
    }

    /// The value a wire byte stands for, if any.
    pub fn from_u8(value: u8) -> (r: Option<Self>)
        ensures
            r is Some <==> 1 <= value <= 7,
            r matches Some(k) ==> k.to_u8() == value,
    {
        match value {
            1 => Some(KeyCode::Left),
            2 => Some(KeyCode::Right),
            3 => Some(KeyCode::Up),
            4 => Some(KeyCode::Down),
            5 => Some(KeyCode::Select),
            6 => Some(KeyCode::Back),
            7 => Some(KeyCode::Power),
            _ => None,
        }
    }
}

/// Whether a key request presses or releases the key.
#[derive(Debug, Clone, Copy, PartialEq, Eq, Structural)]
pub enum KeyAction {
    Press,
    Release,
}

impl KeyAction {
    /// The byte that stands for this value on the wire.
    #[verifier::allow_in_spec]
    pub fn to_u8(self) -> u8
        returns
            (match self {
                KeyAction::Press => 1u8,
                KeyAction::Release => 2u8,
            }),
    {
        match self {
            KeyAction::Press => 1,
            KeyAction::Release => 2,
        }
    }

    /// The value a wire byte stands for, if any.
    pub fn from_u8(value: u8) -> (r: Option<Self>)
        ensures
            r is Some <==> 1 <= value <= 2,
            r matches Some(k) ==> k.to_u8() == value,
    {
        match value {
            1 => Some(KeyAction::Press),
            2 => Some(KeyAction::Release),
            _ => None,
        }
    }
}

/// Navigation requested by a page request.
#[derive(Debug, Clone, Copy, PartialEq, Eq, Structural)]
pub enum PageAction {
    Next,
    Previous,
    First,
    Last,
    Goto,
    Current,
}

impl PageAction {
    /// The byte that stands for this value on the wire.
    #[verifier::allow_in_spec]
    pub fn to_u8(self) -> u8
        returns
            (match self {
                PageAction::Next => 1u8,
                PageAction::Previous => 2u8,
                PageAction::First => 3u8,
                PageAction::Last => 4u8,
                PageAction::Goto => 5u8,
                PageAction::Current => 6u8,
            }),
    {
        match self {
            PageAction::Next => 1,
            PageAction::Previous => 2,
            PageAction::First => 3,
            PageAction::Last => 4,
            PageAction::Goto => 5,
            PageAction::Current => 6,
        }
    }

    /// The value a wire byte stands for, if any.
    pub fn from_u8(value: u8) -> (r: Option<Self>)
        ensures
            r is Some <==> 1 <= value <= 6,
            r matches Some(k) ==> k.to_u8() == value,
    {
        match value {
            1 => Some(PageAction::Next),
            2 => Some(PageAction::Previous),
            3 => Some(PageAction::First),
            4 => Some(PageAction::Last),
            5 => Some(PageAction::Goto),
            6 => Some(PageAction::Current),
            _ => None,
        }
    }
}

/// Panel mode reported in a status response.
#[derive(Debug, Clone, Copy, PartialEq, Eq, Structural)]
pub enum PanelModeCode {
    Unknown,
    Grayscale,
    Bw,
}

impl PanelModeCode {
    /// The byte that stands for this value on the wire.
    #[verifier::allow_in_spec]
    pub fn to_u8(self) -> u8
        returns
            (match self {
                PanelModeCode::Unknown => 0u8,
                PanelModeCode::Grayscale => 1u8,
                PanelModeCode::Bw => 2u8,
            }),
    {
        match self {
            PanelModeCode::Unknown => 0,
            PanelModeCode::Grayscale => 1,
            PanelModeCode::Bw => 2,
        }
    }

    /// The value a wire byte stands for, if any.
    pub fn from_u8(value: u8) -> (r: Option<Self>)
        ensures
            r is Some <==> value <= 2,
            r matches Some(k) ==> k.to_u8() == value,
    {
        match value {
            0 => Some(PanelModeCode::Unknown),
            1 => Some(PanelModeCode::Grayscale),
            2 => Some(PanelModeCode::Bw),
            _ => None,
        }
    }
}

/// Display probe requested by a probe request.
#[derive(Debug, Clone, Copy, PartialEq, Eq, Structural)]
pub enum ProbeCode {
    FullRefreshCurrent,
    ClearWhite,
    WindowCorners,
}

impl ProbeCode {
    /// The byte that stands for this value on the wire.
    #[verifier::allow_in_spec]
    pub fn to_u8(self) -> u8
        returns
            (match self {
                ProbeCode::FullRefreshCurrent => 1u8,
                ProbeCode::ClearWhite => 2u8,
                ProbeCode::WindowCorners => 3u8,
            }),
    {
        match self {
            ProbeCode::FullRefreshCurrent => 1,
            ProbeCode::ClearWhite => 2,
            ProbeCode::WindowCorners => 3,
        }
    }

    /// The value a wire byte stands for, if any.
    pub fn from_u8(value: u8) -> (r: Option<Self>)
        ensures
            r is Some <==> 1 <= value <= 3,
            r matches Some(k) ==> k.to_u8() == value,
    {
        match value {
            1 => Some(ProbeCode::FullRefreshCurrent),
            2 => Some(ProbeCode::ClearWhite),
            3 => Some(ProbeCode::WindowCorners),
            _ => None,
        }
    }
}

/// Storage medium a storage request addresses.
#[derive(Debug, Clone, Copy, PartialEq, Eq, Structural)]
pub enum StorageBackend {
    Sd,
    Flash,
}

impl StorageBackend {
    /// The byte that stands for this value on the wire.
    #[verifier::allow_in_spec]
    pub fn to_u8(self) -> u8
        returns
            (match self {
                StorageBackend::Sd => 0u8,
                StorageBackend::Flash => 1u8,
            }),
    {
        match self {
            StorageBackend::Sd => 0,
            StorageBackend::Flash => 1,
        }
    }

    /// The value a wire byte stands for, if any.
    pub fn from_u8(value: u8) -> (r: Option<Self>)
        ensures
            r is Some <==> value <= 1,
            r matches Some(k) ==> k.to_u8() == value,
    {
        match value {
            0 => Some(StorageBackend::Sd),
            1 => Some(StorageBackend::Flash),
            _ => None,
        }
    }
}

/// Severity of a diagnostic log record.
#[derive(Debug, Clone, Copy, PartialEq, Eq, Structural)]
pub enum DiagLevelCode {
    Trace,
    Debug,
    Info,
    Warn,
    Error,
    Fatal,
}

impl DiagLevelCode {
    /// The byte that stands for this value on the wire.
    #[verifier::allow_in_spec]
    pub fn to_u8(self) -> u8
        returns
            (match self {
                DiagLevelCode::Trace => 0u8,
                DiagLevelCode::Debug => 1u8,
                DiagLevelCode::Info => 2u8,
                DiagLevelCode::Warn => 3u8,
                DiagLevelCode::Error => 4u8,
                DiagLevelCode::Fatal => 5u8,
            }),
    {
        match self {
            DiagLevelCode::Trace => 0,
            DiagLevelCode::Debug => 1,
            DiagLevelCode::Info => 2,
            DiagLevelCode::Warn => 3,
            DiagLevelCode::Error => 4,
            DiagLevelCode::Fatal => 5,
        }
    }

    /// The value a wire byte stands for, if any.
    pub fn from_u8(value: u8) -> (r: Option<Self>)
        ensures
            r is Some <==> value <= 5,
            r matches Some(k) ==> k.to_u8() == value,
    {
        match value {
            0 => Some(DiagLevelCode::Trace),
            1 => Some(DiagLevelCode::Debug),
            2 => Some(DiagLevelCode::Info),
            3 => Some(DiagLevelCode::Warn),
            4 => Some(DiagLevelCode::Error),
            5 => Some(DiagLevelCode::Fatal),
            _ => None,
        }
    }
}

/// Subsystem that wrote a diagnostic log record.
#[derive(Debug, Clone, Copy, PartialEq, Eq, Structural)]
pub enum DiagSubsystemCode {
    System,
    Display,
    Input,
    Navigation,
    Storage,
    Protocol,
    Idle,
}

impl DiagSubsystemCode {
    /// The byte that stands for this value on the wire.
    #[verifier::allow_in_spec]
    pub fn to_u8(self) -> u8
        returns
            (match self {
                DiagSubsystemCode::System => 0u8,
                DiagSubsystemCode::Display => 1u8,
                DiagSubsystemCode::Input => 2u8,
                DiagSubsystemCode::Navigation => 3u8,
                DiagSubsystemCode::Storage => 4u8,
                DiagSubsystemCode::Protocol => 5u8,
                DiagSubsystemCode::Idle => 6u8,
            }),
    {
        match self {
            DiagSubsystemCode::System => 0,
            DiagSubsystemCode::Display => 1,
            DiagSubsystemCode::Input => 2,
            DiagSubsystemCode::Navigation => 3,
            DiagSubsystemCode::Storage => 4,
            DiagSubsystemCode::Protocol => 5,
            DiagSubsystemCode::Idle => 6,
        }
    }

    /// The value a wire byte stands for, if any.
    pub fn from_u8(value: u8) -> (r: Option<Self>)
        ensures
            r is Some <==> value <= 6,
            r matches Some(k) ==> k.to_u8() == value,
    {
        match value {
            0 => Some(DiagSubsystemCode::System),
            1 => Some(DiagSubsystemCode::Display),
            2 => Some(DiagSubsystemCode::Input),
            3 => Some(DiagSubsystemCode::Navigation),
            4 => Some(DiagSubsystemCode::Storage),
            5 => Some(DiagSubsystemCode::Protocol),
            6 => Some(DiagSubsystemCode::Idle),
            _ => None,
        }
    }
}

/// A frame header whose codes are all known.
#[derive(Debug, Clone, Copy, PartialEq, Eq, Structural)]
pub struct FrameHeader {
    pub kind: FrameKind,
    pub opcode: Opcode,
    pub status: Status,
    pub sequence: u16,
    pub payload_len: u16,
}

impl FrameHeader {
    /// The same header with its codes as raw bytes.
    pub open spec fn raw(self) -> RawFrameHeader {
        RawFrameHeader {
            kind: self.kind.to_u8(),
            opcode: self.opcode.to_u8(),
            status: self.status.to_u8(),
            sequence: self.sequence,
            payload_len: self.payload_len,
        }
    }
}

#[derive(Debug, Clone, Copy, PartialEq, Eq)]
pub struct HelloResponse<'a> {
    pub protocol_version: u8,
    pub max_frame_bytes: u16,
    pub capabilities: u32,
    pub firmware_name: &'a str,
    pub target: &'a str,
}

#[derive(Debug, Clone, Copy, PartialEq, Eq)]
pub struct HelloResponseRef<'a> {
    pub protocol_version: u8,
    pub max_frame_bytes: u16,
    pub capabilities: u32,
    pub firmware_name: &'a [u8],
    pub target: &'a [u8],
}

#[derive(Debug, Clone, Copy, PartialEq, Eq, Structural)]
pub struct KeyPayload {
    pub key: KeyCode,
    pub action: KeyAction,
}

#[derive(Debug, Clone, Copy, PartialEq, Eq, Structural)]
pub struct PagePayload {
    pub action: PageAction,
    pub page_index: Option<u32>,
}

#[derive(Debug, Clone, Copy, PartialEq, Eq, Structural)]
pub struct StatusPayload {
    pub current_page: u32,
    pub page_count: u32,
    pub panel_mode: PanelModeCode,
    pub dropped_log_count: u32,
    pub protocol_error_count: u32,
    pub last_error: i32,
}

#[derive(Debug, Clone, Copy, PartialEq, Eq, Structural)]
pub struct LogGetPayload {
    pub cursor_sequence: u32,
    pub max_bytes: u16,
}

#[derive(Debug, Clone, Copy, PartialEq, Eq, Structural)]
pub struct LogResponseHeader {
    pub next_cursor: u32,
    pub dropped_log_count: u32,
    pub record_count: u16,
}

#[derive(Debug, Clone, Copy, PartialEq, Eq, Structural)]
pub struct LogRecordPayload {
    pub sequence: u32,
    pub tick_ms: u32,
    pub level: u8,
    pub subsystem: u8,
    pub event: u16,
    pub arg0: i32,
    pub arg1: i32,
    pub arg2: i32,
}

/// An event number carried by a diagnostic log record.
#[derive(Debug, Clone, Copy, PartialEq, Eq, Structural)]
pub struct DiagEventCode(pub u16);

pub const EVT_FIRMWARE_STARTED: u16 = 0x0001;
pub const EVT_CMD_RECEIPT: u16 = 0x0010;
pub const EVT_CMD_ERROR: u16 = 0x0011;
pub const EVT_KEY_PRESS: u16 = 0x0100;
pub const EVT_BUTTON_EVENT: u16 = 0x0101;
pub const EVT_INPUT_TRANSITION: u16 = 0x0102;
pub const EVT_INPUT_DECISION: u16 = 0x0103;
pub const EVT_PAGE_DECISION: u16 = 0x0200;
pub const EVT_PAGE_TURN: u16 = 0x0201;
pub const EVT_TURN_QUEUED: u16 = 0x0202;
pub const EVT_TURN_DEQUEUED: u16 = 0x0203;
pub const EVT_TURN_DROPPED: u16 = 0x0204;
pub const EVT_TURN_STARTED: u16 = 0x0205;
pub const EVT_TURN_BOUNDARY_NOOP: u16 = 0x0206;
pub const EVT_REQUEST_ENQUEUE: u16 = 0x0207;
pub const EVT_REQUEST_RECEIVE: u16 = 0x0208;
pub const EVT_RENDER_START: u16 = 0x0300;
pub const EVT_RENDER_SUCCESS: u16 = 0x0301;
pub const EVT_RENDER_FAILURE: u16 = 0x0302;
pub const EVT_RESEED_START: u16 = 0x0303;
pub const EVT_RESEED_COMPLETE: u16 = 0x0304;
pub const EVT_GRAY_DELAY_CANCELLED: u16 = 0x0305;
pub const EVT_GRAY_OVERLAY_START: u16 = 0x0306;
pub const EVT_GRAY_OVERLAY_CANCELLED: u16 = 0x0307;
pub const EVT_GRAY_OVERLAY_ACTIVATE: u16 = 0x0308;
pub const EVT_GRAY_OVERLAY_COMPLETE: u16 = 0x0309;
pub const EVT_BW_BASE_SYNC_START: u16 = 0x030A;
pub const EVT_BW_BASE_SYNC_CANCELLED: u16 = 0x030B;
pub const EVT_BW_BASE_SYNC_COMPLETE: u16 = 0x030C;
pub const EVT_DISPLAY_REQUEST_START: u16 = 0x030D;
pub const EVT_DISPLAY_REQUEST_END: u16 = 0x030E;
pub const EVT_REFRESH_DECISION: u16 = 0x0400;
pub const EVT_REFRESH_PHASE: u16 = 0x0401;
pub const EVT_CONTROLLER_RAM_STATE: u16 = 0x0402;
pub const EVT_WAVEFORM_SELECTED: u16 = 0x0403;
pub const EVT_BUSY_WAIT_START: u16 = 0x0404;
pub const EVT_BUSY_WAIT_END: u16 = 0x0405;
pub const EVT_PANEL_MODE: u16 = 0x0500;
pub const EVT_ADC_SAMPLE: u16 = 0x0600;
pub const EVT_IDLE_ENTERED: u16 = 0x0700;
pub const EVT_IDLE_SUMMARY: u16 = 0x0701;
pub const EVT_IDLE_LEFT: u16 = 0x0702;
pub const EVT_DISPLAY_ERROR: u16 = 0x0800;
pub const EVT_DISPLAY_RECOVERY: u16 = 0x0801;

// ---------------------------------------------------------------------------
// Writing encodings into caller buffers
// ---------------------------------------------------------------------------

/// `new_out` holds `bytes` at its start and `old_out` elsewhere, and `r` reports
/// their number; or, when `bytes` do not fit, `r` is `OutputTooSmall` and the
/// buffer is untouched.
pub open spec fn encoded(
    old_out: Seq<u8>,
    new_out: Seq<u8>,
    bytes: Seq<u8>,
    r: Result<usize, ProtocolError>,
) -> bool {
    if old_out.len() < bytes.len() {
        r == Err::<usize, ProtocolError>(ProtocolError::OutputTooSmall) && new_out == old_out
    } else {
        r == Ok::<usize, ProtocolError>(bytes.len() as usize) && new_out == bytes + old_out.skip(
            bytes.len() as int,
        )
    }
}

/// Writes `bytes` at the start of `out` when they fit.
pub(crate) fn emit(bytes: &Vec<u8>, out: &mut [u8]) -> (r: Result<usize, ProtocolError>)
    ensures
        encoded(old(out)@, final(out)@, bytes@, r),
{
    if out.len() < bytes.len() {
        return Err(ProtocolError::OutputTooSmall);
    }
    copy_prefix(out, bytes.as_slice());
    Ok(bytes.len())
}

// ---------------------------------------------------------------------------
// Payload layouts
// ---------------------------------------------------------------------------

/// Hello response: version, frame limit, capabilities, then the firmware name and
/// the target name, each behind a one-byte length.
pub open spec fn hello_bytes(
    version: u8,
    max_frame_bytes: u16,
    capabilities: u32,
    name: Seq<u8>,
    target: Seq<u8>,
) -> Seq<u8> {
    seq![version] + le16(max_frame_bytes) + le32(capabilities) + seq![name.len() as u8] + name
        + seq![target.len() as u8] + target
}

pub open spec fn key_bytes(key: KeyCode, action: KeyAction) -> Seq<u8> {
    seq![key.to_u8(), action.to_u8()]
}

/// A `Goto` carries the target page after the action byte; other actions are one byte.
pub open spec fn page_bytes(action: PageAction, page: u32) -> Seq<u8> {
    if action == PageAction::Goto {
        seq![action.to_u8()] + le32(page)
    } else {
        seq![action.to_u8()]
    }
}

pub open spec fn status_bytes(v: StatusPayload) -> Seq<u8> {
    le32(v.current_page) + le32(v.page_count) + seq![v.panel_mode.to_u8()] + le32(
        v.dropped_log_count,
    ) + le32(v.protocol_error_count) + le_i32(v.last_error)
}

pub open spec fn log_get_bytes(v: LogGetPayload) -> Seq<u8> {
    le32(v.cursor_sequence) + le16(v.max_bytes)
}

pub open spec fn log_response_header_bytes(v: LogResponseHeader) -> Seq<u8> {
    le32(v.next_cursor) + le32(v.dropped_log_count) + le16(v.record_count)
}

pub open spec fn log_record_bytes(v: LogRecordPayload) -> Seq<u8> {
    le32(v.sequence) + le32(v.tick_ms) + seq![v.level, v.subsystem] + le16(v.event) + le_i32(
        v.arg0,
    ) + le_i32(v.arg1) + le_i32(v.arg2)
}

/// A crash response is `0` when no summary is stored, else `1` and the summary.
pub open spec fn crash_response_bytes(summary: Option<Seq<u8>>) -> Seq<u8> {
    match summary {
        Some(s) => seq![1u8] + s,
        None => seq![0u8],
    }
}

// ---------------------------------------------------------------------------
// Hello
// ---------------------------------------------------------------------------

pub fn encode_hello_response(value: &HelloResponse<'_>, out: &mut [u8]) -> (r: Result<
    usize,
    ProtocolError,
>)
    ensures
        ({
            let name = value.firmware_name.spec_bytes();
            let target = value.target.spec_bytes();
            if name.len() > HELLO_ID_MAX_BYTES || target.len() > HELLO_ID_MAX_BYTES {
                r == Err::<usize, ProtocolError>(ProtocolError::InvalidValue) && final(out)@
                    == old(out)@
            } else {
                encoded(
                    old(out)@,
                    final(out)@,
                    hello_bytes(
                        value.protocol_version,
                        value.max_frame_bytes,
                        value.capabilities,
                        name,
                        target,
                    ),
                    r,
                )
            }
        }),
{
    let name_bytes = value.firmware_name.as_bytes();
    let target_bytes = value.target.as_bytes();
    if name_bytes.len() > HELLO_ID_MAX_BYTES || target_bytes.len() > HELLO_ID_MAX_BYTES {
        return Err(ProtocolError::InvalidValue);
    }
    let mut v: Vec<u8> = Vec::new();
    v.push(value.protocol_version);
    push_u16(&mut v, value.max_frame_bytes);
    push_u32(&mut v, value.capabilities);
    v.push(name_bytes.len() as u8);
    push_slice(&mut v, name_bytes);
    v.push(target_bytes.len() as u8);
    push_slice(&mut v, target_bytes);
    assert(v@ =~= hello_bytes(
        value.protocol_version,
        value.max_frame_bytes,
        value.capabilities,
        name_bytes@,
        target_bytes@,
    ));
    emit(&v, out)
}

/// Which rule, if any, a hello response payload breaks.
pub open spec fn hello_check(p: Seq<u8>) -> Result<(), ProtocolError> {
    if p.len() < 8 {
        Err(ProtocolError::PayloadTooLarge)
    } else {
        let name_len = p[7] as int;
        if p.len() < 9 + name_len {
            Err(ProtocolError::PayloadTooLarge)
        } else {
            let target_len = p[8 + name_len] as int;
            if p.len() < 9 + name_len + target_len {
                Err(ProtocolError::PayloadTooLarge)
            } else if p.len() != 9 + name_len + target_len || name_len > HELLO_ID_MAX_BYTES
                || target_len > HELLO_ID_MAX_BYTES {
                Err(ProtocolError::BadPayloadLength)
            } else {
                Ok(())
            }
        }
    }
}

pub fn decode_hello_response(payload: &[u8]) -> (r: Result<HelloResponseRef<'_>, ProtocolError>)
    ensures
        r is Ok <==> hello_check(payload@) is Ok,
        hello_check(payload@) matches Err(e) ==> r == Err::<HelloResponseRef<'_>, ProtocolError>(e),
        r matches Ok(v) ==> {
            &&& v.firmware_name@.len() <= HELLO_ID_MAX_BYTES
            &&& v.target@.len() <= HELLO_ID_MAX_BYTES
            &&& payload@ == hello_bytes(
                v.protocol_version,
                v.max_frame_bytes,
                v.capabilities,
                v.firmware_name@,
                v.target@,
            )
        },
{
    let p = payload;
    if p.len() < 8 {
        return Err(ProtocolError::PayloadTooLarge);
    }
    let protocol_version = p[0];
    let max_frame_bytes = read_u16(p, 1);
    let capabilities = read_u32(p, 3);
    let name_len = p[7] as usize;
    if p.len() < 8 + name_len + 1 {
        return Err(ProtocolError::PayloadTooLarge);
    }
    let firmware_name = slice_subrange(p, 8, 8 + name_len);
    let pos = 8 + name_len;
    let target_len = p[pos] as usize;
    let pos = pos + 1;
    if p.len() < pos + target_len {
        return Err(ProtocolError::PayloadTooLarge);
    }
    if p.len() != pos + target_len || name_len > HELLO_ID_MAX_BYTES || target_len
        > HELLO_ID_MAX_BYTES {
        return Err(ProtocolError::BadPayloadLength);
    }
    let target = slice_subrange(p, pos, pos + target_len);
    assert(p@ =~= seq![p@[0]] + p@.subrange(1, 3) + p@.subrange(3, 7) + seq![p@[7]]
        + p@.subrange(8, 8 + name_len) + seq![p@[8 + name_len]] + p@.subrange(
        pos as int,
        pos + target_len,
    ));
    Ok(
        HelloResponseRef {
            protocol_version,
            max_frame_bytes,
            capabilities,
            firmware_name,
            target,
        },
    )
}

// ---------------------------------------------------------------------------
// Key
// ---------------------------------------------------------------------------

pub fn encode_key_payload(key: KeyCode, action: KeyAction, out: &mut [u8]) -> (r: Result<
    usize,
    ProtocolError,
>)
    ensures
        encoded(old(out)@, final(out)@, key_bytes(key, action), r),
{
    let mut v: Vec<u8> = Vec::new();
    v.push(key.to_u8());
    v.push(action.to_u8());
    assert(v@ =~= key_bytes(key, action));
    emit(&v, out)
}

pub fn decode_key_payload(payload: &[u8]) -> (r: Result<KeyPayload, ProtocolError>)
    ensures
        payload@.len() != 2 ==> r == Err::<KeyPayload, ProtocolError>(
            ProtocolError::BadPayloadLength,
        ),
        payload@.len() == 2 && !(1 <= payload@[0] <= 7 && 1 <= payload@[1] <= 2) ==> r == Err::<
            KeyPayload,
            ProtocolError,
        >(ProtocolError::InvalidValue),
        r is Ok <==> payload@.len() == 2 && 1 <= payload@[0] <= 7 && 1 <= payload@[1] <= 2,
        r matches Ok(v) ==> key_bytes(v.key, v.action) == payload@,
{
    if payload.len() != 2 {
        return Err(ProtocolError::BadPayloadLength);
    }
    let key = match KeyCode::from_u8(payload[0]) {
        Some(k) => k,
        None => return Err(ProtocolError::InvalidValue),
    };
    let action = match KeyAction::from_u8(payload[1]) {
        Some(a) => a,
        None => return Err(ProtocolError::InvalidValue),
    };
    assert(key_bytes(key, action) =~= payload@);
    Ok(KeyPayload { key, action })
}

// ---------------------------------------------------------------------------
// Page
// ---------------------------------------------------------------------------

pub fn encode_page_payload(action: PageAction, page: Option<u32>, out: &mut [u8]) -> (r: Result<
    usize,
    ProtocolError,
>)
    ensures
        action == PageAction::Goto && page is None ==> r == Err::<usize, ProtocolError>(
            ProtocolError::InvalidValue,
        ) && final(out)@ == old(out)@,
        action == PageAction::Goto && page is Some ==> encoded(
            old(out)@,
            final(out)@,
            page_bytes(action, page->0),
            r,
        ),
        action != PageAction::Goto ==> encoded(old(out)@, final(out)@, page_bytes(action, 0), r),
{
    let mut v: Vec<u8> = Vec::new();
    v.push(action.to_u8());
    match action {
        PageAction::Goto => {
            let page_index = match page {
                Some(p) => p,
                None => return Err(ProtocolError::InvalidValue),
            };
            push_u32(&mut v, page_index);
            assert(v@ =~= page_bytes(action, page_index));
        },
        _ => {
            assert(v@ =~= page_bytes(action, 0));
        },
    }
    emit(&v, out)
}

pub fn decode_page_payload(payload: &[u8]) -> (r: Result<PagePayload, ProtocolError>)
    ensures
        payload@.len() == 0 ==> r == Err::<PagePayload, ProtocolError>(
            ProtocolError::PayloadTooLarge,
        ),
        payload@.len() > 0 && !(1 <= payload@[0] <= 6) ==> r == Err::<PagePayload, ProtocolError>(
            ProtocolError::InvalidValue,
        ),
        payload@.len() > 0 && 1 <= payload@[0] <= 6 ==> (r is Ok <==> payload@.len() == (
        if payload@[0] == 5 {
            5int
        } else {
            1int
        })),
        payload@.len() > 0 && 1 <= payload@[0] <= 6 && r is Err ==> r == Err::<
            PagePayload,
            ProtocolError,
        >(ProtocolError::BadPayloadLength),
        r matches Ok(v) ==> (v.action == PageAction::Goto <==> v.page_index is Some) && page_bytes(
            v.action,
            match v.page_index {
                Some(p) => p,
                None => 0,
            },
        ) == payload@,
{
    if payload.len() == 0 {
        return Err(ProtocolError::PayloadTooLarge);
    }
    let action = match PageAction::from_u8(payload[0]) {
        Some(a) => a,
        None => return Err(ProtocolError::InvalidValue),
    };
    match action {
        PageAction::Goto => {
            if payload.len() != 5 {
                return Err(ProtocolError::BadPayloadLength);
            }
            let page_index = read_u32(payload, 1);
            assert(page_bytes(action, page_index) =~= payload@);
            Ok(PagePayload { action, page_index: Some(page_index) })
        },
        _ => {
            if payload.len() == 1 {
                assert(page_bytes(action, 0) =~= payload@);
                Ok(PagePayload { action, page_index: None })
            } else {
                Err(ProtocolError::BadPayloadLength)
            }
        },
    }
}

pub fn encode_page_response(page: u32, out: &mut [u8]) -> (r: Result<usize, ProtocolError>)
    ensures
        encoded(old(out)@, final(out)@, le32(page), r),
{
    let mut v: Vec<u8> = Vec::new();
    push_u32(&mut v, page);
    assert(v@ =~= le32(page));
    emit(&v, out)
}

// ---------------------------------------------------------------------------
// Status
// ---------------------------------------------------------------------------

pub fn encode_status_payload(value: StatusPayload, out: &mut [u8]) -> (r: Result<
    usize,
    ProtocolError,
>)
    ensures
        encoded(old(out)@, final(out)@, status_bytes(value), r),
{
    let mut v: Vec<u8> = Vec::new();
    push_u32(&mut v, value.current_page);
    push_u32(&mut v, value.page_count);
    v.push(value.panel_mode.to_u8());
    push_u32(&mut v, value.dropped_log_count);
    push_u32(&mut v, value.protocol_error_count);
    push_i32(&mut v, value.last_error);
    assert(v@ =~= status_bytes(value));
    emit(&v, out)
}

pub fn decode_status_payload(payload: &[u8]) -> (r: Result<StatusPayload, ProtocolError>)
    ensures
        payload@.len() != STATUS_PAYLOAD_BYTES ==> r == Err::<StatusPayload, ProtocolError>(
            ProtocolError::BadPayloadLength,
        ),
        payload@.len() == STATUS_PAYLOAD_BYTES && payload@[8] > 2 ==> r == Err::<
            StatusPayload,
            ProtocolError,
        >(ProtocolError::InvalidValue),
        r is Ok <==> payload@.len() == STATUS_PAYLOAD_BYTES && payload@[8] <= 2,
        r matches Ok(v) ==> status_bytes(v) == payload@,
{
    let p = payload;
    if p.len() != STATUS_PAYLOAD_BYTES {
        return Err(ProtocolError::BadPayloadLength);
    }
    let current_page = read_u32(p, 0);
    let page_count = read_u32(p, 4);
    let panel_mode = match PanelModeCode::from_u8(p[8]) {
        Some(m) => m,
        None => return Err(ProtocolError::InvalidValue),
    };
    let dropped_log_count = read_u32(p, 9);
    let protocol_error_count = read_u32(p, 13);
    let last_error = read_i32(p, 17);
    let v = StatusPayload {
        current_page,
        page_count,
        panel_mode,
        dropped_log_count,
        protocol_error_count,
        last_error,
    };
    assert(p@ =~= p@.subrange(0, 4) + p@.subrange(4, 8) + seq![p@[8]] + p@.subrange(9, 13)
        + p@.subrange(13, 17) + p@.subrange(17, 21));
    Ok(v)
}

// ---------------------------------------------------------------------------
// Log query and log records
// ---------------------------------------------------------------------------

pub fn encode_log_get_payload(value: LogGetPayload, out: &mut [u8]) -> (r: Result<
    usize,
    ProtocolError,
>)
    ensures
        encoded(old(out)@, final(out)@, log_get_bytes(value), r),
{
    let mut v: Vec<u8> = Vec::new();
    push_u32(&mut v, value.cursor_sequence);
    push_u16(&mut v, value.max_bytes);
    assert(v@ =~= log_get_bytes(value));
    emit(&v, out)
}

pub fn decode_log_get_payload(payload: &[u8]) -> (r: Result<LogGetPayload, ProtocolError>)
    ensures
        r is Ok <==> payload@.len() == LOG_GET_PAYLOAD_BYTES,
        r is Err ==> r == Err::<LogGetPayload, ProtocolError>(ProtocolError::BadPayloadLength),
        r matches Ok(v) ==> log_get_bytes(v) == payload@,
{
    if payload.len() != LOG_GET_PAYLOAD_BYTES {
        return Err(ProtocolError::BadPayloadLength);
    }
    let cursor_sequence = read_u32(payload, 0);
    let max_bytes = read_u16(payload, 4);
    assert(payload@ =~= payload@.subrange(0, 4) + payload@.subrange(4, 6));
    Ok(LogGetPayload { cursor_sequence, max_bytes })
}

pub fn encode_log_response_header(value: LogResponseHeader, out: &mut [u8]) -> (r: Result<
    usize,
    ProtocolError,
>)
    ensures
        encoded(old(out)@, final(out)@, log_response_header_bytes(value), r),
{
    let mut v: Vec<u8> = Vec::new();
    push_u32(&mut v, value.next_cursor);
    push_u32(&mut v, value.dropped_log_count);
    push_u16(&mut v, value.record_count);
    assert(v@ =~= log_response_header_bytes(value));
    emit(&v, out)
}

/// Reads the header at the start of a log response; the records after it are not read.
pub fn decode_log_response_header(payload: &[u8]) -> (r: Result<LogResponseHeader, ProtocolError>)
    ensures
        r is Ok <==> payload@.len() >= LOG_RESPONSE_HEADER_BYTES,
        r is Err ==> r == Err::<LogResponseHeader, ProtocolError>(ProtocolError::BadPayloadLength),
        r matches Ok(v) ==> log_response_header_bytes(v) == payload@.take(
            LOG_RESPONSE_HEADER_BYTES as int,
        ),
{
    if payload.len() < LOG_RESPONSE_HEADER_BYTES {
        return Err(ProtocolError::BadPayloadLength);
    }
    let v = LogResponseHeader {
        next_cursor: read_u32(payload, 0),
        dropped_log_count: read_u32(payload, 4),
        record_count: read_u16(payload, 8),
    };
    assert(payload@.take(10) =~= payload@.subrange(0, 4) + payload@.subrange(4, 8)
        + payload@.subrange(8, 10));
    Ok(v)
}

pub fn encode_crash_response(summary: Option<&[u8; CRASH_SUMMARY_BYTES]>, out: &mut [u8]) -> (r:
    Result<usize, ProtocolError>)
    ensures
        encoded(
            old(out)@,
            final(out)@,
            crash_response_bytes(
                match summary {
                    Some(s) => Some(s@),
                    None => None,
                },
            ),
            r,
        ),
{
    let mut v: Vec<u8> = Vec::new();
    match summary {
        Some(s) => {
            v.push(1);
            push_slice(&mut v, s.as_slice());
            assert(v@ =~= crash_response_bytes(Some(s@)));
        },
        None => {
            v.push(0);
            assert(v@ =~= crash_response_bytes(None));
        },
    }
    emit(&v, out)
}

/// `None` for an empty crash response, the summary bytes for a present one.
pub fn decode_crash_response(payload: &[u8]) -> (r: Result<Option<&[u8]>, ProtocolError>)
    ensures
        r is Ok <==> payload@ == seq![0u8] || (payload@.len() == 1 + CRASH_SUMMARY_BYTES
            && payload@[0] == 1),
        r is Err ==> r == Err::<Option<&[u8]>, ProtocolError>(ProtocolError::BadPayloadLength),
        r matches Ok(None) ==> payload@ == crash_response_bytes(None),
        r matches Ok(Some(s)) ==> s@.len() == CRASH_SUMMARY_BYTES && payload@
            == crash_response_bytes(Some(s@)),
{
    if payload.len() == 1 && payload[0] == 0 {
        assert(payload@ =~= seq![0u8]);
        return Ok(None);
    }
    if payload.len() == 1 + CRASH_SUMMARY_BYTES && payload[0] == 1 {
        let s = slice_subrange(payload, 1, payload.len());
        assert(payload@ =~= seq![1u8] + s@);
        return Ok(Some(s));
    }
    assert(payload@ != seq![0u8] ==> !(payload@.len() == 1 && payload@[0] == 0));
    Err(ProtocolError::BadPayloadLength)
}

pub fn encode_log_record(value: LogRecordPayload, out: &mut [u8]) -> (r: Result<
    usize,
    ProtocolError,
>)
    ensures
        encoded(old(out)@, final(out)@, log_record_bytes(value), r),
{
    let mut v: Vec<u8> = Vec::new();
    push_u32(&mut v, value.sequence);
    push_u32(&mut v, value.tick_ms);
    v.push(value.level);
    v.push(value.subsystem);
    push_u16(&mut v, value.event);
    push_i32(&mut v, value.arg0);
    push_i32(&mut v, value.arg1);
    push_i32(&mut v, value.arg2);
    assert(v@ =~= log_record_bytes(value));
    emit(&v, out)
}

/// Reads the record at the start of `payload`; bytes after it are not read.
pub fn decode_log_record(payload: &[u8]) -> (r: Result<LogRecordPayload, ProtocolError>)
    ensures
        r is Ok <==> payload@.len() >= LOG_RECORD_BYTES,
        r is Err ==> r == Err::<LogRecordPayload, ProtocolError>(ProtocolError::PayloadTooLarge),
        r matches Ok(v) ==> log_record_bytes(v) == payload@.take(LOG_RECORD_BYTES as int),
{
    let p = payload;
    if p.len() < LOG_RECORD_BYTES {
        return Err(ProtocolError::PayloadTooLarge);
    }
    let v = LogRecordPayload {
        sequence: read_u32(p, 0),
        tick_ms: read_u32(p, 4),
        level: p[8],
        subsystem: p[9],
        event: read_u16(p, 10),
        arg0: read_i32(p, 12),
        arg1: read_i32(p, 16),
        arg2: read_i32(p, 20),
    };
    assert(p@.take(24) =~= p@.subrange(0, 4) + p@.subrange(4, 8) + seq![p@[8], p@[9]]
        + p@.subrange(10, 12) + p@.subrange(12, 16) + p@.subrange(16, 20) + p@.subrange(20, 24));
    Ok(v)
}

// ---------------------------------------------------------------------------
// Display probe
// ---------------------------------------------------------------------------

pub fn encode_probe_payload(probe: ProbeCode, out: &mut [u8]) -> (r: Result<usize, ProtocolError>)
    ensures
        encoded(old(out)@, final(out)@, seq![probe.to_u8()], r),
{
    let mut v: Vec<u8> = Vec::new();
    v.push(probe.to_u8());
    assert(v@ =~= seq![probe.to_u8()]);
    emit(&v, out)
}

pub fn decode_probe_payload(payload: &[u8]) -> (r: Result<ProbeCode, ProtocolError>)
    ensures
        payload@.len() != 1 ==> r == Err::<ProbeCode, ProtocolError>(
            ProtocolError::BadPayloadLength,
        ),
        payload@.len() == 1 && !(1 <= payload@[0] <= 3) ==> r == Err::<ProbeCode, ProtocolError>(
            ProtocolError::InvalidValue,
        ),
        r matches Ok(p) ==> payload@ == seq![p.to_u8()],
        r is Ok <==> payload@.len() == 1 && 1 <= payload@[0] <= 3,
{
    if payload.len() != 1 {
        return Err(ProtocolError::BadPayloadLength);
    }
    match ProbeCode::from_u8(payload[0]) {
        Some(p) => {
            assert(payload@ =~= seq![p.to_u8()]);
            Ok(p)
        },
        None => Err(ProtocolError::InvalidValue),
    }
}

// ---------------------------------------------------------------------------
// Laws
// ---------------------------------------------------------------------------

/// Every wire code names exactly one frame kind, and reading a kind's code gives the kind back.
pub proof fn lemma_frame_kind_code_injective(a: FrameKind, b: FrameKind)
    ensures
        a.to_u8() == b.to_u8() <==> a == b,
{
}

/// Every wire code names exactly one opcode.
pub proof fn lemma_opcode_code_injective(a: Opcode, b: Opcode)
    ensures
        a.to_u8() == b.to_u8() <==> a == b,
{
}

/// Every wire code names exactly one status.
pub proof fn lemma_status_code_injective(a: Status, b: Status)
    ensures
        a.to_u8() == b.to_u8() <==> a == b,
{
}

/// A status payload decodes to the status it was encoded from.
pub proof fn lemma_status_roundtrip(v: StatusPayload, w: StatusPayload)
    requires
        status_bytes(v) == status_bytes(w),
    ensures
        v == w,
{
    let b = status_bytes(v);
    assert(b.subrange(0, 4) == le32(v.current_page) && b.subrange(0, 4) == le32(w.current_page));
    assert(b.subrange(4, 8) == le32(v.page_count) && b.subrange(4, 8) == le32(w.page_count));
    assert(b.subrange(9, 13) == le32(v.dropped_log_count));
    assert(status_bytes(w).subrange(9, 13) == le32(w.dropped_log_count));
    assert(b.subrange(13, 17) == le32(v.protocol_error_count));
    assert(status_bytes(w).subrange(13, 17) == le32(w.protocol_error_count));
    assert(b.subrange(17, 21) == le_i32(v.last_error));
    assert(status_bytes(w).subrange(17, 21) == le_i32(w.last_error));
    assert(b[8] == v.panel_mode.to_u8() && status_bytes(w)[8] == w.panel_mode.to_u8());
}

} // verus!
