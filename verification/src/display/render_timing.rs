//! Timing observation of plane writes and refreshes.

use vstd::prelude::*;

verus! {

/// Waveform a refresh runs.
#[derive(Debug, Clone, Copy, PartialEq, Eq, Structural)]
pub enum RefreshMode {
    Full,
    Partial,
    Grayscale,
    StagedGrayscale,
}

#[derive(Debug, Clone, Copy, PartialEq, Eq, Structural)]
pub enum PlaneRole {
    PreviousFastBase,
    TargetFastBase,
}

#[derive(Debug, Clone, Copy, PartialEq, Eq, Structural)]
pub enum RenderStageStatus {
    Success,
    Error,
    Cancelled,
}

#[derive(Debug, Clone, Copy, PartialEq, Eq, Structural)]
pub enum RamTarget {
    Black,
    Red,
}

/// Receiver of render timings, implemented by the application; every method
/// does nothing unless overridden.
pub trait RenderTimingObserver {
    /// The current time in milliseconds; an observer without a clock reports
    /// zero.
    fn now_ms(&self) -> (r: u64)
        default_ensures
            r == 0,
    {
        0
    }

    fn page_metadata_read(&mut self, _from: u32, _target: u32, _duration_ms: u32) {
    }

    fn plane_write_start(&mut self, _role: PlaneRole, _target: RamTarget, _plane_bytes: u32) {
    }

    fn plane_row_fill_summary(&mut self, _role: PlaneRole, _duration_ms: u32, _row_count: u32) {
    }

    fn plane_spi_write_summary(&mut self, _role: PlaneRole, _duration_ms: u32, _bytes_written: u32) {
    }

    fn plane_write_end(&mut self, _role: PlaneRole, _duration_ms: u32, _status: RenderStageStatus) {
    }

    fn refresh_trigger(&mut self, _mode: RefreshMode, _duration_ms: u32, _status: RenderStageStatus) {
    }
}

/// An observer that records nothing.
pub struct NoopRenderTimingObserver;

impl RenderTimingObserver for NoopRenderTimingObserver {

}

pub struct RenderObservers<'a, B, T> {
    pub busy: &'a mut B,
    pub timing: &'a mut T,
}

/// Milliseconds from `start_ms` to `end_ms`, zero when the clock went back and
/// saturated at `u32::MAX`.
pub fn elapsed_u32(start_ms: u64, end_ms: u64) -> (r: u32)
    ensures
        r == if end_ms <= start_ms {
            0
        } else if end_ms - start_ms > u32::MAX {
            u32::MAX as int
        } else {
            end_ms - start_ms
        },
{
    let elapsed = end_ms.saturating_sub(start_ms);
    if elapsed > u32::MAX as u64 {
        u32::MAX
    } else {
        elapsed as u32
    }
}

/// The number that stands for a plane role in timing reports.
pub fn plane_role_code(role: PlaneRole) -> (r: i32)
    ensures
        r == match role {
            PlaneRole::PreviousFastBase => 0i32,
            PlaneRole::TargetFastBase => 1i32,
        },
{
    match role {
        PlaneRole::PreviousFastBase => 0,
        PlaneRole::TargetFastBase => 1,
    }
}

/// The number that stands for a controller RAM in timing reports.
pub fn ram_target_code(target: RamTarget) -> (r: i32)
    ensures
        r == match target {
            RamTarget::Black => 0i32,
            RamTarget::Red => 1i32,
        },
{
    match target {
        RamTarget::Black => 0,
        RamTarget::Red => 1,
    }
}

/// The number that stands for a stage outcome in timing reports.
pub fn stage_status_code(status: RenderStageStatus) -> (r: i32)
    ensures
        r == match status {
            RenderStageStatus::Success => 0i32,
            RenderStageStatus::Error => 1i32,
            RenderStageStatus::Cancelled => 2i32,
        },
{
    match status {
        RenderStageStatus::Success => 0,
        RenderStageStatus::Error => 1,
        RenderStageStatus::Cancelled => 2,
    }
}

} // verus!
