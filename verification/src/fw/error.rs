use vstd::prelude::*;

verus! {

#[derive(Debug, Clone, Copy, PartialEq, Eq, Structural)]
pub enum FirmwareError {
    Spi,
    Gpio,
    Storage,
    Timeout,
    InvalidParameter,
}

pub type FirmwareResult<T> = Result<T, FirmwareError>;

} // verus!
