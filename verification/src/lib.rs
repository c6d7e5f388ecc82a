//! BinBook firmware and display logic for the Xteink X4 e-ink reader, with
//! machine-checked contracts.

pub mod protocol;
pub mod fw;
pub mod display;
