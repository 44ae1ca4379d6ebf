//! Telemetry extraction logic for action-camera metadata: GoPro lens
//! calibration (DVID / FOVL FourCCs), GPS readings selected from GPMF tag
//! maps, the handle registry that the mobile bindings keep parsed clips in,
//! and the last-error slot of the C interface.
pub mod search;
pub mod tags;
pub mod text;
pub mod gpmf_lens;
pub mod mobile;
pub mod ios;
