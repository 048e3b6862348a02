//! Helpers for tests: simulated input, and the frame bookkeeping and
//! bitstream handling behind screenshot and video capture.
pub mod capture;
pub mod h264;
pub mod input;
pub mod nal;
pub mod video;

pub use capture::{padded_bytes_per_row, remove_row_padding, staging_buffer_size};
pub use input::{InputEvent, InputModel, InputSimulator, KeyCode};
pub use nal::extract_nal_units;
pub use video::{FinishedRecording, Mp4Plan, VideoRecorder};
