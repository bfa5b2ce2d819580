//! A batch video-summarisation pipeline.  The catalog admits video files
//! with probed metadata and sequential numeric ids, builds the sampling and
//! probing commands, applies the outcomes of the outside work (subprocesses,
//! model calls, file moves) that the surrounding program performs, carries
//! the per-video skip flag and the batch-wide fatal error, substitutes
//! rename templates, and writes the JSON export.

use vstd::prelude::*;

pub mod catalog;
pub mod error;
pub mod export;
pub mod file_management;
pub mod image_resizer;
pub mod metadata;
pub mod protocol;
pub mod settings;
pub mod text;
mod trusted;
pub mod video;

pub use catalog::{AdmissionRequest, Aspargus, ExtractionOutcome, ProbeOutcome};
pub use error::AspargusError;
pub use file_management::{create_new_file_name, create_new_path, get_file_name};
pub use image_resizer::calculate_new_size;
pub use metadata::{
    get_capture_gap, parse_duration, parse_probe_output, sampling_divisor, Duration,
    ProbeMetadata, Timestamp,
};
pub use protocol::{extract_json, resume_from_json, CommandSpec, ModelRequest};
pub use settings::{
    get_default_cv_model, get_default_server_port, get_default_server_url,
    get_default_text_model, get_default_two_steps, AspargusSettings,
};
pub use video::{Resume, Video};

verus! {

} // verus!
