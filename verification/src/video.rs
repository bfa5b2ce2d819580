//! The unit of work: one admitted video file, its derived artifacts, and its
//! structured summary.

use vstd::prelude::*;

use crate::metadata::{ProbeMetadata, Timestamp};
use crate::trusted::md5_hex_of;

verus! {

/// The structured summary of one video: a title, a description, and an
/// ordered list of keywords.
pub struct Resume {
    pub title: String,
    pub description: String,
    pub keywords: Vec<String>,
}

/// Whether a resume holds nothing yet: the state of every video before the
/// model stages ran, and the final state of a skipped or failed one.
pub open spec fn resume_is_empty(r: Resume) -> bool {
    &&& r.title@.len() == 0
    &&& r.description@.len() == 0
    &&& r.keywords@.len() == 0
}

impl Default for Resume {
    /// An empty resume.
    fn default() -> (r: Resume)
        ensures
            resume_is_empty(r),
    {
        Resume { title: String::new(), description: String::new(), keywords: Vec::new() }
    }
}

/// One admitted video file and everything the pipeline derives for it.
pub struct Video {
    /// The MD5 digest of the source path in lowercase hexadecimal; it
    /// namespaces the video's thumbnail files in the shared temp folder.
    pub id: String,
    /// The source file path; updated in place after a successful rename.
    pub path: String,
    /// The free-text narrative from the vision stage (two-step mode only).
    pub story: String,
    /// The structured summary, empty until a model stage fills it.
    pub resume: Resume,
    /// The paths of the sampled frames, empty until extraction ran.
    pub thumbnails: Vec<String>,
    /// The creation timestamp the probe reported, or the start of 1970.
    pub creation_date: Timestamp,
    /// Whole seconds between two sampled frames: a third of the duration,
    /// rounded down; zero when the duration is unknown.
    pub gap: u64,
    /// The sequential display id, assigned on successful admission only.
    pub numeric_id: i32,
    /// Once set, no further pipeline stage touches this video; the batch
    /// goes on without it.
    pub skip: bool,
}

impl Video {
    /// A video admitted with probed metadata: the id is the MD5 digest of
    /// the path, the gap a third of the probed duration (zero if unknown),
    /// and the creation date what the probe reported (the start of 1970 if
    /// nothing).  Story, resume and thumbnails start empty and the video is
    /// not skipped.
    pub fn new(path: String, numeric_id: i32, metadata: &ProbeMetadata) -> (v: Video)
        ensures
            v.id@ == md5_hex_of(path@),
            v.path == path,
            v.story@.len() == 0,
            resume_is_empty(v.resume),
            v.thumbnails@.len() == 0,
            v.creation_date == (match metadata.creation {
                Some(t) => t,
                None => Timestamp { year: 1970, month: 1, day: 1, hour: 0, minute: 0, second: 0 },
            }),
            v.gap == (match metadata.duration {
                Some(d) => d.secs / 3,
                None => 0u64,
            }),
            v.numeric_id == numeric_id,
            !v.skip,
    {
        let id = crate::trusted::md5_hex(path.as_str());
        let gap = match &metadata.duration {
            Some(d) => crate::metadata::get_capture_gap(d),
            None => 0,
        };
        let creation_date = match &metadata.creation {
            Some(t) => *t,
            None => Timestamp::epoch(),
        };
        Video {
            id,
            path,
            story: String::new(),
            resume: Resume::default(),
            thumbnails: Vec::new(),
            creation_date,
            gap,
            numeric_id,
            skip: false,
        }
    }
}

} // verus!
