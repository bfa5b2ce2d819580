//! The catalog: the ordered collection of admitted videos and the
//! sequencing of the pipeline stages over it.  The catalog makes every
//! decision — what is admitted, which numeric id it gets, which video is
//! skipped, when the whole batch aborts — while the surrounding program
//! performs the outside work (subprocesses, requests, file moves) and hands
//! the outcomes back in.

use vstd::prelude::*;

use crate::error::AspargusError;
use crate::file_management;
use crate::metadata::{
    dedup_of, digits_val, dot_index, last_date, last_duration_line, lines_of, spec_trim,
    Timestamp,
};
use crate::settings::AspargusSettings;
use crate::trusted::md5_hex_of;
use crate::protocol::{CommandSpec, ModelRequest};
use crate::video::{resume_is_empty, Video};
use vstd::string::StringExecFns;

verus! {

/// What running the metadata probe for one path came to.
pub enum ProbeOutcome {
    /// The probe binary is absent from the host: fatal for the whole batch.
    BinaryMissing,
    /// The probe ran and failed; the file yields no metadata.
    RunFailed,
    /// The probe's raw standard output.
    Output(String),
}

/// One admission request: a path, whether it names an existing regular
/// file, and what the probe said about it.
pub struct AdmissionRequest {
    pub path: String,
    pub is_file: bool,
    pub probe: ProbeOutcome,
}

/// What running the frame sampler for one video came to.
pub enum ExtractionOutcome {
    /// The sampler binary is absent from the host: fatal for the whole
    /// batch.
    BinaryMissing,
    /// The sampler could not be run for this video.
    Failed,
    /// The sampler ran; these are the thumbnail paths found afterwards.
    Produced(Vec<String>),
}

/// The deduplicated probe lines behind an admission request's output.
pub open spec fn probe_lines(out: Seq<char>) -> Seq<Seq<char>> {
    dedup_of(lines_of(spec_trim(out)))
}

/// Whether a request is admitted: the path names a file, the probe ran, and
/// at least one of its lines parses as a timestamp or as a duration.
pub open spec fn admits(req: AdmissionRequest) -> bool {
    &&& req.is_file
    &&& req.probe matches ProbeOutcome::Output(out) && {
        let lines = probe_lines(out@);
        last_date(lines) is Some || last_duration_line(lines) is Some
    }
}

/// Whether a request aborts the whole batch: the file exists but the probe
/// binary is absent from the host.
pub open spec fn admission_fatal(req: AdmissionRequest) -> bool {
    req.is_file && req.probe is BinaryMissing
}

/// The video an admitted request gives rise to: its id is the digest of the
/// path, its creation date is the last timestamp among the probe lines (the
/// start of 1970 if none), its gap a third of the last duration among them
/// (zero if none), its numeric id the given one, and everything else empty.
pub open spec fn admitted_video(path: Seq<char>, out: Seq<char>, numeric_id: int, v: Video) -> bool {
    let lines = probe_lines(out);
    &&& v.id@ == md5_hex_of(path)
    &&& v.path@ == path
    &&& v.story@.len() == 0
    &&& resume_is_empty(v.resume)
    &&& v.thumbnails@.len() == 0
    &&& v.numeric_id == numeric_id
    &&& !v.skip
    &&& v.creation_date.wf()
    &&& (match last_date(lines) {
        Some(t) => (
            v.creation_date.year as int,
            v.creation_date.month as int,
            v.creation_date.day as int,
            v.creation_date.hour as int,
            v.creation_date.minute as int,
            v.creation_date.second as int,
        ) == t,
        None => v.creation_date == (Timestamp {
            year: 1970,
            month: 1,
            day: 1,
            hour: 0,
            minute: 0,
            second: 0,
        }),
    })
    &&& (match last_duration_line(lines) {
        Some(line) => v.gap == digits_val(line.take(dot_index(line))) / 3,
        None => v.gap == 0,
    })
}

/// Whether `v` is the video that request `req` gives rise to under numeric
/// id `numeric_id`.
pub open spec fn req_admitted_video(req: AdmissionRequest, numeric_id: int, v: Video) -> bool {
    req.probe matches ProbeOutcome::Output(out) && admitted_video(req.path@, out@, numeric_id, v)
}

/// Whether `v`, carrying numeric id `numeric_id`, arose from one of the
/// admitted requests in `reqs`.
pub open spec fn sourced_video(reqs: Seq<AdmissionRequest>, numeric_id: int, v: Video) -> bool {
    exists|i: int|
        0 <= i < reqs.len() && admits(#[trigger] reqs[i]) && req_admitted_video(
            reqs[i],
            numeric_id,
            v,
        )
}

/// The index of the first fatal request, or the number of requests if none
/// is fatal.
pub open spec fn first_fatal(reqs: Seq<AdmissionRequest>) -> int
    decreases reqs.len(),
{
    if reqs.len() == 0 {
        0
    } else if admission_fatal(reqs[0]) {
        0
    } else {
        1 + first_fatal(reqs.drop_first())
    }
}

/// How many of the first `n` requests are admitted.
pub open spec fn num_admitted(reqs: Seq<AdmissionRequest>, n: int) -> int
    decreases n,
{
    if n <= 0 {
        0
    } else {
        num_admitted(reqs, n - 1) + if admits(reqs[n - 1]) {
            1int
        } else {
            0int
        }
    }
}

/// How one extraction outcome changes one video: a skipped video is left
/// alone; thumbnails found go into the video; a failed run or an empty find
/// sets the skip flag; a missing binary leaves the video untouched (the
/// batch-wide error is reported separately).  Nothing else about the video
/// changes.
pub open spec fn extraction_step(ov: Video, oc: ExtractionOutcome, nv: Video) -> bool {
    &&& nv.id == ov.id
    &&& nv.path == ov.path
    &&& nv.story == ov.story
    &&& nv.resume == ov.resume
    &&& nv.creation_date == ov.creation_date
    &&& nv.gap == ov.gap
    &&& nv.numeric_id == ov.numeric_id
    &&& if ov.skip {
        nv == ov
    } else {
        match oc {
            ExtractionOutcome::Produced(ts) => if ts@.len() > 0 {
                nv.thumbnails == ts && !nv.skip
            } else {
                nv.skip && nv.thumbnails == ov.thumbnails
            },
            ExtractionOutcome::Failed => nv.skip && nv.thumbnails == ov.thumbnails,
            ExtractionOutcome::BinaryMissing => nv == ov,
        }
    }
}

/// The catalog's well-formedness: numeric ids are exactly the positions
/// shifted by one — so strictly increasing from one, never reused — every
/// creation date is a valid calendar moment, and a skipped video's resume
/// stays empty.
pub open spec fn videos_wf(vs: Seq<Video>) -> bool {
    forall|i: int|
        0 <= i < vs.len() ==> {
            &&& (#[trigger] vs[i]).numeric_id == i + 1
            &&& vs[i].creation_date.wf()
            &&& (vs[i].skip ==> resume_is_empty(vs[i].resume))
        }
}

/// The pipeline engine: the admitted videos in order, the configuration,
/// and the count of admission attempts (used for progress display only).
pub struct Aspargus {
    pub videos: Vec<Video>,
    pub settings: AspargusSettings,
    pub videos_number: i32,
}

impl Aspargus {
    /// The catalog's invariant.
    pub open spec fn wf(self) -> bool {
        videos_wf(self.videos@)
    }

    /// An empty catalog over the given settings.
    pub fn new(settings: AspargusSettings) -> (a: Aspargus)
        ensures
            a.wf(),
            a.videos@.len() == 0,
            a.videos_number == 0,
            a.settings == settings,
    {
        Aspargus { videos: Vec::new(), settings, videos_number: 0 }
    }

    /// Numeric ids are assigned strictly increasing from one, with no
    /// reuse, whatever admission failures were interleaved: in a
    /// well-formed catalog the i-th video carries id i + 1, so the first
    /// carries 1 and each later one a strictly larger id than every video
    /// before it.
    pub proof fn lemma_numeric_ids_strictly_increasing(self)
        requires
            self.wf(),
        ensures
            forall|i: int, j: int|
                0 <= i < j < self.videos@.len() ==> self.videos@[i].numeric_id
                    < self.videos@[j].numeric_id,
            self.videos@.len() > 0 ==> self.videos@[0].numeric_id == 1,
    {
    }

    /// The next numeric id: one past the last video's, or one for the
    /// first.
    fn get_new_video_numeric_id(&self) -> (id: i32)
        requires
            self.wf(),
            self.videos@.len() < i32::MAX,
        ensures
            id == self.videos@.len() + 1,
    {
        if self.videos.len() >= 1 {
            let last = self.videos.len() - 1;
            self.videos[last].numeric_id + 1
        } else {
            1
        }
    }

    /// Admits one video.  The request is admitted exactly when its path
    /// names an existing regular file, the probe ran, and its output
    /// yields at least one parseable value; the new video is then appended
    /// with the next numeric id.  A missing probe binary is the fatal
    /// case, reported as `GenericError`; every other failure rejects only
    /// this file, as `ProcessingError`, and consumes no id.
    pub fn add_video(&mut self, path: String, is_file: bool, probe: ProbeOutcome) -> (r: Result<
        (),
        AspargusError,
    >)
        requires
            old(self).wf(),
            old(self).videos@.len() + 1 < i32::MAX,
        ensures
            final(self).wf(),
            final(self).settings == old(self).settings,
            final(self).videos_number == old(self).videos_number,
            r is Ok <==> admits(AdmissionRequest { path, is_file, probe }),
            r is Ok ==> {
                &&& final(self).videos@.len() == old(self).videos@.len() + 1
                &&& final(self).videos@.drop_last() == old(self).videos@
                &&& (probe matches ProbeOutcome::Output(out) && admitted_video(
                    path@,
                    out@,
                    old(self).videos@.len() as int + 1,
                    final(self).videos@.last(),
                ))
            },
            r is Err ==> final(self).videos == old(self).videos,
            r matches Err(e) ==> (if admission_fatal(
                AdmissionRequest { path, is_file, probe },
            ) {
                e is GenericError
            } else {
                e is ProcessingError
            }),
    {
        if !is_file {
            return Err(
                AspargusError::ProcessingError(
                    String::from_str("File doesn't exist or is not a file: ").concat(
                        path.as_str(),
                    ),
                ),
            );
        }
        match probe {
            ProbeOutcome::BinaryMissing => Err(
                AspargusError::GenericError(
                    String::from_str(
                        "FFProbe is not found. Please install FFMpeg and FFProbe and put them in the path.",
                    ),
                ),
            ),
            ProbeOutcome::RunFailed => Err(
                AspargusError::ProcessingError(
                    String::from_str("Error while extracting metadata for: ").concat(
                        path.as_str(),
                    ),
                ),
            ),
            ProbeOutcome::Output(out) => {
                let metadata = crate::metadata::parse_probe_output(out.as_str());
                if metadata.duration.is_none() && metadata.creation.is_none() {
                    return Err(
                        AspargusError::ProcessingError(
                            String::from_str("Error while extracting metadata for: ").concat(
                                path.as_str(),
                            ),
                        ),
                    );
                }
                let numeric_id = self.get_new_video_numeric_id();
                let video = Video::new(path, numeric_id, &metadata);
                self.videos.push(video);
                proof {
                    assert(final(self).videos@.drop_last() =~= old(self).videos@);
                    assert forall|i: int| 0 <= i < final(self).videos@.len() implies {
                        &&& (#[trigger] final(self).videos@[i]).numeric_id == i + 1
                        &&& final(self).videos@[i].creation_date.wf()
                        &&& (final(self).videos@[i].skip ==> resume_is_empty(
                            final(self).videos@[i].resume,
                        ))
                    } by {
                        if i < old(self).videos@.len() {
                            assert(final(self).videos@[i] == old(self).videos@[i]);
                        }
                    }
                }
                Ok(())
            },
        }
    }

    /// Admits a list of videos in order.  Every request counts as an
    /// attempt; a rejected file is logged by the caller and the batch goes
    /// on, but the first fatal request (probe binary absent) aborts the
    /// remaining admissions and is returned.
    #[verifier::loop_isolation(false)]
    pub fn add_videos(&mut self, requests: Vec<AdmissionRequest>) -> (r: Result<
        (),
        AspargusError,
    >)
        requires
            old(self).wf(),
            old(self).videos@.len() + requests@.len() < i32::MAX,
            old(self).videos_number + requests@.len() <= i32::MAX,
        ensures
            final(self).wf(),
            final(self).settings == old(self).settings,
            r is Ok <==> first_fatal(requests@) == requests@.len(),
            final(self).videos_number == old(self).videos_number + (if first_fatal(requests@)
                < requests@.len() {
                first_fatal(requests@) + 1
            } else {
                requests@.len() as int
            }),
            final(self).videos@.len() == old(self).videos@.len() + num_admitted(
                requests@,
                first_fatal(requests@),
            ),
            final(self).videos@.take(old(self).videos@.len() as int) == old(self).videos@,
            forall|j: int|
                old(self).videos@.len() <= j < final(self).videos@.len() ==> sourced_video(
                    requests@,
                    j + 1,
                    #[trigger] final(self).videos@[j],
                ),
            r matches Err(e) ==> e is GenericError,
    {
        proof {
            lemma_first_fatal(requests@);
        }
        let ghost ff = first_fatal(requests@);
        let mut idx: usize = 0;
        let n = requests.len();
        while idx < n
            invariant
                0 <= idx <= n,
                self.wf(),
                self.settings == old(self).settings,
                idx <= ff,
                self.videos_number == old(self).videos_number + idx,
                self.videos@.len() == old(self).videos@.len() + num_admitted(
                    requests@,
                    idx as int,
                ),
                self.videos@.take(old(self).videos@.len() as int) == old(self).videos@,
                forall|j: int|
                    old(self).videos@.len() <= j < self.videos@.len() ==> sourced_video(
                        requests@,
                        j + 1,
                        #[trigger] self.videos@[j],
                    ),
            decreases n - idx,
        {
            proof {
                lemma_num_admitted_bound(requests@, idx as int);
            }
            let ghost pre = self.videos@;
            let path = requests[idx].path.clone();
            let is_file = requests[idx].is_file;
            let probe = match &requests[idx].probe {
                ProbeOutcome::BinaryMissing => ProbeOutcome::BinaryMissing,
                ProbeOutcome::RunFailed => ProbeOutcome::RunFailed,
                ProbeOutcome::Output(out) => ProbeOutcome::Output(out.clone()),
            };
            let is_fatal = is_file && (match &probe {
                ProbeOutcome::BinaryMissing => true,
                _ => false,
            });
            proof {
                assert(path == requests@[idx as int].path);
                assert(probe == requests@[idx as int].probe);
                assert(is_fatal == admission_fatal(requests@[idx as int]));
                assert(admits(AdmissionRequest { path, is_file, probe }) == admits(
                    requests@[idx as int],
                ));
            }
            let res = self.add_video(path, is_file, probe);
            self.videos_number = self.videos_number + 1;
            proof {
                assert(num_admitted(requests@, idx + 1 as int) == num_admitted(
                    requests@,
                    idx as int,
                ) + if admits(requests@[idx as int]) {
                    1int
                } else {
                    0int
                });
                if admits(requests@[idx as int]) {
                    assert(self.videos@.drop_last() == pre);
                    assert(self.videos@.take(old(self).videos@.len() as int) =~= old(
                        self,
                    ).videos@);
                    assert forall|j: int|
                        old(self).videos@.len() <= j < self.videos@.len() implies sourced_video(
                        requests@,
                        j + 1,
                        #[trigger] self.videos@[j],
                    ) by {
                        if j < self.videos@.len() - 1 {
                            assert(self.videos@[j] == pre[j]);
                            assert(sourced_video(requests@, j + 1, pre[j]));
                        } else {
                            assert(self.videos@[j] == self.videos@.last());
                            assert(admits(requests@[idx as int]));
                            assert(req_admitted_video(
                                requests@[idx as int],
                                j + 1,
                                self.videos@[j],
                            ));
                        }
                    }
                }
            }
            match res {
                Ok(()) => {},
                Err(e) => {
                    if is_fatal {
                        proof {
                            if ff < idx as int {
                                assert(admission_fatal(requests@[ff]));
                            }
                            if ff > idx as int {
                                assert(!admission_fatal(requests@[idx as int]));
                            }
                            assert(ff == idx as int);
                        }
                        return Err(e);
                    }
                },
            }
            proof {
                if ff == idx as int {
                    assert(admission_fatal(requests@[idx as int]));
                }
            }
            idx = idx + 1;
        }
        proof {
            assert(ff == n as int);
        }
        Ok(())
    }

    /// Whether the pipeline runs in two steps.
    pub fn is_two_steps(&self) -> (r: bool)
        ensures
            r == self.settings.two_steps,
    {
        self.settings.two_steps
    }

    /// The configured vision model's name.
    pub fn get_computer_vision_model(&self) -> (r: String)
        ensures
            r@ == self.settings.computer_vision_model@,
    {
        self.settings.computer_vision_model.clone()
    }

    /// The configured text model's name.
    pub fn get_text_model(&self) -> (r: String)
        ensures
            r@ == self.settings.text_model@,
    {
        self.settings.text_model.clone()
    }

    /// Sets the vision model's name.  Returns whether the settings changed,
    /// so that the caller knows to persist them.
    pub fn set_computer_vision_model(&mut self, model: String) -> (changed: bool)
        ensures
            changed == (old(self).settings.computer_vision_model@ != model@),
            final(self).settings.computer_vision_model@ == model@,
            final(self).settings == (AspargusSettings {
                computer_vision_model: final(self).settings.computer_vision_model,
                ..old(self).settings
            }),
            final(self).videos == old(self).videos,
            final(self).videos_number == old(self).videos_number,
    {
        if self.settings.computer_vision_model != model {
            self.settings.computer_vision_model = model;
            true
        } else {
            false
        }
    }

    /// Sets the text model's name.  Returns whether the settings changed.
    pub fn set_text_model(&mut self, model: String) -> (changed: bool)
        ensures
            changed == (old(self).settings.text_model@ != model@),
            final(self).settings.text_model@ == model@,
            final(self).settings == (AspargusSettings {
                text_model: final(self).settings.text_model,
                ..old(self).settings
            }),
            final(self).videos == old(self).videos,
            final(self).videos_number == old(self).videos_number,
    {
        if self.settings.text_model != model {
            self.settings.text_model = model;
            true
        } else {
            false
        }
    }

    /// Sets the vision server's address.  Returns whether the settings
    /// changed.
    pub fn set_computer_vision_server(&mut self, server: String) -> (changed: bool)
        ensures
            changed == (old(self).settings.computer_vision_server@ != server@),
            final(self).settings.computer_vision_server@ == server@,
            final(self).settings == (AspargusSettings {
                computer_vision_server: final(self).settings.computer_vision_server,
                ..old(self).settings
            }),
            final(self).videos == old(self).videos,
            final(self).videos_number == old(self).videos_number,
    {
        if self.settings.computer_vision_server != server {
            self.settings.computer_vision_server = server;
            true
        } else {
            false
        }
    }

    /// Sets the vision server's port.  Returns whether the settings
    /// changed.
    pub fn set_computer_vision_server_port(&mut self, port: u16) -> (changed: bool)
        ensures
            changed == (old(self).settings.computer_vision_server_port != port),
            final(self).settings == (AspargusSettings {
                computer_vision_server_port: port,
                ..old(self).settings
            }),
            final(self).videos == old(self).videos,
            final(self).videos_number == old(self).videos_number,
    {
        if self.settings.computer_vision_server_port != port {
            self.settings.computer_vision_server_port = port;
            true
        } else {
            false
        }
    }

    /// Sets the text server's address.  Returns whether the settings
    /// changed.
    pub fn set_text_server(&mut self, server: String) -> (changed: bool)
        ensures
            changed == (old(self).settings.text_server@ != server@),
            final(self).settings.text_server@ == server@,
            final(self).settings == (AspargusSettings {
                text_server: final(self).settings.text_server,
                ..old(self).settings
            }),
            final(self).videos == old(self).videos,
            final(self).videos_number == old(self).videos_number,
    {
        if self.settings.text_server != server {
            self.settings.text_server = server;
            true
        } else {
            false
        }
    }

    /// Sets the text server's port.  Returns whether the settings changed.
    pub fn set_text_server_port(&mut self, port: u16) -> (changed: bool)
        ensures
            changed == (old(self).settings.text_server_port != port),
            final(self).settings == (AspargusSettings {
                text_server_port: port,
                ..old(self).settings
            }),
            final(self).videos == old(self).videos,
            final(self).videos_number == old(self).videos_number,
    {
        if self.settings.text_server_port != port {
            self.settings.text_server_port = port;
            true
        } else {
            false
        }
    }

    /// Selects the topology.  Returns whether the settings changed.
    pub fn set_two_steps(&mut self, two_steps: bool) -> (changed: bool)
        ensures
            changed == (old(self).settings.two_steps != two_steps),
            final(self).settings == (AspargusSettings { two_steps, ..old(self).settings }),
            final(self).videos == old(self).videos,
            final(self).videos_number == old(self).videos_number,
    {
        if self.settings.two_steps != two_steps {
            self.settings.two_steps = two_steps;
            true
        } else {
            false
        }
    }

    /// Applies the frame-extraction outcomes, one per video, to the whole
    /// catalog.  A video whose sampler run failed or found no thumbnails is
    /// skipped; one whose run produced thumbnails receives them.  A missing
    /// sampler binary is fatal for the batch: it is reported once, whatever
    /// number of workers observed it, and the other videos' outcomes still
    /// take effect.
    #[verifier::loop_isolation(false)]
    pub fn extract_frames(&mut self, outcomes: Vec<ExtractionOutcome>) -> (r: Result<
        (),
        AspargusError,
    >)
        requires
            old(self).wf(),
            outcomes@.len() == old(self).videos@.len(),
            forall|i: int|
                0 <= i < old(self).videos@.len() && !(#[trigger] old(self).videos@[i]).skip
                    ==> resume_is_empty(old(self).videos@[i].resume),
        ensures
            final(self).wf(),
            final(self).settings == old(self).settings,
            final(self).videos_number == old(self).videos_number,
            final(self).videos@.len() == old(self).videos@.len(),
            forall|i: int|
                0 <= i < old(self).videos@.len() ==> extraction_step(
                    old(self).videos@[i],
                    outcomes@[i],
                    #[trigger] final(self).videos@[i],
                ),
            r is Ok <==> (forall|i: int|
                0 <= i < outcomes@.len() ==> !(!(#[trigger] old(self).videos@[i]).skip
                    && outcomes@[i] is BinaryMissing)),
            r matches Err(e) ==> e is ProcessingError,
    {
        let ghost full = outcomes@;
        let mut outcomes = outcomes;
        let n = self.videos.len();
        let mut fatal: Option<AspargusError> = None;
        let mut i: usize = 0;
        while i < n
            invariant
                0 <= i <= n,
                outcomes@ =~= full.skip(i as int),
                self.videos@.len() == n,
                self.settings == old(self).settings,
                self.videos_number == old(self).videos_number,
                forall|j: int|
                    0 <= j < i ==> extraction_step(
                        old(self).videos@[j],
                        full[j],
                        #[trigger] self.videos@[j],
                    ),
                forall|j: int| i <= j < n ==> self.videos@[j] == old(self).videos@[j],
                fatal is Some <==> (exists|j: int|
                    0 <= j < i && !(#[trigger] old(self).videos@[j]).skip
                        && full[j] is BinaryMissing),
                fatal matches Some(e) ==> e is ProcessingError,
            decreases n - i,
        {
            let oc = outcomes.remove(0);
            proof {
                assert(oc == full[i as int]);
                assert(outcomes@ =~= full.skip(i + 1 as int));
            }
            let skip_now = self.videos[i].skip;
            if !skip_now {
                match oc {
                    ExtractionOutcome::BinaryMissing => {
                        if fatal.is_none() {
                            fatal = Some(
                                AspargusError::ProcessingError(
                                    String::from_str(
                                        "Error while extracting frames: FFMpeg is not found. Please install FFMpeg and FFProbe and put them in the path.",
                                    ),
                                ),
                            );
                        }
                    },
                    ExtractionOutcome::Failed => {
                        self.videos[i].skip = true;
                    },
                    ExtractionOutcome::Produced(ts) => {
                        if ts.len() > 0 {
                            self.videos[i].thumbnails = ts;
                        } else {
                            self.videos[i].skip = true;
                        }
                    },
                }
            }
            proof {
                assert(extraction_step(old(self).videos@[i as int], full[i as int], self.videos@[i as int]));
            }
            i = i + 1;
        }
        proof {
            assert forall|j: int| 0 <= j < final(self).videos@.len() implies {
                &&& (#[trigger] final(self).videos@[j]).numeric_id == j + 1
                &&& final(self).videos@[j].creation_date.wf()
                &&& (final(self).videos@[j].skip ==> resume_is_empty(final(self).videos@[j].resume))
            } by {
                assert(extraction_step(old(self).videos@[j], full[j], final(self).videos@[j]));
            }
        }
        match fatal {
            Some(e) => Err(e),
            None => Ok(()),
        }
    }

    /// The command that probes one path's metadata: the probe binary with
    /// the fixed arguments that request the duration and the creation-time
    /// tag as bare line-oriented values.
    pub fn metadata_probe_command(path: &str) -> (r: CommandSpec)
        ensures
            r.program@ == "ffprobe"@,
            r.args@.len() == 9,
            r.args@[0]@ == "-v"@,
            r.args@[1]@ == "error"@,
            r.args@[2]@ == "-show_entries"@,
            r.args@[3]@ == "format=duration"@,
            r.args@[4]@ == "-show_entries"@,
            r.args@[5]@ == "stream_tags=creation_time"@,
            r.args@[6]@ == "-of"@,
            r.args@[7]@ == "default=noprint_wrappers=1:nokey=1"@,
            r.args@[8]@ == path@,
    {
        let mut args: Vec<String> = Vec::new();
        args.push(String::from_str("-v"));
        args.push(String::from_str("error"));
        args.push(String::from_str("-show_entries"));
        args.push(String::from_str("format=duration"));
        args.push(String::from_str("-show_entries"));
        args.push(String::from_str("stream_tags=creation_time"));
        args.push(String::from_str("-of"));
        args.push(String::from_str("default=noprint_wrappers=1:nokey=1"));
        args.push(String::from_str(path));
        CommandSpec { program: String::from_str("ffprobe"), args }
    }

    /// The command that samples one video's frames: the sampler binary, the
    /// input path, a one-frame-per-gap-seconds filter (the gap clamped to at
    /// least one second, so that an unknown duration still makes a
    /// well-formed request), and the output pattern that namespaces the
    /// frames by the video's id in the shared temp folder.
    pub fn frame_extraction_command(&self, index: usize) -> (r: CommandSpec)
        requires
            index < self.videos@.len(),
        ensures
            r.program@ == "ffmpeg"@,
            r.args@.len() == 5,
            r.args@[0]@ == "-i"@,
            r.args@[1]@ == self.videos@[index as int].path@,
            r.args@[2]@ == "-vf"@,
            r.args@[3]@ == "fps=1/"@ + crate::text::dec_digits(
                (if self.videos@[index as int].gap == 0 {
                    1u64
                } else {
                    self.videos@[index as int].gap
                }) as nat,
            ),
            r.args@[4]@ == self.settings.temp_folder@ + "/"@ + self.videos@[index as int].id@
                + "_%04d.png"@,
    {
        let video = &self.videos[index];
        let divisor = crate::metadata::sampling_divisor(video.gap);
        let fps = String::from_str("fps=1/").concat(
            crate::text::u64_to_string(divisor).as_str(),
        );
        let pattern = self.settings.temp_folder.clone().concat("/").concat(
            video.id.as_str(),
        ).concat("_%04d.png");
        let mut args: Vec<String> = Vec::new();
        args.push(String::from_str("-i"));
        args.push(video.path.clone());
        args.push(String::from_str("-vf"));
        args.push(fps);
        args.push(pattern);
        proof {
            assert(args@[4]@ =~= self.settings.temp_folder@ + "/"@ + self.videos@[index as int].id@
                + "_%04d.png"@);
        }
        CommandSpec { program: String::from_str("ffmpeg"), args }
    }

    /// The glob pattern under which one video's thumbnails are found after
    /// extraction: the video's id, an underscore, digits, and the image
    /// suffix, inside the shared temp folder.
    pub fn thumbnails_glob_pattern(&self, index: usize) -> (r: String)
        requires
            index < self.videos@.len(),
        ensures
            r@ == self.settings.temp_folder@ + "/"@ + self.videos@[index as int].id@
                + "_[0-9]*.png"@,
    {
        let r = self.settings.temp_folder.clone().concat("/").concat(
            self.videos[index].id.as_str(),
        ).concat("_[0-9]*.png");
        proof {
            assert(r@ =~= self.settings.temp_folder@ + "/"@ + self.videos@[index as int].id@
                + "_[0-9]*.png"@);
        }
        r
    }

    /// The request one vision-stage call sends: the configured vision
    /// model, the narrative prompt (two-step) or the combined prompt
    /// (single-step), and the given images encoded as base64.  The length
    /// bound keeps the encoder's buffer arithmetic inside the machine.
    pub fn vision_request(&self, images: Vec<Vec<u8>>) -> (r: ModelRequest)
        requires
            forall|i: int|
                0 <= i < images@.len() ==> 4 * (((#[trigger] images@[i])@.len() + 2) / 3)
                    <= usize::MAX,
        ensures
            r.model@ == self.settings.computer_vision_model@,
            r.prompt@ == if self.settings.two_steps {
                crate::protocol::story_prompt()
            } else {
                crate::protocol::combined_prompt()
            },
            r.images_base64@.len() == images@.len(),
            forall|i: int|
                0 <= i < images@.len() ==> (#[trigger] r.images_base64@[i])@
                    == crate::trusted::base64_of(images@[i]@),
            r.temperature_tenths == 5,
    {
        let prompt = if self.settings.two_steps {
            String::from_str(
                "The following images are part of a video, they tell a story. Please describe that story focusing on the persons and their action and less on their environment.",
            )
        } else {
            String::from_str(
                "The following images are part of a video, they tell a story. Please describe that story focusing on the persons and their action and less on their environment. Please resume that story in 20 words focusing on the person and their action and less on their environment, from that resume please generate a title of maximum 8 words, and make a list of up to 5 keywords that resumes the story, the keywords will include the person on the video if any (e.g. woman, child...). Please format the answer in a valid json format: {\"title\": <<title>>, \"description\": <<description>>, \"keywords\": <<array of keywords>>}, with no other text at all, only the json result.",
            )
        };
        let mut images_base64: Vec<String> = Vec::new();
        let mut i: usize = 0;
        while i < images.len()
            invariant
                0 <= i <= images@.len(),
                images_base64@.len() == i,
                forall|j: int|
                    0 <= j < images@.len() ==> 4 * (((#[trigger] images@[j])@.len() + 2) / 3)
                        <= usize::MAX,
                forall|j: int|
                    0 <= j < i ==> (#[trigger] images_base64@[j])@ == crate::trusted::base64_of(
                        images@[j]@,
                    ),
            decreases images@.len() - i,
        {
            let encoded = crate::trusted::base64_encode(&images[i]);
            images_base64.push(encoded);
            i = i + 1;
        }
        ModelRequest {
            model: self.settings.computer_vision_model.clone(),
            prompt,
            images_base64,
            temperature_tenths: 5,
        }
    }

    /// The request the two-step topology's text stage sends for one video:
    /// the configured text model and the condensation prompt with the
    /// video's story appended.  A video that enters this stage with an
    /// empty story is a per-video failure, reported as `ProcessingError`.
    pub fn resume_request(&self, index: usize) -> (r: Result<ModelRequest, AspargusError>)
        requires
            index < self.videos@.len(),
        ensures
            r is Ok <==> self.videos@[index as int].story@.len() > 0,
            r matches Ok(req) ==> {
                &&& req.model@ == self.settings.text_model@
                &&& req.prompt@ == crate::protocol::resume_prompt()
                    + self.videos@[index as int].story@
                &&& req.images_base64@.len() == 0
                &&& req.temperature_tenths == 5
            },
            r matches Err(e) ==> e is ProcessingError,
    {
        let video = &self.videos[index];
        if video.story.as_str().is_empty() {
            return Err(
                AspargusError::ProcessingError(
                    String::from_str("No story to resume for: ").concat(video.path.as_str()),
                ),
            );
        }
        let prompt = String::from_str(
            "You are a helpful assistant and expert in concise storytelling. The following text tells the story of a video. Please resume that story in 20 words focusing on the person and their action and less on their environment, from that resume please generate a title of maximum 8 words, and make a list of up to 5 keywords that resumes the story, the keywords will include the person on the video if any (e.g. woman, child...). Please format the answer in a json format: {\"title\": <<title>>, \"description\": <<description>>, \"keywords\": <<array of keywords>>}, with no other text at all, only the json result. The story is:",
        ).concat(video.story.as_str());
        Ok(
            ModelRequest {
                model: self.settings.text_model.clone(),
                prompt,
                images_base64: Vec::new(),
                temperature_tenths: 5,
            },
        )
    }

    /// Records one vision-stage reply in two-step mode: the reply text
    /// becomes the video's story.  A skipped video, or a failed call, leaves
    /// the video untouched; either way the batch goes on.
    pub fn run_computer_vision_model(&mut self, index: usize, response: Option<String>)
        requires
            old(self).wf(),
            index < old(self).videos@.len(),
        ensures
            final(self).wf(),
            final(self).settings == old(self).settings,
            final(self).videos_number == old(self).videos_number,
            final(self).videos@.len() == old(self).videos@.len(),
            forall|j: int|
                0 <= j < old(self).videos@.len() && j != index ==> #[trigger] final(self).videos@[j] == old(self).videos@[j],
            ({
                let ov = old(self).videos@[index as int];
                let nv = final(self).videos@[index as int];
                if ov.skip {
                    nv == ov
                } else {
                    match response {
                        Some(s) => nv == (Video { story: s, ..ov }),
                        None => nv == ov,
                    }
                }
            }),
    {
        if self.videos[index].skip {
            return ;
        }
        match response {
            Some(s) => {
                self.videos[index].story = s;
            },
            None => {},
        }
    }

    /// Sets one video's resume to the given value; the step every model
    /// stage ends in once a reply parsed.  A skipped video is left alone.
    pub fn apply_resume(&mut self, index: usize, resume: crate::video::Resume)
        requires
            old(self).wf(),
            index < old(self).videos@.len(),
        ensures
            final(self).wf(),
            final(self).settings == old(self).settings,
            final(self).videos_number == old(self).videos_number,
            final(self).videos@.len() == old(self).videos@.len(),
            forall|j: int|
                0 <= j < old(self).videos@.len() && j != index ==> #[trigger] final(self).videos@[j] == old(self).videos@[j],
            ({
                let ov = old(self).videos@[index as int];
                let nv = final(self).videos@[index as int];
                if ov.skip {
                    nv == ov
                } else {
                    nv == (Video { resume, ..ov })
                }
            }),
    {
        if self.videos[index].skip {
            return ;
        }
        self.videos[index].resume = resume;
    }

    /// Records one text-stage reply in two-step mode: the reply is read as
    /// a JSON resume and, exactly when it parses, the video's resume becomes
    /// the reply's parsed title, description and keywords.  A skipped video,
    /// a failed call, or an unparseable reply leaves the video untouched;
    /// either way the batch goes on.
    pub fn run_resume_model(&mut self, index: usize, response: Option<String>)
        requires
            old(self).wf(),
            index < old(self).videos@.len(),
        ensures
            final(self).wf(),
            final(self).settings == old(self).settings,
            final(self).videos_number == old(self).videos_number,
            final(self).videos@.len() == old(self).videos@.len(),
            forall|j: int|
                0 <= j < old(self).videos@.len() && j != index ==> #[trigger] final(self).videos@[j] == old(self).videos@[j],
            ({
                let ov = old(self).videos@[index as int];
                let nv = final(self).videos@[index as int];
                if ov.skip {
                    nv == ov
                } else {
                    match response {
                        Some(s) => match crate::trusted::resume_fields_of(s@) {
                            Some(f) => {
                                &&& nv == (Video { resume: nv.resume, ..ov })
                                &&& (
                                    nv.resume.title@,
                                    nv.resume.description@,
                                    nv.resume.keywords@.map_values(|k: String| k@),
                                ) == f
                            },
                            None => nv == ov,
                        },
                        None => nv == ov,
                    }
                }
            }),
    {
        if self.videos[index].skip {
            return ;
        }
        match response {
            Some(s) => {
                match crate::protocol::resume_from_json(s.as_str()) {
                    Some(resume) => {
                        self.apply_resume(index, resume);
                    },
                    None => {},
                }
            },
            None => {},
        }
    }

    /// Records one vision-stage reply in single-step mode: the first
    /// balanced-brace substring of the reply is read as a JSON resume and,
    /// exactly when both steps succeed, the video's resume becomes the
    /// substring's parsed title, description and keywords.  A skipped video,
    /// a failed call, a reply without a balanced JSON object, or an
    /// unparseable object leaves the video untouched; either way the batch
    /// goes on.
    pub fn run_only_computer_vision_model(&mut self, index: usize, response: Option<String>)
        requires
            old(self).wf(),
            index < old(self).videos@.len(),
        ensures
            final(self).wf(),
            final(self).settings == old(self).settings,
            final(self).videos_number == old(self).videos_number,
            final(self).videos@.len() == old(self).videos@.len(),
            forall|j: int|
                0 <= j < old(self).videos@.len() && j != index ==> #[trigger] final(self).videos@[j] == old(self).videos@[j],
            ({
                let ov = old(self).videos@[index as int];
                let nv = final(self).videos@[index as int];
                if ov.skip {
                    nv == ov
                } else {
                    match response {
                        Some(s) => match crate::protocol::spec_extract_json(s@) {
                            Some(body) => match crate::trusted::resume_fields_of(body) {
                                Some(f) => {
                                    &&& nv == (Video { resume: nv.resume, ..ov })
                                    &&& (
                                        nv.resume.title@,
                                        nv.resume.description@,
                                        nv.resume.keywords@.map_values(|k: String| k@),
                                    ) == f
                                },
                                None => nv == ov,
                            },
                            None => nv == ov,
                        },
                        None => nv == ov,
                    }
                }
            }),
    {
        if self.videos[index].skip {
            return ;
        }
        match response {
            Some(s) => {
                match crate::protocol::extract_json(s.as_str()) {
                    Some(body) => {
                        match crate::protocol::resume_from_json(body.as_str()) {
                            Some(resume) => {
                                self.apply_resume(index, resume);
                            },
                            None => {},
                        }
                    },
                    None => {},
                }
            },
            None => {},
        }
    }

    /// The JSON export of the catalog: a pretty-printed array holding, for
    /// every video, its path and its resume, the internal fields left out.
    /// Writing the text anywhere is the caller's business; a write failure
    /// there leaves this catalog untouched.
    pub fn export_to_json(&self) -> (r: String)
        ensures
            r@ == crate::export::ser_export(crate::export::export_views(self.videos@)),
    {
        crate::export::export_json_text(&self.videos)
    }

    /// The rename target for every video: nothing for a skipped one, and
    /// for the rest the renamed path built from the substituted template.
    pub fn rename_targets(&self, template: &str) -> (r: Vec<Option<String>>)
        requires
            self.wf(),
        ensures
            r@.len() == self.videos@.len(),
            forall|i: int|
                0 <= i < r@.len() ==> match #[trigger] r@[i] {
                    Some(p) => !self.videos@[i].skip && p@ == file_management::spec_create_new_path(
                        self.videos@[i].path@,
                        file_management::subst(
                            template@,
                            file_management::token_values_of(self.videos@[i]),
                        ),
                    ),
                    None => self.videos@[i].skip,
                },
    {
        let mut r: Vec<Option<String>> = Vec::new();
        let mut i: usize = 0;
        while i < self.videos.len()
            invariant
                0 <= i <= self.videos@.len(),
                self.wf(),
                r@.len() == i,
                forall|j: int|
                    0 <= j < i ==> match #[trigger] r@[j] {
                        Some(p) => !self.videos@[j].skip
                            && p@ == file_management::spec_create_new_path(
                            self.videos@[j].path@,
                            file_management::subst(
                                template@,
                                file_management::token_values_of(self.videos@[j]),
                            ),
                        ),
                        None => self.videos@[j].skip,
                    },
            decreases self.videos@.len() - i,
        {
            if self.videos[i].skip {
                r.push(None);
            } else {
                let new_name = file_management::create_new_file_name(&self.videos[i], template);
                let new_path = file_management::create_new_path(
                    self.videos[i].path.as_str(),
                    new_name.as_str(),
                );
                r.push(Some(new_path));
            }
            i = i + 1;
        }
        r
    }

    /// Records the outcome of the file moves: where the caller's move
    /// succeeded it hands the new path back, and the video's path is
    /// updated in place; everything else is left untouched.
    #[verifier::loop_isolation(false)]
    pub fn rename_videos(&mut self, results: Vec<Option<String>>)
        requires
            old(self).wf(),
            results@.len() == old(self).videos@.len(),
        ensures
            final(self).wf(),
            final(self).settings == old(self).settings,
            final(self).videos_number == old(self).videos_number,
            final(self).videos@.len() == old(self).videos@.len(),
            forall|i: int|
                0 <= i < old(self).videos@.len() ==> {
                    let ov = old(self).videos@[i];
                    let nv = #[trigger] final(self).videos@[i];
                    match results@[i] {
                        Some(p) => {
                            &&& nv.path == p
                            &&& nv == (Video { path: nv.path, ..ov })
                        },
                        None => nv == ov,
                    }
                },
    {
        let ghost full = results@;
        let mut results = results;
        let n = self.videos.len();
        let mut i: usize = 0;
        while i < n
            invariant
                0 <= i <= n,
                results@ =~= full.skip(i as int),
                self.videos@.len() == n,
                self.settings == old(self).settings,
                self.videos_number == old(self).videos_number,
                forall|j: int|
                    0 <= j < i ==> {
                        let ov = old(self).videos@[j];
                        let nv = #[trigger] self.videos@[j];
                        match full[j] {
                            Some(p) => {
                                &&& nv.path == p
                                &&& nv == (Video { path: nv.path, ..ov })
                            },
                            None => nv == ov,
                        }
                    },
                forall|j: int| i <= j < n ==> self.videos@[j] == old(self).videos@[j],
            decreases n - i,
        {
            let res = results.remove(0);
            proof {
                assert(res == full[i as int]);
                assert(results@ =~= full.skip(i + 1 as int));
            }
            match res {
                Some(p) => {
                    self.videos[i].path = p;
                },
                None => {},
            }
            i = i + 1;
        }
        proof {
            assert forall|j: int| 0 <= j < final(self).videos@.len() implies {
                &&& (#[trigger] final(self).videos@[j]).numeric_id == j + 1
                &&& final(self).videos@[j].creation_date.wf()
                &&& (final(self).videos@[j].skip ==> resume_is_empty(final(self).videos@[j].resume))
            } by {
                assert(old(self).videos@[j].numeric_id == j + 1);
            }
        }
    }
}

/// `first_fatal` lies within bounds and marks exactly the first fatal
/// request.
proof fn lemma_first_fatal(reqs: Seq<AdmissionRequest>)
    ensures
        0 <= first_fatal(reqs) <= reqs.len(),
        forall|i: int| 0 <= i < first_fatal(reqs) ==> !admission_fatal(#[trigger] reqs[i]),
        first_fatal(reqs) < reqs.len() ==> admission_fatal(reqs[first_fatal(reqs)]),
    decreases reqs.len(),
{
    if reqs.len() > 0 && !admission_fatal(reqs[0]) {
        lemma_first_fatal(reqs.drop_first());
        assert forall|i: int| 0 <= i < first_fatal(reqs) implies !admission_fatal(
            #[trigger] reqs[i],
        ) by {
            if i > 0 {
                assert(reqs[i] == reqs.drop_first()[i - 1]);
            }
        }
        if first_fatal(reqs) < reqs.len() {
            assert(reqs[first_fatal(reqs)] == reqs.drop_first()[first_fatal(reqs) - 1]);
        }
    }
}

/// At most `n` of the first `n` requests are admitted.
proof fn lemma_num_admitted_bound(reqs: Seq<AdmissionRequest>, n: int)
    requires
        0 <= n <= reqs.len(),
    ensures
        0 <= num_admitted(reqs, n) <= n,
    decreases n,
{
    if n > 0 {
        lemma_num_admitted_bound(reqs, n - 1);
    }
}

} // verus!
