//! Recording frames for a video and turning the encoder's output into the
//! track of an MP4 file. Frames are encoded with OpenH264; writing the file
//! is left to the caller.
use vstd::prelude::*;
use std::path::{Path, PathBuf};
use crate::test_helpers::h264::{h264_error_message, starts_with, EncoderEvent, H264Frame, H264Session};
use crate::test_helpers::nal::{byte_views, extract_nal_units, nal_units};

verus! {

#[verifier::external_type_specification]
#[verifier::external_body]
pub struct ExPathBuf(std::path::PathBuf);

#[verifier::external_type_specification]
#[verifier::external_body]
pub struct ExPath(std::path::Path);

/// Calls `Path::to_path_buf`: an owned copy of the path. Paths have no
/// mathematical model here, so the copy is not described.
#[verifier::external_body]
fn owned_path(p: &Path) -> (r: PathBuf) {
    p.to_path_buf()
}

/// The NAL unit type: the low five bits of the unit's first byte.
pub open spec fn nal_type(n: Seq<u8>) -> u8 {
    n[0] & 0x1fu8
}

/// NAL unit type of a sequence parameter set.
pub const NAL_TYPE_SPS: u8 = 7;

/// NAL unit type of a picture parameter set.
pub const NAL_TYPE_PPS: u8 = 8;

/// NAL unit type of an IDR picture (a keyframe).
pub const NAL_TYPE_IDR: u8 = 5;

/// Duration of one sample in track timescale units.
pub const SAMPLE_DURATION: u32 = 1000;

/// Whether a unit is a parameter set, which goes in the track
/// configuration rather than among the samples.
pub open spec fn is_parameter_set(n: Seq<u8>) -> bool {
    nal_type(n) == NAL_TYPE_SPS || nal_type(n) == NAL_TYPE_PPS
}

/// All NAL units of a sequence of encoded frames, in order.
pub open spec fn all_nal_units(streams: Seq<Seq<u8>>) -> Seq<Seq<u8>>
    decreases streams.len(),
{
    if streams.len() == 0 {
        Seq::empty()
    } else {
        all_nal_units(streams.drop_last()) + nal_units(streams.last())
    }
}

/// The last unit of type `t`, if any.
pub open spec fn last_of_type(nals: Seq<Seq<u8>>, t: u8) -> Option<Seq<u8>>
    decreases nals.len(),
{
    if nals.len() == 0 {
        None
    } else if nal_type(nals.last()) == t {
        Some(nals.last())
    } else {
        last_of_type(nals.drop_last(), t)
    }
}

/// The four big-endian bytes of `x`.
pub open spec fn be_bytes(x: u32) -> Seq<u8> {
    seq![(x >> 24u32) as u8, (x >> 16u32) as u8, (x >> 8u32) as u8, x as u8]
}

/// One sample of the video track as a mathematical value.
pub struct SampleView {
    pub start_time: u64,
    pub duration: u32,
    pub is_sync: bool,
    pub bytes: Seq<u8>,
}

/// The track's samples: every unit that is not a parameter set, in order,
/// prefixed with its length (four bytes, big-endian, the length taken
/// modulo 2^32 as a `u32` cast does), the k-th one starting at
/// `k * SAMPLE_DURATION`; IDR units are sync samples.
pub open spec fn samples_of(nals: Seq<Seq<u8>>) -> Seq<SampleView>
    decreases nals.len(),
{
    if nals.len() == 0 {
        Seq::empty()
    } else {
        let prev = samples_of(nals.drop_last());
        let n = nals.last();
        if is_parameter_set(n) {
            prev
        } else {
            prev.push(
                SampleView {
                    start_time: (prev.len() * SAMPLE_DURATION) as u64,
                    duration: SAMPLE_DURATION,
                    is_sync: nal_type(n) == NAL_TYPE_IDR,
                    bytes: be_bytes(n.len() as u32) + n,
                },
            )
        }
    }
}

/// One sample of the video track.
pub struct Mp4Sample {
    /// Start time in track timescale units.
    pub start_time: u64,
    /// Duration in track timescale units.
    pub duration: u32,
    /// Whether the sample is a keyframe.
    pub is_sync: bool,
    /// The length-prefixed NAL unit.
    pub bytes: Vec<u8>,
}

impl View for Mp4Sample {
    type V = SampleView;

    open spec fn view(&self) -> SampleView {
        SampleView {
            start_time: self.start_time,
            duration: self.duration,
            is_sync: self.is_sync,
            bytes: self.bytes@,
        }
    }
}

/// Everything the MP4 file of a recording holds: the frame size, the
/// track's timescale, the parameter sets, and the samples.
pub struct Mp4Plan {
    pub width: u32,
    pub height: u32,
    pub timescale: u32,
    pub sps: Vec<u8>,
    pub pps: Vec<u8>,
    pub samples: Vec<Mp4Sample>,
}

/// The views of a sequence of samples.
pub open spec fn sample_views(s: Seq<Mp4Sample>) -> Seq<SampleView> {
    s.map_values(|x: Mp4Sample| x@)
}

/// An MP4 plan as a mathematical value.
pub struct PlanView {
    pub width: u32,
    pub height: u32,
    pub timescale: u32,
    pub sps: Seq<u8>,
    pub pps: Seq<u8>,
    pub samples: Seq<SampleView>,
}

/// The plan of an MP4 file for the given NAL units, or the message of the
/// error that leaves it unwritten: no SPS, or else no PPS.
pub open spec fn plan_of(nals: Seq<Seq<u8>>, width: u32, height: u32, framerate: u32) -> Result<PlanView, Seq<char>> {
    match (last_of_type(nals, NAL_TYPE_SPS), last_of_type(nals, NAL_TYPE_PPS)) {
        (None, _) => Err("No SPS found in encoded data"@),
        (Some(_), None) => Err("No PPS found in encoded data"@),
        (Some(sps), Some(pps)) => Ok(
            PlanView {
                width,
                height,
                timescale: (framerate * 1000) as u32,
                sps,
                pps,
                samples: samples_of(nals),
            },
        ),
    }
}

/// The plan for the given NAL units, or the error that leaves it
/// unwritten: "Too many NAL units for the track" when the samples' start
/// times would not fit in a `u64`, and otherwise as `plan_of` says.
pub open spec fn track_outcome(nals: Seq<Seq<u8>>, width: u32, height: u32, framerate: u32) -> Result<PlanView, Seq<char>> {
    if nals.len() * SAMPLE_DURATION > u64::MAX {
        Err("Too many NAL units for the track"@)
    } else {
        plan_of(nals, width, height, framerate)
    }
}

/// What is asked of a fresh encoder to encode `frames` of the given size,
/// when the first `outs.len()` frames came back as the bitstreams `outs`: a
/// keyframe is forced before the first frame, then the frames are encoded in
/// order. Nothing is asked when there are no frames.
pub open spec fn encoding_run(frames: Seq<Seq<u8>>, width: usize, height: usize, outs: Seq<Seq<u8>>) -> Seq<EncoderEvent> {
    if frames.len() == 0 {
        Seq::empty()
    } else {
        seq![EncoderEvent::ForcedIntra] + Seq::new(
            outs.len(),
            |i: int| EncoderEvent::Encoded { frame: frames[i], width, height, bitstream: outs[i] },
        )
    }
}

/// The whole run when the frames came back as `outs`: every frame encoded
/// when there is a bitstream for each, otherwise the first frame without
/// one failed and encoding stopped there.
pub open spec fn run_events(frames: Seq<Seq<u8>>, width: usize, height: usize, outs: Seq<Seq<u8>>) -> Seq<EncoderEvent> {
    if outs.len() == frames.len() {
        encoding_run(frames, width, height, outs)
    } else {
        encoding_run(frames, width, height, outs).push(
            EncoderEvent::Failed { frame: frames[outs.len() as int], width, height },
        )
    }
}

/// The outcome of encoding `frames` when they came back as `outs`: the
/// track of all their NAL units when every frame was encoded, otherwise an
/// error saying that encoding a frame failed.
pub open spec fn run_outcome(
    r: Result<PlanView, Seq<char>>,
    frames: Seq<Seq<u8>>,
    outs: Seq<Seq<u8>>,
    width: u32,
    height: u32,
    framerate: u32,
) -> bool {
    if outs.len() == frames.len() {
        r == track_outcome(all_nal_units(outs), width, height, framerate)
    } else {
        r matches Err(e) && starts_with(e, "Failed to encode frame"@ + ": "@)
    }
}

/// The mathematical value of a plan-or-error result.
pub open spec fn plan_outcome(r: Result<Mp4Plan, String>) -> Result<PlanView, Seq<char>> {
    match r {
        Ok(p) => Ok(
            PlanView {
                width: p.width,
                height: p.height,
                timescale: p.timescale,
                sps: p.sps@,
                pps: p.pps@,
                samples: sample_views(p.samples@),
            },
        ),
        Err(e) => Err(e@),
    }
}

/// A copy of `v`.
fn copy_bytes(v: &Vec<u8>) -> (r: Vec<u8>)
    ensures
        r@ == v@,
{
    let mut r: Vec<u8> = Vec::new();
    let mut i: usize = 0;
    while i < v.len()
        invariant
            i <= v@.len(),
            r@ == v@.take(i as int),
        decreases v@.len() - i,
    {
        r.push(v[i]);
        proof {
            assert(v@.take(i + 1) == v@.take(i as int).push(v@[i as int]));
        }
        i = i + 1;
    }
    proof {
        assert(v@.take(v@.len() as int) == v@);
    }
    r
}

/// The four big-endian bytes of `x` followed by `n`.
fn length_prefixed(x: u32, n: &Vec<u8>) -> (r: Vec<u8>)
    ensures
        r@ == be_bytes(x) + n@,
{
    let mut r: Vec<u8> = Vec::new();
    r.push((x >> 24u32) as u8);
    r.push((x >> 16u32) as u8);
    r.push((x >> 8u32) as u8);
    r.push(x as u8);
    let mut i: usize = 0;
    while i < n.len()
        invariant
            i <= n@.len(),
            r@ == be_bytes(x) + n@.take(i as int),
        decreases n@.len() - i,
    {
        r.push(n[i]);
        proof {
            assert(be_bytes(x) + n@.take(i + 1) =~= (be_bytes(x) + n@.take(i as int)).push(n@[i as int]));
        }
        i = i + 1;
    }
    proof {
        assert(n@.take(n@.len() as int) == n@);
    }
    r
}

/// The MP4 track for a list of NAL units: the last SPS and PPS go in the
/// track configuration, the other units become samples. Fails with
/// "No SPS found in encoded data" when there is no SPS, and otherwise with
/// "No PPS found in encoded data" when there is no PPS.
pub fn mp4_plan(nals: &Vec<Vec<u8>>, width: u32, height: u32, framerate: u32) -> (r: Result<Mp4Plan, String>)
    requires
        forall|k: int| 0 <= k < nals@.len() ==> (#[trigger] nals@[k])@.len() > 0,
        nals@.len() * SAMPLE_DURATION <= u64::MAX,
        framerate * 1000 <= u32::MAX,
    ensures
        plan_outcome(r) == plan_of(byte_views(nals@), width, height, framerate),
{
    let ghost v = byte_views(nals@);
    let mut sps_at: Option<usize> = None;
    let mut pps_at: Option<usize> = None;
    let mut samples: Vec<Mp4Sample> = Vec::new();
    let mut sample_count: u64 = 0;
    let mut i: usize = 0;
    proof {
        assert(v.take(0) =~= Seq::<Seq<u8>>::empty());
        assert(sample_views(samples@) =~= Seq::<SampleView>::empty());
    }
    while i < nals.len()
        invariant
            i <= nals@.len(),
            v == byte_views(nals@),
            forall|k: int| 0 <= k < nals@.len() ==> (#[trigger] nals@[k])@.len() > 0,
            nals@.len() * SAMPLE_DURATION <= u64::MAX,
            match sps_at {
                Some(j) => j < i && last_of_type(v.take(i as int), NAL_TYPE_SPS) == Some(v[j as int]),
                None => last_of_type(v.take(i as int), NAL_TYPE_SPS) is None,
            },
            match pps_at {
                Some(j) => j < i && last_of_type(v.take(i as int), NAL_TYPE_PPS) == Some(v[j as int]),
                None => last_of_type(v.take(i as int), NAL_TYPE_PPS) is None,
            },
            sample_views(samples@) == samples_of(v.take(i as int)),
            sample_count == samples@.len(),
            samples@.len() <= i,
        decreases nals@.len() - i,
    {
        let nal = &nals[i];
        let t = nal[0] & 0x1fu8;
        proof {
            assert(v.take(i + 1).drop_last() =~= v.take(i as int));
            assert(v.take(i + 1).last() == v[i as int]);
            assert(v[i as int] == nal@);
        }
        if t == NAL_TYPE_SPS {
            sps_at = Some(i);
        } else if t == NAL_TYPE_PPS {
            pps_at = Some(i);
        } else {
            assert(sample_count * 1000 <= u64::MAX) by (nonlinear_arith)
                requires
                    sample_count <= i,
                    i < nals@.len(),
                    nals@.len() * 1000 <= u64::MAX,
            ;
            let bytes = length_prefixed(nal.len() as u32, nal);
            let ghost before = samples@;
            samples.push(
                Mp4Sample {
                    start_time: sample_count * (SAMPLE_DURATION as u64),
                    duration: SAMPLE_DURATION,
                    is_sync: t == NAL_TYPE_IDR,
                    bytes,
                },
            );
            sample_count = sample_count + 1;
            proof {
                assert(sample_views(samples@) =~= sample_views(before).push(samples@.last()@));
            }
        }
        i = i + 1;
    }
    proof {
        assert(v.take(nals@.len() as int) =~= v);
    }
    let sps = match sps_at {
        Some(j) => copy_bytes(&nals[j]),
        None => {
            return Err("No SPS found in encoded data".to_string());
        },
    };
    let pps = match pps_at {
        Some(j) => copy_bytes(&nals[j]),
        None => {
            return Err("No PPS found in encoded data".to_string());
        },
    };
    Ok(Mp4Plan { width, height, timescale: framerate * 1000, sps, pps, samples })
}


/// Records frames during a test and, when finished, turns them into the
/// contents of an MP4 file.
pub struct VideoRecorder {
    width: u32,
    height: u32,
    framerate: u32,
    frames: Vec<Vec<u8>>,
    output_path: PathBuf,
}

/// A recording with at least one frame, ready to be encoded.
pub struct FinishedRecording {
    width: u32,
    height: u32,
    framerate: u32,
    frames: Vec<Vec<u8>>,
    output_path: PathBuf,
}

impl VideoRecorder {
    /// Width of the video in pixels.
    pub closed spec fn width(&self) -> u32 {
        self.width
    }

    /// Height of the video in pixels.
    pub closed spec fn height(&self) -> u32 {
        self.height
    }

    /// Target frames per second.
    pub closed spec fn framerate(&self) -> u32 {
        self.framerate
    }

    /// The captured frames (RGBA pixel data), oldest first.
    pub closed spec fn frames(&self) -> Seq<Seq<u8>> {
        byte_views(self.frames@)
    }

    /// Where the video will be saved.
    pub closed spec fn path(&self) -> PathBuf {
        self.output_path
    }

    /// A recorder with no frames for a video of the given size and rate,
    /// to be saved at `output_path`.
    pub fn new(width: u32, height: u32, framerate: u32, output_path: &Path) -> (r: VideoRecorder)
        ensures
            r.width() == width,
            r.height() == height,
            r.framerate() == framerate,
            r.frames() == Seq::<Seq<u8>>::empty(),
    {
        let r = VideoRecorder {
            width,
            height,
            framerate,
            frames: Vec::new(),
            output_path: owned_path(output_path),
        };
        assert(r.frames() =~= Seq::<Seq<u8>>::empty());
        r
    }

    /// Width and height of the video in pixels.
    pub fn dimensions(&self) -> (r: (u32, u32))
        ensures
            r == (self.width(), self.height()),
    {
        (self.width, self.height)
    }

    /// Adds a captured frame's RGBA pixel data to the recording.
    pub fn capture_frame(&mut self, frame_data: Vec<u8>)
        ensures
            final(self).frames() == old(self).frames().push(frame_data@),
            final(self).frames() == after_captures(old(self).frames(), seq![frame_data@]),
            final(self).width() == old(self).width(),
            final(self).height() == old(self).height(),
            final(self).framerate() == old(self).framerate(),
            final(self).path() == old(self).path(),
    {
        let ghost before = self.frames@;
        let ghost data = frame_data@;
        self.frames.push(frame_data);
        assert(byte_views(self.frames@) =~= byte_views(before).push(data));
        assert(after_captures(byte_views(before), seq![data]) == byte_views(before).push(data)) by {
            assert(seq![data].drop_last() =~= Seq::<Seq<u8>>::empty());
            assert(seq![data].last() == data);
            reveal_with_fuel(after_captures, 2);
        }
    }

    /// The number of captured frames.
    pub fn frame_count(&self) -> (r: usize)
        ensures
            r == self.frames().len(),
    {
        self.frames.len()
    }

    /// Where the video will be saved.
    pub fn output_path(&self) -> (r: &PathBuf)
        ensures
            *r == self.path(),
    {
        &self.output_path
    }

    /// Ends the recording: fails with "No frames captured" when no frame
    /// was captured, and otherwise hands over the recording for encoding.
    pub fn finish(self) -> (r: Result<FinishedRecording, String>)
        ensures
            match r {
                Err(e) => self.frames().len() == 0 && e@ == "No frames captured"@,
                Ok(f) => {
                    &&& self.frames().len() > 0
                    &&& f.width() == self.width()
                    &&& f.height() == self.height()
                    &&& f.framerate() == self.framerate()
                    &&& f.frames() == self.frames()
                    &&& f.path() == self.path()
                },
            },
    {
        if self.frames.len() == 0 {
            return Err("No frames captured".to_string());
        }
        Ok(
            FinishedRecording {
                width: self.width,
                height: self.height,
                framerate: self.framerate,
                frames: self.frames,
                output_path: self.output_path,
            },
        )
    }
}

impl FinishedRecording {
    /// Width of the video in pixels.
    pub closed spec fn width(&self) -> u32 {
        self.width
    }

    /// Height of the video in pixels.
    pub closed spec fn height(&self) -> u32 {
        self.height
    }

    /// Target frames per second.
    pub closed spec fn framerate(&self) -> u32 {
        self.framerate
    }

    /// The captured frames (RGBA pixel data), oldest first.
    pub closed spec fn frames(&self) -> Seq<Seq<u8>> {
        byte_views(self.frames@)
    }

    /// Where the video will be saved.
    pub closed spec fn path(&self) -> PathBuf {
        self.output_path
    }

    /// Where the video will be saved.
    pub fn output_path(&self) -> (r: &PathBuf)
        ensures
            *r == self.path(),
    {
        &self.output_path
    }

    /// Width and height of the video in pixels, and frames per second.
    pub fn format(&self) -> (r: (u32, u32, u32))
        ensures
            r == (self.width(), self.height(), self.framerate()),
    {
        (self.width, self.height, self.framerate)
    }

    /// Whether every frame holds exactly `width * height` RGBA pixels.
    pub fn frames_fit(&self) -> (r: bool)
        ensures
            r == forall|k: int| 0 <= k < self.frames().len() ==>
                (#[trigger] self.frames()[k]).len() == self.width() * self.height() * 4,
    {
        let w = self.width as u128;
        let h = self.height as u128;
        assert(w * h <= 0xffff_ffff_ffff_ffff_ffff_ffff_ffff_ffffu128 / 4) by (nonlinear_arith)
            requires
                w <= 0xffff_ffffu128,
                h <= 0xffff_ffffu128,
        ;
        let need: u128 = w * h * 4;
        let mut k: usize = 0;
        while k < self.frames.len()
            invariant
                k <= self.frames@.len(),
                need == self.width() * self.height() * 4,
                forall|j: int| 0 <= j < k ==> (#[trigger] self.frames()[j]).len() == need,
            decreases self.frames@.len() - k,
        {
            assert(self.frames()[k as int] == self.frames@[k as int]@);
            if self.frames[k].len() as u128 != need {
                return false;
            }
            k = k + 1;
        }
        true
    }

    /// Encodes the frames with `session`'s encoder and lays out the MP4
    /// track: the parameter sets the encoder emitted last, and every other
    /// NAL unit as a sample.
    ///
    /// A keyframe is forced before the first frame, then the frames are
    /// handed to the encoder in order, each at the recording's size, until
    /// one fails. The encoder's record grows by exactly that run, and the
    /// outcome is the track of all the NAL units of the bitstreams it gave
    /// back, or, if a frame failed, an error saying so.
    ///
    /// Every frame must hold `width * height` RGBA pixels and both sizes
    /// must be even, as the RGBA-to-YUV conversion asserts; the timescale
    /// `framerate * 1000` must fit in a `u32`.
    pub fn encode_mp4(&self, session: &mut H264Session) -> (r: Result<Mp4Plan, String>)
        requires
            self.width() % 2 == 0,
            self.height() % 2 == 0,
            self.framerate() * 1000 <= u32::MAX,
            forall|k: int| 0 <= k < self.frames().len() ==>
                (#[trigger] self.frames()[k]).len() == self.width() * self.height() * 4,
        ensures
            exists|outs: Seq<Seq<u8>>|
                {
                    &&& outs.len() <= self.frames().len()
                    &&& final(session).trace() == old(session).trace() + #[trigger] run_events(
                        self.frames(),
                        self.width() as usize,
                        self.height() as usize,
                        outs,
                    )
                    &&& run_outcome(
                        plan_outcome(r),
                        self.frames(),
                        outs,
                        self.width(),
                        self.height(),
                        self.framerate(),
                    )
                },
    {
        let ghost start = session.trace();
        let mut units: Vec<Vec<u8>> = Vec::new();
        let ghost mut streams: Seq<Seq<u8>> = Seq::empty();
        let w = self.width as usize;
        let h = self.height as usize;
        let mut idx: usize = 0;
        proof {
            assert(byte_views(units@) =~= Seq::<Seq<u8>>::empty());
        }
        while idx < self.frames.len()
            invariant
                idx <= self.frames@.len(),
                w == self.width,
                h == self.height,
                w % 2 == 0,
                h % 2 == 0,
                forall|k: int| 0 <= k < self.frames().len() ==>
                    (#[trigger] self.frames()[k]).len() == self.width() * self.height() * 4,
                self.frames().len() == self.frames@.len(),
                streams.len() == idx,
                start == old(session).trace(),
                session.trace() == start + if idx == 0 {
                    Seq::<EncoderEvent>::empty()
                } else {
                    encoding_run(self.frames(), w, h, streams)
                },
                byte_views(units@) == all_nal_units(streams),
                forall|k: int| 0 <= k < units@.len() ==> (#[trigger] units@[k])@.len() > 0,
            decreases self.frames@.len() - idx,
        {
            if idx == 0 {
                session.force_intra_frame();
                proof {
                    assert(encoding_run(self.frames(), w, h, streams) =~= seq![EncoderEvent::ForcedIntra]);
                    assert(session.trace() =~= start + encoding_run(self.frames(), w, h, streams));
                }
            }
            let ghost before_encode = session.trace();
            let frame_bytes = self.frames[idx].as_slice();
            assert(self.frames()[idx as int] == self.frames@[idx as int]@);
            let frame = H264Frame::from_rgba(frame_bytes, w, h);
            let stream = match session.encode(&frame) {
                Ok(s) => s,
                Err(e) => {
                    let r: Result<Mp4Plan, String> = Err(h264_error_message("Failed to encode frame", &e));
                    proof {
                        let failed = EncoderEvent::Failed { frame: self.frames()[idx as int], width: w, height: h };
                        assert(run_events(self.frames(), w, h, streams) == encoding_run(self.frames(), w, h, streams).push(failed));
                        assert(session.trace() =~= start + run_events(self.frames(), w, h, streams));
                        assert(run_outcome(plan_outcome(r), self.frames(), streams, self.width(), self.height(), self.framerate()));
                        assert(w == self.width() as usize && h == self.height() as usize);
                    }
                    return r;
                },
            };
            let mut extracted = extract_nal_units(stream.as_slice());
            proof {
                crate::test_helpers::nal::law_nal_units_hold_no_start_code(stream@, 0);
                assert(streams.push(stream@).drop_last() =~= streams);
                let next = streams.push(stream@);
                assert(encoding_run(self.frames(), w, h, next) =~= encoding_run(self.frames(), w, h, streams).push(
                    EncoderEvent::Encoded { frame: self.frames()[idx as int], width: w, height: h, bitstream: stream@ },
                ));
                assert(session.trace() =~= start + encoding_run(self.frames(), w, h, next));
            }
            let ghost before = units@;
            let ghost got = extracted@;
            units.append(&mut extracted);
            proof {
                assert(byte_views(units@) =~= byte_views(before) + byte_views(got));
                assert forall|k: int| 0 <= k < units@.len() implies (#[trigger] units@[k])@.len() > 0 by {
                    if k >= before.len() {
                        assert(units@[k] == got[k - before.len()]);
                        assert(byte_views(got)[k - before.len()] == nal_units(stream@)[k - before.len()]);
                    }
                }
                streams = streams.push(stream@);
            }
            idx = idx + 1;
        }
        proof {
            if self.frames().len() == 0 {
                assert(session.trace() =~= start + run_events(self.frames(), w, h, streams));
            } else {
                assert(session.trace() == start + run_events(self.frames(), w, h, streams));
            }
        }
        let count = units.len() as u64;
        proof {
            assert(count > 0xffff_ffff_ffff_ffffu64 / 1000 <==> count * 1000 > 0xffff_ffff_ffff_ffffu64)
                by (nonlinear_arith);
            assert(units@.len() == all_nal_units(streams).len());
        }
        if count > u64::MAX / (SAMPLE_DURATION as u64) {
            let r: Result<Mp4Plan, String> = Err("Too many NAL units for the track".to_string());
            proof {
                assert(plan_outcome(r) == track_outcome(all_nal_units(streams), self.width(), self.height(), self.framerate()));
                assert(run_outcome(plan_outcome(r), self.frames(), streams, self.width(), self.height(), self.framerate()));
            }
            return r;
        }
        let r = mp4_plan(&units, self.width, self.height, self.framerate);
        proof {
            assert(plan_outcome(r) == track_outcome(all_nal_units(streams), self.width(), self.height(), self.framerate()));
            assert(run_outcome(plan_outcome(r), self.frames(), streams, self.width(), self.height(), self.framerate()));
        }
        r
    }
}

} // verus!

verus! {

/// The samples follow one another without gaps: the k-th starts at
/// `k * SAMPLE_DURATION` and lasts `SAMPLE_DURATION`, and no parameter set
/// is among them.
pub proof fn law_samples_are_consecutive(nals: Seq<Seq<u8>>)
    requires
        nals.len() * SAMPLE_DURATION <= u64::MAX,
    ensures
        samples_of(nals).len() <= nals.len(),
        forall|k: int| 0 <= k < samples_of(nals).len() ==> {
            &&& (#[trigger] samples_of(nals)[k]).start_time == k * SAMPLE_DURATION
            &&& samples_of(nals)[k].duration == SAMPLE_DURATION
        },
    decreases nals.len(),
{
    if nals.len() > 0 {
        law_samples_are_consecutive(nals.drop_last());
        let prev = samples_of(nals.drop_last());
        if !is_parameter_set(nals.last()) {
            assert(prev.len() * SAMPLE_DURATION <= u64::MAX);
            assert forall|k: int| 0 <= k < samples_of(nals).len() implies {
                &&& (#[trigger] samples_of(nals)[k]).start_time == k * SAMPLE_DURATION
                &&& samples_of(nals)[k].duration == SAMPLE_DURATION
            } by {
                if k < prev.len() {
                    assert(samples_of(nals)[k] == prev[k]);
                }
            }
        }
    }
}

/// The frames a recorder holds after capturing each of `captured`, in
/// order, on top of `start`.
pub open spec fn after_captures(start: Seq<Seq<u8>>, captured: Seq<Seq<u8>>) -> Seq<Seq<u8>>
    decreases captured.len(),
{
    if captured.len() == 0 {
        start
    } else {
        after_captures(start, captured.drop_last()).push(captured.last())
    }
}

/// A recorder made by `new` and then given the frames `captured` by
/// `capture_frame`, in order, holds exactly those frames, so its frame
/// count is the number of captures.
pub proof fn law_frame_count_counts_captures(captured: Seq<Seq<u8>>)
    ensures
        after_captures(Seq::empty(), captured) == captured,
        after_captures(Seq::empty(), captured).len() == captured.len(),
    decreases captured.len(),
{
    if captured.len() > 0 {
        law_frame_count_counts_captures(captured.drop_last());
        assert(captured.drop_last().push(captured.last()) =~= captured);
    }
}

/// What is asked of a fresh encoder follows the recording: when there are
/// frames, a keyframe is forced first, then frame `k` of the recording, in
/// capture order, goes in as the `k`-th encode at the recording's size and
/// gives the `k`-th bitstream; if a frame failed, it is the next one in
/// order and nothing follows it. Nothing is asked when there are no frames.
pub proof fn law_encoder_gets_frames_in_capture_order(
    frames: Seq<Seq<u8>>,
    width: usize,
    height: usize,
    outs: Seq<Seq<u8>>,
)
    requires
        outs.len() <= frames.len(),
    ensures
        frames.len() == 0 ==> run_events(frames, width, height, outs).len() == 0,
        frames.len() > 0 ==> {
            let ev = run_events(frames, width, height, outs);
            &&& ev.len() == outs.len() + 1 + (if outs.len() < frames.len() { 1int } else { 0int })
            &&& ev[0] == EncoderEvent::ForcedIntra
            &&& forall|k: int| 0 <= k < outs.len() ==> #[trigger] ev[k + 1] == (EncoderEvent::Encoded {
                frame: frames[k],
                width,
                height,
                bitstream: outs[k],
            })
            &&& outs.len() < frames.len() ==> ev[outs.len() + 1int] == (EncoderEvent::Failed {
                frame: frames[outs.len() as int],
                width,
                height,
            })
        },
{
}

/// The units that are not parameter sets, in order.
pub open spec fn non_parameter_units(nals: Seq<Seq<u8>>) -> Seq<Seq<u8>> {
    nals.filter(|n: Seq<u8>| !is_parameter_set(n))
}

/// Every unit that is not a parameter set becomes a sample, in order: the
/// `k`-th sample holds the `k`-th such unit behind its four-byte length, is
/// a sync sample exactly when that unit is an IDR slice (type 5), whatever
/// its position. (`law_samples_are_consecutive` gives the start times.)
pub proof fn law_samples_follow_units(nals: Seq<Seq<u8>>)
    ensures
        samples_of(nals).len() == non_parameter_units(nals).len(),
        forall|k: int| 0 <= k < samples_of(nals).len() ==> {
            &&& (#[trigger] samples_of(nals)[k]).is_sync == (non_parameter_units(nals)[k][0] & 0x1fu8 == 5u8)
            &&& samples_of(nals)[k].bytes == be_bytes(non_parameter_units(nals)[k].len() as u32)
                + non_parameter_units(nals)[k]
        },
    decreases nals.len(),
{
    reveal(Seq::filter);
    if nals.len() > 0 {
        law_samples_follow_units(nals.drop_last());
        let f = non_parameter_units(nals);
        let fp = non_parameter_units(nals.drop_last());
        let prev = samples_of(nals.drop_last());
        if !is_parameter_set(nals.last()) {
            assert(f == fp.push(nals.last()));
            assert forall|k: int| 0 <= k < samples_of(nals).len() implies {
                &&& (#[trigger] samples_of(nals)[k]).is_sync == (f[k][0] & 0x1fu8 == 5u8)
                &&& samples_of(nals)[k].bytes == be_bytes(f[k].len() as u32) + f[k]
            } by {
                if k < prev.len() {
                    assert(samples_of(nals)[k] == prev[k]);
                    assert(f[k] == fp[k]);
                }
            }
        } else {
            assert(f == fp);
        }
    }
}

} // verus!
