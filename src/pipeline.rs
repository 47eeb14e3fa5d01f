//! Pipelines as an explicit, ordered list of typed stages. Adjacent stages are
//! checked for compatible media when the list is built, so a bad topology fails
//! fast with a typed error instead of a generic link failure at run time. A
//! checked list is rendered in the launch syntax of the media framework.

use vstd::prelude::*;
use crate::endpoint::EndpointConfig;
use crate::stride::PixelFormat;
use crate::text::{decimal, push_decimal};

verus! {

/// What flows between two stages. `Nothing` marks the open end of a source or a sink.
#[derive(Clone, Copy, PartialEq, Eq, Debug, Structural)]
pub enum MediaKind {
    Nothing,
    RawVideo,
    H264,
    Rtp,
}

/// Name given to the stage from which the receiver takes decoded frames.
pub const FRAME_SINK_NAME: &'static str = "videosink";

#[derive(Clone, Debug)]
pub enum Stage {
    /// Captures the screen on its own.
    ScreenCapture,
    /// Frames pushed in by the application, `fps` per second.
    FrameSource { format: PixelFormat, width: u32, height: u32, fps: u32 },
    /// Colour-space normalisation.
    Convert,
    Scale,
    /// Fixes the raw format and size.
    RawCaps { format: PixelFormat, width: u32, height: u32 },
    /// H.264 compression with the low-latency preset.
    H264Encode { bitrate_kbps: u32, keyframe_interval: u32 },
    /// RTP packetisation tagged with a payload type.
    RtpPay { payload_type: u8 },
    UdpSink { endpoint: EndpointConfig },
    /// Receives RTP datagrams of the given payload type on a local port.
    UdpSource { port: u16, payload_type: u8 },
    RtpDepay,
    Decode,
    /// Decoded frames handed to the application.
    FrameSink,
}

pub open spec fn stage_input(s: Stage) -> MediaKind {
    match s {
        Stage::ScreenCapture | Stage::FrameSource { .. } | Stage::UdpSource { .. } => MediaKind::Nothing,
        Stage::Convert | Stage::Scale | Stage::RawCaps { .. } | Stage::H264Encode { .. }
        | Stage::FrameSink => MediaKind::RawVideo,
        Stage::RtpPay { .. } | Stage::Decode => MediaKind::H264,
        Stage::UdpSink { .. } | Stage::RtpDepay => MediaKind::Rtp,
    }
}

pub open spec fn stage_output(s: Stage) -> MediaKind {
    match s {
        Stage::ScreenCapture | Stage::FrameSource { .. } | Stage::Convert | Stage::Scale
        | Stage::RawCaps { .. } | Stage::Decode => MediaKind::RawVideo,
        Stage::H264Encode { .. } | Stage::RtpDepay => MediaKind::H264,
        Stage::RtpPay { .. } | Stage::UdpSource { .. } => MediaKind::Rtp,
        Stage::UdpSink { .. } | Stage::FrameSink => MediaKind::Nothing,
    }
}

/// `a` can feed `b`.
pub open spec fn links(a: Stage, b: Stage) -> bool {
    stage_output(a) == stage_input(b) && !(stage_output(a) is Nothing)
}

impl Stage {
    pub fn input(&self) -> (r: MediaKind)
        ensures
            r == stage_input(*self),
    {
        match self {
            Stage::ScreenCapture | Stage::FrameSource { .. } | Stage::UdpSource { .. } => MediaKind::Nothing,
            Stage::Convert | Stage::Scale | Stage::RawCaps { .. } | Stage::H264Encode { .. }
            | Stage::FrameSink => MediaKind::RawVideo,
            Stage::RtpPay { .. } | Stage::Decode => MediaKind::H264,
            Stage::UdpSink { .. } | Stage::RtpDepay => MediaKind::Rtp,
        }
    }

    pub fn output(&self) -> (r: MediaKind)
        ensures
            r == stage_output(*self),
    {
        match self {
            Stage::ScreenCapture | Stage::FrameSource { .. } | Stage::Convert | Stage::Scale
            | Stage::RawCaps { .. } | Stage::Decode => MediaKind::RawVideo,
            Stage::H264Encode { .. } | Stage::RtpDepay => MediaKind::H264,
            Stage::RtpPay { .. } | Stage::UdpSource { .. } => MediaKind::Rtp,
            Stage::UdpSink { .. } | Stage::FrameSink => MediaKind::Nothing,
        }
    }
}

/// Why a list of stages is not a pipeline.
#[derive(Clone, Copy, PartialEq, Eq, Debug, Structural)]
pub enum BuildError {
    Empty,
    /// The first stage takes input, so nothing feeds it.
    NotASource,
    /// Stage `index` takes `found` but the stage before it gives `expected`.
    LinkMismatch { index: usize, expected: MediaKind, found: MediaKind },
    /// The last stage gives output that nothing takes.
    NoSink,
}

/// The first index `i >= from` at which stage `i - 1` cannot feed stage `i`.
pub open spec fn first_bad_link(s: Seq<Stage>, from: int) -> Option<int>
    decreases s.len() - from,
{
    if from < 1 || from >= s.len() {
        None
    } else if !links(s[from - 1], s[from]) {
        Some(from)
    } else {
        first_bad_link(s, from + 1)
    }
}

/// What checking a list of stages gives: the first fault found from the front, if any.
pub open spec fn build_result(s: Seq<Stage>) -> Result<(), BuildError> {
    if s.len() == 0 {
        Err(BuildError::Empty)
    } else if !(stage_input(s[0]) is Nothing) {
        Err(BuildError::NotASource)
    } else {
        match first_bad_link(s, 1) {
            Some(i) => Err(
                BuildError::LinkMismatch {
                    index: i as usize,
                    expected: stage_output(s[i - 1]),
                    found: stage_input(s[i]),
                },
            ),
            None => if stage_output(s.last()) is Nothing {
                Ok(())
            } else {
                Err(BuildError::NoSink)
            },
        }
    }
}

/// A source, then stages each fed by the one before, ending in a sink.
pub open spec fn well_linked(s: Seq<Stage>) -> bool {
    &&& s.len() >= 2
    &&& stage_input(s[0]) is Nothing
    &&& stage_output(s.last()) is Nothing
    &&& forall|i: int| 1 <= i < s.len() ==> links(s[i - 1], #[trigger] s[i])
}

proof fn lemma_no_bad_link(s: Seq<Stage>, from: int)
    requires
        1 <= from,
        first_bad_link(s, from) is None,
    ensures
        forall|i: int| from <= i < s.len() ==> links(s[i - 1], #[trigger] s[i]),
    decreases s.len() - from,
{
    if from < s.len() {
        lemma_no_bad_link(s, from + 1);
    }
}

/// A list of stages is accepted exactly when it is a source, linked stages and a sink.
pub proof fn lemma_accepted_iff_well_linked(s: Seq<Stage>)
    ensures
        build_result(s) is Ok <==> well_linked(s),
{
    if build_result(s) is Ok {
        lemma_no_bad_link(s, 1);
    }
    if well_linked(s) {
        lemma_links_give_no_bad_link(s, 1);
    }
}

proof fn lemma_links_give_no_bad_link(s: Seq<Stage>, from: int)
    requires
        1 <= from,
        forall|i: int| 1 <= i < s.len() ==> links(s[i - 1], #[trigger] s[i]),
    ensures
        first_bad_link(s, from) is None,
    decreases s.len() - from,
{
    if from < s.len() {
        assert(links(s[from - 1], s[from]));
        lemma_links_give_no_bad_link(s, from + 1);
    }
}

/// A checked pipeline: its stages always form a source-to-sink chain.
#[derive(Clone, Debug)]
pub struct PipelineDesc {
    stages: Vec<Stage>,
}

impl View for PipelineDesc {
    type V = Seq<Stage>;

    closed spec fn view(&self) -> Seq<Stage> {
        self.stages@
    }
}

impl PipelineDesc {
    pub open spec fn wf(&self) -> bool {
        build_result(self@) is Ok
    }

    /// Checks the stages from the front and keeps them when they form a chain.
    pub fn build(stages: Vec<Stage>) -> (r: Result<PipelineDesc, BuildError>)
        ensures
            match r {
                Ok(d) => build_result(stages@) is Ok && d@ == stages@ && d.wf(),
                Err(e) => build_result(stages@) == Err::<(), BuildError>(e),
            },
    {
        let n = stages.len();
        if n == 0 {
            return Err(BuildError::Empty);
        }
        if stages[0].input() != MediaKind::Nothing {
            return Err(BuildError::NotASource);
        }
        let mut i: usize = 1;
        while i < n
            invariant
                n == stages@.len(),
                1 <= i <= n,
                stage_input(stages@[0]) is Nothing,
                first_bad_link(stages@, 1) == first_bad_link(stages@, i as int),
            decreases n - i,
        {
            let out = stages[i - 1].output();
            let inp = stages[i].input();
            if out != inp || out == MediaKind::Nothing {
                assert(!links(stages@[i - 1], stages@[i as int]));
                assert(first_bad_link(stages@, i as int) == Some(i as int));
                return Err(BuildError::LinkMismatch { index: i, expected: out, found: inp });
            }
            i = i + 1;
        }
        if stages[n - 1].output() != MediaKind::Nothing {
            return Err(BuildError::NoSink);
        }
        Ok(PipelineDesc { stages })
    }

    pub fn stages(&self) -> (r: &Vec<Stage>)
        ensures
            r@ == self@,
    {
        &self.stages
    }

    /// The pipeline in launch syntax: the stages' descriptions joined by " ! ".
    pub fn launch_line(&self) -> (r: String)
        ensures
            r@ == launch_text(self@),
    {
        let n = self.stages.len();
        let mut out = String::new();
        let mut i: usize = 0;
        while i < n
            invariant
                n == self@.len(),
                i <= n,
                out@ == launch_text(self@.take(i as int)),
            decreases n - i,
        {
            let ghost before = out@;
            if i > 0 {
                out.append(" ! ");
            }
            render_stage(&self.stages[i], &mut out);
            proof {
                let t = self@.take(i + 1);
                assert(t.drop_last() =~= self@.take(i as int));
                assert(t.last() == self@[i as int]);
                if i == 0 {
                    assert(before == Seq::<char>::empty());
                    assert(out@ =~= stage_text(self@[0]));
                }
            }
            i = i + 1;
        }
        proof {
            assert(self@.take(n as int) =~= self@);
        }
        out
    }
}

pub open spec fn format_text(f: PixelFormat) -> Seq<char> {
    match f {
        PixelFormat::Rgb => "RGB"@,
        PixelFormat::Rgba => "RGBA"@,
    }
}

/// A stage in launch syntax.
pub open spec fn stage_text(s: Stage) -> Seq<char> {
    match s {
        Stage::ScreenCapture => "d3d11screencapturesrc"@,
        Stage::FrameSource { format, width, height, fps } => "appsrc name=framesrc is-live=true format=time caps=video/x-raw,format="@
            + format_text(format) + ",width="@ + decimal(width as nat) + ",height="@ + decimal(
            height as nat,
        ) + ",framerate="@ + decimal(fps as nat) + "/1"@,
        Stage::Convert => "videoconvert"@,
        Stage::Scale => "videoscale"@,
        Stage::RawCaps { format, width, height } => "video/x-raw,format="@ + format_text(format)
            + ",width="@ + decimal(width as nat) + ",height="@ + decimal(height as nat),
        Stage::H264Encode {
            bitrate_kbps,
            keyframe_interval,
        } => "x264enc tune=zerolatency speed-preset=ultrafast bitrate="@ + decimal(
            bitrate_kbps as nat,
        ) + " key-int-max="@ + decimal(keyframe_interval as nat),
        Stage::RtpPay { payload_type } => "rtph264pay config-interval=1 pt="@ + decimal(
            payload_type as nat,
        ),
        Stage::UdpSink { endpoint } => "udpsink host="@ + endpoint@.host + " port="@ + decimal(
            endpoint@.port as nat,
        ),
        Stage::UdpSource { port, payload_type } => "udpsrc port="@ + decimal(port as nat)
            + " caps=\"application/x-rtp,media=video,encoding-name=H264,payload="@ + decimal(
            payload_type as nat,
        ) + "\""@,
        Stage::RtpDepay => "rtph264depay"@,
        Stage::Decode => "decodebin"@,
        Stage::FrameSink => "appsink name=videosink"@,
    }
}

/// Stages joined by " ! ".
pub open spec fn launch_text(s: Seq<Stage>) -> Seq<char>
    decreases s.len(),
{
    if s.len() == 0 {
        Seq::empty()
    } else if s.len() == 1 {
        stage_text(s[0])
    } else {
        launch_text(s.drop_last()) + " ! "@ + stage_text(s.last())
    }
}

fn push_format(out: &mut String, f: PixelFormat)
    ensures
        final(out)@ == old(out)@ + format_text(f),
{
    match f {
        PixelFormat::Rgb => out.append("RGB"),
        PixelFormat::Rgba => out.append("RGBA"),
    }
}

fn render_stage(stage: &Stage, out: &mut String)
    ensures
        final(out)@ == old(out)@ + stage_text(*stage),
{
    let ghost start = out@;
    match stage {
        Stage::ScreenCapture => out.append("d3d11screencapturesrc"),
        Stage::FrameSource { format, width, height, fps } => {
            out.append(
                "appsrc name=framesrc is-live=true format=time caps=video/x-raw,format=",
            );
            push_format(out, *format);
            out.append(",width=");
            push_decimal(out, *width as u64);
            out.append(",height=");
            push_decimal(out, *height as u64);
            out.append(",framerate=");
            push_decimal(out, *fps as u64);
            out.append("/1");
        },
        Stage::Convert => out.append("videoconvert"),
        Stage::Scale => out.append("videoscale"),
        Stage::RawCaps { format, width, height } => {
            out.append("video/x-raw,format=");
            push_format(out, *format);
            out.append(",width=");
            push_decimal(out, *width as u64);
            out.append(",height=");
            push_decimal(out, *height as u64);
        },
        Stage::H264Encode { bitrate_kbps, keyframe_interval } => {
            out.append("x264enc tune=zerolatency speed-preset=ultrafast bitrate=");
            push_decimal(out, *bitrate_kbps as u64);
            out.append(" key-int-max=");
            push_decimal(out, *keyframe_interval as u64);
        },
        Stage::RtpPay { payload_type } => {
            out.append("rtph264pay config-interval=1 pt=");
            push_decimal(out, *payload_type as u64);
        },
        Stage::UdpSink { endpoint } => {
            out.append("udpsink host=");
            out.append(endpoint.host());
            out.append(" port=");
            push_decimal(out, endpoint.port() as u64);
        },
        Stage::UdpSource { port, payload_type } => {
            out.append("udpsrc port=");
            push_decimal(out, *port as u64);
            out.append(" caps=\"application/x-rtp,media=video,encoding-name=H264,payload=");
            push_decimal(out, *payload_type as u64);
            out.append("\"");
        },
        Stage::RtpDepay => out.append("rtph264depay"),
        Stage::Decode => out.append("decodebin"),
        Stage::FrameSink => out.append("appsink name=videosink"),
    }
    proof {
        assert(out@ =~= start + stage_text(*stage));
    }
}

/// The payload type that sender and receiver use by convention.
pub const DEFAULT_PAYLOAD_TYPE: u8 = 96;

/// The port on which receivers listen unless told otherwise.
pub const DEFAULT_PORT: u16 = 50496;

/// Encoder and packetiser parameters of the sender.
#[derive(Clone, Copy, PartialEq, Eq, Debug, Structural)]
pub struct EncoderSettings {
    pub bitrate_kbps: u32,
    /// Frames between two keyframes.
    pub keyframe_interval: u32,
    pub payload_type: u8,
}

impl EncoderSettings {
    /// 3000 kbit/s, a keyframe every 60 frames, payload type 96.
    pub fn low_latency() -> (r: EncoderSettings)
        ensures
            r == (EncoderSettings {
                bitrate_kbps: 3000,
                keyframe_interval: 60,
                payload_type: DEFAULT_PAYLOAD_TYPE,
            }),
    {
        EncoderSettings { bitrate_kbps: 3000, keyframe_interval: 60, payload_type: DEFAULT_PAYLOAD_TYPE }
    }
}

/// The sender: raw frames from `source`, normalised, compressed, packetised and
/// sent to `endpoint`.
pub open spec fn sender_stages(source: Stage, settings: EncoderSettings, endpoint: EndpointConfig) -> Seq<
    Stage,
> {
    seq![
        source,
        Stage::Convert,
        Stage::H264Encode {
            bitrate_kbps: settings.bitrate_kbps,
            keyframe_interval: settings.keyframe_interval,
        },
        Stage::RtpPay { payload_type: settings.payload_type },
        Stage::UdpSink { endpoint },
    ]
}

/// The receiver: datagrams on `port`, depacketised, decoded, converted and
/// scaled to `format` at `width` by `height`, then handed to the application.
pub open spec fn receiver_stages(
    port: u16,
    payload_type: u8,
    format: PixelFormat,
    width: u32,
    height: u32,
) -> Seq<Stage> {
    seq![
        Stage::UdpSource { port, payload_type },
        Stage::RtpDepay,
        Stage::Decode,
        Stage::Convert,
        Stage::Scale,
        Stage::RawCaps { format, width, height },
        Stage::FrameSink,
    ]
}

/// Builds the sending pipeline; it fails only when `source` is not a source of raw video.
pub fn sender_pipeline(source: Stage, settings: &EncoderSettings, endpoint: EndpointConfig) -> (r:
    Result<PipelineDesc, BuildError>)
    ensures
        match r {
            Ok(d) => d@ == sender_stages(source, *settings, endpoint) && d.wf(),
            Err(e) => build_result(sender_stages(source, *settings, endpoint)) == Err::<(), BuildError>(e),
        },
        r is Ok <==> (stage_input(source) is Nothing && stage_output(source) is RawVideo),
{
    let ghost expected = sender_stages(source, *settings, endpoint);
    let stages = vec![
        source,
        Stage::Convert,
        Stage::H264Encode {
            bitrate_kbps: settings.bitrate_kbps,
            keyframe_interval: settings.keyframe_interval,
        },
        Stage::RtpPay { payload_type: settings.payload_type },
        Stage::UdpSink { endpoint },
    ];
    assert(stages@ =~= expected);
    proof {
        assert(first_bad_link(expected, 5) is None);
        assert(links(expected[3], expected[4]));
        assert(first_bad_link(expected, 4) is None);
        assert(links(expected[2], expected[3]));
        assert(first_bad_link(expected, 3) is None);
        assert(links(expected[1], expected[2]));
        assert(first_bad_link(expected, 2) is None);
    }
    PipelineDesc::build(stages)
}

/// Builds the receiving pipeline, which is always a valid chain.
pub fn receiver_pipeline(port: u16, payload_type: u8, format: PixelFormat, width: u32, height: u32) -> (r:
    PipelineDesc)
    ensures
        r@ == receiver_stages(port, payload_type, format, width, height),
        r.wf(),
{
    let ghost expected = receiver_stages(port, payload_type, format, width, height);
    let stages = vec![
        Stage::UdpSource { port, payload_type },
        Stage::RtpDepay,
        Stage::Decode,
        Stage::Convert,
        Stage::Scale,
        Stage::RawCaps { format, width, height },
        Stage::FrameSink,
    ];
    assert(stages@ =~= expected);
    proof {
        assert forall|i: int| 1 <= i < expected.len() implies links(expected[i - 1], #[trigger] expected[i]) by {
        }
        lemma_accepted_iff_well_linked(expected);
    }
    PipelineDesc::build(stages).unwrap()
}

} // verus!
