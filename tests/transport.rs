use screen_caster::bridge::{BridgeError, FrameBridge};
use screen_caster::endpoint::{parse_octet, EndpointConfig, EndpointError};
use screen_caster::frame::test_pattern;
use screen_caster::pacer::{FramePacer, Pace, FRAME_PERIOD_US};
use screen_caster::pipeline::{
    receiver_pipeline, sender_pipeline, BuildError, EncoderSettings, MediaKind, PipelineDesc,
    Stage, DEFAULT_PAYLOAD_TYPE, DEFAULT_PORT,
};
use screen_caster::session::{
    PipelineAction, PipelineError, PipelineEvent, PipelineHandle, PipelineKind, PipelineState,
};
use screen_caster::stride::PixelFormat;
use screen_caster::text::push_decimal;

#[test]
fn pacer_accepts_at_most_once_per_period() {
    let mut p = FramePacer::new(16_600);
    let mut accepted = Vec::new();
    let mut last_wait = None;
    for step in 0..=100u64 {
        let now = step * 1000;
        match p.poll(now) {
            Pace::Sample => accepted.push(now),
            Pace::Wait(d) => {
                assert!(d > 0);
                last_wait = Some(d);
            }
        }
    }
    assert_eq!(accepted, vec![0, 17_000, 34_000, 51_000, 68_000, 85_000]);
    for w in accepted.windows(2) {
        assert!(w[1] - w[0] >= 16_600);
    }
    // at 100 ms the last sample was taken at 85 ms
    assert_eq!(last_wait, Some(1_600));
}

#[test]
fn pacer_reports_time_left() {
    let mut p = FramePacer::new(FRAME_PERIOD_US);
    assert_eq!(p.time_until_next(5), 0);
    assert_eq!(p.poll(1_000), Pace::Sample);
    assert_eq!(p.poll(1_001), Pace::Wait(16_665));
    assert_eq!(p.time_until_next(11_000), 6_666);
    assert_eq!(p.poll(17_666), Pace::Sample);
    // a clock that steps back counts as no time passed
    assert_eq!(p.poll(10), Pace::Wait(16_666));
}

#[test]
fn bridge_keeps_only_latest_frame() {
    let mut b = FrameBridge::new();
    let f1 = test_pattern(1, 1).unwrap();
    let f2 = test_pattern(2, 1).unwrap();
    let f3 = test_pattern(3, 1).unwrap();
    assert!(b.send(f1).is_ok());
    assert!(b.send(f2).is_ok());
    assert!(b.send(f3).is_ok());
    let got = b.take_newest().unwrap();
    assert_eq!(got.width(), 3);
    assert!(b.take_newest().is_none());
}

#[test]
fn bridge_take_on_empty_is_none() {
    let mut b: FrameBridge<u32> = FrameBridge::new();
    assert!(!b.has_frame());
    assert_eq!(b.take_newest(), None);
}

#[test]
fn closed_bridge_refuses_frames() {
    let mut b = FrameBridge::new();
    assert!(b.send(1u32).is_ok());
    b.close();
    assert!(!b.is_open());
    assert_eq!(b.send(2u32), Err(BridgeError::ChannelClosed));
    assert_eq!(b.take_newest(), None);
}

#[test]
fn stop_on_stopped_pipeline_is_noop() {
    let mut h = PipelineHandle::new(PipelineKind::Sender);
    assert_eq!(h.handle(PipelineEvent::Configure), PipelineAction::Nothing);
    assert_eq!(h.handle(PipelineEvent::Started), PipelineAction::Nothing);
    assert_eq!(h.state(), PipelineState::Playing);
    assert_eq!(h.stop(), PipelineAction::Release);
    assert_eq!(h.state(), PipelineState::Stopped);
    assert_eq!(h.stop(), PipelineAction::Nothing);
    assert_eq!(h.stop(), PipelineAction::Nothing);
    assert_eq!(h.state(), PipelineState::Stopped);
}

#[test]
fn stop_racing_transport_error_releases_once() {
    let mut a = PipelineHandle::new(PipelineKind::Receiver);
    a.handle(PipelineEvent::Configure);
    a.handle(PipelineEvent::Started);
    assert_eq!(
        a.handle(PipelineEvent::TransportError),
        PipelineAction::ReleaseAndReport(PipelineError::TransportError)
    );
    assert_eq!(a.stop(), PipelineAction::Nothing);

    let mut b = PipelineHandle::new(PipelineKind::Receiver);
    b.handle(PipelineEvent::Configure);
    b.handle(PipelineEvent::Started);
    assert_eq!(b.stop(), PipelineAction::Release);
    assert_eq!(b.handle(PipelineEvent::TransportError), PipelineAction::Nothing);
    assert_eq!(b.state(), PipelineState::Stopped);
    assert_eq!(b.kind(), PipelineKind::Receiver);
}

#[test]
fn build_and_bind_failures_are_reported() {
    let mut s = PipelineHandle::new(PipelineKind::Sender);
    s.handle(PipelineEvent::Configure);
    assert_eq!(
        s.handle(PipelineEvent::BuildFailed),
        PipelineAction::ReleaseAndReport(PipelineError::PipelineBuildError)
    );
    let mut r = PipelineHandle::new(PipelineKind::Receiver);
    r.handle(PipelineEvent::Configure);
    assert_eq!(
        r.handle(PipelineEvent::BindFailed),
        PipelineAction::ReleaseAndReport(PipelineError::BindError)
    );
    assert_eq!(r.state(), PipelineState::Stopped);
}

#[test]
fn end_of_stream_stops_and_releases() {
    let mut h = PipelineHandle::new(PipelineKind::Sender);
    h.handle(PipelineEvent::Configure);
    h.handle(PipelineEvent::Started);
    assert_eq!(h.handle(PipelineEvent::EndOfStream), PipelineAction::Release);
    assert_eq!(h.state(), PipelineState::Stopped);
}

#[test]
fn unconfigured_stop_releases_nothing() {
    let mut h = PipelineHandle::new(PipelineKind::Sender);
    assert_eq!(h.handle(PipelineEvent::Started), PipelineAction::Nothing);
    assert_eq!(h.state(), PipelineState::Unconfigured);
    assert_eq!(h.stop(), PipelineAction::Nothing);
    assert_eq!(h.state(), PipelineState::Stopped);
}

#[test]
fn decimal_rendering() {
    let mut s = String::from("n=");
    push_decimal(&mut s, 0);
    assert_eq!(s, "n=0");
    let mut t = String::new();
    push_decimal(&mut t, 50496);
    assert_eq!(t, "50496");
    let mut u = String::new();
    push_decimal(&mut u, u64::MAX);
    assert_eq!(u, "18446744073709551615");
}

#[test]
fn endpoint_from_octets() {
    let e = EndpointConfig::from_octets([127, 0, 0, 1], DEFAULT_PORT);
    assert_eq!(e.host(), "127.0.0.1");
    assert_eq!(e.port(), 50496);
    let e = EndpointConfig::from_octets([192, 168, 10, 255], 5000);
    assert_eq!(e.host(), "192.168.10.255");
}

#[test]
fn endpoint_host_is_checked() {
    assert!(EndpointConfig::new("10.0.0.2", 1).is_ok());
    assert!(EndpointConfig::new("fe80::1", 1).is_ok());
    assert!(EndpointConfig::new("caster-host.lan", 1).is_ok());
    assert_eq!(EndpointConfig::new("", 1).unwrap_err(), EndpointError::EmptyHost);
    assert_eq!(
        EndpointConfig::new("1.2.3.4 ! filesink", 1).unwrap_err(),
        EndpointError::InvalidHost
    );
}

#[test]
fn end_to_end_pipelines_agree_on_endpoint() {
    let endpoint = EndpointConfig::new("127.0.0.1", 50496).unwrap();
    let source = Stage::FrameSource { format: PixelFormat::Rgb, width: 640, height: 360, fps: 60 };
    let sender = sender_pipeline(source, &EncoderSettings::low_latency(), endpoint).unwrap();
    assert_eq!(
        sender.launch_line(),
        "appsrc name=framesrc is-live=true format=time caps=video/x-raw,format=RGB,width=640,height=360,framerate=60/1 ! videoconvert ! x264enc tune=zerolatency speed-preset=ultrafast bitrate=3000 key-int-max=60 ! rtph264pay config-interval=1 pt=96 ! udpsink host=127.0.0.1 port=50496"
    );
    let receiver = receiver_pipeline(50496, DEFAULT_PAYLOAD_TYPE, PixelFormat::Rgb, 640, 360);
    assert_eq!(
        receiver.launch_line(),
        "udpsrc port=50496 caps=\"application/x-rtp,media=video,encoding-name=H264,payload=96\" ! rtph264depay ! decodebin ! videoconvert ! videoscale ! video/x-raw,format=RGB,width=640,height=360 ! appsink name=videosink"
    );
}

#[test]
fn screen_sender_launch_line() {
    let endpoint = EndpointConfig::from_octets([10, 0, 0, 7], 6000);
    let settings = EncoderSettings { bitrate_kbps: 1500, keyframe_interval: 30, payload_type: 97 };
    let sender = sender_pipeline(Stage::ScreenCapture, &settings, endpoint).unwrap();
    assert_eq!(sender.stages().len(), 5);
    assert_eq!(
        sender.launch_line(),
        "d3d11screencapturesrc ! videoconvert ! x264enc tune=zerolatency speed-preset=ultrafast bitrate=1500 key-int-max=30 ! rtph264pay config-interval=1 pt=97 ! udpsink host=10.0.0.7 port=6000"
    );
}

#[test]
fn sender_with_non_source_fails() {
    let endpoint = EndpointConfig::from_octets([10, 0, 0, 7], 6000);
    let r = sender_pipeline(Stage::Convert, &EncoderSettings::low_latency(), endpoint);
    assert_eq!(r.unwrap_err(), BuildError::NotASource);
    let endpoint = EndpointConfig::from_octets([10, 0, 0, 7], 6000);
    let r = sender_pipeline(
        Stage::UdpSource { port: 1, payload_type: 96 },
        &EncoderSettings::low_latency(),
        endpoint,
    );
    assert_eq!(
        r.unwrap_err(),
        BuildError::LinkMismatch { index: 1, expected: MediaKind::Rtp, found: MediaKind::RawVideo }
    );
}

#[test]
fn build_reports_first_fault() {
    assert_eq!(PipelineDesc::build(Vec::new()).unwrap_err(), BuildError::Empty);
    assert_eq!(
        PipelineDesc::build(vec![Stage::Decode, Stage::FrameSink]).unwrap_err(),
        BuildError::NotASource
    );
    assert_eq!(
        PipelineDesc::build(vec![Stage::ScreenCapture, Stage::Convert]).unwrap_err(),
        BuildError::NoSink
    );
    assert_eq!(
        PipelineDesc::build(vec![Stage::ScreenCapture, Stage::FrameSink, Stage::FrameSink])
            .unwrap_err(),
        BuildError::LinkMismatch { index: 2, expected: MediaKind::Nothing, found: MediaKind::RawVideo }
    );
    assert_eq!(
        PipelineDesc::build(vec![Stage::ScreenCapture, Stage::RtpPay { payload_type: 96 }, Stage::Decode])
            .unwrap_err(),
        BuildError::LinkMismatch { index: 1, expected: MediaKind::RawVideo, found: MediaKind::H264 }
    );
    let ok = PipelineDesc::build(vec![Stage::ScreenCapture, Stage::Scale, Stage::FrameSink]).unwrap();
    assert_eq!(ok.launch_line(), "d3d11screencapturesrc ! videoscale ! appsink name=videosink");
}

#[test]
fn octets_are_parsed() {
    assert_eq!(parse_octet("0"), Some(0));
    assert_eq!(parse_octet("007"), Some(7));
    assert_eq!(parse_octet("192"), Some(192));
    assert_eq!(parse_octet("255"), Some(255));
    assert_eq!(parse_octet("256"), None);
    assert_eq!(parse_octet(""), None);
    assert_eq!(parse_octet("1a"), None);
    assert_eq!(parse_octet("0012"), None);
    assert_eq!(parse_octet("-1"), None);
}
