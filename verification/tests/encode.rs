use rewind::encode::gstreamer::{
    audio_bits_per_second, audio_elements, audio_stream, backend, choose_encoder, encoder,
    encoder_properties, muxer, on_bus_message, pulse_device, raw_caps, rebase, sample_to_packet,
    share_bitrate, share_chain, share_plan, BusMessage, BusStep, ClipFile, EncoderChoice, FileStep, Property, Ready,
    SampleBuffer,
};
use rewind::encode::{convert_to_shareable, create_encoder, create_muxer, EncodeError};
use rewind::media::{
    AudioCodec, AudioInfo, AudioSource, Codec, Container, EncodeSettings, EncodedPacket, Frame,
    PixelFormat, StreamInfo, Track,
};
use std::cell::RefCell;
use std::sync::Arc;

fn said(e: EncodeError) -> String {
    e.message()
}

fn packet(pts: u64, dts: Option<u64>, key: bool) -> EncodedPacket {
    EncodedPacket {
        data: vec![pts as u8],
        pts_ns: pts,
        dts_ns: dts,
        is_keyframe: key,
        track: Track::Video,
    }
}

fn readable(pts: u64) -> SampleBuffer {
    SampleBuffer {
        data: Ok(vec![pts as u8]),
        pts_ns: Some(pts),
        dts_ns: None,
        delta_unit: pts % 2 == 1,
    }
}

fn unreadable(why: &str) -> SampleBuffer {
    SampleBuffer { data: Err(why.to_string()), ..readable(0) }
}

fn frame() -> Frame {
    Frame {
        width: 1,
        height: 1,
        stride: 4,
        format: PixelFormat::Bgrx8888,
        pts_ns: 77,
        data: Arc::new(vec![1, 2, 3]),
    }
}

fn seen(packets: &[EncodedPacket]) -> Vec<(u64, Track)> {
    packets.iter().map(|p| (p.pts_ns, p.track)).collect()
}

#[test]
fn hardware_encoders_come_first() {
    let all = choose_encoder(Codec::H264, |_| true).unwrap();
    assert_eq!((all.enc, all.is_software), ("vaapih264enc", false));
    let nv = choose_encoder(Codec::Hevc, |n| n == "nvh265enc" || n == "x265enc").unwrap();
    assert_eq!((nv.enc, nv.parse, nv.media_type), ("nvh265enc", "h265parse", "video/x-h265"));
    let soft = choose_encoder(Codec::H264, |n| n == "x264enc").unwrap();
    assert_eq!((soft.enc, soft.parse, soft.media_type), ("x264enc", "h264parse", "video/x-h264"));
    assert!(soft.is_software);
    assert_eq!(
        said(choose_encoder(Codec::H264, |_| false).unwrap_err()),
        "encode unsupported: no GStreamer encoder available for H264 (tried [\"vaapih264enc\", \"nvh264enc\", \"x264enc\"])"
    );
    assert_eq!(
        said(choose_encoder(Codec::Hevc, |_| false).unwrap_err()),
        "encode unsupported: no GStreamer encoder available for Hevc (tried [\"vaapih265enc\", \"nvh265enc\", \"x265enc\"])"
    );
}

fn names(props: &[Property]) -> Vec<String> {
    props
        .iter()
        .map(|p| match p {
            Property::Number { name, value } => format!("{name}={value}"),
            Property::Text { name, text } => format!("{name}={text}"),
        })
        .collect()
}

#[test]
fn encoders_are_tuned() {
    let settings = EncodeSettings::default();
    let choice = |is_software| EncoderChoice {
        enc: "e",
        parse: "p",
        media_type: "m",
        is_software,
    };
    assert_eq!(
        names(&encoder_properties(&choice(true), &settings)),
        vec!["bitrate=40000", "tune=zerolatency", "key-int-max=60"]
    );
    assert_eq!(
        names(&encoder_properties(&choice(false), &settings)),
        vec!["bitrate=40000", "key-int-max=60", "keyframe-period=60", "gop-size=60"]
    );
    let caps = raw_caps(StreamInfo {
        width: 1920,
        height: u32::MAX,
        framerate: 60,
        format: PixelFormat::Xrgb8888,
    });
    assert_eq!((caps.format, caps.width, caps.height, caps.framerate), ("xRGB", 1920, -1, 60));
}

#[test]
fn audio_has_its_elements() {
    let aac = audio_elements(AudioCodec::Aac);
    assert_eq!((aac.enc, aac.parse, aac.media_type), ("avenc_aac", "aacparse", "audio/mpeg"));
    let opus = audio_elements(AudioCodec::Opus);
    assert_eq!((opus.enc, opus.parse, opus.media_type), ("opusenc", "opusparse", "audio/x-opus"));
    assert_eq!(pulse_device(AudioSource::SystemMonitor), Some("@DEFAULT_MONITOR@"));
    assert_eq!(pulse_device(AudioSource::Microphone), None);
    let mut settings = EncodeSettings::default();
    assert_eq!(
        audio_stream(&settings),
        Some(AudioInfo { sample_rate: 48000, channels: 2, codec: AudioCodec::Aac })
    );
    assert_eq!(audio_bits_per_second(&settings), 160_000);
    settings.capture_audio = false;
    settings.audio_bitrate_kbps = u32::MAX;
    assert_eq!(audio_stream(&settings), None);
    assert_eq!(audio_bits_per_second(&settings), u32::MAX);
}

#[test]
fn a_shareable_copy_is_h264_and_aac() {
    assert_eq!(
        share_chain("video/x-raw"),
        Some(vec!["queue", "videoconvert", "x264enc", "h264parse"])
    );
    assert_eq!(
        share_chain("audio/x-raw"),
        Some(vec!["queue", "audioconvert", "audioresample", "avenc_aac", "aacparse"])
    );
    assert_eq!(share_chain("text/x-raw"), None);
    assert_eq!(share_chain("video"), None);
    let settings = EncodeSettings::default();
    assert_eq!(share_bitrate("x264enc", &settings), Some(40_000));
    assert_eq!(share_bitrate("avenc_aac", &settings), Some(160_000));
    assert_eq!(share_bitrate("queue", &settings), None);
}

#[test]
fn an_encoder_is_configured_first() {
    let mut enc = encoder(Ok(())).unwrap();
    assert_eq!(enc.name(), "gstreamer");
    assert_eq!(enc.audio_info(), None);
    let early = enc.push_frame(&frame(), |_, _| panic!("not configured"));
    assert_eq!(said(early.unwrap_err()), "encode backend error: push_frame before configure");
    let mut ready = Ready::new();
    let mut sink = Vec::new();
    ready.video.push_back(Some(readable(7)));
    assert_eq!(
        said(enc.poll(&mut ready, &mut sink).unwrap_err()),
        "encode backend error: poll before configure"
    );
    assert!(sink.is_empty() && ready.video.len() == 1);
    let early = enc.flush(
        &mut ready,
        &mut sink,
        || panic!("not configured"),
        |_| panic!("not configured"),
    );
    assert_eq!(said(early.unwrap_err()), "encode backend error: flush before configure");
    let audio = AudioInfo { sample_rate: 48000, channels: 2, codec: AudioCodec::Aac };
    let mut settings = EncodeSettings::default();
    let built = enc.configure(&settings, |n| n == "x264enc", |choice| Ok(choice.enc));
    assert_eq!(built.unwrap(), "x264enc");
    assert_eq!(enc.name(), "gstreamer:x264enc");
    assert_eq!(enc.audio_info(), Some(audio));
    assert!(enc.poll(&mut ready, &mut sink).is_ok());
    assert!(sink.len() == 1 && ready.video.is_empty());
    let pushed = enc.push_frame(&frame(), |data, pts_ns| {
        assert_eq!((data, pts_ns), (vec![1, 2, 3], 77));
        Err(EncodeError::Backend("full".to_string()))
    });
    assert_eq!(said(pushed.unwrap_err()), "encode backend error: full");
    settings.capture_audio = false;
    assert!(enc.configure(&settings, |n| n == "x264enc", |_| Ok(())).is_ok());
    assert_eq!(enc.audio_info(), None);
    assert_eq!(
        said(encoder(Err("no plugins".to_string())).unwrap_err()),
        "encode backend error: gst::init failed: no plugins"
    );
    assert!(muxer(Ok(())).is_ok());
    assert_eq!(
        said(muxer(Err("x".to_string())).unwrap_err()),
        "encode backend error: gst::init failed: x"
    );
    assert_eq!(said(backend("make x", "y")), "encode backend error: make x: y");
}

#[test]
fn a_failed_set_up_changes_nothing() {
    let mut enc = encoder(Ok(())).unwrap();
    let settings = EncodeSettings::default();
    let none: Result<(), EncodeError> =
        enc.configure(&settings, |_| false, |_| panic!("nothing to build around"));
    assert!(matches!(none, Err(EncodeError::Unsupported(_))));
    let broken: Result<(), EncodeError> = enc.configure(
        &settings,
        |_| true,
        |choice| Err(backend("make", choice.enc)),
    );
    assert_eq!(said(broken.unwrap_err()), "encode backend error: make: vaapih264enc");
    assert_eq!((enc.name(), enc.audio_info()), ("gstreamer", None));
    let early = enc.push_frame(&frame(), |_, _| panic!("not configured"));
    assert_eq!(said(early.unwrap_err()), "encode backend error: push_frame before configure");
    assert!(enc.poll(&mut Ready::new(), &mut Vec::new()).is_err());
    assert!(enc.configure(&settings, |n| n == "nvh264enc", |_| Ok(())).is_ok());
    let failed: Result<(), EncodeError> =
        enc.on_configured(None, Err(EncodeError::Backend("busy".to_string())));
    assert_eq!(said(failed.unwrap_err()), "encode backend error: busy");
    assert_eq!(enc.name(), "gstreamer:nvh264enc");
    assert!(enc.audio_info().is_some());
}

#[test]
fn the_end_of_the_stream_is_sent_once() {
    let mut enc = encoder(Ok(())).unwrap();
    let settings = EncodeSettings::default();
    assert!(enc.configure(&settings, |_| true, |_| Ok(())).is_ok());
    let mut ready = Ready::new();
    let mut sink = Vec::new();
    ready.video.push_back(Some(readable(4)));
    let refused = enc.flush(
        &mut ready,
        &mut sink,
        || Err(EncodeError::Backend("gone".to_string())),
        |_| panic!("the end was not sent"),
    );
    assert_eq!(said(refused.unwrap_err()), "encode backend error: gone");
    assert!(sink.is_empty() && ready.video.len() == 1);
    let flushed = enc.flush(&mut ready, &mut sink, || Ok(()), |mut held| {
        held.video.push_back(Some(readable(6)));
        held.audio.push_back(Some(readable(5)));
        held
    });
    assert!(flushed.is_ok());
    assert_eq!(seen(&sink), vec![(4, Track::Video), (6, Track::Video), (5, Track::Audio)]);
    assert!(ready.video.is_empty() && ready.audio.is_empty());
    assert!(enc.flush(&mut ready, &mut sink, || panic!("sent before"), |held| held).is_ok());
    assert_eq!(sink.len(), 3);
    // Another pipeline has its own end.
    assert!(enc.configure(&settings, |_| true, |_| Ok(())).is_ok());
    let sent = RefCell::new(false);
    let again = enc.flush(
        &mut ready,
        &mut sink,
        || {
            *sent.borrow_mut() = true;
            Ok(())
        },
        |held| held,
    );
    assert!(again.is_ok() && *sent.borrow());
}

#[test]
fn samples_become_packets() {
    let buffer = |data, delta_unit| SampleBuffer {
        data,
        pts_ns: Some(5),
        dts_ns: Some(4),
        delta_unit,
    };
    let p = sample_to_packet(Some(buffer(Ok(vec![1, 2]), false)), Track::Video).unwrap().unwrap();
    assert_eq!((p.data, p.pts_ns, p.dts_ns, p.is_keyframe), (vec![1, 2], 5, Some(4), true));
    let q = sample_to_packet(Some(buffer(Ok(vec![]), true)), Track::Audio).unwrap().unwrap();
    assert!(!q.is_keyframe && q.track == Track::Audio);
    let r = SampleBuffer { data: Ok(vec![]), pts_ns: None, dts_ns: None, delta_unit: false };
    assert_eq!(sample_to_packet(Some(r), Track::Video).unwrap().unwrap().pts_ns, 0);
    assert!(matches!(sample_to_packet(None, Track::Video), Ok(None)));
    assert_eq!(
        said(
            sample_to_packet(Some(buffer(Err("busy".to_string()), false)), Track::Video)
                .err()
                .unwrap()
        ),
        "encode backend error: map buffer readable: busy"
    );
}

#[test]
fn every_ready_sample_is_collected_in_order() {
    let mut enc = encoder(Ok(())).unwrap();
    assert!(enc.configure(&EncodeSettings::default(), |_| true, |_| Ok(())).is_ok());
    let mut ready = Ready::new();
    let mut sink = vec![packet(1, None, true)];
    ready.video.extend([Some(readable(4)), None, Some(readable(3))]);
    ready.audio.extend([Some(readable(2)), Some(readable(9))]);
    assert!(enc.poll(&mut ready, &mut sink).is_ok());
    assert!(ready.video.is_empty() && ready.audio.is_empty());
    assert_eq!(
        seen(&sink),
        vec![
            (1, Track::Video),
            (4, Track::Video),
            (3, Track::Video),
            (2, Track::Audio),
            (9, Track::Audio),
        ]
    );
    assert_eq!((sink[1].is_keyframe, sink[2].is_keyframe), (true, false));
    assert!(enc.poll(&mut ready, &mut sink).is_ok());
    assert_eq!(sink.len(), 5);
}

#[test]
fn an_unreadable_sample_stops_the_collecting() {
    let mut ready = Ready::new();
    let mut sink = Vec::new();
    ready.video.extend([Some(readable(1)), Some(unreadable("v")), Some(readable(2))]);
    ready.audio.extend([Some(unreadable("a")), Some(readable(3))]);
    assert_eq!(
        said(ready.collect(&mut sink).unwrap_err()),
        "encode backend error: map buffer readable: v"
    );
    assert_eq!(seen(&sink), vec![(1, Track::Video)]);
    assert_eq!((ready.video.len(), ready.audio.len()), (1, 2));
    assert_eq!(
        said(ready.collect(&mut sink).unwrap_err()),
        "encode backend error: map buffer readable: a"
    );
    assert_eq!((ready.video.len(), ready.audio.len()), (0, 1));
    assert!(ready.collect(&mut sink).is_ok());
    assert_eq!(seen(&sink), vec![(1, Track::Video), (2, Track::Video), (3, Track::Audio)]);
}

#[test]
fn a_file_gets_its_name_once_it_is_complete() {
    let file = ClipFile::new("a.mp4");
    assert!(matches!(
        file.on_written(Ok(())),
        FileStep::Rename { from, to } if from == "a.mp4.part" && to == "a.mp4"
    ));
    assert!(matches!(
        file.on_written(Err(EncodeError::Backend("full".to_string()))),
        FileStep::Remove { path, cause: EncodeError::Backend(s) } if path == "a.mp4.part" && s == "full"
    ));
    assert!(matches!(file.on_renamed(Ok(())), FileStep::Done));
    assert!(matches!(
        file.on_renamed(Err("denied".to_string())),
        FileStep::Remove { path, cause: EncodeError::Backend(s) }
            if path == "a.mp4.part" && s == "rename clip: denied"
    ));
    let log = RefCell::new(Vec::new());
    let write = |outcome: Result<(), EncodeError>, renamed: Result<(), String>| {
        log.borrow_mut().clear();
        let r = file.write(
            |path: &String| {
                log.borrow_mut().push(format!("write {path}"));
                outcome
            },
            |from: &String, to: &String| {
                log.borrow_mut().push(format!("rename {from} {to}"));
                renamed
            },
            |path: &String| log.borrow_mut().push(format!("remove {path}")),
        );
        (r.map_err(said), log.borrow().join(", "))
    };
    assert_eq!(
        write(Ok(()), Ok(())),
        (Ok(()), "write a.mp4.part, rename a.mp4.part a.mp4".to_string())
    );
    assert_eq!(
        write(Err(EncodeError::Backend("full".to_string())), Ok(())),
        (
            Err("encode backend error: full".to_string()),
            "write a.mp4.part, remove a.mp4.part".to_string()
        )
    );
    assert_eq!(
        write(Ok(()), Err("denied".to_string())),
        (
            Err("encode backend error: rename clip: denied".to_string()),
            "write a.mp4.part, rename a.mp4.part a.mp4, remove a.mp4.part".to_string()
        )
    );
    let share = share_plan("b.share.mp4");
    assert_eq!((share.mux, share.faststart), ("mp4mux", true));
    assert_eq!(share.file.partial, "b.share.mp4.part");
}

#[test]
fn each_track_starts_at_zero() {
    let track = vec![
        packet(1030, Some(1010), true),
        packet(1090, Some(1030), false),
        packet(1050, Some(1050), false),
    ];
    let out = rebase(&track);
    let stamps: Vec<(u64, Option<u64>, bool)> =
        out.iter().map(|b| (b.pts_ns, b.dts_ns, b.delta_unit)).collect();
    assert_eq!(
        stamps,
        vec![(20, Some(0), false), (80, Some(20), true), (40, Some(40), true)]
    );
    assert_eq!(out[0].data, track[0].data);
    assert!(rebase(&Vec::new()).is_empty());
    let plain = rebase(&vec![packet(500, None, true), packet(700, None, false)]);
    assert_eq!((plain[0].pts_ns, plain[1].pts_ns, plain[1].dts_ns), (0, 200, None));
}

#[test]
fn a_clip_is_muxed() {
    let m = muxer(Ok(())).unwrap();
    let mut settings = EncodeSettings::default();
    let video = vec![packet(100, None, true), packet(200, None, false)];
    let audio = vec![packet(7000, None, true)];
    let plan = m.write_clip(&video, &Vec::new(), None, &settings, "clips/a.mp4");
    assert_eq!((plan.mux, plan.video.parse, plan.video.media_type), ("mp4mux", "h264parse", "video/x-h264"));
    assert!(plan.audio.is_none());
    assert_eq!(
        (plan.file.out.as_str(), plan.file.partial.as_str()),
        ("clips/a.mp4", "clips/a.mp4.part")
    );
    assert_eq!(plan.video.buffers[1].pts_ns, 100);
    settings.container = Container::Mkv;
    settings.codec = Codec::Hevc;
    settings.audio_codec = AudioCodec::Opus;
    let plan = m.write_clip(&video, &audio, None, &settings, "a.mkv");
    assert_eq!((plan.mux, plan.video.parse), ("matroskamux", "h265parse"));
    assert_eq!(plan.audio_codec, AudioCodec::Opus);
    let track = plan.audio.unwrap();
    assert_eq!((track.parse, track.media_type), ("opusparse", "audio/x-opus"));
    assert_eq!(track.buffers[0].pts_ns, 0);
    let info = AudioInfo { sample_rate: 44100, channels: 2, codec: AudioCodec::Aac };
    let plan = m.write_clip(&video, &audio, Some(info), &settings, "a.mkv");
    assert_eq!(plan.audio_codec, AudioCodec::Aac);
    assert_eq!(plan.audio.unwrap().parse, "aacparse");
}

#[test]
fn a_clip_is_complete_at_the_end_of_the_stream() {
    assert!(matches!(on_bus_message(BusMessage::Other), BusStep::Continue));
    assert!(matches!(on_bus_message(BusMessage::Eos), BusStep::Finished));
    let text = |step| match step {
        BusStep::Failed(e) => said(e),
        other => panic!("{other:?}"),
    };
    assert_eq!(
        text(on_bus_message(BusMessage::TimedOut)),
        "encode backend error: mux pipeline timed out before EOS"
    );
    assert_eq!(
        text(on_bus_message(BusMessage::Error {
            source: "Some(\"/p/mux\")".to_string(),
            error: "disk full".to_string(),
            debug: "None".to_string(),
        })),
        "encode backend error: mux pipeline error from Some(\"/p/mux\"): disk full (None)"
    );
}

#[test]
fn backends_may_be_left_out_of_a_build() {
    assert_eq!(
        said(create_encoder(None).err().unwrap()),
        "encode unsupported: no encoder built (enable feature `encode-gstreamer`)"
    );
    assert_eq!(
        said(create_muxer(None).err().unwrap()),
        "encode unsupported: no muxer built (enable feature `encode-gstreamer`)"
    );
    let settings = EncodeSettings::default();
    let none: Option<fn(&str, &str, &EncodeSettings) -> Result<(), EncodeError>> = None;
    assert_eq!(
        said(convert_to_shareable("a", "b", &settings, none).unwrap_err()),
        "encode unsupported: auto-convert needs the `encode-gstreamer` feature"
    );
    let echo = |i: &str, o: &str, _: &EncodeSettings| -> Result<(), EncodeError> {
        Err(EncodeError::Backend(format!("{i}>{o}")))
    };
    assert_eq!(
        said(convert_to_shareable("a", "b", &settings, Some(echo)).unwrap_err()),
        "encode backend error: a>b"
    );
}
