use shrimply_model::counter::{CounterDirection, CounterGenerator, CounterStyle};
use shrimply_model::producer::{
    classify_generator, element_duration, frame_number, generator_file, lookup_entry, media_content, producer_source, source_timing,
    CounterSound, GeneratorSource, MediaContent, MediaPlan, Producer, SourcePlan, SourceTiming,
};
use shrimply_model::mlt_values::{braces_trimmed, parse_mlt_color, parse_uuid, Rgba};
use shrimply_model::project_settings::{
    new_project_settings, FrameRate, NewProject, ProjectDefaults, MAX_CANVAS_DIMENSION,
};
use shrimply_model::sequence_nesting::{enter_sequence, leave_sequence};

fn pairs(entries: &[(&str, &str)]) -> Vec<(String, String)> {
    entries.iter().map(|(k, v)| (k.to_string(), v.to_string())).collect()
}

fn producer(name: &str, properties: &[(&str, &str)]) -> Producer {
    Producer { name: name.to_string(), properties: pairs(properties), attributes: Vec::new() }
}

#[test]
fn lookup_takes_the_first_entry_of_a_name() {
    let entries = pairs(&[("a", "1"), ("b", "2"), ("a", "3")]);
    assert_eq!(lookup_entry(&entries, "a"), Some("1"));
    assert_eq!(lookup_entry(&entries, "b"), Some("2"));
    assert_eq!(lookup_entry(&entries, "c"), None);
}

#[test]
fn nested_sequences_need_a_uuid() {
    let with_id = producer("tractor", &[("kdenlive:uuid", "{67e55044-10b1-426f-9247-bb680e5fe0c8}")]);
    assert_eq!(
        producer_source(&with_id, "/project", 1920, 1080, Ok(None)),
        Ok(SourcePlan::FoldedSequence { sequence_id: 0x67e5504410b1426f9247bb680e5fe0c8 })
    );
    let bad_id = producer("tractor", &[("kdenlive:uuid", "{abc}")]);
    assert!(producer_source(&bad_id, "/project", 1920, 1080, Ok(None)).is_err());
    let without = producer("tractor", &[("resource", "x.mp4")]);
    assert_eq!(producer_source(&without, "/project", 1920, 1080, Ok(None)), Err("nested sequence has no UUID".to_string()));
}

#[test]
fn color_producers_need_a_color() {
    let color = producer("producer", &[("mlt_service", "colour"), ("resource", "0xff0000ff")]);
    assert_eq!(
        producer_source(&color, "/project", 1920, 1080, Ok(None)),
        Ok(SourcePlan::SolidColor { color: Rgba { red: 255, green: 0, blue: 0, alpha: 255 } })
    );
    let short = producer("producer", &[("mlt_service", "color"), ("resource", "0xff00")]);
    assert_eq!(
        producer_source(&short, "/project", 1920, 1080, Ok(None)),
        Err("MLT color must contain RGBA bytes".to_string())
    );
    let blank = producer("producer", &[("mlt_service", "color")]);
    assert_eq!(producer_source(&blank, "/project", 1920, 1080, Ok(None)), Err("color producer has no color".to_string()));
}

#[test]
fn media_producers_need_a_resource() {
    let empty = producer("producer", &[("mlt_service", "avformat")]);
    assert_eq!(producer_source(&empty, "/project", 1920, 1080, Ok(None)), Err("media producer has no resource".to_string()));
}

#[test]
fn media_producers_read_speed_size_and_streams() {
    let clip = producer(
        "producer",
        &[
            ("mlt_service", "timewarp"),
            ("resource", "ignored.mp4"),
            ("warp_resource", "clips/Holiday.MOV"),
            ("warp_speed", "-2"),
            ("warp_pitch", "1"),
            ("meta.media.width", "wide"),
            ("meta.media.0.codec.width", "1280"),
            ("meta.media.height", "720"),
            ("vstream", "1"),
            ("astream", "x"),
        ],
    );
    assert_eq!(
        producer_source(&clip, "/project", 1920, 1080, Ok(None)),
        Ok(SourcePlan::Media(MediaPlan {
            resource: "clips/Holiday.MOV".to_string(),
            path: "/project/clips/Holiday.MOV".to_string(),
            content: MediaContent::Media,
            speed: "-2".to_string(),
            pitch_preserved: true,
            width: 1280,
            height: 720,
            video_stream: 1,
            audio_stream: 0,
        }))
    );
    let still = producer(
        "producer",
        &[("mlt_service", "qimage"), ("kdenlive:originalurl", "/art/Cover.PNG"), ("warp_speed", "3")],
    );
    assert_eq!(
        producer_source(&still, "/project", 1920, 1080, Ok(None)),
        Ok(SourcePlan::Media(MediaPlan {
            resource: "/art/Cover.PNG".to_string(),
            path: "/art/Cover.PNG".to_string(),
            content: MediaContent::Image,
            speed: "1".to_string(),
            pitch_preserved: false,
            width: 1920,
            height: 1080,
            video_stream: 0,
            audio_stream: 0,
        }))
    );
}

#[test]
fn extensions_choose_the_content() {
    assert_eq!(media_content("jpeg"), MediaContent::Image);
    assert_eq!(media_content("TIF"), MediaContent::Image);
    assert_eq!(media_content("gif"), MediaContent::Gif);
    assert_eq!(media_content("Svg"), MediaContent::Svg);
    assert_eq!(media_content("pdf"), MediaContent::Pdf);
    assert_eq!(media_content("kra"), MediaContent::LayeredImage);
    assert_eq!(media_content("PSD"), MediaContent::LayeredImage);
    assert_eq!(media_content("mkv"), MediaContent::Media);
    assert_eq!(media_content(""), MediaContent::Media);
}

#[test]
fn duration_is_the_length_else_out_plus_one() {
    assert_eq!(
        source_timing(Some(Ok(100)), Some(Ok(49)), None, false),
        Ok(SourceTiming { duration_frames: Some(100), reverse_origin_frame: None })
    );
    assert_eq!(
        source_timing(None, Some(Ok(49)), None, false),
        Ok(SourceTiming { duration_frames: Some(50), reverse_origin_frame: None })
    );
    assert_eq!(source_timing(None, None, None, false), Ok(SourceTiming { duration_frames: None, reverse_origin_frame: None }));
    assert_eq!(
        source_timing(None, Some(Ok(i64::MAX)), None, false),
        Err("producer duration overflowed".to_string())
    );
    assert_eq!(
        source_timing(Some(Err("bad length".to_string())), Some(Err("bad out".to_string())), None, false),
        Err("bad length".to_string())
    );
}

#[test]
fn reversed_sources_start_at_in_plus_out() {
    assert_eq!(
        source_timing(Some(Ok(100)), Some(Ok(49)), Some(Ok(10)), true),
        Ok(SourceTiming { duration_frames: Some(100), reverse_origin_frame: Some(59) })
    );
    assert_eq!(
        source_timing(Some(Ok(100)), None, None, true),
        Ok(SourceTiming { duration_frames: Some(100), reverse_origin_frame: Some(99) })
    );
    assert_eq!(
        source_timing(None, None, Some(Ok(3)), true),
        Err("reverse timewarp producer has no out or length".to_string())
    );
    assert_eq!(
        source_timing(None, Some(Ok(5)), Some(Ok(i64::MAX)), true),
        Err("reverse clip origin overflowed".to_string())
    );
    assert_eq!(
        source_timing(None, Some(Ok(5)), Some(Err("bad in".to_string())), true),
        Err("bad in".to_string())
    );
    assert_eq!(
        source_timing(None, Some(Ok(5)), Some(Err("bad in".to_string())), false),
        Ok(SourceTiming { duration_frames: Some(6), reverse_origin_frame: None })
    );
}

#[test]
fn a_sequence_inside_itself_is_a_cycle() {
    let mut visiting: Vec<u128> = Vec::new();
    assert_eq!(enter_sequence(&mut visiting, 7), Ok(()));
    assert_eq!(enter_sequence(&mut visiting, 9), Ok(()));
    assert_eq!(visiting, vec![7, 9]);
    assert_eq!(enter_sequence(&mut visiting, 7), Err("cyclic Kdenlive sequence references".to_string()));
    assert_eq!(visiting, vec![7, 9]);
    leave_sequence(&mut visiting, 9);
    assert_eq!(visiting, vec![7]);
    assert_eq!(enter_sequence(&mut visiting, 9), Ok(()));
    leave_sequence(&mut visiting, 42);
    assert_eq!(visiting, vec![7, 9]);
}

fn defaults() -> ProjectDefaults {
    ProjectDefaults { width: 1920, height: 1080, fps: FrameRate { numerator: 30, denominator: 1 } }
}

fn supported() -> Vec<FrameRate> {
    vec![
        FrameRate { numerator: 24, denominator: 1 },
        FrameRate { numerator: 30000, denominator: 1001 },
        FrameRate { numerator: 30, denominator: 1 },
    ]
}

#[test]
fn new_projects_take_defaults_and_a_trimmed_name() {
    assert_eq!(
        new_project_settings(true, None, None, None, None, defaults(), &supported()),
        Ok(NewProject {
            name: "Untitled Project".to_string(),
            width: 1920,
            height: 1080,
            fps: FrameRate { numerator: 30, denominator: 1 },
        })
    );
    assert_eq!(
        new_project_settings(
            true,
            Some("  Trip  "),
            Some(640),
            Some(MAX_CANVAS_DIMENSION),
            Some(FrameRate { numerator: 48, denominator: 2 }),
            defaults(),
            &supported()
        ),
        Ok(NewProject {
            name: "Trip".to_string(),
            width: 640,
            height: 16_384,
            fps: FrameRate { numerator: 48, denominator: 2 },
        })
    );
}

#[test]
fn new_project_errors_come_in_order() {
    let s = supported();
    assert_eq!(
        new_project_settings(false, Some(" "), Some(0), None, None, defaults(), &s),
        Err("project_path must be an absolute path".to_string())
    );
    assert_eq!(
        new_project_settings(true, Some(" \t"), Some(0), None, None, defaults(), &s),
        Err("name must not be empty".to_string())
    );
    assert_eq!(
        new_project_settings(true, Some("a"), Some(0), None, None, defaults(), &s),
        Err("width and height must be between 1 and 16384".to_string())
    );
    assert_eq!(
        new_project_settings(true, Some("a"), None, Some(16_385), None, defaults(), &s),
        Err("width and height must be between 1 and 16384".to_string())
    );
    assert_eq!(
        new_project_settings(true, Some("a"), None, None, Some(FrameRate { numerator: 0, denominator: 1 }), defaults(), &s),
        Err("fps numerator and denominator must be positive".to_string())
    );
    assert_eq!(
        new_project_settings(true, Some("a"), None, None, Some(FrameRate { numerator: 25, denominator: 1 }), defaults(), &s),
        Err("fps must match one of Shrimply's supported frame rates".to_string())
    );
}

#[test]
fn generators_come_from_the_service() {
    let bars = producer("producer", &[("mlt_service", "frei0r.test_pat_B")]);
    assert_eq!(classify_generator(&bars, None, None), Ok(Some(GeneratorSource::ColorBars)));
    let mut noise = producer("producer", &[]);
    noise.attributes = pairs(&[("mlt_service", "noise")]);
    assert_eq!(classify_generator(&noise, None, None), Ok(Some(GeneratorSource::WhiteNoise)));
    let media = producer("producer", &[("mlt_service", "avformat")]);
    assert_eq!(classify_generator(&media, Some(Err("unread".to_string())), None), Ok(None));
}

#[test]
fn counters_read_their_settings() {
    let plain = producer("producer", &[("mlt_service", "count")]);
    assert_eq!(
        classify_generator(&plain, Some(Ok(250)), None),
        Ok(Some(GeneratorSource::Counter {
            counter: CounterGenerator {
                direction: CounterDirection::Down,
                length: 250,
                style: CounterStyle::SecondsPlusOne,
                drop_frame: false,
            },
            sound: CounterSound::Silent,
            clock_background: true,
        }))
    );
    let set = producer(
        "producer",
        &[
            ("mlt_service", "count"),
            ("direction", "up"),
            ("style", "timecode"),
            ("sound", "2pop"),
            ("background", "none"),
            ("drop", "-1"),
        ],
    );
    assert_eq!(
        classify_generator(&set, None, Some(Ok(99))),
        Ok(Some(GeneratorSource::Counter {
            counter: CounterGenerator {
                direction: CounterDirection::Up,
                length: 100,
                style: CounterStyle::Timecode,
                drop_frame: true,
            },
            sound: CounterSound::TwoPop,
            clock_background: false,
        }))
    );
}

#[test]
fn counters_need_a_positive_duration() {
    let counter = producer("producer", &[("mlt_service", "count")]);
    assert_eq!(classify_generator(&counter, None, None), Err("counter generator has no duration".to_string()));
    assert_eq!(
        classify_generator(&counter, None, Some(Err("bad out".to_string()))),
        Err("counter generator has no duration".to_string())
    );
    assert_eq!(
        classify_generator(&counter, None, Some(Ok(i64::MAX))),
        Err("counter generator has no duration".to_string())
    );
    assert_eq!(
        classify_generator(&counter, Some(Err("bad length".to_string())), Some(Ok(5))),
        Err("bad length".to_string())
    );
    assert_eq!(
        classify_generator(&counter, Some(Ok(0)), None),
        Err("counter generator duration is not positive".to_string())
    );
}

#[test]
fn mlt_files_hold_generators() {
    let file = producer("producer", &[("mlt_service", "xml"), ("resource", "xml:gen/bars.MLT")]);
    assert_eq!(generator_file(&file, "/project"), Some("/project/gen/bars.MLT".to_string()));
    let consumer = producer("producer", &[("mlt_service", "consumer"), ("resource", "consumer:a.mlt")]);
    assert_eq!(generator_file(&consumer, "/project"), Some("/project/a.mlt".to_string()));
    let plain = producer("producer", &[("mlt_service", "xml"), ("resource", "a.mlt")]);
    assert_eq!(generator_file(&plain, "/project"), Some("/project/a.mlt".to_string()));
    let video = producer("producer", &[("mlt_service", "xml"), ("resource", "a.mp4")]);
    assert_eq!(generator_file(&video, "/project"), None);
    let other = producer("producer", &[("mlt_service", "avformat"), ("resource", "a.mlt")]);
    assert_eq!(generator_file(&other, "/project"), None);
}

#[test]
fn generators_come_before_the_resource_check() {
    let counter = producer("producer", &[("mlt_service", "count")]);
    assert_eq!(
        producer_source(&counter, "/project", 1920, 1080, Ok(Some(GeneratorSource::WhiteNoise))),
        Ok(SourcePlan::Generator(GeneratorSource::WhiteNoise))
    );
    assert_eq!(
        producer_source(&counter, "/project", 1920, 1080, Err("counter generator has no duration".to_string())),
        Err("counter generator has no duration".to_string())
    );
    let color = producer("producer", &[("mlt_service", "color"), ("resource", "red")]);
    assert_eq!(
        producer_source(&color, "/project", 1920, 1080, Err("ignored".to_string())),
        Err("MLT color must contain RGBA bytes".to_string())
    );
}

#[test]
fn element_durations_come_from_length_or_in_and_out() {
    assert_eq!(element_duration(Some(Ok(40)), Err("unread".to_string()), None), Ok(40));
    assert_eq!(element_duration(Some(Err("bad length".to_string())), Ok(0), Some(Ok(9))), Err("bad length".to_string()));
    assert_eq!(element_duration(None, Ok(10), Some(Ok(19))), Ok(10));
    assert_eq!(element_duration(None, Ok(0), None), Err("timeline element has no out point".to_string()));
    assert_eq!(element_duration(None, Err("bad in".to_string()), None), Err("bad in".to_string()));
    assert_eq!(element_duration(None, Ok(0), Some(Err("bad out".to_string()))), Err("bad out".to_string()));
}

#[test]
fn plain_frame_numbers_are_read_here() {
    assert_eq!(frame_number("120"), Some(Ok(120)));
    assert_eq!(frame_number("-3"), Some(Ok(-3)));
    assert_eq!(frame_number("00:00:01.000"), None);
    assert_eq!(frame_number(""), Some(Err("invalid animation frame: cannot parse integer from empty string".to_string())));
    assert_eq!(frame_number("1.5"), Some(Err("invalid animation frame: invalid digit found in string".to_string())));
    assert_eq!(
        frame_number("99999999999999999999"),
        Some(Err("invalid animation frame: number too large to fit in target type".to_string()))
    );
}

#[test]
fn mlt_colors_are_four_hex_bytes() {
    let rgba = |red, green, blue, alpha| Rgba { red, green, blue, alpha };
    assert_eq!(parse_mlt_color(" 0x0a0B0cFF "), Ok(rgba(10, 11, 12, 255)));
    assert_eq!(parse_mlt_color("#80808080"), Ok(rgba(128, 128, 128, 128)));
    assert_eq!(parse_mlt_color("0x0x#ffffffff"), Ok(rgba(255, 255, 255, 255)));
    assert_eq!(parse_mlt_color("+f0000ff"), Ok(rgba(15, 0, 0, 255)));
    assert_eq!(parse_mlt_color("0xff"), Err("MLT color must contain RGBA bytes".to_string()));
    assert_eq!(parse_mlt_color("0xgg0000ff"), Err("invalid digit found in string".to_string()));
    assert_eq!(parse_mlt_color("-1000000"), Err("invalid digit found in string".to_string()));
    assert_eq!(parse_mlt_color("\u{e9}\u{e9}\u{e9}\u{e9}"), Err("invalid digit found in string".to_string()));
}

#[test]
fn uuids_lose_their_braces() {
    assert_eq!(braces_trimmed("{{abc}}"), "abc");
    assert_eq!(braces_trimmed("}{"), "");
    assert_eq!(parse_uuid("{67e55044-10b1-426f-9247-bb680e5fe0c8}"), Ok(0x67e5504410b1426f9247bb680e5fe0c8));
    assert_eq!(parse_uuid("67e5504410b1426f9247bb680e5fe0c8"), Ok(0x67e5504410b1426f9247bb680e5fe0c8));
    assert!(parse_uuid("{not-a-uuid}").is_err());
}
