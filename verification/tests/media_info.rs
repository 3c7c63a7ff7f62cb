use shrimply_model::media_info::{
    format_bytes, format_rate, format_ratio, format_time, number_of, primary_artwork,
    stream_sources, ExactRatio, ExactTime, MediaInfoGroup, SourceMetadata,
};

#[test]
fn numbers_with_and_without_total() {
    assert_eq!(number_of(3, None), "3");
    assert_eq!(number_of(3, Some(12)), "3 of 12");
    assert_eq!(number_of(0, Some(0)), "0 of 0");
}

#[test]
fn rates_use_decimal_units_with_one_truncated_digit() {
    assert_eq!(format_rate(-5), "0 b/s");
    assert_eq!(format_rate(999), "999 b/s");
    assert_eq!(format_rate(1_000), "1.0 kb/s");
    assert_eq!(format_rate(128_999), "128.9 kb/s");
    assert_eq!(format_rate(5_250_000), "5.2 Mb/s");
    assert_eq!(format_rate(3_000_000_000), "3.0 Gb/s");
    assert_eq!(format_rate(i64::MAX), "9223372036.8 Gb/s");
}

#[test]
fn sizes_use_binary_units_with_one_truncated_digit() {
    assert_eq!(format_bytes(0), "0 B");
    assert_eq!(format_bytes(1023), "1023 B");
    assert_eq!(format_bytes(1024), "1.0 KiB");
    assert_eq!(format_bytes(1536), "1.5 KiB");
    assert_eq!(format_bytes(5 * 1024 * 1024 + 1), "5.0 MiB");
    assert_eq!(format_bytes(3 * 1024 * 1024 * 1024 / 2), "1.5 GiB");
    assert_eq!(format_bytes(u64::MAX), "17179869183.9 GiB");
}

#[test]
fn ratios_and_times() {
    assert_eq!(format_ratio(ExactRatio { numerator: 25, denominator: 1 }), "25");
    assert_eq!(format_ratio(ExactRatio { numerator: 30000, denominator: 1001 }), "30000/1001");
    assert_eq!(format_ratio(ExactRatio { numerator: -3, denominator: 2 }), "-3/2");
    assert_eq!(
        format_time(ExactTime { value: 90, time_base: ExactRatio { numerator: 1, denominator: 90000 } }),
        "90 × 1/90000 s"
    );
    assert_eq!(
        format_time(ExactTime { value: -2, time_base: ExactRatio { numerator: 1, denominator: 1 } }),
        "-2 × 1 s"
    );
}

#[test]
fn streams_are_numbered_per_kind() {
    let kinds: Vec<String> =
        ["video", "audio", "subtitle", "audio", "video"].iter().map(|s| s.to_string()).collect();
    assert_eq!(stream_sources(&kinds), vec![
        SourceMetadata::Video(0),
        SourceMetadata::Audio(0),
        SourceMetadata::NoStream,
        SourceMetadata::Audio(1),
        SourceMetadata::Video(1),
    ]);
}

#[test]
fn front_cover_is_preferred() {
    let types = |v: &[&str]| v.iter().map(|s| s.to_string()).collect::<Vec<_>>();
    assert_eq!(primary_artwork(&types(&[])), None);
    assert_eq!(primary_artwork(&types(&["Other", "CoverFront", "CoverFront"])), Some(1));
    assert_eq!(primary_artwork(&types(&["Other", "CoverBack"])), Some(0));
}

#[test]
fn selected_group_title() {
    let mut group = MediaInfoGroup::for_stream("Video stream".to_string(), SourceMetadata::Video(0));
    group.add("Codec".to_string(), "h264".to_string());
    assert_eq!(group.rows.len(), 1);
    assert_eq!(group.display_title(SourceMetadata::Video(0)), "Video stream · Selected");
    assert_eq!(group.display_title(SourceMetadata::Video(1)), "Video stream");
    let plain = MediaInfoGroup::new("File".to_string());
    assert_eq!(plain.display_title(SourceMetadata::NoStream), "File");
    let none = MediaInfoGroup::for_stream("Data".to_string(), SourceMetadata::NoStream);
    assert_eq!(none.display_title(SourceMetadata::NoStream), "Data");
}
