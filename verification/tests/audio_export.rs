use shrimply_model::audio_export::{
    check_duration, encoder_frame_size, encoding_progress, EncodePlan, ExportProgress, Format,
    SampleLayout, DEFAULT_FRAME_SIZE, LOSSY_BIT_RATE,
};

#[test]
fn formats_by_index_with_extension_and_encoder() {
    let expected = [
        (Format::Wav, "wav", "pcm_s16le"),
        (Format::Flac, "flac", "flac"),
        (Format::Mp3, "mp3", "libmp3lame"),
        (Format::Ogg, "ogg", "libvorbis"),
        (Format::Opus, "opus", "libopus"),
    ];
    for (index, (format, extension, encoder)) in expected.iter().enumerate() {
        assert_eq!(Format::from_index(index as u32), *format);
        assert_eq!(format.index(), index as u32);
        assert_eq!(format.extension(), *extension);
        assert_eq!(format.encoder_name(), *encoder);
    }
    assert_eq!(Format::from_index(99), Format::Wav);
}

#[test]
fn lossy_formats_have_a_bit_rate() {
    assert_eq!(Format::Wav.bit_rate(), None);
    assert_eq!(Format::Flac.bit_rate(), None);
    assert_eq!(Format::Mp3.bit_rate(), Some(LOSSY_BIT_RATE));
    assert_eq!(Format::Opus.bit_rate(), Some(192_000));
    assert_eq!(Format::Wav.sample_layout(), SampleLayout::I16Packed);
}

#[test]
fn frame_size_falls_back_when_not_reported() {
    assert_eq!(encoder_frame_size(0), DEFAULT_FRAME_SIZE);
    assert_eq!(encoder_frame_size(-4), 1024);
    assert_eq!(encoder_frame_size(960), 960);
}

#[test]
fn empty_audio_is_refused() {
    assert_eq!(check_duration(0), Err("The selected audio has no duration.".to_string()));
    assert_eq!(check_duration(1), Ok(()));
}

#[test]
fn plan_splits_the_mix_into_frames() {
    let mut plan = EncodePlan::new(2500, 1024);
    let mut chunks = Vec::new();
    while let Some(chunk) = plan.next_chunk() {
        chunks.push((chunk.offset, chunk.frames, chunk.pts));
    }
    assert_eq!(chunks, vec![(0, 1024, 0), (1024, 1024, 1024), (2048, 452, 2048)]);
    assert!(plan.next_chunk().is_none());
}

#[test]
fn progress_reports_encoding() {
    assert_eq!(
        encoding_progress(5, 10),
        ExportProgress::Encoding { completed_frames: 5, total_frames: 10 }
    );
}

#[test]
fn refused_progress_cancels_the_export() {
    let mut plan = EncodePlan::new(2500, 1024);
    let mut answers = vec![true, true, false].into_iter();
    let mut encoded = Vec::new();
    let outcome = loop {
        match plan.step(answers.next().unwrap_or(true)) {
            Ok(Some(chunk)) => encoded.push(chunk.frames),
            Ok(None) => break Ok(()),
            Err(message) => break Err(message),
        }
    };
    assert_eq!(outcome, Err("Export cancelled".to_string()));
    assert_eq!(encoded, vec![1024, 1024]);
    assert_eq!(plan.offset, 2048);
    let mut all = EncodePlan::new(10, 4);
    let mut sizes = Vec::new();
    while let Ok(Some(chunk)) = all.step(true) {
        sizes.push(chunk.frames);
    }
    assert_eq!(sizes, vec![4, 4, 2]);
    assert_eq!(all.step(true), Ok(None));
}
