use vstd::prelude::*;

verus! {

/// Interleaved channels in an exported file.
pub const CHANNELS: usize = 2;

/// The sample rate of an exported file, in frames per second.
pub const SAMPLE_RATE: u32 = 48_000;

/// The bit rate used by the lossy formats, in bits per second.
pub const LOSSY_BIT_RATE: usize = 192_000;

/// The encoder frame size used when the encoder reports none.
pub const DEFAULT_FRAME_SIZE: usize = 1024;

/// The audio file formats a project can be exported to.
#[derive(Clone, Copy, Debug, PartialEq, Eq, Structural)]
pub enum Format {
    Wav,
    Flac,
    Mp3,
    Ogg,
    Opus,
}

/// How far an export has got.
#[derive(Clone, Copy, Debug, PartialEq, Eq, Structural)]
pub enum ExportProgress {
    Mixing { completed_frames: u64, total_frames: u64 },
    Encoding { completed_frames: u64, total_frames: u64 },
}

/// The sample layout an encoder is fed.
#[derive(Clone, Copy, Debug, PartialEq, Eq, Structural)]
pub enum SampleLayout {
    /// 16-bit integers, channels interleaved.
    I16Packed,
    /// 32-bit floats, one plane per channel.
    F32Planar,
    /// 32-bit floats, channels interleaved.
    F32Packed,
}

/// The format chosen at each position of the export dialog's format list.
pub open spec fn format_at(index: u32) -> Format {
    if index == 1 {
        Format::Flac
    } else if index == 2 {
        Format::Mp3
    } else if index == 3 {
        Format::Ogg
    } else if index == 4 {
        Format::Opus
    } else {
        Format::Wav
    }
}

/// The file name extension of each format.
pub open spec fn extension_of(format: Format) -> Seq<char> {
    match format {
        Format::Wav => "wav"@,
        Format::Flac => "flac"@,
        Format::Mp3 => "mp3"@,
        Format::Ogg => "ogg"@,
        Format::Opus => "opus"@,
    }
}

/// The FFmpeg encoder for each format.
pub open spec fn encoder_of(format: Format) -> Seq<char> {
    match format {
        Format::Wav => "pcm_s16le"@,
        Format::Flac => "flac"@,
        Format::Mp3 => "libmp3lame"@,
        Format::Ogg => "libvorbis"@,
        Format::Opus => "libopus"@,
    }
}

/// The sample layout each format's encoder is fed.
pub open spec fn layout_of(format: Format) -> SampleLayout {
    match format {
        Format::Wav | Format::Flac => SampleLayout::I16Packed,
        Format::Mp3 | Format::Ogg => SampleLayout::F32Planar,
        Format::Opus => SampleLayout::F32Packed,
    }
}

impl Format {
    /// The format at a position of the format list; unknown positions are WAV.
    pub fn from_index(index: u32) -> (format: Format)
        ensures
            format == format_at(index),
    {
        if index == 1 {
            Format::Flac
        } else if index == 2 {
            Format::Mp3
        } else if index == 3 {
            Format::Ogg
        } else if index == 4 {
            Format::Opus
        } else {
            Format::Wav
        }
    }

    /// The position of the format in the format list.
    pub fn index(self) -> (index: u32)
        ensures
            format_at(index) == self,
            index < 5,
    {
        match self {
            Format::Wav => 0,
            Format::Flac => 1,
            Format::Mp3 => 2,
            Format::Ogg => 3,
            Format::Opus => 4,
        }
    }

    /// The file name extension.
    pub fn extension(self) -> (extension: &'static str)
        ensures
            extension@ == extension_of(self),
    {
        match self {
            Format::Wav => "wav",
            Format::Flac => "flac",
            Format::Mp3 => "mp3",
            Format::Ogg => "ogg",
            Format::Opus => "opus",
        }
    }

    /// The name of the FFmpeg encoder that writes the format.
    pub fn encoder_name(self) -> (name: &'static str)
        ensures
            name@ == encoder_of(self),
    {
        match self {
            Format::Wav => "pcm_s16le",
            Format::Flac => "flac",
            Format::Mp3 => "libmp3lame",
            Format::Ogg => "libvorbis",
            Format::Opus => "libopus",
        }
    }

    /// The sample layout the encoder is fed.
    pub fn sample_layout(self) -> (layout: SampleLayout)
        ensures
            layout == layout_of(self),
    {
        match self {
            Format::Wav | Format::Flac => SampleLayout::I16Packed,
            Format::Mp3 | Format::Ogg => SampleLayout::F32Planar,
            Format::Opus => SampleLayout::F32Packed,
        }
    }

    /// The bit rate to set on the encoder: lossy formats only.
    pub fn bit_rate(self) -> (rate: Option<usize>)
        ensures
            rate == (match self {
                Format::Mp3 | Format::Ogg | Format::Opus => Some(LOSSY_BIT_RATE),
                Format::Wav | Format::Flac => None::<usize>,
            }),
    {
        match self {
            Format::Mp3 | Format::Ogg | Format::Opus => Some(LOSSY_BIT_RATE),
            Format::Wav | Format::Flac => None,
        }
    }
}

/// The frames per encoder call: the encoder's own frame size when it reports a
/// positive one, else the default.
pub fn encoder_frame_size(reported: i32) -> (size: usize)
    ensures
        size == (if reported > 0 { reported as usize } else { DEFAULT_FRAME_SIZE }),
        size > 0,
{
    if reported > 0 {
        reported as usize
    } else {
        DEFAULT_FRAME_SIZE
    }
}

/// Whether there is anything to export.
pub fn check_duration(total_frames: u64) -> (result: Result<(), String>)
    ensures
        result is Ok <==> total_frames > 0,
        result matches Err(message) ==> message@ == "The selected audio has no duration."@,
{
    if total_frames == 0 {
        Err("The selected audio has no duration.".to_owned())
    } else {
        Ok(())
    }
}

/// The encoding loop: which frames go into each encoder call.
#[derive(Clone, Copy, Debug)]
pub struct EncodePlan {
    pub total_frames: usize,
    pub frame_size: usize,
    pub offset: usize,
    pub pts: i64,
}

/// One encoder call: how many frames of the mix it carries and its timestamp.
#[derive(Clone, Copy, Debug, PartialEq, Eq, Structural)]
pub struct EncodeChunk {
    pub offset: usize,
    pub frames: usize,
    pub pts: i64,
}

impl EncodePlan {
    /// The plan is consistent: the offset is the number of calls so far times
    /// the frame size, capped at the total, and the timestamp counts whole frames.
    pub open spec fn well_formed(&self) -> bool {
        &&& self.frame_size > 0
        &&& self.offset <= self.total_frames
        &&& self.offset < self.total_frames ==> self.offset % self.frame_size == 0
        &&& self.offset < self.total_frames ==> self.pts == self.offset
    }

    /// A plan for encoding `total_frames` frames, `frame_size` at a time.
    pub fn new(total_frames: usize, frame_size: usize) -> (plan: EncodePlan)
        requires
            frame_size > 0,
            total_frames <= i64::MAX,
        ensures
            plan.well_formed(),
            plan.total_frames == total_frames,
            plan.frame_size == frame_size,
            plan.offset == 0,
            plan.pts == 0,
    {
        EncodePlan { total_frames, frame_size, offset: 0, pts: 0 }
    }

    /// The next encoder call, or `None` when every frame has been sent. Each
    /// call carries a full frame of audio except the last, which carries what
    /// remains; its timestamp is its first frame.
    pub fn next_chunk(&mut self) -> (chunk: Option<EncodeChunk>)
        requires
            old(self).well_formed(),
            old(self).total_frames <= i64::MAX,
        ensures
            final(self).well_formed(),
            final(self).total_frames == old(self).total_frames,
            final(self).frame_size == old(self).frame_size,
            old(self).offset == old(self).total_frames ==> chunk is None && *final(self)
                == *old(self),
            old(self).offset < old(self).total_frames ==> (chunk matches Some(c) && {
                &&& c.offset == old(self).offset
                &&& c.pts == old(self).pts
                &&& c.frames == (if old(self).frame_size <= old(self).total_frames
                    - old(self).offset {
                    old(self).frame_size as int
                } else {
                    old(self).total_frames - old(self).offset
                })
                &&& final(self).offset == old(self).offset + c.frames
            }),
    {
        if self.offset >= self.total_frames {
            return None;
        }
        let remaining = self.total_frames - self.offset;
        let frames = if self.frame_size <= remaining { self.frame_size } else { remaining };
        let chunk = EncodeChunk { offset: self.offset, frames, pts: self.pts };
        self.offset = self.offset + frames;
        if self.offset < self.total_frames {
            proof {
                assert(frames == self.frame_size);
                assert((chunk.offset + self.frame_size) % (self.frame_size as int) == 0) by {
                    vstd::arithmetic::div_mod::lemma_mod_adds(
                        chunk.offset as int,
                        self.frame_size as int,
                        self.frame_size as int,
                    );
                    vstd::arithmetic::div_mod::lemma_mod_self_0(self.frame_size as int);
                }
            }
            self.pts = self.pts + (self.frame_size as i64);
        }
        Some(chunk)
    }
}

impl EncodePlan {
    /// The encoding loop's next step, given whether the last progress report
    /// asked to go on: a refusal cancels the export; otherwise the next chunk
    /// is encoded, or, when none is left, the encoder is finished (`None`).
    pub fn step(&mut self, keep_going: bool) -> (step: Result<Option<EncodeChunk>, String>)
        requires
            old(self).well_formed(),
            old(self).total_frames <= i64::MAX,
        ensures
            final(self).well_formed(),
            final(self).total_frames == old(self).total_frames,
            final(self).frame_size == old(self).frame_size,
            !keep_going ==> (step matches Err(message) && message@ == "Export cancelled"@) && *final(self)
                == *old(self),
            keep_going && old(self).offset == old(self).total_frames ==> step == Ok::<
                Option<EncodeChunk>,
                String,
            >(None) && *final(self) == *old(self),
            keep_going && old(self).offset < old(self).total_frames ==> (step matches Ok(Some(c)) && {
                &&& c.offset == old(self).offset
                &&& c.pts == old(self).pts
                &&& c.frames == (if old(self).frame_size <= old(self).total_frames
                    - old(self).offset {
                    old(self).frame_size as int
                } else {
                    old(self).total_frames - old(self).offset
                })
                &&& final(self).offset == old(self).offset + c.frames
            }),
    {
        if !keep_going {
            return Err("Export cancelled".to_owned());
        }
        Ok(self.next_chunk())
    }
}

/// The progress reported after a call: how many frames have been encoded.
pub fn encoding_progress(completed_frames: u64, total_frames: u64) -> (progress: ExportProgress)
    ensures
        progress == (ExportProgress::Encoding { completed_frames, total_frames }),
{
    ExportProgress::Encoding { completed_frames, total_frames }
}

proof fn lemma_encoder_names_differ(a: Seq<char>, b: Seq<char>, i: int)
    requires
        0 <= i < a.len(),
        i < b.len(),
        a[i] != b[i],
    ensures
        a != b,
{
}

/// Each format's samples are laid out as its encoder takes them: the MP3
/// and Vorbis encoders (libmp3lame, libvorbis) take planar 32-bit floats,
/// the Opus encoder takes interleaved 32-bit floats, and the PCM and FLAC
/// encoders take interleaved 16-bit integers; and each file extension goes
/// with its encoder.
pub proof fn law_layout_follows_encoder(format: Format)
    ensures
        layout_of(format) == SampleLayout::F32Planar <==> (encoder_of(format) == "libmp3lame"@
            || encoder_of(format) == "libvorbis"@),
        layout_of(format) == SampleLayout::F32Packed <==> encoder_of(format) == "libopus"@,
        layout_of(format) == SampleLayout::I16Packed <==> (encoder_of(format) == "pcm_s16le"@
            || encoder_of(format) == "flac"@),
        extension_of(format) == "ogg"@ <==> encoder_of(format) == "libvorbis"@,
        extension_of(format) == "mp3"@ <==> encoder_of(format) == "libmp3lame"@,
        extension_of(format) == "opus"@ <==> encoder_of(format) == "libopus"@,
        extension_of(format) == "wav"@ <==> encoder_of(format) == "pcm_s16le"@,
        extension_of(format) == "flac"@ <==> encoder_of(format) == "flac"@,
{
    reveal_strlit("libmp3lame");
    reveal_strlit("libvorbis");
    reveal_strlit("libopus");
    reveal_strlit("pcm_s16le");
    reveal_strlit("flac");
    reveal_strlit("ogg");
    reveal_strlit("mp3");
    reveal_strlit("opus");
    reveal_strlit("wav");
    lemma_encoder_names_differ("libvorbis"@, "pcm_s16le"@, 0);
    lemma_encoder_names_differ("ogg"@, "mp3"@, 0);
    lemma_encoder_names_differ("ogg"@, "wav"@, 0);
    lemma_encoder_names_differ("mp3"@, "wav"@, 0);
    lemma_encoder_names_differ("opus"@, "flac"@, 0);
    assert("libmp3lame"@.len() == 10 && "libvorbis"@.len() == 9 && "libopus"@.len() == 7 && "flac"@.len() == 4);
    match format {
        Format::Wav => {},
        Format::Flac => {},
        Format::Mp3 => {},
        Format::Ogg => {},
        Format::Opus => {},
    }
}

} // verus!
