use vstd::prelude::*;

verus! {

/// What a paste of copied properties or modifiers changed.
#[derive(Clone, Copy, Debug, PartialEq, Eq, Structural)]
pub struct PasteResult {
    pub changed: bool,
    pub changed_items: usize,
    pub modifiers_added: usize,
    pub video: bool,
    pub audio: bool,
    pub audio_waveforms: bool,
    pub audio_beats: bool,
    pub stabilization: bool,
}

impl Default for PasteResult {
    /// Nothing changed.
    fn default() -> (result: PasteResult)
        ensures
            result == (PasteResult {
                changed: false,
                changed_items: 0,
                modifiers_added: 0,
                video: false,
                audio: false,
                audio_waveforms: false,
                audio_beats: false,
                stabilization: false,
            }),
    {
        PasteResult {
            changed: false,
            changed_items: 0,
            modifiers_added: 0,
            video: false,
            audio: false,
            audio_waveforms: false,
            audio_beats: false,
            stabilization: false,
        }
    }
}

} // verus!
