//! Converts a monophonic audio stream into harmonica-tablature symbols for a
//! chosen instrument key: fixed-size frames are assembled from raw samples,
//! each frame yields an optional fundamental frequency by autocorrelation,
//! the frequency is quantized to a MIDI note and mapped to a key-relative
//! tablature symbol, and a debouncing state machine turns the noisy per-frame
//! symbols into stable emitted note events.
//!
//! Samples are fixed-point integers: the surrounding application scales its
//! unit-range samples by a power of two before handing them in, which leaves
//! every step of the pipeline exact integer arithmetic.

use vstd::prelude::*;

mod bignum;
mod debounce;
mod frame;
mod pitch;
mod quantize;
mod tab;
mod text;

pub use debounce::DebounceModel;
pub use debounce::DebounceState;
pub use debounce::NoteDebouncer;
pub use debounce::StepOutput;
pub use debounce::handle_note;
pub use debounce::lemma_debounce_single_emission;
pub use debounce::lemma_line_wrap;
pub use debounce::spec_emissions_in_run;
pub use debounce::spec_run_same;
pub use frame::FrameAssembler;
pub use pitch::MAX_FRAME_LEN;
pub use pitch::PitchEstimate;
pub use pitch::autocorrelation;
pub use pitch::estimate;
pub use pitch::find_peaks;
pub use pitch::spec_autocorr;
pub use pitch::spec_best_idx;
pub use pitch::spec_estimate;
pub use pitch::spec_is_peak;
pub use pitch::spec_peaks;
pub use pitch::spec_sum_abs;
pub use quantize::freq_to_midi;
pub use quantize::spec_below_half_step;
pub use quantize::spec_freq_to_midi;
pub use tab::Key;
pub use tab::lemma_key_offset_consistency;
pub use tab::midi_to_tab;
pub use tab::spec_key_from_name;
pub use tab::spec_midi_to_tab;
pub use tab::spec_tab_entry;

verus! {

/// The tablature symbol one frame stands for: the empty symbol for a silent
/// or ambiguous frame, and otherwise the estimated frequency's MIDI note
/// mapped through the key's table.
pub open spec fn spec_buffer_note(
    s: Seq<i32>,
    min_volume: int,
    sample_rate: u32,
    key: Key,
) -> Seq<char> {
    match spec_estimate(s, min_volume, sample_rate) {
        Option::None => Seq::empty(),
        Option::Some(e) => spec_midi_to_tab(
            spec_freq_to_midi(e.sample_rate as int, e.lag as int),
            key,
        ),
    }
}

/// Turn one frame into its tablature symbol under the given key. Silence
/// (summed absolute amplitude at or below `min_volume`) and ambiguous frames
/// yield the empty symbol.
pub fn get_buffer_note(frame: &Vec<i32>, min_volume: u64, sample_rate: u32, key: Key) -> (r:
    &'static str)
    requires
        frame@.len() <= MAX_FRAME_LEN,
        sample_rate >= 1,
    ensures
        r@ == spec_buffer_note(frame@, min_volume as int, sample_rate, key),
{
    match estimate(frame, min_volume, sample_rate) {
        None => {
            proof {
                reveal_strlit("");
                assert(""@ =~= Seq::<char>::empty());
            }
            ""
        },
        Some(e) => {
            let midi = freq_to_midi(e.sample_rate, e.lag);
            midi_to_tab(midi, key)
        },
    }
}

} // verus!
