use sam::blend::{blend_boundaries, blend_window, finish, mk_frames, ramp};
use sam::bytes::{add8, sub8};
use sam::convert::convert_phonemes;
use sam::formants::{FormantTables, Params};
use sam::frames::{add_inflection, count_frames, expand_phonemes, FramesTables};
use sam::output::C64SoundBuffer;
use sam::phonemes::{Phonemes, SynthError};
use sam::render::{mk_wav, render, render_sample, WaveTables};
use sam::tables::{lookup, test_flag, test_flag2, FLAGS};
use sam::{synthesize, synthesize_phonetic, synthesize_phonetic_debug};

fn silent_waves() -> WaveTables {
    WaveTables { sine: [0; 256], rectangle: [0; 256], samples: [0; 1280] }
}

fn test_waves() -> WaveTables {
    let mut sine = [0i8; 256];
    let mut rectangle = [0u8; 256];
    let mut samples = [0u8; 1280];
    for i in 0..256 {
        sine[i] = if i < 128 { 64 } else { -64 };
        rectangle[i] = if i < 128 { 0x90 } else { 0x70 };
    }
    for i in 0..1280 {
        samples[i] = (i % 251) as u8;
    }
    WaveTables { sine, rectangle, samples }
}

fn buffer(ids: &[u8], lengths: &[u8], stress: &[u8]) -> Phonemes {
    Phonemes {
        stress: stress.to_vec(),
        phoneme_length: lengths.to_vec(),
        phoneme_index: ids.to_vec(),
    }
}

fn track(pitches: &[u8]) -> FramesTables {
    let n = pitches.len();
    FramesTables {
        pitches: pitches.to_vec(),
        frequency1: vec![0; n],
        frequency2: vec![0; n],
        frequency3: vec![0; n],
        amplitude1: vec![0; n],
        amplitude2: vec![0; n],
        amplitude3: vec![0; n],
        sampled_consonant_flag: vec![0; n],
    }
}

#[test]
fn simple() {
    let out = C64SoundBuffer::default();
    assert!(out.buffer.len() == 0);
}

#[test]
fn complete() {
    let samples = synthesize_phonetic("/HAALAOAO ", &test_waves()).unwrap();
    assert!(!samples.is_empty());
}

#[test]
fn complete_debug() {
    let info = synthesize_phonetic_debug("/HAALAOAO ", &test_waves()).unwrap();
    assert!(!info.buffer.is_empty());
    assert_eq!(info.buffer, synthesize_phonetic("/HAALAOAO ", &test_waves()).unwrap());
}

#[test]
fn wrapping_bytes() {
    assert_eq!(add8(200, 100), 44);
    assert_eq!(add8(1, 2), 3);
    assert_eq!(sub8(3, 5), 254);
    assert_eq!(sub8(5, 3), 2);
}

#[test]
fn table_reads_are_bounded() {
    assert_eq!(lookup(&FLAGS, 5), 0xA4);
    assert_eq!(lookup(&FLAGS, 80), 0xC1);
    assert_eq!(lookup(&FLAGS, 81), 0);
    assert!(test_flag(9, 128));
    assert!(!test_flag(200, 128));
    assert!(test_flag2(1, 1));
    assert!(!test_flag2(78, 1));
}

#[test]
fn default_voice() {
    let params = Params::default();
    assert_eq!(params.speed, 72);
    assert_eq!(params.pitch, 64);
    assert_eq!(params.mouth, 128);
    assert_eq!(params.throat, 128);
    assert!(!params.singmode);
}

#[test]
fn formants_scale_with_the_voice() {
    let params = Params { speed: 72, pitch: 64, mouth: 128, throat: 128, singmode: false };
    let tables = FormantTables::from_params(&params);
    assert_eq!(tables.mouth[0], 0);
    assert_eq!(tables.mouth[4], 0x13);
    assert_eq!(tables.mouth[5], 128);
    assert_eq!(tables.mouth[6], 128);
    assert_eq!(tables.mouth[7], 192);
    assert_eq!(tables.throat[5], 0);
    assert_eq!(tables.throat[6], 64);
    assert_eq!(tables.mouth[30], 6);
    assert_eq!(tables.mouth[48], 192);
    assert_eq!(tables.throat[53], 128);
    assert_eq!(tables.mouth[54], 6);
    assert_eq!(tables.throat[79], 0x7F);
    let params = Params { speed: 72, pitch: 64, mouth: 3, throat: 1, singmode: false };
    let tables = FormantTables::from_params(&params);
    assert_eq!(tables.mouth[5], 15);
    assert_eq!(tables.throat[5], 42);
    assert_eq!(tables.mouth_of(5), 15);
    assert_eq!(tables.mouth_of(80), 0);
    assert_eq!(tables.throat_of(200), 0);
}

#[test]
fn formants_of_a_zero_voice() {
    let params = Params { speed: 0, pitch: 0, mouth: 0, throat: 0, singmode: true };
    let tables = FormantTables::from_params(&params);
    assert_eq!(tables.mouth[5], 0);
    assert_eq!(tables.throat[29], 0);
    assert_eq!(tables.mouth[4], 0x13);
    assert_eq!(tables.throat[4], 0x43);
}

#[test]
fn frames_are_counted() {
    let mem = buffer(&[9, 24, 0], &[11, 6, 0], &[0, 0, 0]);
    assert_eq!(count_frames(&mem), 17);
    assert_eq!(count_frames(&Phonemes::default()), 0);
}

#[test]
fn expansion_copies_the_row_of_each_phoneme() {
    let params = Params::default();
    let formants = FormantTables::from_params(&params);
    let mem = buffer(&[9, 32], &[2, 1], &[0, 4]);
    let frames = expand_phonemes(&params, &mem, &formants).unwrap();
    assert_eq!(frames.len(), 3);
    assert_eq!(frames.pitches, vec![64, 64, 51]);
    assert_eq!(frames.frequency1, vec![formants.mouth[9], formants.mouth[9], 6]);
    assert_eq!(frames.frequency2, vec![formants.throat[9], formants.throat[9], 0x49]);
    assert_eq!(frames.frequency3, vec![0x59, 0x59, 0x63]);
    assert_eq!(frames.amplitude1, vec![15, 15, 0]);
    assert_eq!(frames.amplitude2, vec![13, 13, 0]);
    assert_eq!(frames.amplitude3, vec![1, 1, 0]);
    assert_eq!(frames.sampled_consonant_flag, vec![0, 0, 0xF1]);
    assert!(frames.is_well_formed());
}

#[test]
fn expansion_of_unknown_ids_is_silent() {
    let params = Params::default();
    let formants = FormantTables::from_params(&params);
    let mem = buffer(&[254], &[2], &[0]);
    let frames = expand_phonemes(&params, &mem, &formants).unwrap();
    assert_eq!(frames.frequency1, vec![0, 0]);
    assert_eq!(frames.amplitude1, vec![0, 0]);
    assert_eq!(frames.pitches, vec![64, 64]);
}

#[test]
fn expansion_beyond_the_track_is_a_capacity_error() {
    let params = Params::default();
    let formants = FormantTables::from_params(&params);
    let mem = buffer(&[9, 9], &[200, 57], &[0, 0]);
    assert_eq!(expand_phonemes(&params, &mem, &formants).err(), Some(SynthError::CapacityExceeded));
    let mem = buffer(&[9, 9], &[200, 56], &[0, 0]);
    assert_eq!(expand_phonemes(&params, &mem, &formants).unwrap().len(), 256);
}

#[test]
fn period_bends_the_pitch_down() {
    let mut frames = track(&[10, 10, 10, 10]);
    add_inflection(3, &mut frames, 1);
    assert_eq!(frames.pitches, vec![11, 12, 13, 10]);
}

#[test]
fn question_mark_bends_the_pitch_up() {
    let mut frames = track(&[10, 10, 10]);
    add_inflection(3, &mut frames, 255);
    assert_eq!(frames.pitches, vec![9, 8, 7]);
}

#[test]
fn inflection_starts_behind_held_frames_and_passes_marked_ones() {
    let mut frames = track(&[127, 127, 10, 255, 10]);
    add_inflection(5, &mut frames, 1);
    assert_eq!(frames.pitches, vec![127, 127, 11, 255, 12]);
}

#[test]
fn inflection_reaches_thirty_frames_back() {
    let mut frames = track(&[50; 40]);
    add_inflection(40, &mut frames, 1);
    let mut expected = vec![50u8; 10];
    expected.extend((1..=30).map(|k| 50 + k as u8));
    assert_eq!(frames.pitches, expected);
}

#[test]
fn inflection_without_frames_does_nothing() {
    let mut frames = track(&[]);
    add_inflection(0, &mut frames, 1);
    assert!(frames.pitches.is_empty());
    let mut frames = track(&[127, 127]);
    add_inflection(2, &mut frames, 1);
    assert_eq!(frames.pitches, vec![127, 127]);
    let mut frames = track(&[1, 2]);
    add_inflection(3, &mut frames, 1);
    assert_eq!(frames.pitches, vec![1, 2]);
}

#[test]
fn ramp_without_remainder() {
    let mut t = vec![0, 0, 0, 0, 8];
    ramp(&mut t, 0, 4, 8);
    assert_eq!(t, vec![0, 2, 4, 6, 8]);
}

#[test]
fn ramp_with_remainder() {
    let mut t = vec![0, 0, 0, 0, 10];
    ramp(&mut t, 0, 4, 10);
    assert_eq!(t, vec![0, 2, 5, 7, 10]);
}

#[test]
fn ramp_downwards() {
    let mut t = vec![20, 0, 0, 0, 10];
    ramp(&mut t, 0, 4, 246);
    assert_eq!(t, vec![20, 18, 15, 13, 10]);
}

#[test]
fn ramp_leaves_zero_at_zero_when_rising() {
    let mut t = vec![0, 9, 9, 9];
    ramp(&mut t, 0, 4, 2);
    assert_eq!(t, vec![0, 0, 0, 0]);
}

#[test]
fn ramp_of_one_frame_writes_nothing() {
    let mut t = vec![1, 2, 3];
    ramp(&mut t, 1, 1, 100);
    assert_eq!(t, vec![1, 2, 3]);
}

#[test]
fn blend_window_lies_on_the_track() {
    assert_eq!(blend_window(20, 10, 2, 3), Some((8, 13)));
    assert_eq!(blend_window(20, 1, 2, 3), None);
    assert_eq!(blend_window(20, 18, 2, 2), None);
    assert_eq!(blend_window(20, 17, 2, 2), Some((15, 19)));
    assert_eq!(blend_window(20, 10, 1, 0), None);
    assert_eq!(blend_window(20, 10, 0, 0), None);
    assert_eq!(blend_window(20, 10, 1, 1), Some((9, 11)));
    assert_eq!(blend_window(256, 200, 160, 176), None);
}

#[test]
fn boundaries_are_blended() {
    let params = Params { speed: 72, pitch: 64, mouth: 128, throat: 128, singmode: true };
    let formants = FormantTables::from_params(&params);
    let mem = buffer(&[9, 11], &[8, 8], &[0, 0]);
    let mut frames = expand_phonemes(&params, &mem, &formants).unwrap();
    let before = frames.amplitude2.clone();
    assert_eq!(before, vec![13, 13, 13, 13, 13, 13, 13, 13, 12, 12, 12, 12, 12, 12, 12, 12]);
    blend_boundaries(&mut frames, &mem);
    assert_eq!(frames.amplitude2, vec![13, 13, 13, 13, 13, 13, 13, 13, 13, 13, 13, 13, 12, 12, 12, 12]);
    assert_eq!(frames.amplitude3, vec![1, 1, 1, 1, 1, 1, 1, 1, 1, 1, 1, 1, 0, 0, 0, 0]);
    assert_eq!(frames.len(), 16);
}

#[test]
fn closing_pass_rescales_amplitudes() {
    let mut frames = track(&[100, 100, 100]);
    frames.frequency1 = vec![10, 11, 0];
    frames.amplitude1 = vec![0, 15, 16];
    frames.amplitude2 = vec![1, 9, 17];
    frames.amplitude3 = vec![13, 200, 255];
    finish(&mut frames, false);
    assert_eq!(frames.pitches, vec![95, 95, 100]);
    assert_eq!(frames.amplitude1, vec![0, 15, 0]);
    assert_eq!(frames.amplitude2, vec![1, 5, 0]);
    assert_eq!(frames.amplitude3, vec![11, 0, 0]);
    assert_eq!(frames.frequency1, vec![10, 11, 0]);
}

#[test]
fn closing_pass_wraps_the_pitch() {
    let mut frames = track(&[2]);
    frames.frequency1 = vec![10];
    finish(&mut frames, false);
    assert_eq!(frames.pitches, vec![253]);
}

#[test]
fn sing_mode_changes_pitch_only() {
    let mem = convert_phonemes(b"/HAALAOAO ").unwrap();
    let spoken = Params::default();
    let sung = Params { singmode: true, ..Params::default() };
    let formants = FormantTables::from_params(&spoken);
    let a = mk_frames(&spoken, &mem, &formants).unwrap();
    let b = mk_frames(&sung, &mem, &formants).unwrap();
    assert_eq!(a.frequency1, b.frequency1);
    assert_eq!(a.frequency2, b.frequency2);
    assert_eq!(a.frequency3, b.frequency3);
    assert_eq!(a.amplitude1, b.amplitude1);
    assert_eq!(a.amplitude2, b.amplitude2);
    assert_eq!(a.amplitude3, b.amplitude3);
    assert_eq!(a.sampled_consonant_flag, b.sampled_consonant_flag);
    assert_eq!(a.len(), 46);
    assert_ne!(a.pitches, b.pitches);
    for i in 0..a.len() {
        assert_eq!(a.pitches[i], b.pitches[i].wrapping_sub(b.frequency1[i] >> 1));
    }
}

#[test]
fn amplitudes_fit_in_four_bits() {
    let mem = convert_phonemes(b"SAE5M. /HAALAOAO ").unwrap();
    let params = Params::default();
    let formants = FormantTables::from_params(&params);
    let frames = mk_frames(&params, &mem, &formants).unwrap();
    for i in 0..frames.len() {
        assert!(frames.amplitude1[i] <= 15);
        assert!(frames.amplitude2[i] <= 15);
        assert!(frames.amplitude3[i] <= 15);
    }
}

#[test]
fn frame_count_is_the_sum_of_durations() {
    let mem = convert_phonemes(b"SAE5M.").unwrap();
    let params = Params::default();
    let formants = FormantTables::from_params(&params);
    let frames = mk_frames(&params, &mem, &formants).unwrap();
    assert_eq!(frames.len(), count_frames(&mem));
    assert!(frames.is_well_formed());
}

#[test]
fn first_batch_is_written_at_its_tick() {
    let mut out = C64SoundBuffer::default();
    out.output_5(0, &[1, 2, 3, 4, 5]);
    assert_eq!(out.idx, 162);
    assert_eq!(out.prev_timetable_idx, 0);
    assert_eq!(out.buffer, vec![0, 0, 0, 1, 2, 3, 4, 5]);
}

#[test]
fn batches_overlap_by_the_timetable() {
    let mut out = C64SoundBuffer::default();
    out.output_5(1, &[1, 1, 1, 1, 1]);
    assert_eq!(out.idx, 167);
    out.output_5(2, &[2, 2, 2, 2, 2]);
    assert_eq!(out.idx, 227);
    assert_eq!(out.buffer, vec![0, 0, 0, 1, 2, 2, 2, 2, 2]);
    out.output_5(3, &[3, 3, 3, 3, 3]);
    assert_eq!(out.idx, 227);
    assert_eq!(out.prev_timetable_idx, 3);
    assert_eq!(out.buffer, vec![0, 0, 0, 1, 3, 3, 3, 3, 3]);
    out.output_level(0, 9);
    assert_eq!(out.idx, 427);
    assert_eq!(out.buffer, vec![0, 0, 0, 1, 3, 3, 3, 3, 9, 9, 9, 9, 9]);
}

#[test]
fn voiced_consonant_writes_eight_batches_for_each_byte() {
    let mut frames = track(&[0x20]);
    frames.sampled_consonant_flag = vec![1];
    let mut waves = silent_waves();
    waves.samples[0] = 0b1000_0000;
    let mut out = C64SoundBuffer::default();
    render_sample(0, &frames, &waves, &mut out);
    // three bytes of class 0: the first with its highest bit set
    assert_eq!(out.prev_timetable_idx, 4);
    assert_eq!(out.idx, 127 + 55 + 6 * 54 + 16 * 54);
    assert_eq!(out.buffer.len(), out.idx / 50 + 5);
    assert_eq!(out.buffer[2], 160);
    assert_eq!(*out.buffer.last().unwrap(), 96);
}

#[test]
fn unvoiced_consonant_reads_from_the_complement_of_its_selector() {
    let mut frames = track(&[0]);
    frames.sampled_consonant_flag = vec![0xF9];
    let mut waves = silent_waves();
    for i in 0..256 {
        waves.samples[i] = 0xFF;
    }
    let mut out = C64SoundBuffer::default();
    render_sample(0, &frames, &waves, &mut out);
    // 249 bytes from offset 7 on, eight set bits each
    assert_eq!(out.prev_timetable_idx, 2);
    assert_eq!(out.idx, 167 + (249 * 8 - 1) * 59);
    assert_eq!(*out.buffer.last().unwrap(), 80);
}

#[test]
fn unvoiced_consonant_with_clear_bits_uses_the_class_level() {
    let mut frames = track(&[0]);
    frames.sampled_consonant_flag = vec![0xF9];
    let waves = silent_waves();
    let mut out = C64SoundBuffer::default();
    render_sample(0, &frames, &waves, &mut out);
    assert_eq!(out.prev_timetable_idx, 1);
    assert_eq!(out.idx, 167 + (249 * 8 - 1) * 60);
    assert_eq!(*out.buffer.last().unwrap(), 8);
}

#[test]
fn sample_outside_the_track_is_silent_class() {
    let frames = track(&[]);
    let waves = silent_waves();
    let mut out = C64SoundBuffer::default();
    render_sample(3, &frames, &waves, &mut out);
    assert_eq!(out.prev_timetable_idx, 4);
    assert_eq!(out.idx, 128 + 7 * 54);
}

#[test]
fn empty_track_gives_no_samples() {
    let frames = track(&[]);
    assert!(mk_wav(&frames, &test_waves()).is_empty());
}

#[test]
fn silent_oscillator_gives_the_bias() {
    let mut frames = track(&[0, 0]);
    frames.amplitude1 = vec![15, 15];
    let samples = mk_wav(&frames, &silent_waves());
    assert_eq!(samples, vec![0, 0, 0, 128, 128, 128, 128, 128, 128, 128, 128]);
}

#[test]
fn oscillator_mixes_three_formants() {
    let mut frames = track(&[0]);
    frames.frequency1 = vec![0];
    frames.frequency2 = vec![128];
    frames.frequency3 = vec![0];
    frames.amplitude1 = vec![15];
    frames.amplitude2 = vec![8];
    frames.amplitude3 = vec![2];
    let samples = mk_wav(&frames, &test_waves());
    // sine 64 * 15 = 960; second sine alternates every two samples; rectangle -112 * 2
    let hi = ((960 + 512 - 224) / 32 + 128) as u8;
    let lo = ((960 - 512 - 224) / 32 + 128) as u8;
    assert_eq!(samples, vec![0, 0, 0, hi, hi, hi, hi, lo]);
}

#[test]
fn render_runs_both_stages() {
    let params = Params::default();
    let formants = FormantTables::from_params(&params);
    let mem = convert_phonemes(b"/HAALAOAO ").unwrap();
    let waves = test_waves();
    let frames = mk_frames(&params, &mem, &formants).unwrap();
    assert_eq!(render(&params, &mem, &formants, &waves).unwrap(), mk_wav(&frames, &waves));
}

#[test]
fn render_beyond_the_track_is_a_capacity_error() {
    let params = Params::default();
    let formants = FormantTables::from_params(&params);
    let mem = buffer(&[9, 9], &[200, 200], &[0, 0]);
    assert_eq!(
        render(&params, &mem, &formants, &test_waves()).err(),
        Some(SynthError::CapacityExceeded)
    );
}

#[test]
fn synthesis_of_empty_input_is_empty() {
    assert_eq!(synthesize(b"", &Params::default(), &test_waves()), Ok(vec![]));
    assert_eq!(synthesize_phonetic("", &test_waves()), Ok(vec![]));
}

#[test]
fn synthesis_of_blank_input_is_empty() {
    assert_eq!(synthesize(b"   ", &Params::default(), &test_waves()), Ok(vec![]));
}

#[test]
fn synthesis_is_deterministic() {
    let waves = test_waves();
    let params = Params::default();
    let a = synthesize(b"/HAALAOAO ", &params, &waves).unwrap();
    let b = synthesize(b"/HAALAOAO ", &params, &waves).unwrap();
    assert_eq!(a, b);
    assert!(!a.is_empty());
}

#[test]
fn synthesis_passes_on_errors() {
    let waves = test_waves();
    let params = Params::default();
    assert_eq!(
        synthesize(b"HELLO", &params, &waves),
        Err(SynthError::ParseError { byte: b'H', offset: 0 })
    );
    let long = "AA".repeat(40);
    assert_eq!(synthesize(long.as_bytes(), &params, &waves), Err(SynthError::CapacityExceeded));
}

#[test]
fn synthesis_depends_on_the_voice() {
    let waves = test_waves();
    let low = Params { pitch: 96, ..Params::default() };
    let a = synthesize(b"/HAALAOAO ", &Params::default(), &waves).unwrap();
    let b = synthesize(b"/HAALAOAO ", &low, &waves).unwrap();
    assert_ne!(a, b);
}

#[test]
fn unvoiced_frame_takes_two_frames() {
    let mut frames = track(&[0, 0, 0]);
    frames.sampled_consonant_flag = vec![0xF1, 0, 0];
    let samples = mk_wav(&frames, &silent_waves());
    // 241 sample bytes of eight clear bits, then one oscillator batch
    let ticks = 167 + (241 * 8 - 1) * 60 + 226;
    assert_eq!(samples.len(), ticks / 50 + 5);
    assert_eq!(samples[samples.len() - 5..], [128, 128, 128, 128, 128]);
    assert_eq!(samples[3], 8);
}

#[test]
fn spent_pulse_renders_the_next_frame_as_a_consonant() {
    let frames = track(&[1, 1]);
    let samples = mk_wav(&frames, &silent_waves());
    let mut expected = vec![0, 0, 0, 128, 128];
    expected.extend([96; 12]);
    expected.extend([128; 5]);
    assert_eq!(samples, expected);
}

#[test]
fn running_pulse_moves_the_phases_on() {
    let mut frames = track(&[4, 4]);
    frames.frequency1 = vec![0, 128];
    frames.amplitude1 = vec![1, 1];
    let mut waves = silent_waves();
    for i in 128..256 {
        waves.sine[i] = 64;
    }
    let samples = mk_wav(&frames, &waves);
    // second batch starts at phase 128 and moves on by 32 places a sample
    assert_eq!(samples, vec![0, 0, 0, 128, 128, 128, 130, 130, 130, 130, 128]);
}

#[test]
fn sample_count_keeps_pace_with_the_clock() {
    let mut frames = track(&[0x35, 0x35, 0x35]);
    frames.sampled_consonant_flag = vec![2, 0x1B, 0];
    let waves = test_waves();
    let mut out = C64SoundBuffer::default();
    render_sample(0, &frames, &waves, &mut out);
    assert_eq!(out.buffer.len(), out.idx / 50 + 5);
    render_sample(1, &frames, &waves, &mut out);
    assert_eq!(out.buffer.len(), out.idx / 50 + 5);
}
