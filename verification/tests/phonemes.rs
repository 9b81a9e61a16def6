use sam::breath::{delete_errors, insert_breath};
use sam::convert::convert_phonemes;
use sam::durations::{adjust_lengths, assign_base_lengths, lengthen_punctuation, set_phoneme_length};
use sam::parser::parse_1;
use sam::phonemes::{insert, Phonemes, SynthError};
use sam::release::code41240;
use sam::rules::{copy_stress, last_rules, parse_2};

fn buffer(ids: &[u8], lengths: &[u8], stress: &[u8]) -> Phonemes {
    Phonemes {
        stress: stress.to_vec(),
        phoneme_length: lengths.to_vec(),
        phoneme_index: ids.to_vec(),
    }
}

fn of_ids(ids: &[u8]) -> Phonemes {
    buffer(ids, &vec![0; ids.len()], &vec![0; ids.len()])
}

fn parse(text: &str) -> Result<Phonemes, SynthError> {
    let mut mem = Phonemes::default();
    parse_1(&mut mem, text.as_bytes()).map(|_| mem)
}

#[test]
fn parse_empty_input_gives_no_phoneme() {
    let mem = parse("").unwrap();
    assert!(mem.phoneme_index.is_empty());
    assert!(mem.phoneme_length.is_empty());
    assert!(mem.stress.is_empty());
    assert!(mem.is_well_formed());
}

#[test]
fn parse_blank_input_gives_pauses_only() {
    let mem = parse("  ").unwrap();
    assert_eq!(mem.phoneme_index, vec![0, 0]);
    assert_eq!(mem.phoneme_length, vec![0, 0]);
}

#[test]
fn parse_stress_digit_attaches_to_preceding_phoneme() {
    let mem = parse("AA5").unwrap();
    assert_eq!(mem.phoneme_index, vec![9]);
    assert_eq!(mem.stress, vec![5]);
    assert_eq!(mem.len(), 1);
}

#[test]
fn parse_prefers_two_character_signs() {
    let mem = parse("/HAALAOAO ").unwrap();
    assert_eq!(mem.phoneme_index, vec![36, 9, 24, 11, 11, 0]);
    assert_eq!(mem.stress, vec![0, 0, 0, 0, 0, 0]);
}

#[test]
fn parse_two_character_sign_at_end_of_input() {
    let mem = parse("AA").unwrap();
    assert_eq!(mem.phoneme_index, vec![9]);
}

#[test]
fn parse_every_stress_digit() {
    let mem = parse("AA1AA2AA3AA4AA5AA6AA7AA8AA").unwrap();
    assert_eq!(mem.stress, vec![1, 2, 3, 4, 5, 6, 7, 8, 0]);
}

#[test]
fn parse_later_digit_replaces_stress() {
    let mem = parse("AA53").unwrap();
    assert_eq!(mem.stress, vec![3]);
}

#[test]
fn parse_reports_offending_byte_and_offset() {
    assert_eq!(parse("AA#").err(), Some(SynthError::ParseError { byte: b'#', offset: 2 }));
    assert_eq!(parse("x").err(), Some(SynthError::ParseError { byte: b'x', offset: 0 }));
}

#[test]
fn parse_rejects_stress_before_any_phoneme() {
    assert_eq!(parse("5AA").err(), Some(SynthError::ParseError { byte: b'5', offset: 0 }));
}

#[test]
fn parse_star_is_a_sign_of_its_own() {
    let mem = parse("AA*").unwrap();
    assert_eq!(mem.phoneme_index, vec![9, 43]);
    assert_eq!(mem.stress, vec![0, 0]);
}

#[test]
fn parse_rejects_first_half_of_a_sign() {
    assert_eq!(parse("A").err(), Some(SynthError::ParseError { byte: b'A', offset: 0 }));
}

#[test]
fn parse_fills_the_buffer_to_its_capacity() {
    let text = " ".repeat(255);
    let mem = parse(&text).unwrap();
    assert_eq!(mem.len(), 255);
}

#[test]
fn parse_beyond_capacity_is_an_error() {
    let text = " ".repeat(256);
    assert_eq!(parse(&text).err(), Some(SynthError::CapacityExceeded));
}

#[test]
fn parse_empties_the_buffer_first() {
    let mut mem = of_ids(&[1, 2, 3]);
    parse_1(&mut mem, b"AA").unwrap();
    assert_eq!(mem.phoneme_index, vec![9]);
}

#[test]
fn insert_shifts_the_tail() {
    let mut mem = buffer(&[1, 2, 3], &[10, 20, 30], &[4, 5, 6]);
    assert_eq!(insert(&mut mem, 1, 9, 99, 7), Ok(()));
    assert_eq!(mem.phoneme_index, vec![1, 9, 2, 3]);
    assert_eq!(mem.phoneme_length, vec![10, 99, 20, 30]);
    assert_eq!(mem.stress, vec![4, 7, 5, 6]);
}

#[test]
fn insert_at_the_end_appends() {
    let mut mem = of_ids(&[1, 2]);
    assert_eq!(insert(&mut mem, 2, 9, 0, 0), Ok(()));
    assert_eq!(mem.phoneme_index, vec![1, 2, 9]);
}

#[test]
fn insert_into_full_buffer_fails_and_changes_nothing() {
    let ids: Vec<u8> = (0..255).map(|i| (i % 80) as u8).collect();
    let mut mem = of_ids(&ids);
    assert_eq!(insert(&mut mem, 10, 9, 1, 1), Err(SynthError::CapacityExceeded));
    assert_eq!(mem.phoneme_index, ids);
    assert_eq!(mem.len(), 255);
}

#[test]
fn insert_behind_the_terminator_fails() {
    let mut mem = of_ids(&[1, 2]);
    assert_eq!(insert(&mut mem, 3, 9, 0, 0), Err(SynthError::CapacityExceeded));
    assert_eq!(mem.phoneme_index, vec![1, 2]);
}

#[test]
fn reads_outside_the_buffer() {
    let mem = buffer(&[7], &[8], &[9]);
    assert_eq!(mem.id_at(0), 7);
    assert_eq!(mem.id_at(1), 255);
    assert_eq!(mem.id_before(0), 255);
    assert_eq!(mem.id_before(1), 7);
    assert_eq!(mem.length_at(1), 0);
    assert_eq!(mem.stress_at(1), 0);
    assert_eq!(mem.next_sound_from(0), 0);
}

#[test]
fn next_sound_passes_over_pauses() {
    let mem = of_ids(&[9, 0, 0, 24]);
    assert_eq!(mem.next_sound_from(1), 3);
    let mem = of_ids(&[9, 0, 0]);
    assert_eq!(mem.next_sound_from(1), 3);
}

#[test]
fn ill_formed_buffer_is_recognised() {
    let mem = buffer(&[1, 2], &[0], &[0, 0]);
    assert!(!mem.is_well_formed());
    let mem = of_ids(&vec![0; 256]);
    assert!(!mem.is_well_formed());
}

#[test]
fn rewrite_diphthong_gets_its_glide() {
    let mut mem = buffer(&[50], &[3], &[5]);
    assert_eq!(parse_2(&mut mem), Ok(()));
    assert_eq!(mem.phoneme_index, vec![50, 21]);
    assert_eq!(mem.phoneme_length, vec![3, 3]);
    assert_eq!(mem.stress, vec![5, 5]);
    let mut mem = of_ids(&[52]);
    assert_eq!(parse_2(&mut mem), Ok(()));
    assert_eq!(mem.phoneme_index, vec![52, 20]);
}

#[test]
fn rewrite_digraphs() {
    let mut mem = buffer(&[78, 79, 80], &[1, 2, 3], &[4, 5, 6]);
    assert_eq!(parse_2(&mut mem), Ok(()));
    assert_eq!(mem.phoneme_index, vec![13, 19, 13, 27, 13, 28]);
    assert_eq!(mem.phoneme_length, vec![1, 1, 2, 2, 3, 3]);
    assert_eq!(mem.stress, vec![4, 4, 5, 5, 6, 6]);
}

#[test]
fn rewrite_glottal_stop_between_stressed_vowels() {
    let mut mem = buffer(&[9, 0, 9], &[0, 0, 0], &[4, 0, 4]);
    assert_eq!(parse_2(&mut mem), Ok(()));
    assert_eq!(mem.phoneme_index, vec![9, 0, 31, 9]);
    assert_eq!(mem.stress, vec![4, 0, 0, 4]);
    let mut mem = buffer(&[9, 0, 9], &[0, 0, 0], &[4, 0, 0]);
    assert_eq!(parse_2(&mut mem), Ok(()));
    assert_eq!(mem.phoneme_index, vec![9, 0, 9]);
}

#[test]
fn rewrite_t_r_and_d_r() {
    let mut mem = buffer(&[69, 23], &[0, 0], &[3, 0]);
    assert_eq!(parse_2(&mut mem), Ok(()));
    assert_eq!(mem.phoneme_index, vec![42, 43, 23]);
    assert_eq!(mem.stress, vec![3, 3, 0]);
    let mut mem = of_ids(&[57, 23]);
    assert_eq!(parse_2(&mut mem), Ok(()));
    assert_eq!(mem.phoneme_index, vec![44, 45, 23]);
}

#[test]
fn rewrite_r_and_l_after_vowel() {
    let mut mem = of_ids(&[9, 23]);
    assert_eq!(parse_2(&mut mem), Ok(()));
    assert_eq!(mem.phoneme_index, vec![9, 18]);
    let mut mem = of_ids(&[9, 24]);
    assert_eq!(parse_2(&mut mem), Ok(()));
    assert_eq!(mem.phoneme_index, vec![9, 19]);
    let mut mem = of_ids(&[23, 24]);
    assert_eq!(parse_2(&mut mem), Ok(()));
    assert_eq!(mem.phoneme_index, vec![23, 24]);
}

#[test]
fn rewrite_g_s_never_fires_behind_the_velar_rule() {
    let mut mem = of_ids(&[60, 32]);
    assert_eq!(parse_2(&mut mem), Ok(()));
    assert_eq!(mem.phoneme_index, vec![63, 32]);
}

#[test]
fn rewrite_k_and_g_before_back_vowels() {
    let mut mem = of_ids(&[72, 11]);
    assert_eq!(parse_2(&mut mem), Ok(()));
    assert_eq!(mem.phoneme_index, vec![75, 11]);
    let mut mem = of_ids(&[72, 9]);
    assert_eq!(parse_2(&mut mem), Ok(()));
    assert_eq!(mem.phoneme_index, vec![72, 9]);
    let mut mem = of_ids(&[72, 5]);
    assert_eq!(parse_2(&mut mem), Ok(()));
    assert_eq!(mem.phoneme_index, vec![72, 5]);
    let mut mem = of_ids(&[60, 11]);
    assert_eq!(parse_2(&mut mem), Ok(()));
    assert_eq!(mem.phoneme_index, vec![63, 11]);
    let mut mem = of_ids(&[60, 5]);
    assert_eq!(parse_2(&mut mem), Ok(()));
    assert_eq!(mem.phoneme_index, vec![60, 5]);
    let mut mem = of_ids(&[60]);
    assert_eq!(parse_2(&mut mem), Ok(()));
    assert_eq!(mem.phoneme_index, vec![60]);
    let mut mem = of_ids(&[72]);
    assert_eq!(parse_2(&mut mem), Ok(()));
    assert_eq!(mem.phoneme_index, vec![75]);
}

#[test]
fn rewrite_plosive_after_s_is_voiced() {
    let mut mem = of_ids(&[32, 66]);
    assert_eq!(parse_2(&mut mem), Ok(()));
    assert_eq!(mem.phoneme_index, vec![32, 54]);
    let mut mem = of_ids(&[32, 69]);
    assert_eq!(parse_2(&mut mem), Ok(()));
    assert_eq!(mem.phoneme_index, vec![32, 57]);
    let mut mem = of_ids(&[32, 72, 5]);
    assert_eq!(parse_2(&mut mem), Ok(()));
    assert_eq!(mem.phoneme_index, vec![32, 60, 5]);
}

#[test]
fn rewrite_uw_after_alveolar() {
    let mut mem = of_ids(&[28, 53]);
    assert_eq!(parse_2(&mut mem), Ok(()));
    assert_eq!(mem.phoneme_index, vec![28, 16, 20]);
    let mut mem = of_ids(&[27, 53]);
    assert_eq!(parse_2(&mut mem), Ok(()));
    assert_eq!(mem.phoneme_index, vec![27, 53, 20]);
}

#[test]
fn rewrite_affricates_get_their_second_half() {
    let mut mem = buffer(&[42, 44], &[0, 0], &[2, 3]);
    assert_eq!(parse_2(&mut mem), Ok(()));
    assert_eq!(mem.phoneme_index, vec![42, 43, 44, 45]);
    assert_eq!(mem.stress, vec![2, 2, 3, 3]);
}

#[test]
fn rewrite_flap_between_vowels() {
    let mut mem = of_ids(&[9, 69, 9]);
    assert_eq!(parse_2(&mut mem), Ok(()));
    assert_eq!(mem.phoneme_index, vec![9, 30, 9]);
    let mut mem = of_ids(&[9, 57]);
    assert_eq!(parse_2(&mut mem), Ok(()));
    assert_eq!(mem.phoneme_index, vec![9, 30]);
    let mut mem = of_ids(&[9, 69, 32]);
    assert_eq!(parse_2(&mut mem), Ok(()));
    assert_eq!(mem.phoneme_index, vec![9, 69, 32]);
}

#[test]
fn rewrite_keeps_pauses() {
    let mut mem = of_ids(&[0, 0, 0]);
    assert_eq!(parse_2(&mut mem), Ok(()));
    assert_eq!(mem.phoneme_index, vec![0, 0, 0]);
}

#[test]
fn rewrite_into_full_buffer_is_a_capacity_error() {
    let mut ids = vec![0u8; 254];
    ids.push(50);
    let mut mem = of_ids(&ids);
    assert_eq!(parse_2(&mut mem), Err(SynthError::CapacityExceeded));
    assert!(mem.is_well_formed());
}

#[test]
fn last_rules_moves_the_position_on() {
    let mut mem = of_ids(&[9, 69, 9]);
    let mut idx = 1;
    assert_eq!(last_rules(69, &mut mem, &mut idx), Ok(()));
    assert_eq!(idx, 2);
    assert_eq!(mem.phoneme_index, vec![9, 30, 9]);
    let mut mem = buffer(&[42], &[0], &[6]);
    let mut idx = 0;
    assert_eq!(last_rules(42, &mut mem, &mut idx), Ok(()));
    assert_eq!(idx, 1);
    assert_eq!(mem.phoneme_index, vec![42, 43]);
    assert_eq!(mem.stress, vec![6, 6]);
}

#[test]
fn stress_goes_to_the_consonant_before_a_stressed_vowel() {
    let mut mem = buffer(&[24, 50, 21], &[0, 0, 0], &[0, 5, 5]);
    copy_stress(&mut mem);
    assert_eq!(mem.stress, vec![6, 5, 5]);
    assert_eq!(mem.phoneme_index, vec![24, 50, 21]);
}

#[test]
fn stress_is_not_copied_from_unstressed_or_marked_vowels() {
    let mut mem = buffer(&[24, 9, 24, 9, 9, 9], &[0; 6], &[0, 0, 1, 130, 0, 4]);
    copy_stress(&mut mem);
    assert_eq!(mem.stress, vec![0, 0, 1, 130, 0, 4]);
}

#[test]
fn durations_follow_stress() {
    let mut mem = buffer(&[9, 9, 9], &[0, 0, 0], &[0, 5, 128]);
    set_phoneme_length(&mut mem);
    assert_eq!(mem.phoneme_length, vec![11, 15, 11]);
    assert_eq!(mem.stress, vec![0, 5, 128]);
}

#[test]
fn durations_grow_before_punctuation() {
    let mut mem = of_ids(&[9, 1]);
    set_phoneme_length(&mut mem);
    assert_eq!(mem.phoneme_length, vec![17, 18]);
}

#[test]
fn durations_grow_once_for_each_punctuation() {
    let mut mem = of_ids(&[9, 1, 1]);
    set_phoneme_length(&mut mem);
    assert_eq!(mem.phoneme_length, vec![26, 28, 18]);
}

#[test]
fn unvoiced_fricative_is_not_lengthened() {
    let mut mem = of_ids(&[9, 32, 1]);
    set_phoneme_length(&mut mem);
    assert_eq!(mem.phoneme_length, vec![17, 2, 18]);
}

#[test]
fn punctuation_at_the_start_lengthens_nothing() {
    let mut mem = of_ids(&[1, 9]);
    set_phoneme_length(&mut mem);
    assert_eq!(mem.phoneme_length, vec![18, 11]);
}

#[test]
fn vowel_before_voiced_consonant_grows_by_a_quarter() {
    let mut mem = of_ids(&[9, 38]);
    set_phoneme_length(&mut mem);
    assert_eq!(mem.phoneme_length, vec![14, 6]);
}

#[test]
fn vowel_before_unvoiced_plosive_keeps_an_eighth() {
    let mut mem = of_ids(&[9, 66]);
    set_phoneme_length(&mut mem);
    assert_eq!(mem.phoneme_length, vec![1, 8]);
}

#[test]
fn vowel_before_retroflex_and_consonant_loses_a_frame() {
    let mut mem = of_ids(&[9, 18, 32]);
    set_phoneme_length(&mut mem);
    assert_eq!(mem.phoneme_length, vec![10, 10, 2]);
    let mut mem = of_ids(&[9, 18, 9]);
    set_phoneme_length(&mut mem);
    assert_eq!(mem.phoneme_length, vec![11, 10, 11]);
}

#[test]
fn nasal_before_stop_is_split_five_to_six() {
    let mut mem = of_ids(&[27, 54]);
    set_phoneme_length(&mut mem);
    assert_eq!(mem.phoneme_length, vec![5, 6]);
}

#[test]
fn stop_before_stop_halves_both() {
    let mut mem = of_ids(&[54, 0, 57]);
    set_phoneme_length(&mut mem);
    assert_eq!(mem.phoneme_length, vec![4, 0, 3]);
}

#[test]
fn liquid_after_plosive_loses_two_frames() {
    let mut mem = of_ids(&[66, 24]);
    set_phoneme_length(&mut mem);
    assert_eq!(mem.phoneme_length, vec![8, 4]);
    let mut mem = of_ids(&[9, 24]);
    set_phoneme_length(&mut mem);
    assert_eq!(mem.phoneme_length[1], 6);
}

#[test]
fn stops_are_released() {
    let mut mem = buffer(&[54], &[6], &[3]);
    assert_eq!(code41240(&mut mem), Ok(()));
    assert_eq!(mem.phoneme_index, vec![54, 55, 56]);
    assert_eq!(mem.phoneme_length, vec![6, 1, 2]);
    assert_eq!(mem.stress, vec![3, 3, 3]);
}

#[test]
fn unvoiced_plosive_is_released_before_a_vowel() {
    let mut mem = of_ids(&[66, 0, 9]);
    assert_eq!(code41240(&mut mem), Ok(()));
    assert_eq!(mem.phoneme_index, vec![66, 67, 68, 0, 9]);
    assert_eq!(mem.phoneme_length, vec![0, 2, 2, 0, 0]);
}

#[test]
fn unvoiced_plosive_is_held_before_an_aspirate_or_a_stop() {
    let mut mem = of_ids(&[66, 0, 36]);
    assert_eq!(code41240(&mut mem), Ok(()));
    assert_eq!(mem.phoneme_index, vec![66, 0, 36]);
    let mut mem = of_ids(&[66, 27]);
    assert_eq!(code41240(&mut mem), Ok(()));
    assert_eq!(mem.phoneme_index, vec![66, 27]);
}

#[test]
fn unvoiced_plosive_at_the_end_is_released() {
    let mut mem = of_ids(&[69]);
    assert_eq!(code41240(&mut mem), Ok(()));
    assert_eq!(mem.phoneme_index, vec![69, 70, 71]);
}

#[test]
fn release_into_full_buffer_is_a_capacity_error() {
    let mut ids = vec![9u8; 253];
    ids.push(54);
    let mut mem = of_ids(&ids);
    assert_eq!(code41240(&mut mem), Err(SynthError::CapacityExceeded));
    assert!(mem.is_well_formed());
}

#[test]
fn sequence_is_cut_at_the_first_invalid_id() {
    let mut mem = buffer(&[9, 80, 81, 9], &[1, 2, 3, 4], &[5, 6, 7, 8]);
    delete_errors(&mut mem);
    assert_eq!(mem.phoneme_index, vec![9, 80]);
    assert_eq!(mem.phoneme_length, vec![1, 2]);
    assert_eq!(mem.stress, vec![5, 6]);
    let mut mem = of_ids(&[9, 24]);
    delete_errors(&mut mem);
    assert_eq!(mem.phoneme_index, vec![9, 24]);
    let mut mem = of_ids(&[255, 9]);
    delete_errors(&mut mem);
    assert!(mem.phoneme_index.is_empty());
}

#[test]
fn breath_mark_follows_punctuation() {
    let mut mem = buffer(&[9, 1, 9], &[11, 18, 11], &[0, 0, 0]);
    assert_eq!(insert_breath(&mut mem), Ok(()));
    assert_eq!(mem.phoneme_index, vec![9, 1, 254, 9]);
    assert_eq!(mem.phoneme_length, vec![11, 18, 0, 11]);
}

#[test]
fn breath_is_taken_at_the_last_pause() {
    let mut mem = buffer(&[9, 0, 9, 9], &[100, 0, 100, 40], &[1, 2, 3, 4]);
    assert_eq!(insert_breath(&mut mem), Ok(()));
    assert_eq!(mem.phoneme_index, vec![9, 31, 254, 9, 9]);
    assert_eq!(mem.phoneme_length, vec![100, 4, 0, 100, 40]);
    assert_eq!(mem.stress, vec![1, 0, 0, 3, 4]);
}

#[test]
fn breath_without_a_pause_is_a_capacity_error() {
    let mut mem = buffer(&[9, 9, 9], &[100, 100, 40], &[0, 0, 0]);
    assert_eq!(insert_breath(&mut mem), Err(SynthError::CapacityExceeded));
    assert!(mem.is_well_formed());
}

#[test]
fn breath_count_wraps_as_a_byte() {
    let mut mem = buffer(&[9, 0, 9, 9], &[100, 0, 100, 100], &[0, 0, 0, 0]);
    assert_eq!(insert_breath(&mut mem), Ok(()));
    assert_eq!(mem.phoneme_index, vec![9, 0, 9, 9]);
}

#[test]
fn breath_mark_into_full_buffer_is_a_capacity_error() {
    let mut ids = vec![9u8; 254];
    ids.push(1);
    let mut mem = of_ids(&ids);
    assert_eq!(insert_breath(&mut mem), Err(SynthError::CapacityExceeded));
}

#[test]
fn convert_runs_the_whole_chain() {
    let mem = convert_phonemes(b"/HAALAOAO ").unwrap();
    assert_eq!(mem.phoneme_index, vec![36, 9, 19, 11, 11, 0]);
    assert_eq!(mem.phoneme_length, vec![2, 11, 9, 12, 12, 0]);
    assert_eq!(mem.stress, vec![0, 0, 0, 0, 0, 0]);
    assert!(mem.is_well_formed());
}

#[test]
fn convert_empty_input() {
    let mem = convert_phonemes(b"").unwrap();
    assert_eq!(mem.len(), 0);
}

#[test]
fn convert_passes_on_the_parse_error() {
    assert_eq!(
        convert_phonemes(b"AA!").err(),
        Some(SynthError::ParseError { byte: b'!', offset: 2 })
    );
}

#[test]
fn convert_reports_exceeded_capacity() {
    let text = "OY".repeat(130);
    assert_eq!(convert_phonemes(text.as_bytes()).err(), Some(SynthError::CapacityExceeded));
    let text = " ".repeat(300);
    assert_eq!(convert_phonemes(text.as_bytes()).err(), Some(SynthError::CapacityExceeded));
}

#[test]
fn convert_is_repeatable() {
    let a = convert_phonemes(b"SAE5M.").unwrap();
    let b = convert_phonemes(b"SAE5M.").unwrap();
    assert_eq!(a.phoneme_index, b.phoneme_index);
    assert_eq!(a.phoneme_length, b.phoneme_length);
    assert_eq!(a.stress, b.stress);
}

#[test]
fn lengthening_before_punctuation_is_strict() {
    let mem = parse("SAE5M.  /HAALAOAO, AY4?").unwrap();
    let mut base = mem;
    parse_2(&mut base).unwrap();
    copy_stress(&mut base);
    assign_base_lengths(&mut base);
    let before = base.phoneme_length.clone();
    lengthen_punctuation(&mut base);
    let mut seen = 0;
    for i in 0..base.len() - 1 {
        let id = base.phoneme_index[i];
        let next = base.phoneme_index[i + 1];
        let punctuation = (1..=4).contains(&next);
        let unvoiced_fricative = [32, 33, 34, 35, 36, 37, 43].contains(&id);
        if punctuation && !unvoiced_fricative {
            assert!(base.phoneme_length[i] > before[i]);
            seen += 1;
        }
    }
    assert_eq!(seen, 3);
    assert_eq!(base.phoneme_index, vec![32, 8, 27, 1, 0, 0, 36, 9, 19, 11, 11, 3, 0, 49, 21, 2]);
    assert_eq!(before, vec![2, 14, 7, 18, 0, 0, 2, 11, 9, 12, 12, 18, 0, 15, 8, 18]);
    assert_eq!(base.phoneme_length, vec![2, 22, 11, 18, 0, 0, 2, 11, 9, 12, 19, 18, 0, 15, 13, 18]);
}

#[test]
fn lengthening_wraps_as_a_byte() {
    let mut mem = buffer(&[53, 1, 1, 1, 1, 1, 1, 1], &[0; 8], &[1, 0, 0, 0, 0, 0, 0, 0]);
    assign_base_lengths(&mut mem);
    assert_eq!(mem.phoneme_length[0], 14);
    lengthen_punctuation(&mut mem);
    assert_eq!(mem.phoneme_length[0], 13);
}

#[test]
fn duration_passes_compose() {
    let mut whole = buffer(&[9, 38, 1, 27, 54], &[0; 5], &[0, 0, 0, 3, 0]);
    let mut steps = buffer(&[9, 38, 1, 27, 54], &[0; 5], &[0, 0, 0, 3, 0]);
    set_phoneme_length(&mut whole);
    assign_base_lengths(&mut steps);
    assert_eq!(steps.phoneme_length, vec![11, 6, 18, 8, 6]);
    lengthen_punctuation(&mut steps);
    assert_eq!(steps.phoneme_length, vec![17, 10, 18, 8, 6]);
    adjust_lengths(&mut steps);
    assert_eq!(steps.phoneme_length, vec![22, 10, 18, 5, 6]);
    assert_eq!(whole.phoneme_length, steps.phoneme_length);
}
