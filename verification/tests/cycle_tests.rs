use soundboard::cycle::{bar, cycle_sound_dir, cycle_sound_file, get_key_state, KeyInput, KeyedInfoFile, KeyedInfoFolder, OffSet};

fn file_info(iter: usize, size: usize, fwd: bool, bwd: bool, pfwd: bool, pbwd: bool) -> KeyedInfoFile {
    KeyedInfoFile {
        snd_iter: iter,
        actual_audio_file_list_size: size,
        is_cycle_forward_file_down: fwd,
        is_cycle_backward_file_down: bwd,
        prev_cycle_forward_file_down: pfwd,
        prev_cycle_backward_file_down: pbwd,
        audio_file_list: vec!["a.mp3".to_string(), "b.mp3".to_string(), "c.mp3".to_string()],
    }
}

fn dir_info(iter: usize, size: usize, fwd: bool, bwd: bool, pfwd: bool, pbwd: bool) -> KeyedInfoFolder {
    KeyedInfoFolder {
        snd_dir_iter: iter,
        actual_audio_dir_list_size: size,
        is_cycle_forward_dir_down: fwd,
        is_cycle_backward_dir_down: bwd,
        prev_cycle_forward_dir_down: pfwd,
        prev_cycle_backward_dir_down: pbwd,
        sound_dir_list: vec!["x".to_string(), "y".to_string(), "z".to_string()],
    }
}

#[test]
fn bar_adds_and_subtracts() {
    assert_eq!(bar(5, OffSet::Pos(7)), Some(12));
    assert_eq!(bar(5, OffSet::Neg(5)), Some(0));
    assert_eq!(bar(5, OffSet::Neg(6)), None);
    assert_eq!(bar(usize::MAX, OffSet::Pos(1)), None);
    assert_eq!(bar(usize::MAX - 1, OffSet::Pos(1)), Some(usize::MAX));
}

#[test]
fn bar_round_trip() {
    let m = bar(40, OffSet::Pos(2)).unwrap();
    assert_eq!(bar(m, OffSet::Neg(2)), Some(40));
}

#[test]
fn only_sound_keys_are_held() {
    assert!(get_key_state(KeyInput::NextSound));
    assert!(get_key_state(KeyInput::PrevSound));
    assert!(!get_key_state(KeyInput::NextLibrary));
    assert!(!get_key_state(KeyInput::Quit));
    assert!(!get_key_state(KeyInput::VolumeDown));
}

#[test]
fn file_cycles_forward_and_wraps() {
    let mut f = file_info(0, 3, true, false, false, false);
    assert_eq!(cycle_sound_file(&mut f), Some(1));
    assert_eq!(f.snd_iter, 1);
    let mut g = file_info(2, 3, true, false, false, false);
    assert_eq!(cycle_sound_file(&mut g), Some(0));
}

#[test]
fn file_cycle_backward_steps_back() {
    let mut f = file_info(1, 3, false, true, false, false);
    assert_eq!(cycle_sound_file(&mut f), Some(0));
}

#[test]
fn file_cycle_backward_from_first_goes_to_last() {
    let mut f = file_info(0, 3, false, true, false, false);
    assert_eq!(cycle_sound_file(&mut f), Some(2));
    assert_eq!(f.snd_iter, 2);
}

#[test]
fn file_cycle_forward_then_backward_returns() {
    for start in 0..3 {
        let mut f = file_info(start, 3, true, false, false, false);
        cycle_sound_file(&mut f);
        f.prev_cycle_forward_file_down = true;
        f.is_cycle_forward_file_down = false;
        f.is_cycle_backward_file_down = true;
        cycle_sound_file(&mut f);
        assert_eq!(f.snd_iter, start);
    }
}

#[test]
fn held_file_key_does_not_cycle() {
    let mut f = file_info(1, 3, true, false, true, false);
    assert_eq!(cycle_sound_file(&mut f), None);
    assert_eq!(f.snd_iter, 1);
}

#[test]
fn dir_cycle_steps_and_wraps() {
    let mut d = dir_info(0, 3, true, false, false, false);
    assert_eq!(cycle_sound_dir(&mut d), Some(1));
    assert_eq!(d.sound_dir_list[d.snd_dir_iter], "y");
    let mut e = dir_info(2, 3, true, false, false, false);
    assert_eq!(cycle_sound_dir(&mut e), Some(0));
    let mut h = dir_info(0, 3, false, true, false, false);
    assert_eq!(cycle_sound_dir(&mut h), Some(2));
    let mut b = dir_info(1, 3, false, true, false, false);
    assert_eq!(cycle_sound_dir(&mut b), Some(0));
    let mut n = dir_info(1, 3, false, false, false, false);
    assert_eq!(cycle_sound_dir(&mut n), None);
    assert_eq!(n.snd_dir_iter, 1);
}

#[test]
fn dir_cycle_forward_then_backward_returns() {
    let mut d = dir_info(1, 5, true, false, false, false);
    d.sound_dir_list = (0..5).map(|i| i.to_string()).collect();
    assert_eq!(cycle_sound_dir(&mut d), Some(2));
    d.prev_cycle_forward_dir_down = true;
    d.prev_cycle_backward_dir_down = false;
    d.is_cycle_forward_dir_down = false;
    d.is_cycle_backward_dir_down = true;
    assert_eq!(cycle_sound_dir(&mut d), Some(1));
}

#[test]
fn dir_cycle_with_zero_size_selects_first() {
    let mut d = dir_info(2, 0, true, false, false, false);
    assert_eq!(cycle_sound_dir(&mut d), Some(0));
}
