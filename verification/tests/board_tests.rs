use soundboard::board::{KeySample, Soundboard, VOICE_KEY};

fn names(prefix: &str, n: usize) -> Vec<String> {
    (0..n).map(|i| format!("{}{}", prefix, i)).collect()
}

fn keys(file_forward: bool, file_backward: bool, dir_forward: bool, dir_backward: bool, voice: bool) -> KeySample {
    KeySample { voice, file_forward, file_backward, dir_backward, dir_forward }
}

fn none() -> KeySample {
    keys(false, false, false, false, false)
}

#[test]
fn transmit_key_is_left_alt() {
    assert_eq!(VOICE_KEY, 0xA4);
}

#[test]
fn new_board_starts_at_first_entries() {
    let b = Soundboard::new(names("dir", 2), names("f", 3));
    assert_eq!(b.file_iter, 0);
    assert_eq!(b.file_max, 2);
    assert_eq!(b.dir_iter, 0);
    assert_eq!(b.dir_max, 1);
}

#[test]
fn forward_press_moves_and_wraps() {
    let mut b = Soundboard::new(names("dir", 1), names("f", 3));
    let k = keys(true, false, false, false, false);
    assert_eq!(b.poll(&k).announced, vec![1]);
    b.poll(&none());
    assert_eq!(b.poll(&k).announced, vec![2]);
    b.poll(&none());
    assert_eq!(b.poll(&k).announced, vec![0]);
}

#[test]
fn backward_press_from_first_goes_to_last() {
    let mut b = Soundboard::new(names("dir", 1), names("f", 3));
    assert_eq!(b.poll(&keys(false, true, false, false, false)).announced, vec![2]);
    assert_eq!(b.file_iter, 2);
}

#[test]
fn held_key_does_not_repeat() {
    let mut b = Soundboard::new(names("dir", 1), names("f", 3));
    let k = keys(true, false, false, false, false);
    assert_eq!(b.poll(&k).announced, vec![1]);
    assert_eq!(b.poll(&k).announced, Vec::<usize>::new());
    assert_eq!(b.file_iter, 1);
}

#[test]
fn both_keys_in_one_poll_cancel() {
    let mut b = Soundboard::new(names("dir", 1), names("f", 4));
    assert_eq!(b.poll(&keys(true, true, false, false, false)).announced, vec![1, 0]);
    assert_eq!(b.file_iter, 0);
}

#[test]
fn back_after_forward_poll_returns() {
    let mut b = Soundboard::new(names("dir", 1), names("f", 3));
    b.poll(&keys(true, false, false, false, false));
    b.poll(&keys(false, true, false, false, false));
    assert_eq!(b.file_iter, 0);
}

#[test]
fn full_cycle_returns_to_start() {
    let mut b = Soundboard::new(names("dir", 1), names("f", 5));
    for _ in 0..5 {
        b.poll(&keys(true, false, false, false, false));
        b.poll(&none());
    }
    assert_eq!(b.file_iter, 0);
}

#[test]
fn library_press_loads_the_new_library() {
    let mut b = Soundboard::new(names("dir", 3), names("f", 2));
    let plan = b.poll(&keys(false, false, true, false, false));
    assert_eq!(plan.library_loads, vec![1]);
    assert_eq!(b.dir_iter, 1);
    assert_eq!(b.library_path(1), "dir1/");
    b.load_files(names("g", 4));
    assert_eq!(b.file_iter, 0);
    assert_eq!(b.file_max, 3);
    assert_eq!(b.audio_file_list[3], "g3");
    let back = b.poll(&keys(false, false, false, true, false));
    assert_eq!(back.library_loads, vec![0]);
    assert_eq!(b.dir_iter, 0);
    b.poll(&none());
    assert_eq!(b.poll(&keys(false, false, false, true, false)).library_loads, vec![2]);
    b.poll(&none());
    assert_eq!(b.poll(&keys(false, false, true, false, false)).library_loads, vec![0]);
}

#[test]
fn library_back_after_forward_returns() {
    let mut b = Soundboard::new(names("dir", 5), names("f", 1));
    b.dir_iter = 1;
    b.poll(&keys(false, false, true, false, false));
    b.poll(&keys(false, false, false, true, false));
    assert_eq!(b.dir_iter, 1);
}

#[test]
fn playback_arms_on_voice_change() {
    let mut b = Soundboard::new(names("dir", 1), names("f", 1));
    let talk = keys(false, false, false, false, true);
    assert!(b.poll(&talk).playback_armed);
    assert!(!b.poll(&talk).playback_armed);
    assert!(b.poll(&none()).playback_armed);
}
