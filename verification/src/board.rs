use vstd::prelude::*;
use crate::cycle::pressed_now;

verus! {

/// Virtual-key code of the transmit (push-to-talk) key, Left Alt (`VK_LMENU`).
pub const VOICE_KEY: u32 = 0xA4;

/// Virtual-key code of the "next sound" key, Numpad 0.
pub const FILE_FORWARD_KEY: u32 = 0x60;

/// Virtual-key code of the "previous sound" key, Numpad 1.
pub const FILE_BACKWARD_KEY: u32 = 0x61;

/// Virtual-key code of the "previous library" key, Numpad 4.
pub const DIR_BACKWARD_KEY: u32 = 0x64;

/// Virtual-key code of the "next library" key, Numpad 5.
pub const DIR_FORWARD_KEY: u32 = 0x65;

/// The keys that one poll of the keyboard found held down.
pub struct KeySample {
    pub voice: bool,
    pub file_forward: bool,
    pub file_backward: bool,
    pub dir_backward: bool,
    pub dir_forward: bool,
}

/// What one poll of the keyboard calls for.
pub struct PollPlan {
    /// The sound files selected by file presses, in order, to be announced.
    pub announced: Vec<usize>,
    /// The libraries selected by library presses, in order, whose files are to be loaded.
    pub library_loads: Vec<usize>,
    /// Whether holding the transmit key now starts playback.
    pub playback_armed: bool,
}

/// The soundboard's selection: a list of libraries (directories) and the sound files of one
/// of them, the selected entry of each, and the keys that were down at the previous poll.
pub struct Soundboard {
    /// Index of the selected sound file.
    pub file_iter: usize,
    /// Last valid index into `audio_file_list`.
    pub file_max: usize,
    /// Index of the selected library.
    pub dir_iter: usize,
    /// Last valid index into `sound_dir_list`.
    pub dir_max: usize,
    pub prev_file_forward: bool,
    pub prev_file_backward: bool,
    pub prev_dir_forward: bool,
    pub prev_dir_backward: bool,
    pub prev_voice: bool,
    pub audio_file_list: Vec<String>,
    pub sound_dir_list: Vec<String>,
}

/// The file or library index that a forward press leads to: the next one, or the first after
/// the last.
pub open spec fn forward_target(x: int, max: int) -> int {
    if x + 1 > max {
        0
    } else {
        x + 1
    }
}

/// The file or library index that a backward press leads to: the previous one, or the last
/// before the first.
pub open spec fn backward_target(x: int, max: int) -> int {
    if x - 1 < 0 {
        max
    } else {
        x - 1
    }
}

/// Largest number of entries a list may have for its last index to fit an `i32`.
pub open spec fn max_list_len() -> int {
    i32::MAX as int + 1
}

/// Whether a list of `len` entries can serve as a sound or library list.
pub fn max_len_fits(len: usize) -> (fits: bool)
    ensures
        fits == (len <= max_list_len()),
{
    len <= 0x8000_0000
}

impl Soundboard {
    /// The selection is consistent: both indices point into their lists, whose last indices fit
    /// an `i32`.
    pub open spec fn wf(&self) -> bool {
        &&& self.file_iter <= self.file_max
        &&& self.file_max + 1 == self.audio_file_list.len()
        &&& self.dir_iter <= self.dir_max
        &&& self.dir_max + 1 == self.sound_dir_list.len()
        &&& self.file_max <= i32::MAX
        &&& self.dir_max <= i32::MAX
    }

    /// The file index after the file keys of `keys` are handled: a fresh forward press moves
    /// forward, then a fresh backward press moves back from there.
    pub open spec fn file_index_after(&self, keys: KeySample) -> int {
        let a: int = if pressed_now(keys.file_forward, self.prev_file_forward) {
            forward_target(self.file_iter as int, self.file_max as int)
        } else {
            self.file_iter as int
        };
        if pressed_now(keys.file_backward, self.prev_file_backward) {
            backward_target(a, self.file_max as int)
        } else {
            a
        }
    }

    /// The file indices announced while the file keys of `keys` are handled, in order.
    pub open spec fn file_announcements(&self, keys: KeySample) -> Seq<usize> {
        let a: int = if pressed_now(keys.file_forward, self.prev_file_forward) {
            forward_target(self.file_iter as int, self.file_max as int)
        } else {
            self.file_iter as int
        };
        let first: Seq<usize> = if pressed_now(keys.file_forward, self.prev_file_forward) {
            seq![a as usize]
        } else {
            seq![]
        };
        let second: Seq<usize> = if pressed_now(keys.file_backward, self.prev_file_backward) {
            seq![backward_target(a, self.file_max as int) as usize]
        } else {
            seq![]
        };
        first + second
    }

    /// The library index after the library keys of `keys` are handled: a fresh forward press
    /// selects the next library, then a fresh backward press the previous one, each wrapping at
    /// the ends of the list.
    pub open spec fn dir_index_after(&self, keys: KeySample) -> int {
        let a: int = if pressed_now(keys.dir_forward, self.prev_dir_forward) {
            forward_target(self.dir_iter as int, self.dir_max as int)
        } else {
            self.dir_iter as int
        };
        if pressed_now(keys.dir_backward, self.prev_dir_backward) {
            backward_target(a, self.dir_max as int)
        } else {
            a
        }
    }

    /// The libraries whose sound files must be loaded while the library keys of `keys` are
    /// handled, in order: the library each press selects.
    pub open spec fn library_loads_spec(&self, keys: KeySample) -> Seq<usize> {
        let a: int = if pressed_now(keys.dir_forward, self.prev_dir_forward) {
            forward_target(self.dir_iter as int, self.dir_max as int)
        } else {
            self.dir_iter as int
        };
        let first: Seq<usize> = if pressed_now(keys.dir_forward, self.prev_dir_forward) {
            seq![a as usize]
        } else {
            seq![]
        };
        let second: Seq<usize> = if pressed_now(keys.dir_backward, self.prev_dir_backward) {
            seq![backward_target(a, self.dir_max as int) as usize]
        } else {
            seq![]
        };
        first + second
    }

    /// A board on the first library and its first sound file, with no key held.
    pub fn new(sound_dir_list: Vec<String>, audio_file_list: Vec<String>) -> (board: Soundboard)
        requires
            1 <= sound_dir_list.len() <= max_list_len(),
            1 <= audio_file_list.len() <= max_list_len(),
        ensures
            board.wf(),
            board.file_iter == 0,
            board.dir_iter == 0,
            board.audio_file_list@ == audio_file_list@,
            board.sound_dir_list@ == sound_dir_list@,
            !board.prev_file_forward && !board.prev_file_backward,
            !board.prev_dir_forward && !board.prev_dir_backward,
            !board.prev_voice,
    {
        let file_max = audio_file_list.len() - 1;
        let dir_max = sound_dir_list.len() - 1;
        Soundboard {
            file_iter: 0,
            file_max,
            dir_iter: 0,
            dir_max,
            prev_file_forward: false,
            prev_file_backward: false,
            prev_dir_forward: false,
            prev_dir_backward: false,
            prev_voice: false,
            audio_file_list,
            sound_dir_list,
        }
    }

    /// Handles one poll of the keyboard. The file keys come first: a fresh forward press
    /// selects the next sound file and a fresh backward press the previous one, each wrapping at
    /// the ends and each announced. The library keys follow in the same way, and each library
    /// they select is to be loaded (see `library_path` and `load_files`). Playback is armed when
    /// the transmit key changed since the previous poll. The keys of this poll then become the
    /// previous keys.
    pub fn poll(&mut self, keys: &KeySample) -> (plan: PollPlan)
        requires
            old(self).wf(),
        ensures
            final(self).wf(),
            final(self).file_iter == old(self).file_index_after(*keys),
            plan.announced@ == old(self).file_announcements(*keys),
            final(self).dir_iter == old(self).dir_index_after(*keys),
            plan.library_loads@ == old(self).library_loads_spec(*keys),
            plan.playback_armed == (old(self).prev_voice != keys.voice),
            final(self).prev_file_forward == keys.file_forward,
            final(self).prev_file_backward == keys.file_backward,
            final(self).prev_dir_forward == keys.dir_forward,
            final(self).prev_dir_backward == keys.dir_backward,
            final(self).prev_voice == keys.voice,
            final(self).file_max == old(self).file_max,
            final(self).dir_max == old(self).dir_max,
            final(self).audio_file_list@ == old(self).audio_file_list@,
            final(self).sound_dir_list@ == old(self).sound_dir_list@,
    {
        let mut announced: Vec<usize> = Vec::new();
        let mut temp: usize = self.file_iter;
        if keys.file_forward && keys.file_forward != self.prev_file_forward {
            temp = if temp + 1 > self.file_max { 0 } else { temp + 1 };
            announced.push(temp);
        }
        if keys.file_backward && keys.file_backward != self.prev_file_backward {
            temp = if temp == 0 { self.file_max } else { temp - 1 };
            announced.push(temp);
        }
        self.file_iter = temp;
        let mut library_loads: Vec<usize> = Vec::new();
        let mut dir: usize = self.dir_iter;
        if keys.dir_forward && keys.dir_forward != self.prev_dir_forward {
            dir = if dir + 1 > self.dir_max { 0 } else { dir + 1 };
            library_loads.push(dir);
        }
        if keys.dir_backward && keys.dir_backward != self.prev_dir_backward {
            dir = if dir == 0 { self.dir_max } else { dir - 1 };
            library_loads.push(dir);
        }
        self.dir_iter = dir;
        let playback_armed = self.prev_voice != keys.voice;
        proof {
            assert(announced@ =~= old(self).file_announcements(*keys));
            assert(library_loads@ =~= old(self).library_loads_spec(*keys));
        }
        self.prev_file_forward = keys.file_forward;
        self.prev_file_backward = keys.file_backward;
        self.prev_dir_forward = keys.dir_forward;
        self.prev_dir_backward = keys.dir_backward;
        self.prev_voice = keys.voice;
        PollPlan { announced, library_loads, playback_armed }
    }

    /// The directory whose files make up library `d`: its name with a trailing `/`.
    pub fn library_path(&self, d: usize) -> (path: String)
        requires
            d < self.sound_dir_list@.len(),
        ensures
            path@ == self.sound_dir_list@[d as int]@ + seq!['/'],
    {
        let mut path = self.sound_dir_list[d].clone();
        path.append("/");
        proof {
            reveal_strlit("/");
        }
        path
    }

    /// Loads the sound files of a library: `files` becomes the sound list and its first file is
    /// selected.
    pub fn load_files(&mut self, files: Vec<String>)
        requires
            old(self).wf(),
            1 <= files.len() <= max_list_len(),
        ensures
            final(self).wf(),
            final(self).audio_file_list@ == files@,
            final(self).file_max == files.len() - 1,
            final(self).file_iter == 0,
            final(self).dir_iter == old(self).dir_iter,
            final(self).dir_max == old(self).dir_max,
            final(self).prev_file_forward == old(self).prev_file_forward,
            final(self).prev_file_backward == old(self).prev_file_backward,
            final(self).prev_dir_forward == old(self).prev_dir_forward,
            final(self).prev_dir_backward == old(self).prev_dir_backward,
            final(self).prev_voice == old(self).prev_voice,
            final(self).sound_dir_list@ == old(self).sound_dir_list@,
    {
        self.file_max = files.len() - 1;
        self.audio_file_list = files;
        self.file_iter = 0;
    }
}

/// `n` forward presses from `x` on a list whose last index is `max`.
pub open spec fn forward_times(x: int, max: int, n: nat) -> int
    decreases n,
{
    if n == 0 {
        x
    } else {
        forward_target(forward_times(x, max, (n - 1) as nat), max)
    }
}

/// For sound files and libraries alike, a backward press undoes a forward press and a forward
/// press undoes a backward press, at either end of the list too.
pub proof fn lemma_forward_backward_inverse(x: int, max: int)
    requires
        0 <= x <= max,
    ensures
        backward_target(forward_target(x, max), max) == x,
        forward_target(backward_target(x, max), max) == x,
{
}

/// Both targets stay on the list.
pub proof fn lemma_targets_in_range(x: int, max: int)
    requires
        0 <= x <= max,
    ensures
        0 <= forward_target(x, max) <= max,
        0 <= backward_target(x, max) <= max,
{
}

proof fn lemma_forward_times_mod(x: int, max: int, n: nat)
    requires
        0 <= x <= max,
    ensures
        forward_times(x, max, n) == (x + n) % (max + 1),
    decreases n,
{
    if n == 0 {
        vstd::arithmetic::div_mod::lemma_small_mod(x as nat, (max + 1) as nat);
    } else {
        lemma_forward_times_mod(x, max, (n - 1) as nat);
        let m = max + 1;
        let y = (x + n - 1) % m;
        vstd::arithmetic::div_mod::lemma_mod_bound(x + n - 1, m);
        vstd::arithmetic::div_mod::lemma_add_mod_noop_right(1, x + n - 1, m);
        assert((1 + y) % m == (x + n) % m);
        if y + 1 < m {
            vstd::arithmetic::div_mod::lemma_small_mod((y + 1) as nat, m as nat);
        } else {
            vstd::arithmetic::div_mod::lemma_mod_add_multiples_vanish(0, m);
            vstd::arithmetic::div_mod::lemma_small_mod(0, m as nat);
        }
    }
}

/// Pressing forward once per entry of the list comes back to where one started.
pub proof fn lemma_full_cycle_returns(x: int, max: int)
    requires
        0 <= x <= max,
    ensures
        forward_times(x, max, (max + 1) as nat) == x,
{
    lemma_forward_times_mod(x, max, (max + 1) as nat);
    vstd::arithmetic::div_mod::lemma_mod_add_multiples_vanish(x, max + 1);
    vstd::arithmetic::div_mod::lemma_small_mod(x as nat, (max + 1) as nat);
}

/// Keys that are not freshly pressed (up, or held since the previous poll) leave the file
/// selection alone and announce nothing.
pub proof fn lemma_held_keys_do_nothing(s: Soundboard, keys: KeySample)
    requires
        !pressed_now(keys.file_forward, s.prev_file_forward),
        !pressed_now(keys.file_backward, s.prev_file_backward),
    ensures
        s.file_index_after(keys) == s.file_iter,
        s.file_announcements(keys) == Seq::<usize>::empty(),
{
    assert(s.file_announcements(keys) =~= Seq::<usize>::empty());
}

/// Fresh presses of both file keys in one poll leave the selection where it was.
pub proof fn lemma_both_keys_cancel(s: Soundboard, keys: KeySample)
    requires
        s.wf(),
        pressed_now(keys.file_forward, s.prev_file_forward),
        pressed_now(keys.file_backward, s.prev_file_backward),
    ensures
        s.file_index_after(keys) == s.file_iter,
{
    lemma_forward_backward_inverse(s.file_iter as int, s.file_max as int);
}

/// A poll with a fresh forward press, followed by a poll with a fresh backward press, brings the
/// file selection back: `s1` is the board after the first poll.
pub proof fn lemma_back_after_forward_poll(s: Soundboard, k1: KeySample, s1: Soundboard, k2: KeySample)
    requires
        s.wf(),
        pressed_now(k1.file_forward, s.prev_file_forward),
        !pressed_now(k1.file_backward, s.prev_file_backward),
        s1.file_iter == s.file_index_after(k1),
        s1.file_max == s.file_max,
        s1.prev_file_forward == k1.file_forward,
        s1.prev_file_backward == k1.file_backward,
        !pressed_now(k2.file_forward, s1.prev_file_forward),
        pressed_now(k2.file_backward, s1.prev_file_backward),
    ensures
        s1.file_index_after(k2) == s.file_iter,
{
    lemma_forward_backward_inverse(s.file_iter as int, s.file_max as int);
}

/// The last library a poll calls to load is the library selected after the poll, so the sound
/// files loaded are those of the newly selected library.
pub proof fn lemma_loaded_library_is_selected(s: Soundboard, keys: KeySample)
    requires
        s.library_loads_spec(keys).len() > 0,
    ensures
        s.library_loads_spec(keys).last() == s.dir_index_after(keys),
        s.wf() ==> 0 <= s.dir_index_after(keys) <= s.dir_max,
{
    let a: int = if pressed_now(keys.dir_forward, s.prev_dir_forward) {
        forward_target(s.dir_iter as int, s.dir_max as int)
    } else {
        s.dir_iter as int
    };
    if s.wf() {
        lemma_targets_in_range(s.dir_iter as int, s.dir_max as int);
        lemma_targets_in_range(a, s.dir_max as int);
    }
}

/// A poll with a fresh forward library press, followed by a poll with a fresh backward library
/// press, brings the library selection back: `s1` is the board after the first poll.
pub proof fn lemma_library_back_after_forward_poll(s: Soundboard, k1: KeySample, s1: Soundboard, k2: KeySample)
    requires
        s.wf(),
        pressed_now(k1.dir_forward, s.prev_dir_forward),
        !pressed_now(k1.dir_backward, s.prev_dir_backward),
        s1.dir_iter == s.dir_index_after(k1),
        s1.dir_max == s.dir_max,
        s1.prev_dir_forward == k1.dir_forward,
        s1.prev_dir_backward == k1.dir_backward,
        !pressed_now(k2.dir_forward, s1.prev_dir_forward),
        pressed_now(k2.dir_backward, s1.prev_dir_backward),
    ensures
        s1.dir_index_after(k2) == s.dir_iter,
{
    lemma_forward_backward_inverse(s.dir_iter as int, s.dir_max as int);
}

/// Library keys that are not freshly pressed (up, or held since the previous poll) leave the
/// library selection alone and ask to load no library.
pub proof fn lemma_held_library_keys_do_nothing(s: Soundboard, keys: KeySample)
    requires
        !pressed_now(keys.dir_forward, s.prev_dir_forward),
        !pressed_now(keys.dir_backward, s.prev_dir_backward),
    ensures
        s.dir_index_after(keys) == s.dir_iter,
        s.library_loads_spec(keys).len() == 0,
{
    assert(s.library_loads_spec(keys) =~= Seq::<usize>::empty());
}

/// A poll asks to load exactly one library per fresh library-key press, and exactly one file
/// is announced per fresh file-key press; every library asked for and every file announced is
/// on its list.
pub proof fn lemma_one_action_per_press(s: Soundboard, keys: KeySample)
    requires
        s.wf(),
    ensures
        s.library_loads_spec(keys).len() == (if pressed_now(keys.dir_forward, s.prev_dir_forward) {
            1int
        } else {
            0int
        }) + (if pressed_now(keys.dir_backward, s.prev_dir_backward) {
            1int
        } else {
            0int
        }),
        s.file_announcements(keys).len() == (if pressed_now(keys.file_forward, s.prev_file_forward) {
            1int
        } else {
            0int
        }) + (if pressed_now(keys.file_backward, s.prev_file_backward) {
            1int
        } else {
            0int
        }),
        forall|k: int|
            0 <= k < s.library_loads_spec(keys).len() ==> #[trigger] s.library_loads_spec(keys)[k]
                <= s.dir_max,
        forall|k: int|
            0 <= k < s.file_announcements(keys).len() ==> #[trigger] s.file_announcements(keys)[k]
                <= s.file_max,
{
    lemma_targets_in_range(s.dir_iter as int, s.dir_max as int);
    lemma_targets_in_range(forward_target(s.dir_iter as int, s.dir_max as int), s.dir_max as int);
    lemma_targets_in_range(s.file_iter as int, s.file_max as int);
    lemma_targets_in_range(forward_target(s.file_iter as int, s.file_max as int), s.file_max as int);
}

/// A single fresh press of the next-library key, with no fresh press of the previous-library
/// key, selects the next library (the first after the last) and asks to load exactly it; a
/// single fresh press of the previous-library key selects the previous one (the last before the
/// first) likewise.
pub proof fn lemma_single_library_press(s: Soundboard, keys: KeySample)
    requires
        s.wf(),
    ensures
        pressed_now(keys.dir_forward, s.prev_dir_forward) && !pressed_now(
            keys.dir_backward,
            s.prev_dir_backward,
        ) ==> {
            &&& s.dir_index_after(keys) == (s.dir_iter + 1) % (s.dir_max + 1)
            &&& s.library_loads_spec(keys) == seq![((s.dir_iter + 1) % (s.dir_max + 1)) as usize]
        },
        !pressed_now(keys.dir_forward, s.prev_dir_forward) && pressed_now(
            keys.dir_backward,
            s.prev_dir_backward,
        ) ==> {
            &&& s.dir_index_after(keys) == (s.dir_iter + s.dir_max) % (s.dir_max + 1)
            &&& s.library_loads_spec(keys) == seq![((s.dir_iter + s.dir_max) % (s.dir_max + 1)) as usize]
        },
{
    let m = s.dir_max + 1;
    let x = s.dir_iter as int;
    if x + 1 < m {
        vstd::arithmetic::div_mod::lemma_small_mod((x + 1) as nat, m as nat);
    } else {
        vstd::arithmetic::div_mod::lemma_mod_add_multiples_vanish(0, m);
        vstd::arithmetic::div_mod::lemma_small_mod(0, m as nat);
    }
    if x == 0 {
        vstd::arithmetic::div_mod::lemma_small_mod(s.dir_max as nat, m as nat);
    } else {
        vstd::arithmetic::div_mod::lemma_mod_add_multiples_vanish(x - 1, m);
        vstd::arithmetic::div_mod::lemma_small_mod((x - 1) as nat, m as nat);
    }
    if pressed_now(keys.dir_forward, s.prev_dir_forward) && !pressed_now(keys.dir_backward, s.prev_dir_backward) {
        assert(s.library_loads_spec(keys) =~= seq![((x + 1) % m) as usize]);
    }
    if !pressed_now(keys.dir_forward, s.prev_dir_forward) && pressed_now(keys.dir_backward, s.prev_dir_backward) {
        assert(s.library_loads_spec(keys) =~= seq![((x + s.dir_max) % m) as usize]);
    }
}

} // verus!
