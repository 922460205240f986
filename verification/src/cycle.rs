use vstd::prelude::*;

verus! {

/// A signed step applied to an index.
pub enum OffSet {
    Neg(usize),
    Pos(usize),
}

/// What `bar` yields: `n` moved by the offset, when that stays within `usize`.
pub open spec fn bar_spec(n: usize, offset: OffSet) -> Option<usize> {
    match offset {
        OffSet::Pos(k) => if n + k <= usize::MAX { Some((n + k) as usize) } else { None },
        OffSet::Neg(k) => if n >= k { Some((n - k) as usize) } else { None },
    }
}

/// Moves `n` by `offset`, or `None` when the result would leave `usize`.
pub fn bar(n: usize, offset: OffSet) -> (r: Option<usize>)
    ensures
        r == bar_spec(n, offset),
{
    match offset {
        OffSet::Pos(k) => n.checked_add(k),
        OffSet::Neg(k) => n.checked_sub(k),
    }
}


/// The keys that the soundboard can react to.
pub enum KeyInput {
    NextSound,
    PrevSound,
    NextLibrary,
    PrevLibrary,
    PlaySound,
    ToggleBoard,
    ToggleLoop,
    ReloadSounds,
    ShowHelp,
    Quit,
    PitchUp,
    PitchDown,
    VolumeUp,
    VolumeDown,
}

/// Whether a key is reported as held: only the two sound-cycling keys are.
pub fn get_key_state(r: KeyInput) -> (held: bool)
    ensures
        held <==> (r is NextSound || r is PrevSound),
{
    match r {
        KeyInput::NextSound | KeyInput::PrevSound => true,
        _ => false,
    }
}

/// A key press is acted on when the key is down now and was not down at the previous poll.
pub open spec fn pressed_now(is_down: bool, prev_down: bool) -> bool {
    is_down && is_down != prev_down
}

/// The index one press leads to from `x` on a list of `size` entries: the next one, wrapping to
/// the first after the last, or the previous one, wrapping to the last before the first.
pub open spec fn cycle_index(x: usize, size: usize, forward: bool) -> int {
    if forward {
        (x + 1) % (size as int)
    } else {
        (x + size - 1) % (size as int)
    }
}

fn cycle_exec(x: usize, size: usize, forward: bool) -> (r: usize)
    requires
        size > 0,
    ensures
        r == cycle_index(x, size, forward),
        r < size,
{
    let m = x % size;
    proof {
        vstd::arithmetic::div_mod::lemma_mod_bound(x as int, size as int);
        vstd::arithmetic::div_mod::lemma_add_mod_noop_right(1, x as int, size as int);
        vstd::arithmetic::div_mod::lemma_add_mod_noop_right(size - 1, x as int, size as int);
    }
    if forward {
        if m + 1 == size {
            proof {
                vstd::arithmetic::div_mod::lemma_mod_add_multiples_vanish(0, size as int);
                vstd::arithmetic::div_mod::lemma_small_mod(0, size as nat);
            }
            0
        } else {
            proof {
                vstd::arithmetic::div_mod::lemma_small_mod((m + 1) as nat, size as nat);
            }
            m + 1
        }
    } else {
        if m == 0 {
            proof {
                vstd::arithmetic::div_mod::lemma_small_mod((size - 1) as nat, size as nat);
            }
            size - 1
        } else {
            proof {
                vstd::arithmetic::div_mod::lemma_mod_add_multiples_vanish(m - 1, size as int);
                vstd::arithmetic::div_mod::lemma_small_mod((m - 1) as nat, size as nat);
                assert(size - 1 + m == size + (m - 1));
            }
            m - 1
        }
    }
}

/// Selection state for cycling through the sound files of one library.
pub struct KeyedInfoFile {
    pub snd_iter: usize,
    pub actual_audio_file_list_size: usize,
    pub is_cycle_forward_file_down: bool,
    pub is_cycle_backward_file_down: bool,
    pub prev_cycle_forward_file_down: bool,
    pub prev_cycle_backward_file_down: bool,
    pub audio_file_list: Vec<String>,
}

impl KeyedInfoFile {
    /// Whether either file-cycling key was just pressed.
    pub open spec fn fires(&self) -> bool {
        pressed_now(self.is_cycle_forward_file_down, self.prev_cycle_forward_file_down)
            || pressed_now(self.is_cycle_backward_file_down, self.prev_cycle_backward_file_down)
    }

    /// The file index a press leads to: one step forward when the forward key is down, one step
    /// back otherwise, wrapping at either end of the list.
    pub open spec fn next_index(&self) -> int {
        cycle_index(
            self.snd_iter,
            self.actual_audio_file_list_size,
            self.is_cycle_forward_file_down,
        )
    }
}

/// On a fresh press of a file-cycling key, selects the next sound file (forward key down) or
/// the previous one (otherwise), wrapping at either end, and returns the index of the file to
/// announce; otherwise changes nothing and returns `None`. A press on a list size of `0` is
/// left out: the step is taken modulo the size.
pub fn cycle_sound_file(keyed_infos_file: &mut KeyedInfoFile) -> (announced: Option<usize>)
    requires
        old(keyed_infos_file).fires() ==> {
            &&& old(keyed_infos_file).actual_audio_file_list_size > 0
            &&& old(keyed_infos_file).next_index() < old(keyed_infos_file).audio_file_list.len()
        },
    ensures
        old(keyed_infos_file).fires() ==> {
            &&& final(keyed_infos_file).snd_iter == old(keyed_infos_file).next_index()
            &&& final(keyed_infos_file).snd_iter < old(keyed_infos_file).actual_audio_file_list_size
            &&& announced == Some(final(keyed_infos_file).snd_iter)
        },
        !old(keyed_infos_file).fires() ==> {
            &&& final(keyed_infos_file).snd_iter == old(keyed_infos_file).snd_iter
            &&& announced is None
        },
        final(keyed_infos_file).actual_audio_file_list_size == old(keyed_infos_file).actual_audio_file_list_size,
        final(keyed_infos_file).is_cycle_forward_file_down == old(keyed_infos_file).is_cycle_forward_file_down,
        final(keyed_infos_file).is_cycle_backward_file_down == old(keyed_infos_file).is_cycle_backward_file_down,
        final(keyed_infos_file).prev_cycle_forward_file_down == old(keyed_infos_file).prev_cycle_forward_file_down,
        final(keyed_infos_file).prev_cycle_backward_file_down == old(keyed_infos_file).prev_cycle_backward_file_down,
        final(keyed_infos_file).audio_file_list@ == old(keyed_infos_file).audio_file_list@,
{
    let fwd = keyed_infos_file.is_cycle_forward_file_down;
    let bwd = keyed_infos_file.is_cycle_backward_file_down;
    if fwd && fwd != keyed_infos_file.prev_cycle_forward_file_down || bwd && bwd
        != keyed_infos_file.prev_cycle_backward_file_down {
        keyed_infos_file.snd_iter = cycle_exec(
            keyed_infos_file.snd_iter,
            keyed_infos_file.actual_audio_file_list_size,
            fwd,
        );
        Some(keyed_infos_file.snd_iter)
    } else {
        None
    }
}

/// Selection state for cycling through the sound libraries.
pub struct KeyedInfoFolder {
    pub snd_dir_iter: usize,
    pub actual_audio_dir_list_size: usize,
    pub is_cycle_forward_dir_down: bool,
    pub is_cycle_backward_dir_down: bool,
    pub prev_cycle_forward_dir_down: bool,
    pub prev_cycle_backward_dir_down: bool,
    pub sound_dir_list: Vec<String>,
}

impl KeyedInfoFolder {
    /// Whether either library-cycling key was just pressed.
    pub open spec fn fires(&self) -> bool {
        pressed_now(self.is_cycle_forward_dir_down, self.prev_cycle_forward_dir_down)
            || pressed_now(self.is_cycle_backward_dir_down, self.prev_cycle_backward_dir_down)
    }

    /// The library index a press leads to: one step forward when the forward key is down, one
    /// step back otherwise, wrapping at either end of the list; with a list size of `0` the
    /// first library.
    pub open spec fn next_index(&self) -> int {
        if self.actual_audio_dir_list_size == 0 {
            0
        } else {
            cycle_index(
                self.snd_dir_iter,
                self.actual_audio_dir_list_size,
                self.is_cycle_forward_dir_down,
            )
        }
    }
}

/// On a fresh press of a library-cycling key, selects the next library (forward key down) or
/// the previous one (otherwise), wrapping at either end (the first library when the list size
/// is `0`), and returns the index of the library to
/// announce; otherwise changes nothing and returns `None`.
pub fn cycle_sound_dir(keyed_infos_folder: &mut KeyedInfoFolder) -> (announced: Option<usize>)
    requires
        old(keyed_infos_folder).fires() ==> old(keyed_infos_folder).next_index()
            < old(keyed_infos_folder).sound_dir_list.len(),
    ensures
        old(keyed_infos_folder).fires() ==> {
            &&& final(keyed_infos_folder).snd_dir_iter == old(keyed_infos_folder).next_index()
            &&& (old(keyed_infos_folder).actual_audio_dir_list_size > 0 ==> final(keyed_infos_folder).snd_dir_iter
                < old(keyed_infos_folder).actual_audio_dir_list_size)
            &&& announced == Some(final(keyed_infos_folder).snd_dir_iter)
        },
        !old(keyed_infos_folder).fires() ==> {
            &&& final(keyed_infos_folder).snd_dir_iter == old(keyed_infos_folder).snd_dir_iter
            &&& announced is None
        },
        final(keyed_infos_folder).actual_audio_dir_list_size == old(keyed_infos_folder).actual_audio_dir_list_size,
        final(keyed_infos_folder).is_cycle_forward_dir_down == old(keyed_infos_folder).is_cycle_forward_dir_down,
        final(keyed_infos_folder).is_cycle_backward_dir_down == old(keyed_infos_folder).is_cycle_backward_dir_down,
        final(keyed_infos_folder).prev_cycle_forward_dir_down == old(keyed_infos_folder).prev_cycle_forward_dir_down,
        final(keyed_infos_folder).prev_cycle_backward_dir_down == old(keyed_infos_folder).prev_cycle_backward_dir_down,
        final(keyed_infos_folder).sound_dir_list@ == old(keyed_infos_folder).sound_dir_list@,
{
    let fwd = keyed_infos_folder.is_cycle_forward_dir_down;
    let bwd = keyed_infos_folder.is_cycle_backward_dir_down;
    if fwd && fwd != keyed_infos_folder.prev_cycle_forward_dir_down || bwd && bwd
        != keyed_infos_folder.prev_cycle_backward_dir_down {
        keyed_infos_folder.snd_dir_iter = if keyed_infos_folder.actual_audio_dir_list_size == 0 {
            0
        } else {
            cycle_exec(
                keyed_infos_folder.snd_dir_iter,
                keyed_infos_folder.actual_audio_dir_list_size,
                fwd,
            )
        };
        Some(keyed_infos_folder.snd_dir_iter)
    } else {
        None
    }
}

/// Moving forward by `k` and then back by `k` gives `n` back, and so does moving back and then
/// forward, whenever the first move succeeds.
pub proof fn lemma_bar_round_trip(n: usize, k: usize)
    ensures
        bar_spec(n, OffSet::Pos(k)) matches Some(m) ==> bar_spec(m, OffSet::Neg(k)) == Some(n),
        bar_spec(n, OffSet::Neg(k)) matches Some(m) ==> bar_spec(m, OffSet::Pos(k)) == Some(n),
{
}

/// A backward press undoes a forward press and a forward press undoes a backward press, at
/// either end of the list too; every press lands on the list.
pub proof fn lemma_cycle_inverse(x: usize, size: usize)
    requires
        x < size,
    ensures
        0 <= cycle_index(x, size, true) < size,
        0 <= cycle_index(x, size, false) < size,
        cycle_index((cycle_index(x, size, true)) as usize, size, false) == x,
        cycle_index((cycle_index(x, size, false)) as usize, size, true) == x,
{
    let s = size as int;
    let f = cycle_index(x, size, true);
    let b = cycle_index(x, size, false);
    if x + 1 < size {
        vstd::arithmetic::div_mod::lemma_small_mod((x + 1) as nat, size as nat);
    } else {
        vstd::arithmetic::div_mod::lemma_mod_add_multiples_vanish(0, s);
        vstd::arithmetic::div_mod::lemma_small_mod(0, size as nat);
    }
    if x == 0 {
        vstd::arithmetic::div_mod::lemma_small_mod((size - 1) as nat, size as nat);
    } else {
        vstd::arithmetic::div_mod::lemma_mod_add_multiples_vanish(x - 1, s);
        vstd::arithmetic::div_mod::lemma_small_mod((x - 1) as nat, size as nat);
        assert(x + s - 1 == s + (x - 1));
    }
    // forward, then back
    if f == 0 {
        vstd::arithmetic::div_mod::lemma_small_mod((size - 1) as nat, size as nat);
    } else {
        vstd::arithmetic::div_mod::lemma_mod_add_multiples_vanish(f - 1, s);
        vstd::arithmetic::div_mod::lemma_small_mod((f - 1) as nat, size as nat);
        assert(f + s - 1 == s + (f - 1));
    }
    // back, then forward
    if b + 1 < size {
        vstd::arithmetic::div_mod::lemma_small_mod((b + 1) as nat, size as nat);
    } else {
        vstd::arithmetic::div_mod::lemma_mod_add_multiples_vanish(0, s);
        vstd::arithmetic::div_mod::lemma_small_mod(0, size as nat);
    }
}

} // verus!
