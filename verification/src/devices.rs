use vstd::prelude::*;

verus! {

/// Whether a key-state word reports the key as held: its most significant bit is set.
pub fn is_key_down(key_state: i16) -> (down: bool)
    ensures
        down == (key_state < 0),
{
    let bits = key_state as u16;
    assert(((key_state as u16) & 0x8000u16 != 0) == (key_state < 0)) by (bit_vector);
    bits & 0x8000u16 != 0
}

/// The index of the last name in the first `k` names equal to `wanted`, or `0` when none is.
pub open spec fn last_match_upto(names: Seq<String>, wanted: Seq<char>, k: int) -> int
    decreases k,
{
    if k <= 0 {
        0
    } else if names[k - 1]@ == wanted {
        k - 1
    } else {
        last_match_upto(names, wanted, k - 1)
    }
}

/// The index of the last device named `wanted`, or `0` when no device has that name.
pub fn last_device_named(names: &Vec<String>, wanted: &String) -> (idx: usize)
    ensures
        idx == last_match_upto(names@, wanted@, names@.len() as int),
        names@.len() > 0 ==> idx < names@.len(),
{
    let mut found: usize = 0;
    let mut i: usize = 0;
    while i < names.len()
        invariant
            i <= names@.len(),
            found == last_match_upto(names@, wanted@, i as int),
            i > 0 ==> found < i,
        decreases names@.len() - i,
    {
        if names[i] == *wanted {
            found = i;
        }
        i = i + 1;
    }
    found
}

/// How a preferred device was asked for on the command line.
pub enum UserInput {
    UserInputName,
    UserInputId,
    NoUserInput,
}

/// How a device was chosen.
pub enum Selection {
    /// The first device carrying the requested name, at this index.
    ByName(usize),
    /// The device at the requested index.
    ById(usize),
    /// No preference was given: the system default (index `0`) is used.
    SystemDefault,
    /// The requested device does not exist (or there is no device): index `0` is used.
    NotFound,
}

/// The index a selection designates.
pub open spec fn selection_index(sel: Selection) -> int {
    match sel {
        Selection::ByName(i) => i as int,
        Selection::ById(i) => i as int,
        _ => 0,
    }
}

/// Chooses a device from the listed names: by name the first device so named, by index the
/// device at that index, and without a preference the first device.
pub fn select_device(names: &Vec<String>, mode: &UserInput, wanted_name: &String, wanted_id: usize) -> (sel: Selection)
    ensures
        match *mode {
            UserInput::UserInputName => match sel {
                Selection::ByName(i) => {
                    &&& i < names@.len()
                    &&& names@[i as int]@ == wanted_name@
                    &&& forall|j: int| 0 <= j < i ==> names@[j]@ != wanted_name@
                },
                Selection::NotFound => forall|j: int|
                    0 <= j < names@.len() ==> names@[j]@ != wanted_name@,
                _ => false,
            },
            UserInput::UserInputId => if wanted_id < names@.len() {
                sel == Selection::ById(wanted_id)
            } else {
                sel == Selection::NotFound
            },
            UserInput::NoUserInput => if names@.len() > 0 {
                sel == Selection::SystemDefault
            } else {
                sel == Selection::NotFound
            },
        },
{
    match mode {
        UserInput::UserInputName => {
            let mut i: usize = 0;
            while i < names.len()
                invariant
                    i <= names@.len(),
                    *mode is UserInputName,
                    forall|j: int| 0 <= j < i ==> names@[j]@ != wanted_name@,
                decreases names@.len() - i,
            {
                if names[i] == *wanted_name {
                    return Selection::ByName(i);
                }
                i = i + 1;
            }
            Selection::NotFound
        },
        UserInput::UserInputId => {
            if wanted_id < names.len() {
                Selection::ById(wanted_id)
            } else {
                Selection::NotFound
            }
        },
        UserInput::NoUserInput => {
            if names.len() > 0 {
                Selection::SystemDefault
            } else {
                Selection::NotFound
            }
        },
    }
}


/// When some of the first `k` names equal `wanted`, the chosen index is one of them and no
/// later one is.
pub proof fn lemma_last_match(names: Seq<String>, wanted: Seq<char>, k: int)
    requires
        0 <= k <= names.len(),
    ensures
        (exists|j: int| 0 <= j < k && names[j]@ == wanted) ==> {
            let r = last_match_upto(names, wanted, k);
            &&& 0 <= r < k
            &&& names[r]@ == wanted
            &&& forall|j: int| r < j < k ==> names[j]@ != wanted
        },
    decreases k,
{
    if k > 0 {
        lemma_last_match(names, wanted, k - 1);
        if names[k - 1]@ != wanted && (exists|j: int| 0 <= j < k && names[j]@ == wanted) {
            let j = choose|j: int| 0 <= j < k && names[j]@ == wanted;
            assert(j < k - 1);
        }
    }
}

} // verus!
