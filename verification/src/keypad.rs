//! The 16-key hexadecimal keypad.

use vstd::prelude::*;

verus! {

/// Keys on the keypad.
pub const KEY_COUNT: usize = 16;

/// Whether key `k` is pressed and no key with a lower index is.
pub open spec fn is_lowest_pressed(keys: Seq<bool>, k: int) -> bool {
    &&& 0 <= k < keys.len()
    &&& keys[k]
    &&& forall|j: int| 0 <= j < k ==> !keys[j]
}

/// The lowest index of a pressed key, or `None` where no key is pressed.
pub open spec fn lowest_pressed(keys: Seq<bool>) -> Option<int> {
    if exists|k: int| is_lowest_pressed(keys, k) {
        Some(choose|k: int| is_lowest_pressed(keys, k))
    } else {
        None
    }
}

/// What [`lowest_pressed`] is: the one key that is pressed with none
/// below it, and `None` exactly where every key is released.
pub proof fn lemma_lowest_pressed(keys: Seq<bool>)
    ensures
        match lowest_pressed(keys) {
            Some(k) => is_lowest_pressed(keys, k),
            None => forall|j: int| 0 <= j < keys.len() ==> !keys[j],
        },
        forall|k: int| is_lowest_pressed(keys, k) ==> lowest_pressed(keys) == Some(k),
{
    if !(exists|k: int| is_lowest_pressed(keys, k)) {
        assert forall|j: int| 0 <= j < keys.len() implies !keys[j] by {
            lemma_none_below(keys, j);
        }
    }
}

/// Where no key is the lowest pressed one, no key is pressed.
proof fn lemma_none_below(keys: Seq<bool>, j: int)
    requires
        0 <= j < keys.len(),
        !(exists|k: int| is_lowest_pressed(keys, k)),
    ensures
        !keys[j],
    decreases j,
{
    if keys[j] {
        assert forall|i: int| 0 <= i < j implies !keys[i] by {
            lemma_none_below(keys, i);
        }
        assert(is_lowest_pressed(keys, j));
    }
}

/// The state of the keypad: for each key, whether it is held down.
pub struct Keypad {
    pub state: [bool; KEY_COUNT],
}

/// A snapshot of the keypad.
#[derive(Clone, Copy, Debug, PartialEq, Eq)]
pub struct KeypadDebug {
    pub state: [bool; KEY_COUNT],
}

impl View for Keypad {
    type V = Seq<bool>;

    /// The keys, by index: 16 of them.
    open spec fn view(&self) -> Seq<bool> {
        self.state@
    }
}

impl Keypad {
    /// A keypad with every key released.
    pub fn new() -> (keypad: Keypad)
        ensures
            keypad@ == Seq::new(KEY_COUNT as nat, |k: int| false),
    {
        Keypad { state: [false; KEY_COUNT] }
    }

    /// The pressed key with the lowest index, if any key is pressed.
    pub fn first_pressed(&self) -> (key: Option<usize>)
        ensures
            match key {
                Some(k) => lowest_pressed(self@) == Some(k as int),
                None => lowest_pressed(self@) == None::<int>,
            },
    {
        let mut k: usize = 0;
        while k < KEY_COUNT
            invariant
                k <= KEY_COUNT,
                forall|j: int| 0 <= j < k ==> !self@[j],
            decreases KEY_COUNT - k,
        {
            if self.state[k] {
                proof {
                    assert(is_lowest_pressed(self@, k as int));
                    lemma_lowest_pressed(self@);
                }
                return Some(k);
            }
            k += 1;
        }
        proof {
            lemma_lowest_pressed(self@);
        }
        None
    }

    /// The keypad's state, copied.
    pub fn get_debug(&self) -> (snapshot: KeypadDebug)
        ensures
            snapshot.state == self.state,
    {
        KeypadDebug { state: self.state }
    }
}

} // verus!
