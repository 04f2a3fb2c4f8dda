//! Keyboard state: one pressed/not-pressed entry per hexadecimal key.

use vstd::prelude::*;

verus! {

/// Number of keys on the hexadecimal keypad.
pub const KEY_COUNT: usize = 16;

/// A snapshot of the keypad, refreshed by an external poller. Entry `k`
/// is 1 while key `k` is held down and 0 otherwise.
pub struct Keyboard {
    pub keyboard: Vec<u8>,
}

/// True when entry `i` of the snapshot reports a pressed key.
pub open spec fn key_pressed(k: Seq<u8>, i: int) -> bool {
    k[i] == 1
}

/// True when at least one key of the snapshot is pressed.
pub open spec fn any_key_pressed(k: Seq<u8>) -> bool {
    exists|i: int| 0 <= i < KEY_COUNT && key_pressed(k, i)
}

/// Index of the lowest pressed key at or after position `i`,
/// or the key count when none is pressed there.
pub open spec fn first_key_from(k: Seq<u8>, i: int) -> int
    decreases KEY_COUNT - i,
{
    if i < 0 || i >= KEY_COUNT {
        KEY_COUNT as int
    } else if key_pressed(k, i) {
        i
    } else {
        first_key_from(k, i + 1)
    }
}

/// Index of the lowest pressed key of the snapshot.
pub open spec fn first_key(k: Seq<u8>) -> int {
    first_key_from(k, 0)
}

/// Everything `first_key_from` promises of the suffix it scans: the
/// found index lies in the scanned range and is pressed, nothing before
/// it in the range is pressed, and the key count is returned exactly
/// when nothing in the range is pressed.
pub proof fn lemma_first_key_from(k: Seq<u8>, i: int)
    requires
        k.len() == KEY_COUNT,
        0 <= i <= KEY_COUNT,
    ensures
        i <= first_key_from(k, i) <= KEY_COUNT,
        first_key_from(k, i) < KEY_COUNT ==> key_pressed(k, first_key_from(k, i)),
        forall|j: int| i <= j < first_key_from(k, i) ==> !key_pressed(k, j),
        first_key_from(k, i) == KEY_COUNT
            ==> forall|j: int| i <= j < KEY_COUNT ==> !key_pressed(k, j),
    decreases KEY_COUNT - i,
{
    if i < KEY_COUNT && !key_pressed(k, i) {
        lemma_first_key_from(k, i + 1);
    }
}

/// The lowest pressed key exists exactly when some key is pressed; it
/// is itself pressed, and nothing below it is.
pub proof fn lemma_first_key(k: Seq<u8>)
    requires
        k.len() == KEY_COUNT,
    ensures
        any_key_pressed(k) <==> first_key(k) < KEY_COUNT,
        0 <= first_key(k) <= KEY_COUNT,
        first_key(k) < KEY_COUNT ==> key_pressed(k, first_key(k)),
        forall|j: int| 0 <= j < first_key(k) ==> !key_pressed(k, j),
{
    lemma_first_key_from(k, 0);
}

impl Keyboard {
    /// Every key has an entry.
    pub open spec fn wf(&self) -> bool {
        self.keyboard@.len() == KEY_COUNT
    }

    pub fn new() -> (r: Keyboard)
        ensures
            r.wf(),
            forall|i: int| 0 <= i < KEY_COUNT ==> r.keyboard@[i] == 0,
    {
        let mut keys: Vec<u8> = Vec::new();
        let mut i: usize = 0;
        while i < KEY_COUNT
            invariant
                i <= KEY_COUNT,
                keys@.len() == i,
                forall|j: int| 0 <= j < i ==> keys@[j] == 0,
            decreases KEY_COUNT - i,
        {
            keys.push(0);
            i += 1;
        }
        Keyboard { keyboard: keys }
    }
}

} // verus!
