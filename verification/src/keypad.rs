//! The logical pressed/released state of the machine's 16-key keypad.

use vstd::prelude::*;

verus! {

/// Holds the pressed/released status of the 16 logical keys.  The whole
/// pressed set is replaced at once by `press`; `is_key_down` is a pure query.
pub struct Keypad {
    pub keys: Vec<bool>,
}

impl Keypad {
    /// The keypad always holds exactly one flag per key.
    pub open spec fn wf(&self) -> bool {
        self.keys@.len() == 16
    }

    /// A fresh keypad with every key released.
    pub fn new() -> (k: Keypad)
        ensures
            k.wf(),
            k.keys@ == Seq::new(16, |j: int| false),
    {
        let mut keys: Vec<bool> = Vec::new();
        while keys.len() < 16
            invariant
                keys@.len() <= 16,
                forall|j: int| 0 <= j < keys@.len() ==> !keys@[j],
            decreases 16 - keys@.len(),
        {
            keys.push(false);
        }
        proof {
            assert(keys@ =~= Seq::new(16, |j: int| false));
        }
        Keypad { keys }
    }

    /// Replaces the entire pressed set: exactly the listed keys are down
    /// afterwards, every other key is released.
    pub fn press(&mut self, indexes: Vec<u8>)
        requires
            old(self).wf(),
            forall|m: int| 0 <= m < indexes@.len() ==> indexes@[m] < 16,
        ensures
            final(self).wf(),
            forall|j: int|
                0 <= j < 16 ==> (final(self).keys@[j] <==> indexes@.contains(j as u8)),
    {
        self.reset();
        let n = indexes.len();
        let mut k: usize = 0;
        while k < n
            invariant
                self.wf(),
                n == indexes@.len(),
                k <= n,
                forall|m: int| 0 <= m < indexes@.len() ==> indexes@[m] < 16,
                forall|j: int|
                    0 <= j < 16 ==> (self.keys@[j] <==> (exists|m: int|
                        0 <= m < k && indexes@[m] == j)),
            decreases n - k,
        {
            let idx = indexes[k];
            self.keys[idx as usize] = true;
            k = k + 1;
        }
        proof {
            assert forall|j: int| 0 <= j < 16 implies (self.keys@[j] <==> indexes@.contains(
                j as u8,
            )) by {
                if self.keys@[j] {
                    let m = choose|m: int| 0 <= m < n && indexes@[m] == j;
                    assert(indexes@[m] == j as u8);
                }
                if indexes@.contains(j as u8) {
                    let m = choose|m: int| 0 <= m < indexes@.len() && indexes@[m] == j as u8;
                    assert(indexes@[m] == j);
                }
            }
        }
    }

    /// Releases every key.
    fn reset(&mut self)
        requires
            old(self).wf(),
        ensures
            final(self).wf(),
            forall|j: int| 0 <= j < 16 ==> !final(self).keys@[j],
    {
        let mut j: usize = 0;
        while j < 16
            invariant
                self.wf(),
                j <= 16,
                forall|m: int| 0 <= m < j ==> !self.keys@[m],
            decreases 16 - j,
        {
            self.keys[j] = false;
            j = j + 1;
        }
    }

    /// Whether key `index` is currently held down.
    pub fn is_key_down(&self, index: u8) -> (down: bool)
        requires
            self.wf(),
            index < 16,
        ensures
            down == self.keys@[index as int],
    {
        self.keys[index as usize]
    }
}

} // verus!
