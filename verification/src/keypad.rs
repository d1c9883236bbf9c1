use vstd::prelude::*;

verus! {

/// The lowest index at or after `from` whose entry is set, if there is one.
pub open spec fn first_set(flags: Seq<bool>, from: int) -> Option<u8>
    decreases flags.len() - from,
{
    if from < 0 || from >= flags.len() {
        None
    } else if flags[from] {
        Some(from as u8)
    } else {
        first_set(flags, from + 1)
    }
}

/// `first_set` finds the lowest set entry, or none when no entry is set.
pub proof fn lemma_first_set(flags: Seq<bool>, from: int)
    requires
        0 <= from,
        flags.len() <= 256,
    ensures
        match first_set(flags, from) {
            Some(k) => from <= k < flags.len() && flags[k as int] && forall|j: int|
                from <= j < k ==> !flags[j],
            None => forall|j: int| from <= j < flags.len() ==> !flags[j],
        },
    decreases flags.len() - from,
{
    if from < flags.len() && !flags[from] {
        lemma_first_set(flags, from + 1);
    }
}

/// The sixteen keys as the input source reported them at the last two polls:
/// `down[k]` says that key `k` is held, `fresh[k]` that it is held now and
/// was not at the poll before.
#[derive(Clone, Copy, Debug, PartialEq, Eq)]
pub struct Keypad {
    pub down: [bool; 16],
    pub fresh: [bool; 16],
}

impl Keypad {
    /// Key number `key` is held. Numbers above 15 name no key.
    pub open spec fn pressed(self, key: u8) -> bool {
        key < 16 && self.down@[key as int]
    }

    /// The lowest key that went down at the last poll.
    pub open spec fn struck(self) -> Option<u8> {
        first_set(self.fresh@, 0)
    }

    /// `after` is this keypad once the input source has reported `down`:
    /// it holds `down`, and a key is fresh when it is held now and was not before.
    pub open spec fn polled(self, down: [bool; 16], after: Keypad) -> bool {
        &&& after.down@ == down@
        &&& after.fresh@ == Seq::new(16, |k: int| down@[k] && !self.down@[k])
    }

    /// No key held.
    pub fn new() -> (k: Keypad)
        ensures
            k.down@ == Seq::new(16, |i: int| false),
            k.fresh@ == Seq::new(16, |i: int| false),
            k.struck() is None,
    {
        let k = Keypad { down: [false; 16], fresh: [false; 16] };
        assert(k.down@ =~= Seq::new(16, |i: int| false));
        assert(k.fresh@ =~= Seq::new(16, |i: int| false));
        proof {
            lemma_first_set(k.fresh@, 0);
        }
        k
    }

    /// Records a poll of the input source: `down[k]` says whether key `k` is
    /// held now. A key counts as freshly struck when it is held now and was
    /// not at the previous poll.
    pub fn update(&mut self, down: [bool; 16])
        ensures
            old(self).polled(down, *final(self)),
    {
        let mut fresh = [false; 16];
        let mut k: usize = 0;
        while k < 16
            invariant
                k <= 16,
                forall|j: int| 0 <= j < k ==> fresh@[j] == (down@[j] && !self.down@[j]),
            decreases 16 - k,
        {
            fresh[k] = down[k] && !self.down[k];
            k += 1;
        }
        assert(fresh@ =~= Seq::new(16, |k: int| down@[k] && !self.down@[k]));
        self.down = down;
        self.fresh = fresh;
    }

    /// Whether key number `key` is held.
    pub fn is_pressed(&self, key: u8) -> (held: bool)
        ensures
            held == self.pressed(key),
    {
        key < 16 && self.down[key as usize]
    }

    /// The lowest key that went down at the last poll, if any did.
    pub fn newly_pressed(&self) -> (key: Option<u8>)
        ensures
            key == self.struck(),
            match key {
                Some(k) => k < 16 && self.fresh@[k as int] && forall|j: int|
                    0 <= j < k ==> !self.fresh@[j],
                None => forall|j: int| 0 <= j < 16 ==> !self.fresh@[j],
            },
    {
        let mut k: u8 = 0;
        while k < 16
            invariant
                k <= 16,
                first_set(self.fresh@, 0) == first_set(self.fresh@, k as int),
            decreases 16 - k,
        {
            if self.fresh[k as usize] {
                proof {
                    lemma_first_set(self.fresh@, 0);
                }
                return Some(k);
            }
            k += 1;
        }
        proof {
            lemma_first_set(self.fresh@, 0);
        }
        None
    }
}

impl Default for Keypad {
    fn default() -> (k: Keypad)
        ensures
            k.down@ == Seq::new(16, |i: int| false),
            k.fresh@ == Seq::new(16, |i: int| false),
    {
        Keypad::new()
    }
}

} // verus!
