//! The verifier's view of the tree: nothing but a ring of the most recent
//! roots, each kept as the pair of base58 strings in which it travels.

use vstd::arithmetic::div_mod::{lemma_mod_self_0, lemma_small_mod};
use vstd::prelude::*;

verus! {

/// A root as two strings: the base58 text of its two coordinates.
pub type RootText = (Seq<char>, Seq<char>);

/// The text of a root held as two strings.
pub open spec fn root_text(root: &(String, String)) -> RootText {
    (root.0@, root.1@)
}

/// The last `history_size` entries of `log`, or all of it if it is
/// shorter.
pub open spec fn window<T>(log: Seq<T>, history_size: nat) -> Seq<T> {
    if log.len() <= history_size {
        log
    } else {
        log.subrange(log.len() - history_size, log.len() as int)
    }
}

/// The position in the log of the root in ring slot `slot`, when `total`
/// roots were recorded and the next one goes to slot `next`.
pub open spec fn slot_entry(total: nat, next: nat, history_size: nat, slot: int) -> int {
    if slot < next {
        total - next + slot
    } else {
        total - next + slot - history_size
    }
}

/// A ring of the most recent roots.
pub struct MerkleRootHistory {
    root_history_size: u32,
    historical_roots: Vec<(String, String)>,
    next_root_index: u32,
    log: Ghost<Seq<RootText>>,
}

impl MerkleRootHistory {
    /// Every root recorded so far, oldest first.
    pub closed spec fn recorded(&self) -> Seq<RootText> {
        self.log@
    }

    /// Number of slots in the ring.
    pub closed spec fn history_size(&self) -> nat {
        self.root_history_size as nat
    }

    /// The roots that are still retained, oldest first.
    pub open spec fn known_roots(&self) -> Seq<RootText> {
        window(self.recorded(), self.history_size())
    }

    /// The ring holds the tail of the log.
    pub closed spec fn wf(&self) -> bool {
        let total = self.log@.len();
        let next = self.next_root_index as nat;
        let h = self.root_history_size as nat;
        &&& h > 0
        &&& next < h
        &&& next <= total
        &&& (total < h ==> next == total)
        &&& (total >= h ==> total - next >= h)
        &&& self.historical_roots@.len() == if total < h {
            total
        } else {
            h
        }
        &&& forall|s: int|
            0 <= s < self.historical_roots@.len() ==> root_text(
                #[trigger] &self.historical_roots@[s],
            ) == self.log@[slot_entry(total, next, h, s)]
    }

    /// An empty ring with `root_history_size` slots.
    pub fn new(root_history_size: u32) -> (history: Self)
        requires
            root_history_size > 0,
        ensures
            history.wf(),
            history.history_size() == root_history_size,
            history.recorded() == Seq::<RootText>::empty(),
    {
        MerkleRootHistory {
            root_history_size,
            historical_roots: Vec::new(),
            next_root_index: 0,
            log: Ghost(Seq::empty()),
        }
    }

    /// Number of slots in the ring.
    pub fn root_history_size(&self) -> (size: u32)
        ensures
            size as nat == self.history_size(),
    {
        self.root_history_size
    }

    /// Records `root` as the newest root; once the ring is full the oldest
    /// one gives way.
    pub fn insert(&mut self, root: &(String, String))
        requires
            old(self).wf(),
        ensures
            final(self).wf(),
            final(self).history_size() == old(self).history_size(),
            final(self).recorded() == old(self).recorded().push(root_text(root)),
    {
        let ghost before = self.log@;
        let ghost old_slots = self.historical_roots@;
        let ghost total = before.len();
        let next: u32 = self.next_root_index;
        let history_size: u32 = self.root_history_size;
        let entry: (String, String) = (root.0.clone(), root.1.clone());
        if (next as usize) < self.historical_roots.len() {
            self.historical_roots.set(next as usize, entry);
        } else {
            self.historical_roots.push(entry);
        }
        proof {
            if next + 1 < history_size {
                lemma_small_mod((next + 1) as nat, history_size as nat);
            } else {
                lemma_mod_self_0(history_size as int);
            }
        }
        self.next_root_index = (next + 1) % history_size;
        self.log = Ghost(before.push(root_text(root)));
        proof {
            let after = self.log@;
            let h = history_size as nat;
            let new_next = self.next_root_index as nat;
            assert forall|s: int| 0 <= s < self.historical_roots@.len() implies root_text(
                #[trigger] &self.historical_roots@[s],
            ) == after[slot_entry(total + 1, new_next, h, s)] by {
                if s != next {
                    assert(self.historical_roots@[s] == old_slots[s]);
                    assert(slot_entry(total + 1, new_next, h, s) == slot_entry(
                        total,
                        next as nat,
                        h,
                        s,
                    ));
                }
            }
        }
    }

    /// Whether `root` is one of the retained roots. The ring is scanned
    /// from the newest root backwards.
    pub fn is_known_root(&self, root: &(String, String)) -> (known: bool)
        requires
            self.wf(),
        ensures
            known == self.known_roots().contains(root_text(root)),
    {
        let next: usize = self.next_root_index as usize;
        let stored: usize = self.historical_roots.len();
        let ghost kept = self.known_roots();

        let mut i: usize = next;
        while i > 0
            invariant
                self.wf(),
                i <= next <= stored,
                next == self.next_root_index,
                stored == self.historical_roots@.len(),
                forall|s: int|
                    i <= s < next ==> root_text(#[trigger] &self.historical_roots@[s])
                        != root_text(root),
            decreases i,
        {
            i -= 1;
            let slot = &self.historical_roots[i];
            if slot.0 == root.0 && slot.1 == root.1 {
                proof {
                    self.lemma_slot_in_window(i as int);
                }
                return true;
            }
        }
        let mut i: usize = stored;
        while i > next
            invariant
                self.wf(),
                next <= i <= stored,
                next == self.next_root_index,
                stored == self.historical_roots@.len(),
                forall|s: int|
                    0 <= s < next ==> root_text(#[trigger] &self.historical_roots@[s])
                        != root_text(root),
                forall|s: int|
                    i <= s < stored ==> root_text(#[trigger] &self.historical_roots@[s])
                        != root_text(root),
            decreases i,
        {
            i -= 1;
            let slot = &self.historical_roots[i];
            if slot.0 == root.0 && slot.1 == root.1 {
                proof {
                    self.lemma_slot_in_window(i as int);
                }
                return true;
            }
        }
        proof {
            assert forall|w: int| 0 <= w < kept.len() implies kept[w] != root_text(root) by {
                self.lemma_window_in_slot(w);
            }
        }
        false
    }

    /// The newest root, if any was recorded.
    pub fn get_latest_root(&self) -> (latest: Option<(String, String)>)
        requires
            self.wf(),
        ensures
            latest is None <==> self.recorded().len() == 0,
            latest matches Some(root) ==> root_text(&root) == self.recorded().last(),
    {
        let stored: usize = self.historical_roots.len();
        if stored == 0 {
            return None;
        }
        let newest: usize = if self.next_root_index == 0 {
            stored - 1
        } else {
            self.next_root_index as usize - 1
        };
        let slot = &self.historical_roots[newest];
        Some((slot.0.clone(), slot.1.clone()))
    }

    /// Every ring slot holds one root of the window.
    proof fn lemma_slot_in_window(&self, slot: int)
        requires
            self.wf(),
            0 <= slot < self.historical_roots@.len(),
        ensures
            self.known_roots().contains(root_text(&self.historical_roots@[slot])),
    {
        let total = self.log@.len();
        let stored = self.historical_roots@.len();
        let entry = slot_entry(
            total,
            self.next_root_index as nat,
            self.root_history_size as nat,
            slot,
        );
        let w = entry - (total - stored);
        assert(self.known_roots()[w] == self.log@[entry]);
    }

    /// Every root of the window sits in one ring slot.
    proof fn lemma_window_in_slot(&self, w: int)
        requires
            self.wf(),
            0 <= w < self.known_roots().len(),
        ensures
            exists|s: int|
                0 <= s < self.historical_roots@.len() && root_text(
                    #[trigger] &self.historical_roots@[s],
                ) == self.known_roots()[w],
    {
        let total = self.log@.len() as int;
        let next = self.next_root_index as int;
        let h = self.root_history_size as int;
        let stored = self.historical_roots@.len() as int;
        let entry = total - stored + w;
        let s = if entry >= total - next {
            entry - (total - next)
        } else {
            entry - (total - next) + h
        };
        assert(0 <= s < stored);
        assert(slot_entry(total as nat, next as nat, h as nat, s) == entry);
        assert(root_text(&self.historical_roots@[s]) == self.known_roots()[w]);
    }
}

/// The window holds as many roots as were recorded, but never more than
/// the ring has slots, and they are the most recent ones, oldest first.
pub proof fn lemma_window_is_capped_tail<T>(log: Seq<T>, history_size: nat)
    ensures
        window(log, history_size).len() == if log.len() < history_size {
            log.len()
        } else {
            history_size
        },
        forall|i: int|
            0 <= i < window(log, history_size).len() ==> #[trigger] window(log, history_size)[i]
                == log[log.len() - window(log, history_size).len() + i],
{
}

} // verus!
