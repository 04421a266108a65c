//! Per-key coordination of origin fetches: of the requests that miss on the
//! same key at the same time, one fetches and the others wait for its answer.

use vstd::prelude::*;

use crate::bytes::bytes_equal;
use crate::snapshot::copy_bytes;

verus! {

/// The cache keys whose fetch is under way.
pub struct InFlight {
    keys: Vec<Vec<u8>>,
}

/// The number of leaders among `n` successive claims of `key`, none of
/// them released, starting from the keys `s` in flight.
pub open spec fn leaders(s: Set<Seq<u8>>, key: Seq<u8>, n: nat) -> nat
    decreases n,
{
    if n == 0 {
        0
    } else {
        (if s.contains(key) {
            0nat
        } else {
            1nat
        }) + leaders(s.insert(key), key, (n - 1) as nat)
    }
}

/// `x` is among the first `n` keys of `v`.
spec fn listed(v: Seq<Vec<u8>>, x: Seq<u8>, n: int) -> bool {
    exists|j: int| 0 <= j < n && #[trigger] v[j]@ == x
}

impl View for InFlight {
    type V = Set<Seq<u8>>;

    closed spec fn view(&self) -> Set<Seq<u8>> {
        Set::new(|k: Seq<u8>| listed(self.keys@, k, self.keys@.len() as int))
    }
}

impl InFlight {
    /// No fetch under way.
    pub fn new() -> (r: InFlight)
        ensures
            r@ == Set::<Seq<u8>>::empty(),
    {
        let r = InFlight { keys: Vec::new() };
        assert(r@ =~= Set::<Seq<u8>>::empty());
        r
    }

    fn position(&self, key: &[u8]) -> (r: Option<usize>)
        ensures
            match r {
                Some(i) => i < self.keys@.len() && self.keys@[i as int]@ == key@,
                None => forall|i: int| 0 <= i < self.keys@.len() ==> self.keys@[i]@ != key@,
            },
    {
        let mut i: usize = 0;
        while i < self.keys.len()
            invariant
                i <= self.keys@.len(),
                forall|j: int| 0 <= j < i ==> self.keys@[j]@ != key@,
            decreases self.keys.len() - i,
        {
            if bytes_equal(self.keys[i].as_slice(), key) {
                return Some(i);
            }
            i = i + 1;
        }
        None
    }

    /// Whether a fetch for `key` is under way.
    pub fn contains(&self, key: &[u8]) -> (r: bool)
        ensures
            r == self@.contains(key@),
    {
        match self.position(key) {
            Some(i) => {
                assert(listed(self.keys@, key@, self.keys@.len() as int));
                true
            },
            None => false,
        }
    }

    /// Claims the fetch for `key`: the caller leads (fetches, then releases)
    /// when no fetch for `key` is under way, and otherwise waits for the
    /// leader's answer. Either way `key` is in flight afterwards.
    pub fn claim(&mut self, key: &[u8]) -> (leader: bool)
        ensures
            leader == !old(self)@.contains(key@),
            final(self)@ == old(self)@.insert(key@),
    {
        match self.position(key) {
            Some(i) => {
                assert(listed(self.keys@, key@, self.keys@.len() as int));
                assert(self@ =~= old(self)@.insert(key@));
                false
            },
            None => {
                let k = copy_bytes(key);
                self.keys.push(k);
                proof {
                    let n = self.keys@.len() - 1;
                    assert(self.keys@[n]@ == key@);
                    assert forall|x: Seq<u8>| self@.contains(x) == old(self)@.insert(key@).contains(
                        x,
                    ) by {
                        if listed(old(self).keys@, x, n) {
                            let i = choose|i: int| 0 <= i < n && #[trigger] old(self).keys@[i]@ == x;
                            assert(self.keys@[i]@ == x);
                        }
                        if listed(self.keys@, x, n + 1) && x != key@ {
                            let i = choose|i: int| 0 <= i < n + 1 && #[trigger] self.keys@[i]@ == x;
                            assert(i < n);
                            assert(old(self).keys@[i]@ == x);
                        }
                        if x == key@ {
                            assert(self.keys@[n]@ == x);
                        }
                    }
                    assert(self@ =~= old(self)@.insert(key@));
                }
                true
            },
        }
    }

    /// Ends the fetch for `key`: the next request that misses on it leads a
    /// new fetch.
    pub fn release(&mut self, key: &[u8])
        ensures
            final(self)@ == old(self)@.remove(key@),
    {
        let ghost before = self.keys@;
        let mut i: usize = 0;
        let mut kept: Vec<Vec<u8>> = Vec::new();
        while i < self.keys.len()
            invariant
                i <= self.keys@.len(),
                self.keys@ == before,
                forall|x: Seq<u8>|
                    #[trigger] listed(kept@, x, kept@.len() as int) <==> (x != key@ && listed(
                        before,
                        x,
                        i as int,
                    )),
            decreases self.keys.len() - i,
        {
            let ghost old_kept = kept@;
            if !bytes_equal(self.keys[i].as_slice(), key) {
                let k = copy_bytes(self.keys[i].as_slice());
                kept.push(k);
            }
            proof {
                assert forall|x: Seq<u8>|
                    #[trigger] listed(kept@, x, kept@.len() as int) <==> (x != key@ && listed(
                        before,
                        x,
                        i + 1,
                    )) by {
                    if listed(kept@, x, kept@.len() as int) {
                        let j = choose|j: int| 0 <= j < kept@.len() && #[trigger] kept@[j]@ == x;
                        if j < old_kept.len() {
                            assert(old_kept[j]@ == x);
                            assert(listed(old_kept, x, old_kept.len() as int));
                        } else {
                            assert(before[i as int]@ == x);
                        }
                    }
                    if x != key@ && listed(before, x, i + 1) {
                        let j = choose|j: int| 0 <= j < i + 1 && #[trigger] before[j]@ == x;
                        if j < i {
                            assert(listed(before, x, i as int));
                            assert(listed(old_kept, x, old_kept.len() as int));
                            let m = choose|m: int|
                                0 <= m < old_kept.len() && #[trigger] old_kept[m]@ == x;
                            assert(kept@[m]@ == x);
                        } else {
                            assert(kept@[old_kept.len() as int]@ == x);
                        }
                    }
                    if listed(before, x, i as int) {
                        let j = choose|j: int| 0 <= j < i && #[trigger] before[j]@ == x;
                        assert(before[j]@ == x);
                    }
                }
            }
            i = i + 1;
        }
        self.keys = kept;
        assert forall|x: Seq<u8>| self@.contains(x) == old(self)@.remove(key@).contains(x) by {
            assert(self@.contains(x) == listed(kept@, x, kept@.len() as int));
        }
        assert(self@ =~= old(self)@.remove(key@));
    }
}

/// Of any number of requests that miss on the same key while no fetch for
/// it is under way, and claim it before the first fetch ends, exactly one
/// leads a fetch: the origin is asked once, not once per request.
pub proof fn lemma_one_leader(s: Set<Seq<u8>>, key: Seq<u8>, n: nat)
    requires
        !s.contains(key),
        n >= 1,
    ensures
        leaders(s, key, n) == 1,
{
    lemma_no_more_leaders(s.insert(key), key, (n - 1) as nat);
}

proof fn lemma_no_more_leaders(s: Set<Seq<u8>>, key: Seq<u8>, n: nat)
    requires
        s.contains(key),
    ensures
        leaders(s, key, n) == 0,
    decreases n,
{
    if n > 0 {
        assert(s.insert(key) =~= s);
        lemma_no_more_leaders(s.insert(key), key, (n - 1) as nat);
    }
}

} // verus!
