use crate::textutil::str_eq;
use vstd::prelude::*;

verus! {

/// The set of address strings a sequence of peers holds.
pub open spec fn strings_set(ss: Seq<String>) -> Set<Seq<char>> {
    Set::new(|x: Seq<char>| exists|i: int| 0 <= i < ss.len() && ss[i]@ == x)
}

/// The hub's bookkeeping of live peers, keyed by their address strings.
/// The set of registered addresses is the sole shared state of the hub;
/// the surrounding program guards one `Registry` with one exclusive lock
/// and holds the write half of each connection beside it.
pub struct Registry {
    peers: Vec<String>,
}

impl View for Registry {
    type V = Set<Seq<char>>;

    closed spec fn view(&self) -> Set<Seq<char>> {
        strings_set(self.peers@)
    }
}

impl Registry {
    /// No peer is listed twice.
    pub closed spec fn inv(&self) -> bool {
        forall|i: int, j: int|
            0 <= i < j < self.peers@.len() ==> self.peers@[i]@ != self.peers@[j]@
    }

    pub fn new() -> (r: Registry)
        ensures
            r.inv(),
            r@ == Set::<Seq<char>>::empty(),
    {
        let r = Registry { peers: Vec::new() };
        proof {
            assert(r@ =~= Set::<Seq<char>>::empty());
        }
        r
    }

    /// Whether a peer with this address is registered.
    pub fn contains(&self, id: &str) -> (r: bool)
        ensures
            r == self@.contains(id@),
    {
        let mut i: usize = 0;
        while i < self.peers.len()
            invariant
                i <= self.peers@.len(),
                forall|k: int| 0 <= k < i ==> self.peers@[k]@ != id@,
            decreases self.peers@.len() - i,
        {
            if str_eq(self.peers[i].as_str(), id) {
                return true;
            }
            i = i + 1;
        }
        false
    }

    /// Inserts a peer at accept time. Registering an address again leaves
    /// the set unchanged.
    pub fn register(&mut self, id: String)
        requires
            old(self).inv(),
        ensures
            final (self).inv(),
            final (self)@ == old(self)@.insert(id@),
    {
        let present = self.contains(id.as_str());
        if !present {
            let ghost oldp = self.peers@;
            self.peers.push(id);
            proof {
                assert forall|x: Seq<char>| self@.contains(x) implies old(self)@.insert(
                    id@,
                ).contains(x) by {
                    let i = choose|i: int|
                        0 <= i < self.peers@.len() && self.peers@[i]@ == x;
                    if i < oldp.len() {
                        assert(oldp[i]@ == x);
                    }
                }
                assert forall|x: Seq<char>| old(self)@.insert(id@).contains(x) implies
                    self@.contains(x) by {
                    if old(self)@.contains(x) {
                        let i = choose|i: int| 0 <= i < oldp.len() && oldp[i]@ == x;
                        assert(self.peers@[i]@ == x);
                    } else {
                        assert(self.peers@[oldp.len() as int]@ == x);
                    }
                }
                assert(self@ =~= old(self)@.insert(id@));
            }
        } else {
            proof {
                assert(self@ =~= old(self)@.insert(id@));
            }
        }
    }

    /// Removes a peer, exactly once, when its reader sees the connection end.
    #[verifier::loop_isolation(false)]
    pub fn unregister(&mut self, id: &str)
        requires
            old(self).inv(),
        ensures
            final (self).inv(),
            final (self)@ == old(self)@.remove(id@),
    {
        let ghost oldp = old(self).peers@;
        let mut i: usize = 0;
        while i < self.peers.len()
            invariant
                i <= self.peers@.len(),
                self.peers@ == oldp,
                forall|k: int| 0 <= k < i ==> self.peers@[k]@ != id@,
            decreases self.peers@.len() - i,
        {
            if str_eq(self.peers[i].as_str(), id) {
                let ghost at = i as int;
                self.peers.remove(i);
                proof {
                    assert(self.peers@ == oldp.remove(at));
                    oldp.remove_ensures(at);
                    assert(oldp[at]@ == id@);
                    assert forall|x: Seq<char>| self@.contains(x) implies old(self)@.remove(
                        id@,
                    ).contains(x) by {
                        let j = choose|j: int|
                            0 <= j < self.peers@.len() && self.peers@[j]@ == x;
                        assert(self.peers@[j] == oldp.remove(at)[j]);
                        if j < at {
                            assert(oldp.remove(at)[j] == oldp[j]);
                            assert(old(self).peers@[j]@ == x);
                            assert(old(self).peers@[j]@ != id@);
                        } else {
                            assert(oldp.remove(at)[j] == oldp[j + 1]);
                            assert(old(self).peers@[j + 1]@ == x);
                            assert(old(self).peers@[at]@ != old(self).peers@[j + 1]@);
                        }
                        assert(old(self)@.contains(x));
                    }
                    assert forall|x: Seq<char>| old(self)@.remove(id@).contains(x) implies
                        self@.contains(x) by {
                        assert(old(self)@.contains(x));
                        assert(exists|p: int|
                            0 <= p < old(self).peers@.len() && old(self).peers@[p]@ == x);
                        let p = choose|p: int|
                            0 <= p < old(self).peers@.len() && old(self).peers@[p]@ == x;
                        assert(oldp[p]@ == x);
                        if p < at {
                            assert(oldp.remove(at)[p] == oldp[p]);
                            assert(self.peers@[p]@ == x);
                        } else {
                            assert(p != at);
                            assert(oldp.remove(at)[p - 1] == oldp[p]);
                            assert(self.peers@[p - 1]@ == x);
                        }
                    }
                    assert(self@ =~= old(self)@.remove(id@));
                    assert forall|a: int, b: int|
                        0 <= a < b < self.peers@.len() implies self.peers@[a]@
                        != self.peers@[b]@ by {
                        assert(self.peers@[a]@ == if a < at {
                            oldp[a]@
                        } else {
                            oldp[a + 1]@
                        });
                        assert(self.peers@[b]@ == if b < at {
                            oldp[b]@
                        } else {
                            oldp[b + 1]@
                        });
                    }
                }
                return ;
            }
            i = i + 1;
        }
        proof {
            assert(!old(self)@.contains(id@));
            assert(self@ =~= old(self)@.remove(id@));
        }
    }

    /// The recipients of one broadcast: every registered peer except the
    /// sender, each exactly once. The sender is never among them.
    pub fn broadcast_targets(&self, sender: &str) -> (r: Vec<String>)
        requires
            self.inv(),
        ensures
            strings_set(r@) == self@.remove(sender@),
            forall|i: int| 0 <= i < r@.len() ==> r@[i]@ != sender@ && self@.contains(r@[i]@),
            forall|i: int, j: int| 0 <= i < j < r@.len() ==> r@[i]@ != r@[j]@,
    {
        let mut out: Vec<String> = Vec::new();
        let mut i: usize = 0;
        while i < self.peers.len()
            invariant
                i <= self.peers@.len(),
                self.inv(),
                forall|k: int| 0 <= k < out@.len() ==> #[trigger] out@[k]@ != sender@,
                forall|k: int|
                    0 <= k < out@.len() ==> exists|p: int|
                        0 <= p < i && self.peers@[p]@ == #[trigger] out@[k]@,
                forall|p: int|
                    0 <= p < i && #[trigger] self.peers@[p]@ != sender@ ==> exists|k: int|
                        0 <= k < out@.len() && out@[k]@ == self.peers@[p]@,
                forall|k: int, l: int| 0 <= k < l < out@.len() ==> out@[k]@ != out@[l]@,
            decreases self.peers@.len() - i,
        {
            if !str_eq(self.peers[i].as_str(), sender) {
                let ghost oldout = out@;
                out.push(self.peers[i].clone());
                proof {
                    assert(out@[oldout.len() as int]@ == self.peers@[i as int]@);
                    assert forall|k: int, l: int|
                        0 <= k < l < out@.len() implies out@[k]@ != out@[l]@ by {
                        if l == oldout.len() {
                            let p = choose|p: int|
                                0 <= p < i && self.peers@[p]@ == out@[k]@;
                            assert(self.peers@[p]@ != self.peers@[i as int]@);
                        }
                    }
                    assert forall|p: int|
                        0 <= p < i + 1 && #[trigger] self.peers@[p]@ != sender@ implies exists|
                            k: int,
                        | 0 <= k < out@.len() && out@[k]@ == self.peers@[p]@ by {
                        if p == i {
                            assert(out@[oldout.len() as int]@ == self.peers@[p]@);
                        } else {
                            let k = choose|k: int|
                                0 <= k < oldout.len() && oldout[k]@ == self.peers@[p]@;
                            assert(out@[k]@ == self.peers@[p]@);
                        }
                    }
                }
            }
            i = i + 1;
        }
        proof {
            assert forall|x: Seq<char>| strings_set(out@).contains(x) implies self@.remove(
                sender@,
            ).contains(x) by {
                let k = choose|k: int| 0 <= k < out@.len() && out@[k]@ == x;
                let p = choose|p: int|
                    0 <= p < self.peers@.len() && self.peers@[p]@ == out@[k]@;
                assert(self.peers@[p]@ == x);
            }
            assert forall|x: Seq<char>| self@.remove(sender@).contains(x) implies strings_set(
                out@,
            ).contains(x) by {
                let p = choose|p: int| 0 <= p < self.peers@.len() && self.peers@[p]@ == x;
                assert(exists|k: int| 0 <= k < out@.len() && out@[k]@ == self.peers@[p]@);
            }
            assert(strings_set(out@) =~= self@.remove(sender@));
        }
        out
    }
}

/// Broadcast exclusion: the recipients of a broadcast are exactly the other
/// registered peers — every peer but the sender is reached, and a message is
/// never echoed to its sender.
pub proof fn lemma_broadcast_exclusion(peers: Set<Seq<char>>, sender: Seq<char>)
    ensures
        !peers.remove(sender).contains(sender),
        forall|p: Seq<char>|
            peers.contains(p) && p != sender ==> peers.remove(sender).contains(p),
{
}

/// Fan-out resilience: a peer's membership among the recipients depends only
/// on the registry and the sender, never on another recipient or on the
/// outcome of another delivery — the recipient set is fixed before any write,
/// and a failed write is skipped without touching it.
pub proof fn lemma_fanout_independent(
    peers: Set<Seq<char>>,
    sender: Seq<char>,
    failed: Seq<char>,
    other: Seq<char>,
)
    requires
        peers.contains(other),
        other != sender,
    ensures
        peers.remove(sender).contains(other),
        failed != other ==> peers.remove(sender).remove(failed).contains(other),
{
}

/// Disconnect cleanup: once a closed peer is unregistered, it is no longer
/// listed, and no later broadcast from any sender reaches it.
pub proof fn lemma_disconnect_cleanup(
    peers: Set<Seq<char>>,
    closed: Seq<char>,
    sender: Seq<char>,
)
    ensures
        !peers.remove(closed).contains(closed),
        !peers.remove(closed).remove(sender).contains(closed),
{
}

} // verus!
