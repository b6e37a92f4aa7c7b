//! Network addresses of the nodes, as plain values, and maps keyed by them.

use vstd::prelude::*;
use crate::sitemap::{key_seq, pairs_to_map, lemma_pair_in_map, lemma_map_len, lemma_push_pair,
    lemma_remove_pair};

verus! {

/// The socket address of a node: an IP address and a port.
#[derive(Debug, Clone, Copy, PartialEq, Eq, Hash, Structural)]
pub enum SiteAddr {
    /// IPv4 address (as a big-endian number) and port.
    V4 { ip: u32, port: u16 },
    /// IPv6 address (as a big-endian number), port, flow information and scope.
    V6 { ip: u128, port: u16, flowinfo: u32, scope_id: u32 },
}

impl SiteAddr {
    /// The address `0.0.0.0:0`, which stands for "no address".
    pub fn unspecified() -> (a: SiteAddr)
        ensures
            a == (SiteAddr::V4 { ip: 0, port: 0 }),
    {
        SiteAddr::V4 { ip: 0, port: 0 }
    }

    /// The port.
    pub fn port(&self) -> (p: u16)
        ensures
            p == match *self {
                SiteAddr::V4 { port, .. } => port,
                SiteAddr::V6 { port, .. } => port,
            },
    {
        match *self {
            SiteAddr::V4 { port, .. } => port,
            SiteAddr::V6 { port, .. } => port,
        }
    }

    /// Whether the IP address is the unspecified one (`0.0.0.0` or `::`).
    pub fn ip_is_unspecified(&self) -> (b: bool)
        ensures
            b == match *self {
                SiteAddr::V4 { ip, .. } => ip == 0,
                SiteAddr::V6 { ip, .. } => ip == 0,
            },
    {
        match *self {
            SiteAddr::V4 { ip, .. } => ip == 0,
            SiteAddr::V6 { ip, .. } => ip == 0,
        }
    }
}

/// An ordered map keyed by addresses, in which no address occurs twice.
#[derive(Debug)]
pub struct AddrMap<T> {
    entries: Vec<(SiteAddr, T)>,
}

impl<T> View for AddrMap<T> {
    type V = Map<SiteAddr, T>;

    open spec fn view(&self) -> Map<SiteAddr, T> {
        pairs_to_map(self.pairs())
    }
}

impl<T> AddrMap<T> {
    /// The entries, in the order their keys were first inserted.
    pub closed spec fn pairs(&self) -> Seq<(SiteAddr, T)> {
        self.entries@
    }

    /// No address occurs twice (the type's invariant).
    #[verifier::type_invariant]
    pub open spec fn inv(&self) -> bool {
        key_seq(self.pairs()).no_duplicates()
    }

    /// Creates an empty map.
    pub fn new() -> (m: Self)
        ensures
            m@ == Map::<SiteAddr, T>::empty(),
    {
        let m = AddrMap { entries: Vec::new() };
        assert(m@ =~= Map::<SiteAddr, T>::empty());
        m
    }

    /// The number of entries.
    pub fn len(&self) -> (n: usize)
        ensures
            n == self@.dom().len(),
    {
        proof {
            use_type_invariant(self);
            lemma_map_len(self.pairs());
        }
        self.entries.len()
    }

    fn find(&self, key: &SiteAddr) -> (r: Option<usize>)
        ensures
            r is Some <==> self@.contains_key(*key),
            r matches Some(i) ==> i < self.pairs().len() && self.pairs()[i as int].0 == *key,
    {
        proof {
            use_type_invariant(self);
        }
        let mut i: usize = 0;
        while i < self.entries.len()
            invariant
                i <= self.entries.len(),
                key_seq(self.pairs()).no_duplicates(),
                forall|j: int| 0 <= j < i ==> self.pairs()[j].0 != *key,
            decreases self.entries.len() - i,
        {
            if self.entries[i].0 == *key {
                proof {
                    lemma_pair_in_map(self.pairs(), i as int);
                }
                return Some(i);
            }
            i += 1;
        }
        proof {
            if self@.contains_key(*key) {
                let j = key_seq(self.pairs()).index_of(*key);
                assert(key_seq(self.pairs())[j] == self.pairs()[j].0);
            }
        }
        None
    }

    /// Whether the map holds `key`.
    pub fn contains_key(&self, key: &SiteAddr) -> (b: bool)
        ensures
            b == self@.contains_key(*key),
    {
        self.find(key).is_some()
    }

    /// The value held for `key`, if any.
    pub fn get(&self, key: &SiteAddr) -> (r: Option<&T>)
        ensures
            r is Some <==> self@.contains_key(*key),
            r matches Some(v) ==> *v == self@[*key],
    {
        match self.find(key) {
            Some(i) => {
                proof {
                    use_type_invariant(self);
                    lemma_pair_in_map(self.pairs(), i as int);
                }
                Some(&self.entries[i].1)
            },
            None => None,
        }
    }

    /// Sets the value for `key`, in place where it is held, else as a new last entry.
    pub fn insert(&mut self, key: SiteAddr, value: T)
        ensures
            final(self)@ == old(self)@.insert(key, value),
    {
        proof {
            use_type_invariant(&*self);
        }
        let ghost p = self.pairs();
        match self.find(&key) {
            Some(i) => {
                proof {
                    lemma_pair_in_map(p, i as int);
                    crate::sitemap::lemma_update_pair(p, i as int, value);
                }
                let mut e = Vec::new();
                std::mem::swap(&mut e, &mut self.entries);
                e.set(i, (key, value));
                assert(e@ =~= p.update(i as int, (p[i as int].0, value)));
                self.entries = e;
            },
            None => {
                proof {
                    lemma_push_pair(p, key, value);
                }
                let mut e = Vec::new();
                std::mem::swap(&mut e, &mut self.entries);
                e.push((key, value));
                self.entries = e;
            },
        }
    }

    /// Removes `key` and gives back its value, if the map held it.
    pub fn remove(&mut self, key: &SiteAddr) -> (r: Option<T>)
        ensures
            final(self)@ == old(self)@.remove(*key),
            r is Some <==> old(self)@.contains_key(*key),
            r matches Some(v) ==> v == old(self)@[*key],
    {
        proof {
            use_type_invariant(&*self);
        }
        let ghost p = self.pairs();
        match self.find(key) {
            Some(i) => {
                proof {
                    lemma_pair_in_map(p, i as int);
                    lemma_remove_pair(p, i as int);
                }
                let mut e = Vec::new();
                std::mem::swap(&mut e, &mut self.entries);
                let (_k, v) = e.remove(i);
                self.entries = e;
                Some(v)
            },
            None => {
                assert(self@ =~= old(self)@.remove(*key));
                None
            },
        }
    }
}

} // verus!
