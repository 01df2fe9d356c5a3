//! Sets of URIs.

use crate::text;
use vstd::prelude::*;

verus! {

/// The characters of each of some strings.
pub open spec fn texts(v: Seq<String>) -> Seq<Seq<char>> {
    v.map_values(|s: String| s@)
}

/// A set of URIs, kept in the order in which they came.
pub struct UriSet {
    uris: Vec<String>,
}

impl View for UriSet {
    type V = Set<Seq<char>>;

    closed spec fn view(&self) -> Set<Seq<char>> {
        texts(self.uris@).to_set()
    }
}

impl UriSet {
    /// Nothing occurs twice.
    #[verifier::type_invariant]
    spec fn distinct(self) -> bool {
        texts(self.uris@).no_duplicates()
    }

    /// The empty set.
    pub fn new() -> (r: UriSet)
        ensures
            r@ == Set::<Seq<char>>::empty(),
    {
        let r = UriSet { uris: Vec::new() };
        assert(r@ =~= Set::<Seq<char>>::empty());
        r
    }

    /// Where `uri` stands, or how many there are where it is not in the set.
    fn position(&self, uri: &str) -> (r: usize)
        ensures
            r <= self.uris.len(),
            r < self.uris.len() ==> texts(self.uris@)[r as int] == uri@,
            r == self.uris.len() ==> !texts(self.uris@).contains(uri@),
    {
        let mut i: usize = 0;
        while i < self.uris.len()
            invariant
                i <= self.uris.len(),
                forall|k: int| 0 <= k < i ==> texts(self.uris@)[k] != uri@,
            decreases self.uris.len() - i,
        {
            if text::same_text(self.uris[i].as_str(), uri) {
                return i;
            }
            assert(texts(self.uris@)[i as int] != uri@);
            i = i + 1;
        }
        i
    }

    /// Whether `uri` is in the set.
    pub fn contains(&self, uri: &str) -> (r: bool)
        ensures
            r == self@.contains(uri@),
    {
        let i = self.position(uri);
        if i < self.uris.len() {
            assert(texts(self.uris@).contains(uri@));
            true
        } else {
            false
        }
    }

    /// Puts `uri` into the set.
    pub fn insert(&mut self, uri: String)
        ensures
            final(self)@ == old(self)@.insert(uri@),
    {
        proof {
            use_type_invariant(&*self);
        }
        let i = self.position(uri.as_str());
        let ghost all = texts(self.uris@);
        let ghost u = uri@;
        if i == self.uris.len() {
            let mut list: Vec<String> = Vec::new();
            std::mem::swap(&mut list, &mut self.uris);
            list.push(uri);
            proof {
                assert(texts(list@) =~= all.push(u));
                assert forall|s: Seq<char>| #[trigger]
                    all.push(u).contains(s) <==> all.contains(s) || s == u by {
                    if all.contains(s) {
                        let k = choose|k: int| 0 <= k < all.len() && all[k] == s;
                        assert(all.push(u)[k] == s);
                    }
                    if s == u {
                        assert(all.push(u)[all.len() as int] == u);
                    }
                }
            }
            self.uris = list;
        } else {
            assert(all.contains(u));
        }
        assert(self@ =~= old(self)@.insert(u));
    }

    /// Takes `uri` out of the set.
    pub fn remove(&mut self, uri: &str)
        ensures
            final(self)@ == old(self)@.remove(uri@),
    {
        proof {
            use_type_invariant(&*self);
        }
        let i = self.position(uri);
        let ghost all = texts(self.uris@);
        if i < self.uris.len() {
            let mut list: Vec<String> = Vec::new();
            std::mem::swap(&mut list, &mut self.uris);
            let _ = list.remove(i);
            proof {
                let rest = texts(list@);
                let n = i as int;
                assert(rest =~= all.remove(n));
                assert forall|s: Seq<char>| #[trigger]
                    rest.contains(s) <==> all.contains(s) && s != uri@ by {
                    if rest.contains(s) {
                        let k = choose|k: int| 0 <= k < rest.len() && rest[k] == s;
                        let m = if k < n {
                            k
                        } else {
                            k + 1
                        };
                        assert(all[m] == s);
                        assert(all[n] == uri@);
                    }
                    if all.contains(s) && s != uri@ {
                        let k = choose|k: int| 0 <= k < all.len() && all[k] == s;
                        let m = if k < n {
                            k
                        } else {
                            k - 1
                        };
                        assert(rest[m] == s);
                    }
                }
                assert forall|a: int, b: int|
                    0 <= a < rest.len() && 0 <= b < rest.len() && a != b implies rest[a]
                    != rest[b] by {
                    let x = if a < n {
                        a
                    } else {
                        a + 1
                    };
                    let y = if b < n {
                        b
                    } else {
                        b + 1
                    };
                    assert(all[x] == rest[a]);
                    assert(all[y] == rest[b]);
                }
            }
            self.uris = list;
        }
        assert(self@ =~= old(self)@.remove(uri@));
    }

    /// The URIs, each once.
    pub fn to_vec(&self) -> (r: Vec<String>)
        ensures
            texts(r@).to_set() == self@,
            texts(r@).no_duplicates(),
    {
        proof {
            use_type_invariant(self);
        }
        let mut r: Vec<String> = Vec::new();
        let mut i: usize = 0;
        while i < self.uris.len()
            invariant
                i <= self.uris.len(),
                texts(r@) == texts(self.uris@).take(i as int),
            decreases self.uris.len() - i,
        {
            let ghost before = r@;
            r.push(self.uris[i].clone());
            assert(texts(r@) =~= texts(before).push(self.uris@[i as int]@));
            i = i + 1;
            assert(texts(self.uris@).take(i as int) =~= texts(self.uris@).take(i - 1).push(
                self.uris@[i - 1]@,
            ));
        }
        assert(texts(r@) =~= texts(self.uris@));
        r
    }
}

/// Strings are taken as they are, each whole and in its place.
pub proof fn texts_are_taken_whole(v: Seq<String>, i: int)
    requires
        0 <= i < v.len(),
    ensures
        texts(v).len() == v.len(),
        texts(v)[i] == v[i]@,
{
}

} // verus!
