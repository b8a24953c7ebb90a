//! The codecs that the service offers, by name.

use crate::audio::codec::traits::Codec;
use vstd::prelude::*;
use vstd::string::StringExecFns;

verus! {

/// A table from names to codecs. It is filled when the service starts and
/// asked by name when a request comes in. A name that is not in it is an
/// answer like any other: `None`.
pub struct CodecRegistry<C> {
    names: Vec<String>,
    codecs: Vec<C>,
}

impl<C> View for CodecRegistry<C> {
    type V = Map<Seq<char>, C>;

    /// The codec under each name.
    closed spec fn view(&self) -> Map<Seq<char>, C> {
        Map::new(
            |name: Seq<char>| exists|i: int| 0 <= i < self.names@.len() && self.names@[i]@ == name,
            |name: Seq<char>| self.codecs@[self.slot(name)],
        )
    }
}

impl<C> CodecRegistry<C> {
    /// A slot of the table that holds `name`, if there is one.
    closed spec fn slot(&self, name: Seq<char>) -> int {
        choose|i: int| 0 <= i < self.names@.len() && self.names@[i]@ == name
    }

    /// Each name stands in one slot, beside its codec.
    pub closed spec fn wf(&self) -> bool {
        &&& self.names@.len() == self.codecs@.len()
        &&& forall|i: int, j: int|
            0 <= i < j < self.names@.len() ==> self.names@[i]@ != self.names@[j]@
    }

    /// The slot of `name` is the only one that holds it.
    proof fn lemma_slot(&self, name: Seq<char>, i: int)
        requires
            self.wf(),
            0 <= i < self.names@.len(),
            self.names@[i]@ == name,
        ensures
            self.slot(name) == i,
            self@.dom().contains(name),
            self@[name] == self.codecs@[i],
    {
        let j = self.slot(name);
        if j < i {
            assert(self.names@[j]@ != self.names@[i]@);
        } else if i < j {
            assert(self.names@[i]@ != self.names@[j]@);
        }
    }

    /// The table with no codec in it.
    pub fn new() -> (r: Self)
        ensures
            r.wf(),
            r@ == Map::<Seq<char>, C>::empty(),
    {
        let r = CodecRegistry { names: Vec::new(), codecs: Vec::new() };
        assert(r@ =~= Map::<Seq<char>, C>::empty());
        r
    }

    /// Where `name` stands in the table.
    fn position(&self, name: &str) -> (r: Option<usize>)
        requires
            self.wf(),
        ensures
            match r {
                Some(i) => i < self.names@.len() && self.names@[i as int]@ == name@,
                None => !self@.dom().contains(name@),
            },
    {
        let key: String = String::from_str(name);
        let n: usize = self.names.len();
        let mut i: usize = 0;
        while i < n
            invariant
                i <= n,
                n == self.names@.len(),
                key@ == name@,
                forall|j: int| 0 <= j < i ==> self.names@[j]@ != name@,
            decreases n - i,
        {
            if self.names[i] == key {
                return Some(i);
            }
            i = i + 1;
        }
        None
    }

    /// Puts `codec` under `name`, in place of the codec that was there if
    /// there was one.
    pub fn register_as(&mut self, name: &str, codec: C)
        requires
            old(self).wf(),
        ensures
            final(self).wf(),
            final(self)@ == old(self)@.insert(name@, codec),
    {
        match self.position(name) {
            Some(i) => {
                self.codecs.set(i, codec);
                proof {
                    assert forall|other: Seq<char>| self@.dom().contains(other) implies self@[other]
                        == old(self)@.insert(name@, codec)[other] by {
                        let k = self.slot(other);
                        self.lemma_slot(other, k);
                        old(self).lemma_slot(other, k);
                        if other == name@ {
                            self.lemma_slot(other, i as int);
                        }
                    }
                    old(self).lemma_slot(name@, i as int);
                    assert(self@.dom() =~= old(self)@.insert(name@, codec).dom());
                    assert(self@ =~= old(self)@.insert(name@, codec));
                }
            },
            None => {
                self.names.push(String::from_str(name));
                self.codecs.push(codec);
                proof {
                    let n = old(self).names@.len() as int;
                    assert(self.names@[n]@ == name@);
                    assert forall|i: int, j: int| 0 <= i < j < self.names@.len() implies self.names@[i]@
                        != self.names@[j]@ by {
                        if j == n {
                            assert(old(self).names@[i]@ == self.names@[i]@);
                            if self.names@[i]@ == name@ {
                                old(self).lemma_slot(name@, i);
                            }
                        } else {
                            assert(old(self).names@[i]@ == self.names@[i]@);
                            assert(old(self).names@[j]@ == self.names@[j]@);
                        }
                    }
                    assert forall|other: Seq<char>|
                        self@.dom().contains(other) <==> old(self)@.insert(
                            name@,
                            codec,
                        ).dom().contains(other) by {
                        if old(self)@.dom().contains(other) {
                            let k = old(self).slot(other);
                            assert(self.names@[k]@ == other);
                        }
                        if self@.dom().contains(other) && other != name@ {
                            let k = self.slot(other);
                            assert(k < n);
                            assert(old(self).names@[k]@ == other);
                        }
                    }
                    assert forall|other: Seq<char>| self@.dom().contains(other) implies self@[other]
                        == old(self)@.insert(name@, codec)[other] by {
                        let k = self.slot(other);
                        self.lemma_slot(other, k);
                        if other == name@ {
                            self.lemma_slot(other, n);
                        } else {
                            assert(k < n);
                            assert(old(self).names@[k]@ == other);
                            old(self).lemma_slot(other, k);
                        }
                    }
                    assert(self@ =~= old(self)@.insert(name@, codec));
                }
            },
        }
    }

    /// The codec under `name`, if there is one.
    pub fn get(&self, name: &str) -> (r: Option<&C>)
        requires
            self.wf(),
        ensures
            match r {
                Some(codec) => self@.dom().contains(name@) && *codec == self@[name@],
                None => !self@.dom().contains(name@),
            },
    {
        match self.position(name) {
            Some(i) => {
                proof {
                    self.lemma_slot(name@, i as int);
                }
                Some(&self.codecs[i])
            },
            None => None,
        }
    }
}

impl<C: Codec> CodecRegistry<C> {
    /// Puts `codec` under the name that it gives.
    pub fn register(&mut self, codec: C)
        requires
            old(self).wf(),
        ensures
            final(self).wf(),
            exists|name: &'static str|
                call_ensures(C::name, (&codec,), name) && final(self)@ == old(self)@.insert(
                    name@,
                    codec,
                ),
    {
        let name: &'static str = codec.name();
        self.register_as(name, codec);
    }

    /// The codec under `name`, if there is one and it says that it is
    /// lossy.
    pub fn get_lossy(&self, name: &str) -> (r: Option<&C>)
        requires
            self.wf(),
        ensures
            match r {
                Some(codec) => self@.dom().contains(name@) && *codec == self@[name@]
                    && call_ensures(C::is_lossy, (codec,), true),
                None => !self@.dom().contains(name@) || call_ensures(
                    C::is_lossy,
                    (&self@[name@],),
                    false,
                ),
            },
    {
        match self.get(name) {
            Some(codec) => if codec.is_lossy() {
                Some(codec)
            } else {
                None
            },
            None => None,
        }
    }

    /// The codec under `name`, if there is one and it says that it is
    /// lossless.
    pub fn get_lossless(&self, name: &str) -> (r: Option<&C>)
        requires
            self.wf(),
        ensures
            match r {
                Some(codec) => self@.dom().contains(name@) && *codec == self@[name@]
                    && call_ensures(C::is_lossless, (codec,), true),
                None => !self@.dom().contains(name@) || call_ensures(
                    C::is_lossless,
                    (&self@[name@],),
                    false,
                ),
            },
    {
        match self.get(name) {
            Some(codec) => if codec.is_lossless() {
                Some(codec)
            } else {
                None
            },
            None => None,
        }
    }
}

} // verus!
