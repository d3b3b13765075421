//! Tables from texts to texts, kept in the order of their keys.
use crate::order::not_after;
use crate::strings::same;
use vstd::prelude::*;

verus! {

#[derive(Debug, Clone)]
pub struct Entry {
    pub key: String,
    pub value: String,
}

/// A table from texts to texts, in the order of its keys.
#[derive(Debug, Clone)]
pub struct TextTable {
    pub entries: Vec<Entry>,
}

/// The value of the key `k` in a list of entries.
pub open spec fn value_of(entries: Seq<Entry>, k: Seq<char>) -> Option<Seq<char>>
    decreases entries.len(),
{
    if entries.len() == 0 {
        None
    } else if entries.last().key@ == k {
        Some(entries.last().value@)
    } else {
        value_of(entries.drop_last(), k)
    }
}

impl View for TextTable {
    type V = Map<Seq<char>, Seq<char>>;

    open spec fn view(&self) -> Map<Seq<char>, Seq<char>> {
        Map::new(
            |k: Seq<char>| value_of(self.entries@, k) is Some,
            |k: Seq<char>| value_of(self.entries@, k)->0,
        )
    }
}

pub proof fn lemma_value_of(entries: Seq<Entry>, k: Seq<char>)
    ensures
        value_of(entries, k) is Some ==> exists|i: int|
            0 <= i < entries.len() && (#[trigger] entries[i]).key@ == k && value_of(entries, k)
                == Some(entries[i].value@),
        value_of(entries, k) is None ==> forall|i: int|
            0 <= i < entries.len() ==> (#[trigger] entries[i]).key@ != k,
    decreases entries.len(),
{
    if entries.len() > 0 {
        lemma_value_of(entries.drop_last(), k);
        if entries.last().key@ == k {
            assert(entries[entries.len() - 1].key@ == k);
        } else {
            let rest = entries.drop_last();
            if value_of(rest, k) is Some {
                let i = choose|i: int|
                    0 <= i < rest.len() && (#[trigger] rest[i]).key@ == k && value_of(rest, k) == Some(
                        rest[i].value@,
                    );
                assert(entries[i] == rest[i]);
            } else {
                assert forall|i: int| 0 <= i < entries.len() implies (#[trigger] entries[i]).key@
                    != k by {
                    if i < rest.len() {
                        assert(entries[i] == rest[i]);
                    }
                }
            }
        }
    }
}

impl TextTable {
    /// The keys stand in strictly rising order.
    pub open spec fn wf(self) -> bool {
        forall|i: int, j: int|
            0 <= i < j < self.entries@.len() ==> (#[trigger] self.entries@[i]).key@ != (
            #[trigger] self.entries@[j]).key@ && crate::order::le(
                self.entries@[i].key@,
                self.entries@[j].key@,
            )
    }

    pub proof fn lemma_at(self, i: int)
        requires
            self.wf(),
            0 <= i < self.entries@.len(),
        ensures
            self@.dom().contains(self.entries@[i].key@),
            self@[self.entries@[i].key@] == self.entries@[i].value@,
            value_of(self.entries@, self.entries@[i].key@) == Some(self.entries@[i].value@),
    {
        let k = self.entries@[i].key@;
        lemma_value_of(self.entries@, k);
        if value_of(self.entries@, k) is Some {
            let j = choose|j: int|
                0 <= j < self.entries@.len() && (#[trigger] self.entries@[j]).key@ == k && value_of(
                    self.entries@,
                    k,
                ) == Some(self.entries@[j].value@);
            if i < j {
                assert(self.entries@[i].key@ != self.entries@[j].key@);
            } else if j < i {
                assert(self.entries@[j].key@ != self.entries@[i].key@);
            }
        }
    }

    pub fn new() -> (r: TextTable)
        ensures
            r.wf(),
            r@ == Map::<Seq<char>, Seq<char>>::empty(),
    {
        let r = TextTable { entries: Vec::new() };
        assert(r@ =~= Map::<Seq<char>, Seq<char>>::empty());
        r
    }

    /// The value of a key.
    pub fn get(&self, key: &str) -> (r: Option<&str>)
        requires
            self.wf(),
        ensures
            match r {
                Some(value) => self@.dom().contains(key@) && self@[key@] == value@,
                None => !self@.dom().contains(key@),
            },
    {
        let mut i: usize = 0;
        while i < self.entries.len()
            invariant
                self.wf(),
                i <= self.entries@.len(),
                forall|k: int| 0 <= k < i ==> (#[trigger] self.entries@[k]).key@ != key@,
            decreases self.entries@.len() - i,
        {
            if same(self.entries[i].key.as_str(), key) {
                proof {
                    self.lemma_at(i as int);
                }
                return Some(self.entries[i].value.as_str());
            }
            i += 1;
        }
        proof {
            lemma_value_of(self.entries@, key@);
        }
        None
    }

    /// Sets the value of a key.
    pub fn put(&mut self, key: String, value: String)
        requires
            old(self).wf(),
        ensures
            final(self).wf(),
            final(self)@ == old(self)@.insert(key@, value@),
    {
        let ghost before = *self;
        let mut i: usize = 0;
        while i < self.entries.len() && !not_after(key.as_str(), self.entries[i].key.as_str())
            invariant
                self.wf(),
                *self == before,
                i <= self.entries@.len(),
                forall|k: int|
                    0 <= k < i ==> !crate::order::le(key@, (#[trigger] self.entries@[k]).key@),
            decreases self.entries@.len() - i,
        {
            i += 1;
        }
        let found: bool = i < self.entries.len() && same(
            self.entries[i].key.as_str(),
            key.as_str(),
        );
        let ghost old_entries = self.entries@;
        proof {
            assert forall|k: int| 0 <= k < i implies (#[trigger] old_entries[k]).key@ != key@
                && crate::order::le(old_entries[k].key@, key@) by {
                crate::order::lemma_le_total(old_entries[k].key@, key@);
                crate::order::lemma_le_total(key@, key@);
            }
            assert forall|k: int| i < k < old_entries.len() implies (#[trigger] old_entries[k]).key@
                != key@ && crate::order::le(key@, old_entries[k].key@) by {
                assert(old_entries[i as int].key@ != old_entries[k].key@);
                crate::order::lemma_le_transitive(
                    key@,
                    old_entries[i as int].key@,
                    old_entries[k].key@,
                );
                crate::order::lemma_le_total(old_entries[i as int].key@, old_entries[k].key@);
                crate::order::lemma_le_total(key@, old_entries[i as int].key@);
            }
        }
        let entry = Entry { key, value };
        if found {
            self.entries.set(i, entry);
        } else {
            self.entries.insert(i, entry);
        }
        proof {
            let now = *self;
            assert(now.wf()) by {
                assert forall|a: int, b: int| 0 <= a < b < now.entries@.len() implies (
                #[trigger] now.entries@[a]).key@ != (#[trigger] now.entries@[b]).key@
                    && crate::order::le(now.entries@[a].key@, now.entries@[b].key@) by {
                    let shift = if found {
                        0int
                    } else {
                        1int
                    };
                    if a < i && b < i {
                        assert(old_entries[a].key@ != old_entries[b].key@);
                    } else if a < i && b > i {
                        assert(old_entries[a].key@ != old_entries[b - shift].key@);
                    } else if a > i {
                        assert(old_entries[a - shift].key@ != old_entries[b - shift].key@);
                    } else if a < i && b == i {
                        assert(old_entries[a].key@ != entry.key@);
                    } else {
                        assert(b > i);
                        if b - shift == i {
                            assert(crate::order::le(entry.key@, old_entries[i as int].key@));
                        } else {
                            assert(old_entries[b - shift].key@ != entry.key@);
                        }
                    }
                }
            }
            assert forall|k: Seq<char>| #[trigger] value_of(now.entries@, k) == (if k == entry.key@ {
                Some(entry.value@)
            } else {
                value_of(old_entries, k)
            }) by {
                lemma_value_of(now.entries@, k);
                lemma_value_of(old_entries, k);
                if k == entry.key@ {
                    assert(now.entries@[i as int] == entry);
                    now.lemma_at(i as int);
                } else {
                    if value_of(now.entries@, k) is Some {
                        let j = choose|j: int|
                            0 <= j < now.entries@.len() && (#[trigger] now.entries@[j]).key@ == k
                                && value_of(now.entries@, k) == Some(now.entries@[j].value@);
                        assert(j != i);
                        let o = if j < i || found {
                            j
                        } else {
                            j - 1
                        };
                        assert(old_entries[o] == now.entries@[j]);
                        before.lemma_at(o);
                    } else if value_of(old_entries, k) is Some {
                        let j = choose|j: int|
                            0 <= j < old_entries.len() && (#[trigger] old_entries[j]).key@ == k
                                && value_of(old_entries, k) == Some(old_entries[j].value@);
                        let o = if j < i || found {
                            j
                        } else {
                            j + 1
                        };
                        assert(now.entries@[o] == old_entries[j]);
                    }
                }
            }
            assert(now@ =~= before@.insert(entry.key@, entry.value@));
        }
    }

    /// Whether some key has the value.
    pub fn has_value(&self, value: &str) -> (r: bool)
        requires
            self.wf(),
        ensures
            r == (exists|k: Seq<char>| #[trigger] self@.dom().contains(k) && self@[k] == value@),
    {
        let mut i: usize = 0;
        while i < self.entries.len()
            invariant
                self.wf(),
                i <= self.entries@.len(),
                forall|k: int| 0 <= k < i ==> (#[trigger] self.entries@[k]).value@ != value@,
            decreases self.entries@.len() - i,
        {
            if same(self.entries[i].value.as_str(), value) {
                proof {
                    self.lemma_at(i as int);
                }
                return true;
            }
            i += 1;
        }
        proof {
            assert forall|k: Seq<char>| #[trigger] self@.dom().contains(k) implies self@[k]
                != value@ by {
                lemma_value_of(self.entries@, k);
            }
        }
        false
    }

    /// The keys, in order.
    pub open spec fn keys(self) -> Seq<Seq<char>> {
        Seq::new(self.entries@.len(), |i: int| self.entries@[i].key@)
    }

    /// The keys, in order.
    pub fn key_list(&self) -> (r: Vec<String>)
        ensures
            crate::strings::views(r@) == self.keys(),
    {
        let mut out: Vec<String> = Vec::new();
        let mut i: usize = 0;
        while i < self.entries.len()
            invariant
                i <= self.entries@.len(),
                crate::strings::views(out@) =~= self.keys().take(i as int),
            decreases self.entries@.len() - i,
        {
            crate::strings::push_string(&mut out, self.entries[i].key.clone());
            i += 1;
        }
        assert(crate::strings::views(out@) =~= self.keys());
        out
    }

    /// The keys of a table are those that its order lists.
    pub proof fn lemma_keys(self)
        requires
            self.wf(),
        ensures
            forall|k: Seq<char>| self.keys().contains(k) <==> #[trigger] self@.dom().contains(k),
    {
        assert forall|k: Seq<char>| self.keys().contains(k) <==> #[trigger] self@.dom().contains(
            k,
        ) by {
            lemma_value_of(self.entries@, k);
            if self.keys().contains(k) {
                let i = choose|i: int| 0 <= i < self.keys().len() && self.keys()[i] == k;
                self.lemma_at(i);
            }
            if self@.dom().contains(k) {
                let i = choose|i: int|
                    0 <= i < self.entries@.len() && (#[trigger] self.entries@[i]).key@ == k && value_of(
                        self.entries@,
                        k,
                    ) == Some(self.entries@[i].value@);
                assert(self.keys()[i] == k);
            }
        }
    }
}

} // verus!
