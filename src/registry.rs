//! The catalogue of node types, looked up by name.
use vstd::prelude::*;
use crate::nodes::NodeDescriptor;
use crate::text::{
    chars_of, compare_text, lemma_text_lt_irreflexive, lemma_text_lt_total,
    lemma_text_lt_transitive, text_lt,
};

verus! {

/// Position of the first descriptor named `name` at or after `i`.
pub open spec fn index_from(ds: Seq<NodeDescriptor>, name: Seq<char>, i: int) -> Option<int>
    decreases ds.len() - i,
{
    if i < 0 || i >= ds.len() {
        None
    } else if ds[i].name@ == name {
        Some(i)
    } else {
        index_from(ds, name, i + 1)
    }
}

/// Descriptors strictly ordered by name, so that each name occurs once.
pub open spec fn sorted_by_name(ds: Seq<NodeDescriptor>) -> bool {
    forall|i: int, j: int| 0 <= i < j < ds.len() ==> text_lt(#[trigger] ds[i].name@, #[trigger] ds[j].name@)
}

proof fn lemma_index_found(ds: Seq<NodeDescriptor>, name: Seq<char>, i: int, k: int)
    requires
        0 <= i <= k < ds.len(),
        ds[k].name@ == name,
        forall|j: int| i <= j < k ==> ds[j].name@ != name,
    ensures
        index_from(ds, name, i) == Some(k),
    decreases k - i,
{
    if i < k {
        lemma_index_found(ds, name, i + 1, k);
    }
}

proof fn lemma_index_absent(ds: Seq<NodeDescriptor>, name: Seq<char>, i: int)
    requires
        0 <= i,
        forall|j: int| i <= j < ds.len() ==> ds[j].name@ != name,
    ensures
        index_from(ds, name, i) is None,
    decreases ds.len() - i,
{
    if i < ds.len() {
        lemma_index_absent(ds, name, i + 1);
    }
}

/// In a sorted catalogue the descriptor named `name` is the one at its position.
proof fn lemma_index_sorted(ds: Seq<NodeDescriptor>, name: Seq<char>)
    requires
        sorted_by_name(ds),
    ensures
        forall|k: int| 0 <= k < ds.len() && ds[k].name@ == name ==> index_from(ds, name, 0) == Some(k),
        (forall|j: int| 0 <= j < ds.len() ==> ds[j].name@ != name) ==> index_from(ds, name, 0) is None,
{
    assert forall|k: int| 0 <= k < ds.len() && ds[k].name@ == name implies index_from(ds, name, 0) == Some(k) by {
        assert forall|j: int| 0 <= j < k implies ds[j].name@ != name by {
            lemma_text_lt_irreflexive(name);
        }
        lemma_index_found(ds, name, 0, k);
    }
    if forall|j: int| 0 <= j < ds.len() ==> ds[j].name@ != name {
        lemma_index_absent(ds, name, 0);
    }
}

/// The node types known to the compiler. Registering a name twice keeps the
/// later descriptor.
pub struct NodeRegistry {
    nodes: Vec<NodeDescriptor>,
}

impl NodeRegistry {
    /// The descriptors, in name order.
    pub closed spec fn entries(&self) -> Seq<NodeDescriptor> {
        self.nodes@
    }

    pub open spec fn wf(&self) -> bool {
        sorted_by_name(self.entries())
    }

    /// The descriptor registered under `name`.
    pub open spec fn entry(&self, name: Seq<char>) -> Option<NodeDescriptor> {
        match index_from(self.entries(), name, 0) {
            Some(k) => Some(self.entries()[k]),
            None => None,
        }
    }

    /// An empty registry.
    pub fn new() -> (r: NodeRegistry)
        ensures
            r.wf(),
            r.entries().len() == 0,
    {
        NodeRegistry { nodes: Vec::new() }
    }

    /// Adds `d` under its name, replacing a descriptor of the same name.
    pub fn register(&mut self, d: NodeDescriptor)
        requires
            old(self).wf(),
        ensures
            final(self).wf(),
            final(self).entry(d.name@) == Some(d),
            forall|n: Seq<char>| n != d.name@ ==> final(self).entry(n) == old(self).entry(n),
            final(self).entries().len() == old(self).entries().len() + if old(self).entry(
                d.name@,
            ) is Some {
                0int
            } else {
                1int
            },
    {
        let ghost key_v = d.name@;
        let ghost before = self.nodes@;
        let key = chars_of(d.name.as_str());
        let mut i: usize = 0;
        let mut c: i8 = -1;
        while i < self.nodes.len()
            invariant
                self.nodes@ == before,
                sorted_by_name(before),
                key@ == key_v,
                i <= before.len(),
                forall|j: int| 0 <= j < i ==> text_lt(#[trigger] before[j].name@, key_v),
            ensures
                i < before.len() ==> !text_lt(before[i as int].name@, key_v),
                i < before.len() ==> (c == 0 <==> before[i as int].name@ == key_v),
            decreases before.len() - i,
        {
            let here = chars_of(self.nodes[i].name.as_str());
            c = compare_text(&here, &key);
            if c >= 0 {
                break;
            }
            i = i + 1;
        }
        proof {
            lemma_index_sorted(before, key_v);
            assert forall|j: int| 0 <= j < i implies before[j].name@ != key_v by {
                lemma_text_lt_irreflexive(key_v);
            }
            if i < before.len() {
                lemma_text_lt_total(before[i as int].name@, key_v);
                assert forall|j: int| i < j < before.len() implies text_lt(key_v, #[trigger] before[j].name@) by {
                    if before[i as int].name@ == key_v {
                    } else {
                        lemma_text_lt_transitive(key_v, before[i as int].name@, before[j].name@);
                    }
                }
                assert forall|j: int| i < j < before.len() implies before[j].name@ != key_v by {
                    lemma_text_lt_irreflexive(key_v);
                }
            }
        }
        if i < self.nodes.len() && c == 0 {
            self.nodes.set(i, d);
            proof {
                let after = self.nodes@;
                assert(sorted_by_name(after)) by {
                    assert forall|a: int, b: int| 0 <= a < b < after.len() implies text_lt(
                        #[trigger] after[a].name@,
                        #[trigger] after[b].name@,
                    ) by {
                        assert(text_lt(before[a].name@, before[b].name@));
                    }
                }
                assert(after[i as int] == d);
                lemma_index_sorted(after, key_v);
                assert(index_from(after, key_v, 0) == Some(i as int));
                assert forall|n: Seq<char>| n != key_v implies self.entry(n) == old(self).entry(n) by {
                    lemma_index_sorted(after, n);
                    lemma_index_sorted(before, n);
                    if exists|k: int| 0 <= k < before.len() && before[k].name@ == n {
                        let k = choose|k: int| 0 <= k < before.len() && before[k].name@ == n;
                        assert(after[k].name@ == n);
                    } else {
                        assert forall|j: int| 0 <= j < after.len() implies after[j].name@ != n by {
                            if j != i {
                                assert(after[j] == before[j]);
                            }
                        }
                    }
                }
            }
        } else {
            self.nodes.insert(i, d);
            proof {
                let after = self.nodes@;
                assert(after[i as int] == d);
                assert forall|j: int| 0 <= j < i implies after[j] == before[j] by {}
                assert forall|j: int| i < j < after.len() implies after[j] == before[j - 1] by {}
                assert(sorted_by_name(after)) by {
                    assert forall|a: int, b: int| 0 <= a < b < after.len() implies text_lt(
                        #[trigger] after[a].name@,
                        #[trigger] after[b].name@,
                    ) by {
                        if b < i {
                            assert(text_lt(before[a].name@, before[b].name@));
                        } else if b == i {
                        } else if a < i {
                            lemma_text_lt_transitive(before[a].name@, key_v, before[b - 1].name@);
                        } else if a == i {
                        } else {
                            assert(text_lt(before[a - 1].name@, before[b - 1].name@));
                        }
                    }
                }
                assert forall|j: int| 0 <= j < before.len() implies before[j].name@ != key_v by {
                    if j < i {
                        lemma_text_lt_irreflexive(key_v);
                    }
                }
                lemma_index_sorted(after, key_v);
                assert(index_from(after, key_v, 0) == Some(i as int));
                assert forall|n: Seq<char>| n != key_v implies self.entry(n) == old(self).entry(n) by {
                    lemma_index_sorted(after, n);
                    lemma_index_sorted(before, n);
                    if exists|k: int| 0 <= k < before.len() && before[k].name@ == n {
                        let k = choose|k: int| 0 <= k < before.len() && before[k].name@ == n;
                        if k < i {
                            assert(after[k].name@ == n);
                        } else {
                            assert(after[k + 1].name@ == n);
                        }
                    } else {
                        assert forall|j: int| 0 <= j < after.len() implies after[j].name@ != n by {
                            if j < i {
                                assert(after[j] == before[j]);
                            } else if j > i {
                                assert(after[j] == before[j - 1]);
                            }
                        }
                    }
                }
            }
        }
    }

    /// The descriptor registered under `name`, if any.
    pub fn get(&self, name: &str) -> (r: Option<&NodeDescriptor>)
        ensures
            r.is_some() == self.entry(name@).is_some(),
            r.is_some() ==> *r.unwrap() == self.entry(name@).unwrap(),
    {
        let key = chars_of(name);
        let mut i: usize = 0;
        while i < self.nodes.len()
            invariant
                key@ == name@,
                i <= self.nodes@.len(),
                index_from(self.nodes@, name@, 0) == index_from(self.nodes@, name@, i as int),
            decreases self.nodes@.len() - i,
        {
            let here = chars_of(self.nodes[i].name.as_str());
            if crate::text::same_text(&here, &key) {
                return Some(&self.nodes[i]);
            }
            i = i + 1;
        }
        None
    }

    /// All descriptors, in name order.
    pub fn list(&self) -> (r: &Vec<NodeDescriptor>)
        ensures
            r@ == self.entries(),
            self.wf() ==> sorted_by_name(r@),
    {
        &self.nodes
    }
}

} // verus!
