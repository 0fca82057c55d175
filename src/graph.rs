//! The node graph: nodes in an arena indexed by id, and wires from an output
//! pin to an input pin.
use vstd::prelude::*;
use crate::nodes::Property;

verus! {

/// A node instance. Scalars are fixed-point thousandths.
pub enum UmbraNode {
    /// A node whose behaviour comes from the registry entry named `node_type`.
    Generic { node_type: String, properties: Vec<Property> },
    Float(i32),
    Color(i32, i32, i32, i32),
    Float4(i32, i32, i32, i32),
    /// A reference to an exposed project property, by name.
    Property(String),
    VertexOutput,
    FragmentOutput,
    Position,
}

impl UmbraNode {
    pub open spec fn is_sink(&self) -> bool {
        self is VertexOutput || self is FragmentOutput
    }

    /// The title shown for the node.
    pub fn name(&self) -> (r: String)
        ensures
            r@ == match self {
                UmbraNode::Generic { node_type, .. } => node_type@,
                UmbraNode::Float(_) => "Float"@,
                UmbraNode::Color(..) => "Color"@,
                UmbraNode::Float4(..) => "Float4"@,
                UmbraNode::Property(_) => "Property"@,
                UmbraNode::VertexOutput => "Vertex Output"@,
                UmbraNode::FragmentOutput => "Fragment Output"@,
                UmbraNode::Position => "Position"@,
            },
    {
        match self {
            UmbraNode::Generic { node_type, .. } => node_type.clone(),
            UmbraNode::Float(_) => String::from_str("Float"),
            UmbraNode::Color(..) => String::from_str("Color"),
            UmbraNode::Float4(..) => String::from_str("Float4"),
            UmbraNode::Property(_) => String::from_str("Property"),
            UmbraNode::VertexOutput => String::from_str("Vertex Output"),
            UmbraNode::FragmentOutput => String::from_str("Fragment Output"),
            UmbraNode::Position => String::from_str("Position"),
        }
    }
}

/// A wire from the output of node `from` to input pin `input` of node `to`.
#[derive(Clone, Copy, Debug, PartialEq, Eq, Structural)]
pub struct Wire {
    pub from: usize,
    pub to: usize,
    pub input: usize,
}

/// The node feeding input pin `input` of node `to`: the first matching wire at
/// or after position `i`.
pub open spec fn source_from(ws: Seq<Wire>, to: usize, input: usize, i: int) -> Option<usize>
    decreases ws.len() - i,
{
    if i < 0 || i >= ws.len() {
        None
    } else if ws[i].to == to && ws[i].input == input {
        Some(ws[i].from)
    } else {
        source_from(ws, to, input, i + 1)
    }
}

/// At most one wire per input pin.
pub open spec fn pins_unique(ws: Seq<Wire>) -> bool {
    forall|i: int, j: int|
        0 <= i < j < ws.len() ==> !(#[trigger] ws[i].to == #[trigger] ws[j].to && ws[i].input
            == ws[j].input)
}

/// A graph of nodes. Ids index the arena; a removed node leaves an empty slot
/// so that ids stay stable.
pub struct GraphEditor {
    nodes: Vec<Option<UmbraNode>>,
    wires: Vec<Wire>,
}

impl GraphEditor {
    /// The node slots, by id.
    pub closed spec fn node_seq(&self) -> Seq<Option<UmbraNode>> {
        self.nodes@
    }

    /// The wires, in the order they were made.
    pub closed spec fn wire_seq(&self) -> Seq<Wire> {
        self.wires@
    }

    /// The node at `id`, if that slot is live.
    pub open spec fn node_at(&self, id: int) -> Option<UmbraNode> {
        if 0 <= id < self.node_seq().len() {
            self.node_seq()[id]
        } else {
            None
        }
    }

    /// The node feeding input pin `input` of `to`.
    pub open spec fn source(&self, to: usize, input: usize) -> Option<usize> {
        source_from(self.wire_seq(), to, input, 0)
    }

    pub open spec fn wf(&self) -> bool {
        pins_unique(self.wire_seq())
    }

    /// A graph holding the two sinks: the vertex output as node 0 and the
    /// fragment output as node 1.
    pub fn new() -> (r: GraphEditor)
        ensures
            r.wf(),
            r.node_seq().len() == 2,
            r.node_at(0) == Some(UmbraNode::VertexOutput),
            r.node_at(1) == Some(UmbraNode::FragmentOutput),
            r.wire_seq().len() == 0,
    {
        let mut nodes: Vec<Option<UmbraNode>> = Vec::new();
        nodes.push(Some(UmbraNode::VertexOutput));
        nodes.push(Some(UmbraNode::FragmentOutput));
        GraphEditor { nodes, wires: Vec::new() }
    }

    /// Number of node slots, live or removed.
    pub fn len(&self) -> (r: usize)
        ensures
            r == self.node_seq().len(),
    {
        self.nodes.len()
    }

    /// Adds `node` and returns its id.
    pub fn insert_node(&mut self, node: UmbraNode) -> (id: usize)
        ensures
            id == old(self).node_seq().len(),
            final(self).node_seq() == old(self).node_seq().push(Some(node)),
            final(self).wire_seq() == old(self).wire_seq(),
    {
        let id = self.nodes.len();
        self.nodes.push(Some(node));
        id
    }

    /// The node at `id`, if that slot is live.
    pub fn node(&self, id: usize) -> (r: Option<&UmbraNode>)
        ensures
            r.is_some() == self.node_at(id as int).is_some(),
            r.is_some() ==> *r.unwrap() == self.node_at(id as int).unwrap(),
    {
        if id < self.nodes.len() {
            match &self.nodes[id] {
                Some(n) => Some(n),
                None => None,
            }
        } else {
            None
        }
    }

    /// The wires, in the order they were made.
    pub fn wires(&self) -> (r: &Vec<Wire>)
        ensures
            r@ == self.wire_seq(),
    {
        &self.wires
    }

    /// The node feeding input pin `input` of `to`.
    pub fn source_of(&self, to: usize, input: usize) -> (r: Option<usize>)
        ensures
            r == self.source(to, input),
    {
        let mut i: usize = 0;
        while i < self.wires.len()
            invariant
                i <= self.wires@.len(),
                self.source(to, input) == source_from(self.wires@, to, input, i as int),
            decreases self.wires@.len() - i,
        {
            let w = self.wires[i];
            if w.to == to && w.input == input {
                return Some(w.from);
            }
            i = i + 1;
        }
        None
    }

    /// Keeps, in order, the wires that `keep_wire` lets survive.
    fn retain_wires(&mut self, to: usize, input: usize, node: usize, by_node: bool)
        ensures
            final(self).node_seq() == old(self).node_seq(),
            final(self).wire_seq() == old(self).wire_seq().filter(
                |w: Wire| keep_wire(w, to, input, node, by_node),
            ),
    {
        let ghost ws = self.wires@;
        let mut kept: Vec<Wire> = Vec::new();
        let mut i: usize = 0;
        while i < self.wires.len()
            invariant
                self.wires@ == ws,
                i <= ws.len(),
                kept@ == ws.subrange(0, i as int).filter(
                    |w: Wire| keep_wire(w, to, input, node, by_node),
                ),
            decreases ws.len() - i,
        {
            let w = self.wires[i];
            proof {
                reveal(Seq::filter);
                assert(ws.subrange(0, i + 1).drop_last() =~= ws.subrange(0, i as int));
            }
            if !(if by_node {
                w.from == node || w.to == node
            } else {
                w.to == to && w.input == input
            }) {
                kept.push(w);
            }
            i = i + 1;
        }
        assert(ws.subrange(0, ws.len() as int) =~= ws);
        self.wires = kept;
    }

    /// Wires the output of `from` into input pin `input` of `to`, replacing the
    /// wire that fed that pin before.
    pub fn connect(&mut self, from: usize, to: usize, input: usize)
        requires
            old(self).wf(),
        ensures
            final(self).wf(),
            final(self).node_seq() == old(self).node_seq(),
            final(self).source(to, input) == Some(from),
            forall|t: usize, k: usize|
                !(t == to && k == input) ==> final(self).source(t, k) == old(self).source(t, k),
    {
        let ghost before = self.wires@;
        self.retain_wires(to, input, 0, false);
        let ghost kept = self.wires@;
        self.wires.push(Wire { from, to, input });
        proof {
            let after = self.wires@;
            lemma_filter_keeps(before, to, input);
            assert forall|t: usize, k: usize| !(t == to && k == input) implies source_from(
                after,
                t,
                k,
                0,
            ) == source_from(before, t, k, 0) by {
                lemma_source_filter(before, to, input, t, k, 0);
                assert(before.subrange(0, before.len() as int) =~= before);
                lemma_source_push(kept, Wire { from, to, input }, t, k, 0);
            }
            lemma_source_push(kept, Wire { from, to, input }, to, input, 0);
            lemma_source_absent(kept, to, input, 0);
            assert(pins_unique(after)) by {
                assert forall|i: int, j: int| 0 <= i < j < after.len() implies !(
                #[trigger] after[i].to == #[trigger] after[j].to && after[i].input
                    == after[j].input) by {
                    if j < kept.len() {
                        assert(after[i] == kept[i] && after[j] == kept[j]);
                        lemma_filter_subseq_unique(before, |w: Wire| keep_wire(w, to, input, 0, false));
                    } else {
                        assert(kept.contains(after[i]));
                    }
                }
            }
        }
    }

    /// Removes node `id` and every wire that touches it.
    pub fn remove_node(&mut self, id: usize)
        requires
            old(self).wf(),
        ensures
            final(self).wf(),
            final(self).node_seq().len() == old(self).node_seq().len(),
            final(self).node_at(id as int) is None,
            forall|k: int| k != id ==> final(self).node_at(k) == old(self).node_at(k),
            final(self).wire_seq() == old(self).wire_seq().filter(
                |w: Wire| w.from != id && w.to != id,
            ),
    {
        self.retain_wires(0, 0, id, true);
        if id < self.nodes.len() {
            self.nodes.set(id, None);
        }
        proof {
            let ws = old(self).wire_seq();
            assert(ws.filter(|w: Wire| keep_wire(w, 0, 0, id, true)) =~= ws.filter(
                |w: Wire| w.from != id && w.to != id,
            )) by {
                assert((|w: Wire| keep_wire(w, 0, 0, id, true)) =~= (|w: Wire|
                    w.from != id && w.to != id));
            }
            lemma_filter_subseq_unique(ws, |w: Wire| w.from != id && w.to != id);
        }
    }
}

/// Whether a wire survives a removal: by node, every wire touching `node`
/// goes; otherwise the wire into pin `input` of `to` goes.
pub open spec fn keep_wire(w: Wire, to: usize, input: usize, node: usize, by_node: bool) -> bool {
    if by_node {
        !(w.from == node || w.to == node)
    } else {
        !(w.to == to && w.input == input)
    }
}

proof fn lemma_filter_keeps(ws: Seq<Wire>, to: usize, input: usize)
    ensures
        forall|w: Wire| ws.filter(|w: Wire| keep_wire(w, to, input, 0, false)).contains(w)
            <==> ws.contains(w) && !(w.to == to && w.input == input),
{
    let f = |w: Wire| keep_wire(w, to, input, 0, false);
    assert forall|w: Wire| ws.filter(f).contains(w) <==> ws.contains(w) && f(w) by {
        if ws.filter(f).contains(w) {
            ws.lemma_filter_contains_rev(f, w);
        }
        if ws.contains(w) && f(w) {
            let i = choose|i: int| 0 <= i < ws.len() && ws[i] == w;
            ws.lemma_filter_contains(f, i);
        }
    }
}

/// Removing the wires of one pin does not change which node feeds another.
proof fn lemma_source_filter(ws: Seq<Wire>, to: usize, input: usize, t: usize, k: usize, i: int)
    requires
        !(t == to && k == input),
        0 <= i <= ws.len(),
    ensures
        source_from(ws.subrange(i, ws.len() as int).filter(
            |w: Wire| keep_wire(w, to, input, 0, false),
        ), t, k, 0) == source_from(ws, t, k, i),
    decreases ws.len() - i,
{
    let f = |w: Wire| keep_wire(w, to, input, 0, false);
    let rest = ws.subrange(i, ws.len() as int);
    if i < ws.len() {
        lemma_source_filter(ws, to, input, t, k, i + 1);
        let tail = ws.subrange(i + 1, ws.len() as int);
        assert(rest =~= seq![ws[i]] + tail);
        Seq::filter_distributes_over_add(seq![ws[i]], tail, f);
        reveal_with_fuel(Seq::filter, 2);
        if f(ws[i]) {
            assert(seq![ws[i]].filter(f) =~= seq![ws[i]]);
            let s = seq![ws[i]] + tail.filter(f);
            assert(s[0] == ws[i]);
            if ws[i].to == t && ws[i].input == k {
            } else {
                lemma_source_shift(s, t, k);
                assert(s.skip(1) =~= tail.filter(f));
            }
        } else {
            assert(seq![ws[i]].filter(f) =~= Seq::<Wire>::empty());
            assert(Seq::<Wire>::empty() + tail.filter(f) =~= tail.filter(f));
        }
    } else {
        assert(rest =~= Seq::<Wire>::empty());
        assert(rest.filter(f) =~= Seq::<Wire>::empty()) by {
            reveal(Seq::filter);
        }
    }
}

/// Lookup past a first wire that does not match.
proof fn lemma_source_shift(s: Seq<Wire>, t: usize, k: usize)
    requires
        s.len() > 0,
        !(s[0].to == t && s[0].input == k),
    ensures
        source_from(s, t, k, 0) == source_from(s.skip(1), t, k, 0),
{
    lemma_source_offset(s, t, k, 1);
}

proof fn lemma_source_offset(s: Seq<Wire>, t: usize, k: usize, i: int)
    requires
        1 <= i <= s.len(),
    ensures
        source_from(s, t, k, i) == source_from(s.skip(1), t, k, i - 1),
    decreases s.len() - i,
{
    if i < s.len() {
        lemma_source_offset(s, t, k, i + 1);
    }
}

/// Appending a wire changes only the lookup of its own pin, and only where
/// that pin had no wire.
proof fn lemma_source_push(ws: Seq<Wire>, w: Wire, t: usize, k: usize, i: int)
    requires
        0 <= i <= ws.len(),
    ensures
        source_from(ws.push(w), t, k, i) == match source_from(ws, t, k, i) {
            Some(f) => Some(f),
            None => if w.to == t && w.input == k {
                Some(w.from)
            } else {
                None
            },
        },
    decreases ws.len() - i,
{
    if i < ws.len() {
        assert(ws.push(w)[i] == ws[i]);
        lemma_source_push(ws, w, t, k, i + 1);
    } else {
        assert(ws.push(w)[i] == w);
        assert(source_from(ws.push(w), t, k, i + 1) is None);
    }
}

proof fn lemma_source_absent(ws: Seq<Wire>, to: usize, input: usize, i: int)
    requires
        0 <= i,
        forall|j: int| 0 <= j < ws.len() ==> !(ws[j].to == to && ws[j].input == input),
    ensures
        source_from(ws, to, input, i) is None,
    decreases ws.len() - i,
{
    if i < ws.len() {
        lemma_source_absent(ws, to, input, i + 1);
    }
}

/// Filtering keeps at most one wire per pin.
proof fn lemma_filter_subseq_unique(ws: Seq<Wire>, f: spec_fn(Wire) -> bool)
    requires
        pins_unique(ws),
    ensures
        pins_unique(ws.filter(f)),
    decreases ws.len(),
{
    reveal(Seq::filter);
    if ws.len() > 0 {
        let init = ws.drop_last();
        assert(pins_unique(init));
        lemma_filter_subseq_unique(init, f);
        let fi = init.filter(f);
        if f(ws.last()) {
            let out = fi.push(ws.last());
            assert(ws.filter(f) == out);
            assert forall|i: int, j: int| 0 <= i < j < out.len() implies !(
            #[trigger] out[i].to == #[trigger] out[j].to && out[i].input == out[j].input) by {
                if j == out.len() - 1 {
                    init.lemma_filter_contains_rev(f, out[i]);
                    assert(init.contains(out[i]));
                    let a = choose|a: int| 0 <= a < init.len() && init[a] == out[i];
                    assert(ws[a] == out[i]);
                    assert(ws[ws.len() - 1] == ws.last());
                }
            }
        }
    }
}

} // verus!
