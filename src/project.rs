//! A shader project: its exposed properties, in uniform order, and its graph.
use vstd::prelude::*;
use crate::graph::GraphEditor;

verus! {

/// The value of an exposed property. Each component is the bit pattern of an
/// IEEE-754 single-precision number, exactly as it is uploaded.
#[derive(Clone, Copy, Debug, PartialEq, Eq, Structural)]
pub enum PropertyValue {
    Float(u32),
    Color(u32, u32, u32, u32),
    Vec2(u32, u32),
    Float4(u32, u32, u32, u32),
}

/// An exposed property: a uniform field of the generated shader.
pub struct ShaderProperty {
    pub name: String,
    pub value: PropertyValue,
}

pub struct UmbraProject {
    pub name: String,
    /// In uniform order: the order of the struct fields and of the packed bytes.
    pub properties: Vec<ShaderProperty>,
    pub graph: GraphEditor,
}

impl UmbraProject {
    /// An untitled project with no properties and a graph holding just the two
    /// sinks.
    pub fn new() -> (r: UmbraProject)
        ensures
            r.name@ == "Untitled Project"@,
            r.properties@.len() == 0,
            r.graph.wf(),
            r.graph.node_seq().len() == 2,
            r.graph.node_at(0) == Some(crate::graph::UmbraNode::VertexOutput),
            r.graph.node_at(1) == Some(crate::graph::UmbraNode::FragmentOutput),
            r.graph.wire_seq().len() == 0,
    {
        UmbraProject {
            name: String::from_str("Untitled Project"),
            properties: Vec::new(),
            graph: GraphEditor::new(),
        }
    }

    /// Appends an exposed property after the existing ones.
    pub fn add_property(&mut self, name: &str, value: PropertyValue)
        ensures
            final(self).properties@.len() == old(self).properties@.len() + 1,
            forall|i: int|
                0 <= i < old(self).properties@.len() ==> final(self).properties@[i] == old(
                    self,
                ).properties@[i],
            final(self).properties@.last().name@ == name@,
            final(self).properties@.last().value == value,
            final(self).name == old(self).name,
            final(self).graph == old(self).graph,
    {
        self.properties.push(ShaderProperty { name: String::from_str(name), value });
    }
}

} // verus!
