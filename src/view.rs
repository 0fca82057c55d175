//! What the graph editor shows of a node: its title and its pin counts.
use vstd::prelude::*;
use crate::graph::UmbraNode;
use crate::registry::NodeRegistry;

verus! {

/// Where an editor window is placed.
#[derive(Clone, Copy, Debug, PartialEq, Eq, Structural)]
pub enum WindowKind {
    Floating,
    PanelRight,
    PanelLeft,
    PanelTop,
    PanelBottom,
}

/// Number of input pins of `node`: those of its registered type for a
/// generic node (none when the type is unknown), one for each sink.
pub open spec fn input_count(node: UmbraNode, reg: NodeRegistry) -> nat {
    match node {
        UmbraNode::Generic { node_type, .. } => match reg.entry(node_type@) {
            Some(d) => d.inputs@.len(),
            None => 0,
        },
        UmbraNode::VertexOutput | UmbraNode::FragmentOutput => 1,
        _ => 0,
    }
}

/// Number of output pins of `node`: none for a sink, one for a constant,
/// a property reference or the position.
pub open spec fn output_count(node: UmbraNode, reg: NodeRegistry) -> nat {
    match node {
        UmbraNode::Generic { node_type, .. } => match reg.entry(node_type@) {
            Some(d) => d.outputs@.len(),
            None => 0,
        },
        UmbraNode::VertexOutput | UmbraNode::FragmentOutput => 0,
        _ => 1,
    }
}

/// Presents nodes to the graph editor.
pub struct UmbraViewer;

impl UmbraViewer {
    /// The title of `node`.
    pub fn title(&self, node: &UmbraNode) -> (r: String)
        ensures
            r@ == match node {
                UmbraNode::Generic { node_type, .. } => node_type@,
                UmbraNode::Float(_) => "Float"@,
                UmbraNode::Color(..) => "Color"@,
                UmbraNode::Float4(..) => "Float4"@,
                UmbraNode::Property(_) => "Property"@,
                UmbraNode::VertexOutput => "Vertex Output"@,
                UmbraNode::FragmentOutput => "Fragment Output"@,
                UmbraNode::Position => "Position"@,
            },
    {
        node.name()
    }

    /// The number of input pins of `node`.
    pub fn inputs(&self, node: &UmbraNode, registry: &NodeRegistry) -> (r: usize)
        ensures
            r == input_count(*node, *registry),
    {
        match node {
            UmbraNode::Generic { node_type, .. } => match registry.get(node_type.as_str()) {
                Some(d) => d.inputs.len(),
                None => 0,
            },
            UmbraNode::VertexOutput | UmbraNode::FragmentOutput => 1,
            _ => 0,
        }
    }

    /// The number of output pins of `node`.
    pub fn outputs(&self, node: &UmbraNode, registry: &NodeRegistry) -> (r: usize)
        ensures
            r == output_count(*node, *registry),
    {
        match node {
            UmbraNode::Generic { node_type, .. } => match registry.get(node_type.as_str()) {
                Some(d) => d.outputs.len(),
                None => 0,
            },
            UmbraNode::VertexOutput | UmbraNode::FragmentOutput => 0,
            _ => 1,
        }
    }
}

} // verus!
