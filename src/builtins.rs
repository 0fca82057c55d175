//! The node types that ship with the editor.
use vstd::prelude::*;
use crate::nodes::{InputDefinition, NodeDescriptor, NodeOp, OutputDefinition, Property, PropertyValue};
use crate::registry::NodeRegistry;

verus! {

fn input_def(name: &str, data_type: &str) -> (r: InputDefinition)
    ensures
        r.name@ == name@,
        r.data_type@ == data_type@,
{
    InputDefinition { name: String::from_str(name), data_type: String::from_str(data_type) }
}

fn output_def(name: &str, data_type: &str) -> (r: OutputDefinition)
    ensures
        r.name@ == name@,
        r.data_type@ == data_type@,
{
    OutputDefinition { name: String::from_str(name), data_type: String::from_str(data_type) }
}

/// The operation registered under each name by `register_builtins`.
pub open spec fn builtin_op(name: Seq<char>) -> Option<NodeOp> {
    if name == "Add"@ {
        Some(NodeOp::Add)
    } else if name == "Multiply"@ {
        Some(NodeOp::Multiply)
    } else if name == "Time"@ {
        Some(NodeOp::Time)
    } else if name == "UV"@ {
        Some(NodeOp::Uv)
    } else if name == "Float"@ {
        Some(NodeOp::FloatValue)
    } else if name == "Color"@ {
        Some(NodeOp::ColorValue)
    } else {
        None
    }
}

/// Registers the editor's standard node types: Add, Multiply, Time, UV, Float
/// and Color. Other entries stay as they were.
pub fn register_builtins(registry: &mut NodeRegistry)
    requires
        old(registry).wf(),
    ensures
        final(registry).wf(),
        forall|n: Seq<char>| #[trigger] builtin_op(n) is Some ==> final(registry).entry(n) is Some
            && final(registry).entry(n).unwrap().op == builtin_op(n).unwrap(),
        forall|n: Seq<char>| #[trigger] builtin_op(n) is None ==> final(registry).entry(n)
            == old(registry).entry(n),
{
    proof {
        reveal_strlit("Add");
        reveal_strlit("Multiply");
        reveal_strlit("Time");
        reveal_strlit("UV");
        reveal_strlit("Float");
        reveal_strlit("Color");
    }
    let ghost r0 = *registry;
    registry.register(AddNode.descriptor());
    let ghost r1 = *registry;
    registry.register(MultiplyNode.descriptor());
    let ghost r2 = *registry;
    registry.register(TimeNode.descriptor());
    let ghost r3 = *registry;
    registry.register(UVNode.descriptor());
    let ghost r4 = *registry;
    registry.register(FloatNode.descriptor());
    let ghost r5 = *registry;
    registry.register(ColorNode.descriptor());
    proof {
        let add = "Add"@;
        let multiply = "Multiply"@;
        let time = "Time"@;
        let uv = "UV"@;
        let float = "Float"@;
        let color = "Color"@;
        assert(add.len() == 3 && multiply.len() == 8 && time.len() == 4 && uv.len() == 2);
        assert(float.len() == 5 && color.len() == 5 && float[0] == 'F' && color[0] == 'C');
        assert(float != color);
        assert(r2.entry(add) == r1.entry(add));
        assert(r3.entry(add) == r2.entry(add));
        assert(r4.entry(add) == r3.entry(add));
        assert(r5.entry(add) == r4.entry(add));
        assert((*registry).entry(add) == r5.entry(add));
        assert(r3.entry(multiply) == r2.entry(multiply));
        assert(r4.entry(multiply) == r3.entry(multiply));
        assert(r5.entry(multiply) == r4.entry(multiply));
        assert((*registry).entry(multiply) == r5.entry(multiply));
        assert(r4.entry(time) == r3.entry(time));
        assert(r5.entry(time) == r4.entry(time));
        assert((*registry).entry(time) == r5.entry(time));
        assert(r5.entry(uv) == r4.entry(uv));
        assert((*registry).entry(uv) == r5.entry(uv));
        assert((*registry).entry(float) == r5.entry(float));
    }
    assert forall|n: Seq<char>| #[trigger] builtin_op(n) is Some implies registry.entry(n) is Some
        && registry.entry(n).unwrap().op == builtin_op(n).unwrap() by {
        assert(n == "Add"@ || n == "Multiply"@ || n == "Time"@ || n == "UV"@ || n == "Float"@ || n
            == "Color"@);
    }
}

/// Node type that emits adds its two inputs.
pub struct AddNode;

impl AddNode {
    /// The descriptor under which this node type is registered.
    pub fn descriptor(&self) -> (d: NodeDescriptor)
        ensures
            d.name@ == "Add"@,
            d.op == NodeOp::Add,
            d.inputs@.len() == 2,
            d.outputs@.len() == 1,
            d.properties@.len() == 0,
    {
        let mut inputs: Vec<InputDefinition> = Vec::new();
        inputs.push(input_def("A", "Float"));
        inputs.push(input_def("B", "Float"));
        let mut outputs: Vec<OutputDefinition> = Vec::new();
        outputs.push(output_def("Out", "Float"));
        let mut properties: Vec<Property> = Vec::new();
        let mut category: Vec<String> = Vec::new();
        category.push(String::from_str("Math"));
        NodeDescriptor { name: String::from_str("Add"), category, inputs, outputs, properties, op: NodeOp::Add }
    }
}

/// Node type that emits multiplies its two inputs.
pub struct MultiplyNode;

impl MultiplyNode {
    /// The descriptor under which this node type is registered.
    pub fn descriptor(&self) -> (d: NodeDescriptor)
        ensures
            d.name@ == "Multiply"@,
            d.op == NodeOp::Multiply,
            d.inputs@.len() == 2,
            d.outputs@.len() == 1,
            d.properties@.len() == 0,
    {
        let mut inputs: Vec<InputDefinition> = Vec::new();
        inputs.push(input_def("A", "Float"));
        inputs.push(input_def("B", "Float"));
        let mut outputs: Vec<OutputDefinition> = Vec::new();
        outputs.push(output_def("Out", "Float"));
        let mut properties: Vec<Property> = Vec::new();
        let mut category: Vec<String> = Vec::new();
        category.push(String::from_str("Math"));
        NodeDescriptor { name: String::from_str("Multiply"), category, inputs, outputs, properties, op: NodeOp::Multiply }
    }
}

/// Node type that emits the sine of its input.
pub struct SinNode;

impl SinNode {
    /// The descriptor under which this node type is registered.
    pub fn descriptor(&self) -> (d: NodeDescriptor)
        ensures
            d.name@ == "Sin"@,
            d.op == NodeOp::Sin,
            d.inputs@.len() == 1,
            d.outputs@.len() == 1,
            d.properties@.len() == 0,
    {
        let mut inputs: Vec<InputDefinition> = Vec::new();
        inputs.push(input_def("In", "Float"));
        let mut outputs: Vec<OutputDefinition> = Vec::new();
        outputs.push(output_def("Out", "Float"));
        let mut properties: Vec<Property> = Vec::new();
        let mut category: Vec<String> = Vec::new();
        category.push(String::from_str("Math"));
        NodeDescriptor { name: String::from_str("Sin"), category, inputs, outputs, properties, op: NodeOp::Sin }
    }
}

/// Node type that emits the cosine of its input.
pub struct CosNode;

impl CosNode {
    /// The descriptor under which this node type is registered.
    pub fn descriptor(&self) -> (d: NodeDescriptor)
        ensures
            d.name@ == "Cos"@,
            d.op == NodeOp::Cos,
            d.inputs@.len() == 1,
            d.outputs@.len() == 1,
            d.properties@.len() == 0,
    {
        let mut inputs: Vec<InputDefinition> = Vec::new();
        inputs.push(input_def("In", "Float"));
        let mut outputs: Vec<OutputDefinition> = Vec::new();
        outputs.push(output_def("Out", "Float"));
        let mut properties: Vec<Property> = Vec::new();
        let mut category: Vec<String> = Vec::new();
        category.push(String::from_str("Math"));
        NodeDescriptor { name: String::from_str("Cos"), category, inputs, outputs, properties, op: NodeOp::Cos }
    }
}

/// Node type that emits the fractional part of its input.
pub struct FractNode;

impl FractNode {
    /// The descriptor under which this node type is registered.
    pub fn descriptor(&self) -> (d: NodeDescriptor)
        ensures
            d.name@ == "Fract"@,
            d.op == NodeOp::Fract,
            d.inputs@.len() == 1,
            d.outputs@.len() == 1,
            d.properties@.len() == 0,
    {
        let mut inputs: Vec<InputDefinition> = Vec::new();
        inputs.push(input_def("In", "Float"));
        let mut outputs: Vec<OutputDefinition> = Vec::new();
        outputs.push(output_def("Out", "Float"));
        let mut properties: Vec<Property> = Vec::new();
        let mut category: Vec<String> = Vec::new();
        category.push(String::from_str("Math"));
        NodeDescriptor { name: String::from_str("Fract"), category, inputs, outputs, properties, op: NodeOp::Fract }
    }
}

/// Node type that emits the absolute value of its input.
pub struct AbsNode;

impl AbsNode {
    /// The descriptor under which this node type is registered.
    pub fn descriptor(&self) -> (d: NodeDescriptor)
        ensures
            d.name@ == "Abs"@,
            d.op == NodeOp::Abs,
            d.inputs@.len() == 1,
            d.outputs@.len() == 1,
            d.properties@.len() == 0,
    {
        let mut inputs: Vec<InputDefinition> = Vec::new();
        inputs.push(input_def("In", "Float"));
        let mut outputs: Vec<OutputDefinition> = Vec::new();
        outputs.push(output_def("Out", "Float"));
        let mut properties: Vec<Property> = Vec::new();
        let mut category: Vec<String> = Vec::new();
        category.push(String::from_str("Math"));
        NodeDescriptor { name: String::from_str("Abs"), category, inputs, outputs, properties, op: NodeOp::Abs }
    }
}

/// Node type that emits the elapsed time uniform.
pub struct TimeNode;

impl TimeNode {
    /// The descriptor under which this node type is registered.
    pub fn descriptor(&self) -> (d: NodeDescriptor)
        ensures
            d.name@ == "Time"@,
            d.op == NodeOp::Time,
            d.inputs@.len() == 0,
            d.outputs@.len() == 1,
            d.properties@.len() == 0,
    {
        let mut inputs: Vec<InputDefinition> = Vec::new();
        let mut outputs: Vec<OutputDefinition> = Vec::new();
        outputs.push(output_def("Time", "Float"));
        let mut properties: Vec<Property> = Vec::new();
        let mut category: Vec<String> = Vec::new();
        category.push(String::from_str("Input"));
        NodeDescriptor { name: String::from_str("Time"), category, inputs, outputs, properties, op: NodeOp::Time }
    }
}

/// Node type that emits the interpolated texture coordinate.
pub struct UVNode;

impl UVNode {
    /// The descriptor under which this node type is registered.
    pub fn descriptor(&self) -> (d: NodeDescriptor)
        ensures
            d.name@ == "UV"@,
            d.op == NodeOp::Uv,
            d.inputs@.len() == 0,
            d.outputs@.len() == 1,
            d.properties@.len() == 0,
    {
        let mut inputs: Vec<InputDefinition> = Vec::new();
        let mut outputs: Vec<OutputDefinition> = Vec::new();
        outputs.push(output_def("UV", "Vec2"));
        let mut properties: Vec<Property> = Vec::new();
        let mut category: Vec<String> = Vec::new();
        category.push(String::from_str("Input"));
        NodeDescriptor { name: String::from_str("UV"), category, inputs, outputs, properties, op: NodeOp::Uv }
    }
}

/// Node type that emits a constant scalar, its `value` property.
pub struct FloatNode;

impl FloatNode {
    /// The descriptor under which this node type is registered.
    pub fn descriptor(&self) -> (d: NodeDescriptor)
        ensures
            d.name@ == "Float"@,
            d.op == NodeOp::FloatValue,
            d.inputs@.len() == 0,
            d.outputs@.len() == 1,
            d.properties@.len() == 1,
            d.properties@[0].name@ == "value"@,
            d.properties@[0].value == PropertyValue::Float(0),
    {
        let mut inputs: Vec<InputDefinition> = Vec::new();
        let mut outputs: Vec<OutputDefinition> = Vec::new();
        outputs.push(output_def("Out", "Float"));
        let mut properties: Vec<Property> = Vec::new();
        properties.push(Property { name: String::from_str("value"), value: PropertyValue::Float(0) });
        let mut category: Vec<String> = Vec::new();
        category.push(String::from_str("Input"));
        NodeDescriptor { name: String::from_str("Float"), category, inputs, outputs, properties, op: NodeOp::FloatValue }
    }
}

/// Node type that emits a constant color, its `value` property.
pub struct ColorNode;

impl ColorNode {
    /// The descriptor under which this node type is registered.
    pub fn descriptor(&self) -> (d: NodeDescriptor)
        ensures
            d.name@ == "Color"@,
            d.op == NodeOp::ColorValue,
            d.inputs@.len() == 0,
            d.outputs@.len() == 1,
            d.properties@.len() == 1,
            d.properties@[0].name@ == "value"@,
            d.properties@[0].value == PropertyValue::Color(1000, 1000, 1000, 1000),
    {
        let mut inputs: Vec<InputDefinition> = Vec::new();
        let mut outputs: Vec<OutputDefinition> = Vec::new();
        outputs.push(output_def("Color", "Vec4"));
        let mut properties: Vec<Property> = Vec::new();
        properties.push(Property { name: String::from_str("value"), value: PropertyValue::Color(1000, 1000, 1000, 1000) });
        let mut category: Vec<String> = Vec::new();
        category.push(String::from_str("Input"));
        NodeDescriptor { name: String::from_str("Color"), category, inputs, outputs, properties, op: NodeOp::ColorValue }
    }
}

} // verus!
