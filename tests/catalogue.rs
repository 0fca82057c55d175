use umbra::builtins::{register_builtins, AbsNode, ColorNode, FloatNode, SinNode, TimeNode, UVNode};
use umbra::dialect::TargetFormat;
use umbra::graph::{GraphEditor, UmbraNode};
use umbra::nodes::{execute, NodeOp, Property, PropertyValue};
use umbra::project::{PropertyValue as UniformValue, UmbraProject};
use umbra::registry::NodeRegistry;
use umbra::view::{UmbraViewer, WindowKind};

fn text(v: &[char]) -> String {
    v.iter().collect()
}

#[test]
fn builtins_are_listed_by_name() {
    let mut reg = NodeRegistry::new();
    register_builtins(&mut reg);
    let names: Vec<String> = reg.list().iter().map(|d| d.name.clone()).collect();
    assert_eq!(names, vec!["Add", "Color", "Float", "Multiply", "Time", "UV"]);
    assert_eq!(reg.get("Multiply").unwrap().op, NodeOp::Multiply);
    assert_eq!(reg.get("Add").unwrap().inputs.len(), 2);
    assert!(reg.get("Sin").is_none());
    register_builtins(&mut reg);
    assert_eq!(reg.list().len(), 6);
}

#[test]
fn later_registration_wins() {
    let mut reg = NodeRegistry::new();
    reg.register(TimeNode.descriptor());
    let mut d = SinNode.descriptor();
    d.name = "Time".to_string();
    reg.register(d);
    reg.register(AbsNode.descriptor());
    assert_eq!(reg.list().len(), 2);
    assert_eq!(reg.get("Time").unwrap().op, NodeOp::Sin);
    assert_eq!(reg.list()[0].name, "Abs");
}

#[test]
fn node_types_emit_their_expressions() {
    let ins = vec!["a".chars().collect::<Vec<char>>(), "b".chars().collect()];
    assert_eq!(text(&execute(NodeOp::Add, &ins, &Vec::new())), "(a + b)");
    assert_eq!(text(&execute(NodeOp::Multiply, &ins, &Vec::new())), "(a * b)");
    assert_eq!(text(&execute(NodeOp::Fract, &ins, &Vec::new())), "fract(a)");
    assert_eq!(text(&execute(NodeOp::Cos, &Vec::new(), &Vec::new())), "cos(0.0)");
    assert_eq!(text(&execute(NodeOp::Time, &ins, &Vec::new())), "uniforms.time");
    assert_eq!(text(&execute(NodeOp::FloatValue, &ins, &Vec::new())), "0.0");
    assert_eq!(text(&execute(NodeOp::ColorValue, &ins, &Vec::new())), "vec4<f32>(1.0, 1.0, 1.0, 1.0)");
    let props = vec![Property { name: "value".to_string(), value: PropertyValue::Float(3000) }];
    assert_eq!(text(&execute(NodeOp::FloatValue, &ins, &props)), "3.000");
    assert_eq!(FloatNode.descriptor().properties[0].value, PropertyValue::Float(0));
    assert_eq!(ColorNode.descriptor().properties[0].value, PropertyValue::Color(1000, 1000, 1000, 1000));
    assert_eq!(UVNode.descriptor().outputs[0].data_type, "Vec2");
}

#[test]
fn value_accessors() {
    assert_eq!(PropertyValue::Float(5).as_float(), Some(5));
    assert_eq!(PropertyValue::Int(5).as_float(), None);
    assert_eq!(PropertyValue::Vec4(1, 2, 3, 4).as_color_tuple(), Some((1, 2, 3, 4)));
    assert_eq!(PropertyValue::Color(4, 3, 2, 1).as_color_tuple(), Some((4, 3, 2, 1)));
    assert_eq!(PropertyValue::Bool(true).as_color_tuple(), None);
}

#[test]
fn connecting_a_pin_twice_keeps_the_last_wire() {
    let mut g = GraphEditor::new();
    let a = g.insert_node(UmbraNode::Float(1));
    let b = g.insert_node(UmbraNode::Float(2));
    g.connect(a, 1, 0);
    g.connect(b, 1, 0);
    assert_eq!(g.source_of(1, 0), Some(b));
    g.connect(a, 0, 0);
    g.remove_node(a);
    assert_eq!(g.source_of(0, 0), None);
    assert_eq!(g.source_of(1, 0), Some(b));
    assert!(g.node(a).is_none());
    assert_eq!(g.len(), 4);
    assert_eq!(g.wires().len(), 1);
    assert_eq!((g.wires()[0].from, g.wires()[0].to, g.wires()[0].input), (b, 1, 0));
}

#[test]
fn viewer_counts_pins() {
    let mut reg = NodeRegistry::new();
    register_builtins(&mut reg);
    let v = UmbraViewer;
    let add = UmbraNode::Generic { node_type: "Add".to_string(), properties: Vec::new() };
    assert_eq!(v.inputs(&add, &reg), 2);
    assert_eq!(v.outputs(&add, &reg), 1);
    let unknown = UmbraNode::Generic { node_type: "Nope".to_string(), properties: Vec::new() };
    assert_eq!(v.inputs(&unknown, &reg), 0);
    assert_eq!(v.outputs(&unknown, &reg), 0);
    assert_eq!(v.inputs(&UmbraNode::FragmentOutput, &reg), 1);
    assert_eq!(v.outputs(&UmbraNode::FragmentOutput, &reg), 0);
    assert_eq!(v.outputs(&UmbraNode::Position, &reg), 1);
    assert_eq!(v.title(&UmbraNode::VertexOutput), "Vertex Output");
    assert_eq!(v.title(&add), "Add");
    assert_ne!(WindowKind::Floating, WindowKind::PanelLeft);
}

#[test]
fn formats_and_projects() {
    assert_eq!(TargetFormat::Wgsl.extension(), "wgsl");
    assert_eq!(TargetFormat::Godot.extension(), "gdshader");
    assert_eq!(TargetFormat::Generic.extension(), "shader");
    assert_eq!(TargetFormat::Wgsl.name(), "WGSL");
    assert_eq!(TargetFormat::Godot.name(), "Godot Shader");
    assert_eq!(TargetFormat::Generic.name(), "Generic Shader");
    let mut p = UmbraProject::new();
    assert_eq!(p.name, "Untitled Project");
    p.add_property("a", UniformValue::Float(1));
    p.add_property("b", UniformValue::Vec2(1, 2));
    assert_eq!(p.properties.len(), 2);
    assert_eq!(p.properties[1].name, "b");
    assert_eq!(p.graph.len(), 2);
}
