use umbra::builtins::register_builtins;
use umbra::dialect::TargetFormat;
use umbra::eval::Evaluator;
use umbra::graph::{GraphEditor, UmbraNode};
use umbra::nodes::{Property, PropertyValue as NodeValue};
use umbra::project::{PropertyValue, UmbraProject};
use umbra::registry::NodeRegistry;

fn builtin_registry() -> NodeRegistry {
    let mut reg = NodeRegistry::new();
    register_builtins(&mut reg);
    reg
}

fn generic(name: &str) -> UmbraNode {
    UmbraNode::Generic { node_type: name.to_string(), properties: Vec::new() }
}

fn count(hay: &str, needle: &str) -> usize {
    hay.matches(needle).count()
}

/// Ids of the nodes declared in `src`, in declaration order.
fn declared_ids(src: &str) -> Vec<String> {
    let mut ids = Vec::new();
    for line in src.lines() {
        let t = line.trim_start();
        let rest = if let Some(r) = t.strip_prefix("let ") {
            r
        } else if let Some(pos) = t.find(' ') {
            &t[pos + 1..]
        } else {
            continue;
        };
        if let Some(r) = rest.strip_prefix("node_") {
            let id: String = r.chars().take_while(|c| c.is_ascii_digit()).collect();
            if !id.is_empty() && r[id.len()..].starts_with(" = ") {
                ids.push(id);
            }
        }
    }
    ids
}

#[test]
fn color_into_fragment_without_vertex_sink() {
    let reg = builtin_registry();
    let mut p = UmbraProject::new();
    p.graph.remove_node(0);
    let c = p.graph.insert_node(UmbraNode::Color(1000, 0, 0, 1000));
    p.graph.connect(c, 1, 0);

    let generic_src = Evaluator::evaluate(&reg, &p, TargetFormat::Generic);
    assert_eq!(
        generic_src,
        "// Generic GLSL Shader\n\nuniform float time;\n\nvoid main() {\n  vec4 node_2 = vec4(1.000, 0.000, 0.000, 1.000);\n  gl_FragColor = node_2;\n}\n"
    );

    let wgsl = Evaluator::evaluate(&reg, &p, TargetFormat::Wgsl);
    assert!(wgsl.contains("  var out: VertexOutput;\n  let offset = vec3<f32>(0.0);\n"));
    assert!(wgsl.contains(
        "  let node_2 = vec4<f32>(1.000, 0.000, 0.000, 1.000);\n  let color_final = node_2;\n  return vec4<f32>(color_final.rgba);\n}\n"
    ));
    assert!(wgsl.ends_with("}\n"));
}

#[test]
fn evaluation_is_idempotent() {
    let reg = builtin_registry();
    let mut p = UmbraProject::new();
    p.add_property("amp", PropertyValue::Float(1.5f32.to_bits()));
    let t = p.graph.insert_node(generic("Time"));
    let a = p.graph.insert_node(UmbraNode::Property("amp".to_string()));
    let m = p.graph.insert_node(generic("Multiply"));
    p.graph.connect(t, m, 0);
    p.graph.connect(a, m, 1);
    p.graph.connect(m, 1, 0);
    let pos = p.graph.insert_node(UmbraNode::Position);
    p.graph.connect(pos, 0, 0);
    for d in [TargetFormat::Wgsl, TargetFormat::Godot, TargetFormat::Generic] {
        let first = Evaluator::evaluate(&reg, &p, d);
        let second = Evaluator::evaluate(&reg, &p, d);
        assert_eq!(first.as_bytes(), second.as_bytes());
    }
}

#[test]
fn shared_node_is_declared_once() {
    let reg = builtin_registry();
    let mut p = UmbraProject::new();
    let t = p.graph.insert_node(generic("Time"));
    let add = p.graph.insert_node(generic("Add"));
    p.graph.connect(t, add, 0);
    p.graph.connect(t, add, 1);
    p.graph.connect(add, 1, 0);
    let src = Evaluator::evaluate(&reg, &p, TargetFormat::Wgsl);
    assert_eq!(count(&src, "let node_2 = uniforms.time;"), 1);
    assert_eq!(count(&src, "node_2 ="), 1);
    assert!(src.contains("  let node_3 = (node_2 + node_2);\n"));
    assert!(src.contains("  let color_final = node_3;\n"));
}

#[test]
fn self_loop_is_cut_with_zero() {
    let reg = builtin_registry();
    let mut p = UmbraProject::new();
    let add = p.graph.insert_node(generic("Add"));
    let f = p.graph.insert_node(UmbraNode::Float(250));
    p.graph.connect(add, add, 0);
    p.graph.connect(f, add, 1);
    p.graph.connect(add, 1, 0);
    let src = Evaluator::evaluate(&reg, &p, TargetFormat::Wgsl);
    assert!(src.contains("  let node_3 = 0.250;\n  let node_2 = (0.0 + node_3);\n"));
    assert!(src.contains("  let color_final = node_2;\n  return vec4<f32>(color_final.rgba);\n}\n"));
    assert!(src.starts_with("struct Uniforms {\n"));
}

#[test]
fn two_node_cycle_is_cut_at_the_back_edge() {
    let reg = builtin_registry();
    let mut p = UmbraProject::new();
    let a = p.graph.insert_node(generic("Multiply"));
    let b = p.graph.insert_node(generic("Add"));
    p.graph.connect(b, a, 0);
    p.graph.connect(a, b, 0);
    p.graph.connect(a, 1, 0);
    let src = Evaluator::evaluate(&reg, &p, TargetFormat::Generic);
    assert_eq!(
        src,
        "// Generic GLSL Shader\n\nuniform float time;\n\nvoid main() {\n  float node_3 = (0.0 + 0.0);\n  float node_2 = (node_3 * 0.0);\n  gl_FragColor = node_2;\n}\n"
    );
}

#[test]
fn dialects_declare_the_same_nodes_in_the_same_order() {
    let reg = builtin_registry();
    let mut p = UmbraProject::new();
    let t = p.graph.insert_node(generic("Time"));
    let uv = p.graph.insert_node(generic("UV"));
    let c = p.graph.insert_node(UmbraNode::Color(500, 250, 0, 1000));
    let m = p.graph.insert_node(generic("Multiply"));
    let add = p.graph.insert_node(generic("Add"));
    p.graph.connect(c, m, 0);
    p.graph.connect(t, m, 1);
    p.graph.connect(m, add, 0);
    p.graph.connect(uv, add, 1);
    p.graph.connect(add, 1, 0);
    let w = declared_ids(&Evaluator::evaluate(&reg, &p, TargetFormat::Wgsl));
    let g = declared_ids(&Evaluator::evaluate(&reg, &p, TargetFormat::Godot));
    let m2 = declared_ids(&Evaluator::evaluate(&reg, &p, TargetFormat::Generic));
    assert_eq!(w, vec!["4", "2", "5", "3", "6"]);
    assert_eq!(w, g);
    assert_eq!(w, m2);
}

#[test]
fn other_dialects_respell_generic_expressions() {
    let mut reg = builtin_registry();
    let mut p = UmbraProject::new();
    let mut props = Vec::new();
    props.push(Property { name: "value".to_string(), value: NodeValue::Color(0, 500, 1000, 1000) });
    let col = p.graph.insert_node(UmbraNode::Generic { node_type: "Color".to_string(), properties: props });
    p.graph.connect(col, 1, 0);
    let wgsl = Evaluator::evaluate(&reg, &p, TargetFormat::Wgsl);
    assert!(wgsl.contains("  let node_2 = vec4<f32>(0.000, 0.500, 1.000, 1.000);\n"));
    let godot = Evaluator::evaluate(&reg, &p, TargetFormat::Godot);
    assert!(godot.contains("  vec4 node_2 = vec4(0.000, 0.500, 1.000, 1.000);\n"));
    assert!(godot.contains("  vec4 color_final = node_2;\n  ALBEDO = color_final.rgb;\n  ALPHA = color_final.a;\n}\n"));
    // a registered name replaced later keeps the later descriptor
    let mut d = umbra::builtins::UVNode.descriptor();
    d.name = "Color".to_string();
    reg.register(d);
    let again = Evaluator::evaluate(&reg, &p, TargetFormat::Generic);
    assert!(again.contains("  float node_2 = in.uv;\n"));
}

#[test]
fn unknown_type_and_missing_sinks() {
    let reg = builtin_registry();
    let mut p = UmbraProject::new();
    let u = p.graph.insert_node(generic("Noise"));
    p.graph.connect(u, 1, 0);
    let src = Evaluator::evaluate(&reg, &p, TargetFormat::Godot);
    assert!(src.contains("  float node_2 = 0.0 /* unknown node */;\n"));
    assert!(src.contains("void vertex() {\n  VERTEX += (vec3(0.0)).xyz;\n}\n"));

    let mut q = UmbraProject::new();
    q.graph.remove_node(0);
    q.graph.remove_node(1);
    let w = Evaluator::evaluate(&reg, &q, TargetFormat::Wgsl);
    assert!(w.contains("  let offset = vec3<f32>(0.0);\n"));
    assert!(w.contains("  let color_final = vec4<f32>(1.0, 0.0, 1.0, 1.0);\n"));
    let g = Evaluator::evaluate(&reg, &q, TargetFormat::Generic);
    assert!(g.contains("  gl_FragColor = vec4(1.0, 0.0, 1.0, 1.0);\n"));
}

#[test]
fn unconnected_sinks_use_defaults() {
    let reg = builtin_registry();
    let p = UmbraProject::new();
    let w = Evaluator::evaluate(&reg, &p, TargetFormat::Wgsl);
    assert!(w.contains("  let offset = vec3<f32>(0.0);\n"));
    assert!(w.contains("  let color_final = vec4<f32>(1.0, 1.0, 1.0, 1.0);\n"));
    let g = Evaluator::evaluate(&reg, &p, TargetFormat::Godot);
    assert!(g.contains("  vec4 color_final = vec4(1.0, 1.0, 1.0, 1.0);\n"));
}

#[test]
fn position_and_property_spelling() {
    let reg = builtin_registry();
    let mut p = UmbraProject::new();
    p.add_property("tint", PropertyValue::Color(0, 0, 0, 0));
    p.add_property("shift", PropertyValue::Vec2(0, 0));
    let pos = p.graph.insert_node(UmbraNode::Position);
    let prop = p.graph.insert_node(UmbraNode::Property("tint".to_string()));
    p.graph.connect(pos, 0, 0);
    p.graph.connect(prop, 1, 0);
    let w = Evaluator::evaluate(&reg, &p, TargetFormat::Wgsl);
    assert!(w.contains("  let node_2 = model.position;\n  let offset = node_2;\n"));
    assert!(w.contains("  let node_3 = uniforms.tint;\n"));
    assert!(w.contains("  tint: vec4<f32>,\n  shift: vec2<f32>,\n  _pad_shift: vec2<f32>,\n};\n"));
    let g = Evaluator::evaluate(&reg, &p, TargetFormat::Godot);
    assert!(g.contains("  float node_2 = VERTEX;\n"));
    assert!(g.contains("  float node_3 = tint;\n"));
    assert!(g.contains("uniform vec4 tint : source_color;\nuniform vec2 shift;\n"));
    let m = Evaluator::evaluate(&reg, &p, TargetFormat::Generic);
    assert!(m.contains("uniform vec4 tint;\nuniform vec2 shift;\n"));
    assert!(!m.contains("VERTEX"));
}

#[test]
fn constants_keep_three_decimals() {
    let reg = builtin_registry();
    let mut p = UmbraProject::new();
    let f = p.graph.insert_node(UmbraNode::Float(-5));
    let v = p.graph.insert_node(UmbraNode::Float4(12345, -1000, 0, 7));
    let add = p.graph.insert_node(generic("Add"));
    p.graph.connect(f, add, 0);
    p.graph.connect(v, add, 1);
    p.graph.connect(add, 1, 0);
    let src = Evaluator::evaluate(&reg, &p, TargetFormat::Wgsl);
    assert!(src.contains("  let node_2 = -0.005;\n"));
    assert!(src.contains("  let node_3 = vec4<f32>(12.345, -1.000, 0.000, 0.007);\n"));
    let mut props = Vec::new();
    props.push(Property { name: "value".to_string(), value: NodeValue::Float(2500) });
    let mut q = UmbraProject::new();
    let n = q.graph.insert_node(UmbraNode::Generic { node_type: "Float".to_string(), properties: props });
    q.graph.connect(n, 1, 0);
    let src2 = Evaluator::evaluate(&reg, &q, TargetFormat::Generic);
    assert!(src2.contains("  float node_2 = 2.500;\n"));
}

#[test]
fn unit_layout_for_each_dialect() {
    let reg = builtin_registry();
    let mut p = UmbraProject::new();
    p.add_property("amp", PropertyValue::Float(0));
    let w = Evaluator::evaluate(&reg, &p, TargetFormat::Wgsl);
    assert!(w.starts_with("struct Uniforms {\n  view_proj: mat4x4<f32>,\n  time: f32,\n  p1: f32,\n  p2: f32,\n  p3: f32,\n  resolution: vec2<f32>,\n  mouse: vec2<f32>,\n  amp: f32,\n  _pad_amp_0: f32,\n  _pad_amp_1: f32,\n  _pad_amp_2: f32,\n};\n\n@group(0) @binding(0) var<uniform> uniforms: Uniforms;\n"));
    let g = Evaluator::evaluate(&reg, &p, TargetFormat::Godot);
    assert_eq!(
        g,
        "shader_type spatial;\n\nuniform float time;\nuniform float amp;\n\nvoid vertex() {\n  VERTEX += (vec3(0.0)).xyz;\n}\n\nvoid fragment() {\n  vec4 color_final = vec4(1.0, 1.0, 1.0, 1.0);\n  ALBEDO = color_final.rgb;\n  ALPHA = color_final.a;\n}\n"
    );
    let _ = GraphEditor::new();
}
