//! The graph-to-source compiler: a memoized depth-first walk from each stage's
//! sink that declares every reached node once and breaks cycles with a zero
//! literal, followed by assembly of the whole unit in the chosen dialect.
use vstd::prelude::*;
use crate::dialect::{
    decl_line, position_expr, property_expr, push_decl, push_position, push_property,
    push_sink_default, push_stage_fallback, push_var_name, push_vec4_const, retarget, retarget_expr,
    sink_default, stage_fallback, unknown_lit, var_name, vec4_const, zero_lit, TargetFormat,
};
use crate::graph::{GraphEditor, UmbraNode};
use crate::nodes::{execute, execute_spec};
use crate::project::{PropertyValue, ShaderProperty, UmbraProject};
use crate::layout::{lemma_packed_slots, packed, slot_bytes, BASE_UNIFORM_SIZE, SLOT_SIZE};
use crate::registry::NodeRegistry;
use crate::text::{fixed3, push_chars, push_fixed3, push_str, text_of, texts};

verus! {

/// What a stage has produced so far: the nodes declared, in order, and the
/// statement lines declaring them.
pub struct StageState {
    pub order: Seq<usize>,
    pub body: Seq<char>,
}

pub open spec fn empty_state() -> StageState {
    StageState { order: Seq::empty(), body: Seq::empty() }
}

/// How much deeper the walk can go: the number of nodes not yet on the path.
pub open spec fn room(n: int, k: int) -> nat {
    if k < n {
        (n - k) as nat
    } else {
        0
    }
}

/// The value of node `id` in the stage (`vertex` or fragment), reached with
/// the nodes of `path` under evaluation.
///
/// A node declared before yields its variable. A node on the path, or one
/// missing from the graph, yields the zero literal and declares nothing; so
/// does any node once the path is as long as the graph has nodes, where every
/// node reached would be a revisit. A
/// sink yields its input's expression. Any other node evaluates its inputs,
/// appends one declaration and yields its variable.
pub open spec fn node_value(
    g: GraphEditor,
    reg: NodeRegistry,
    d: TargetFormat,
    vertex: bool,
    id: usize,
    path: Seq<usize>,
    st: StageState,
) -> (Seq<char>, StageState)
    decreases room(g.node_seq().len() as int, path.len() as int), 0int, 0int,
{
    if st.order.contains(id) {
        (var_name(id), st)
    } else if path.contains(id) || path.len() >= g.node_seq().len() {
        (zero_lit(), st)
    } else {
        match g.node_at(id as int) {
            None => (zero_lit(), st),
            Some(node) => {
                let path2 = path.push(id);
                match node {
                    UmbraNode::VertexOutput => input_value(
                        g,
                        reg,
                        d,
                        vertex,
                        id,
                        0,
                        sink_default(d, true),
                        path2,
                        st,
                    ),
                    UmbraNode::FragmentOutput => input_value(
                        g,
                        reg,
                        d,
                        vertex,
                        id,
                        0,
                        sink_default(d, false),
                        path2,
                        st,
                    ),
                    _ => {
                        let (e, st1) = match node {
                            UmbraNode::Generic { node_type, properties } => match reg.entry(
                                node_type@,
                            ) {
                                Some(desc) => {
                                    let (ins, s1) = inputs_value(
                                        g,
                                        reg,
                                        d,
                                        vertex,
                                        id,
                                        desc.inputs@.len(),
                                        path2,
                                        st,
                                    );
                                    (retarget(d, execute_spec(desc.op, ins, properties@)), s1)
                                },
                                None => (unknown_lit(), st),
                            },
                            UmbraNode::Float(m) => (fixed3(m as int), st),
                            UmbraNode::Color(r, gr, b, a) => (vec4_const(d, r, gr, b, a), st),
                            UmbraNode::Float4(x, y, z, w) => (vec4_const(d, x, y, z, w), st),
                            UmbraNode::Property(name) => (property_expr(d, name@), st),
                            UmbraNode::Position => (position_expr(d, vertex), st),
                            _ => (zero_lit(), st),
                        };
                        (
                            var_name(id),
                            StageState {
                                order: st1.order.push(id),
                                body: st1.body + decl_line(d, id, e),
                            },
                        )
                    },
                }
            },
        }
    }
}

/// The values of the first `n` inputs of node `id`, evaluated in pin order.
pub open spec fn inputs_value(
    g: GraphEditor,
    reg: NodeRegistry,
    d: TargetFormat,
    vertex: bool,
    id: usize,
    n: nat,
    path: Seq<usize>,
    st: StageState,
) -> (Seq<Seq<char>>, StageState)
    decreases room(g.node_seq().len() as int, path.len() as int), 2int, n,
{
    if n == 0 {
        (Seq::empty(), st)
    } else {
        let (ins, s1) = inputs_value(g, reg, d, vertex, id, (n - 1) as nat, path, st);
        let (e, s2) = input_value(
            g,
            reg,
            d,
            vertex,
            id,
            (n - 1) as usize,
            zero_lit(),
            path,
            s1,
        );
        (ins.push(e), s2)
    }
}

/// The value of input pin `k` of node `id`: its source's value, or `dflt`
/// when nothing is wired to it.
pub open spec fn input_value(
    g: GraphEditor,
    reg: NodeRegistry,
    d: TargetFormat,
    vertex: bool,
    id: usize,
    k: usize,
    dflt: Seq<char>,
    path: Seq<usize>,
    st: StageState,
) -> (Seq<char>, StageState)
    decreases room(g.node_seq().len() as int, path.len() as int), 1int, 0int,
{
    match g.source(id, k) {
        Some(src) => node_value(g, reg, d, vertex, src, path, st),
        None => (dflt, st),
    }
}

/// Whether slot `n` holds the sink of the vertex or the fragment stage.
pub open spec fn is_stage_sink(n: Option<UmbraNode>, vertex: bool) -> bool {
    match n {
        Some(UmbraNode::VertexOutput) => vertex,
        Some(UmbraNode::FragmentOutput) => !vertex,
        _ => false,
    }
}

/// The lowest id at or after `i` holding the stage's sink.
pub open spec fn find_sink(nodes: Seq<Option<UmbraNode>>, vertex: bool, i: int) -> Option<usize>
    decreases nodes.len() - i,
{
    if i < 0 || i >= nodes.len() {
        None
    } else if is_stage_sink(nodes[i], vertex) {
        Some(i as usize)
    } else {
        find_sink(nodes, vertex, i + 1)
    }
}

/// The stage's final expression and its statements, walked from its sink;
/// the stage fallback where the sink is missing.
pub open spec fn stage_value(g: GraphEditor, reg: NodeRegistry, d: TargetFormat, vertex: bool) -> (
    Seq<char>,
    StageState,
) {
    match find_sink(g.node_seq(), vertex, 0) {
        Some(id) => node_value(g, reg, d, vertex, id, Seq::empty(), empty_state()),
        None => (stage_fallback(d, vertex), empty_state()),
    }
}

/// The uniform field group of one exposed property: 16 bytes in the primary
/// dialect's struct, one flat declaration elsewhere.
pub open spec fn uniform_decl(d: TargetFormat, p: ShaderProperty) -> Seq<char> {
    let n = p.name@;
    match d {
        TargetFormat::Wgsl => match p.value {
            PropertyValue::Float(_) => "  "@ + n + ": f32,\n"@ + "  _pad_"@ + n + "_0: f32,\n"@
                + "  _pad_"@ + n + "_1: f32,\n"@ + "  _pad_"@ + n + "_2: f32,\n"@,
            PropertyValue::Vec2(..) => "  "@ + n + ": vec2<f32>,\n"@ + "  _pad_"@ + n
                + ": vec2<f32>,\n"@,
            _ => "  "@ + n + ": vec4<f32>,\n"@,
        },
        TargetFormat::Godot => match p.value {
            PropertyValue::Float(_) => "uniform float "@ + n + ";\n"@,
            PropertyValue::Vec2(..) => "uniform vec2 "@ + n + ";\n"@,
            _ => "uniform vec4 "@ + n + " : source_color;\n"@,
        },
        TargetFormat::Generic => match p.value {
            PropertyValue::Float(_) => "uniform float "@ + n + ";\n"@,
            PropertyValue::Vec2(..) => "uniform vec2 "@ + n + ";\n"@,
            _ => "uniform vec4 "@ + n + ";\n"@,
        },
    }
}

/// The field groups of all exposed properties, in order.
pub open spec fn uniform_decls(d: TargetFormat, props: Seq<ShaderProperty>) -> Seq<char>
    decreases props.len(),
{
    if props.len() == 0 {
        Seq::empty()
    } else {
        uniform_decls(d, props.drop_last()) + uniform_decl(d, props.last())
    }
}

pub open spec fn wgsl_head() -> Seq<char> {
    "struct Uniforms {\n  view_proj: mat4x4<f32>,\n  time: f32,\n  p1: f32,\n  p2: f32,\n  p3: f32,\n  resolution: vec2<f32>,\n  mouse: vec2<f32>,\n"@
}

pub open spec fn wgsl_vertex_head() -> Seq<char> {
    "};\n\n@group(0) @binding(0) var<uniform> uniforms: Uniforms;\n\nstruct VertexInput {\n  @location(0) position: vec3<f32>,\n  @location(1) normal: vec3<f32>,\n  @location(2) uv: vec2<f32>,\n};\n\nstruct VertexOutput {\n  @builtin(position) clip_position: vec4<f32>,\n  @location(0) uv: vec2<f32>,\n  @location(1) world_position: vec3<f32>,\n};\n\n@vertex\nfn vs_main(model: VertexInput) -> VertexOutput {\n  var out: VertexOutput;\n"@
}

pub open spec fn wgsl_vertex_tail() -> Seq<char> {
    ";\n  out.clip_position = uniforms.view_proj * vec4<f32>(model.position + offset.xyz, 1.0);\n  out.uv = model.uv;\n  out.world_position = model.position;\n  return out;\n}\n\n@fragment\nfn fs_main(in: VertexOutput) -> @location(0) vec4<f32> {\n"@
}

pub open spec fn wgsl_fragment_tail() -> Seq<char> {
    ";\n  return vec4<f32>(color_final.rgba);\n}\n"@
}

pub open spec fn godot_fragment_tail() -> Seq<char> {
    ";\n  ALBEDO = color_final.rgb;\n  ALPHA = color_final.a;\n}\n"@
}

/// The complete source unit for `props` with the given stage results.
pub open spec fn assemble(
    d: TargetFormat,
    props: Seq<ShaderProperty>,
    vs: (Seq<char>, StageState),
    fs: (Seq<char>, StageState),
) -> Seq<char> {
    match d {
        TargetFormat::Wgsl => wgsl_head() + uniform_decls(d, props) + wgsl_vertex_head() + vs.1.body
            + "  let offset = "@ + vs.0 + wgsl_vertex_tail() + fs.1.body + "  let color_final = "@
            + fs.0 + wgsl_fragment_tail(),
        TargetFormat::Godot => "shader_type spatial;\n\nuniform float time;\n"@ + uniform_decls(
            d,
            props,
        ) + "\nvoid vertex() {\n"@ + vs.1.body + "  VERTEX += ("@ + vs.0 + ").xyz;\n}\n\nvoid fragment() {\n"@
            + fs.1.body + "  vec4 color_final = "@ + fs.0 + godot_fragment_tail(),
        TargetFormat::Generic => "// Generic GLSL Shader\n\nuniform float time;\n"@ + uniform_decls(
            d,
            props,
        ) + "\nvoid main() {\n"@ + fs.1.body + "  gl_FragColor = "@ + fs.0 + ";\n}\n"@,
    }
}

/// The source unit that `evaluate` emits. The generic dialect has a fragment
/// stage only.
pub open spec fn evaluate_spec(reg: NodeRegistry, p: UmbraProject, d: TargetFormat) -> Seq<char> {
    let fs = stage_value(p.graph, reg, d, false);
    let vs = if d == TargetFormat::Generic {
        (Seq::empty(), empty_state())
    } else {
        stage_value(p.graph, reg, d, true)
    };
    assemble(d, p.properties@, vs, fs)
}

fn holds_id(v: &Vec<usize>, id: usize) -> (r: bool)
    ensures
        r == v@.contains(id),
{
    let mut i: usize = 0;
    while i < v.len()
        invariant
            i <= v@.len(),
            forall|j: int| 0 <= j < i ==> v@[j] != id,
        decreases v@.len() - i,
    {
        if v[i] == id {
            return true;
        }
        i = i + 1;
    }
    false
}

/// Executable counterpart of `node_value`; `path`, `order` and `body` hold the
/// walk's state.
fn eval_node(
    g: &GraphEditor,
    reg: &NodeRegistry,
    d: TargetFormat,
    vertex: bool,
    id: usize,
    path: &mut Vec<usize>,
    order: &mut Vec<usize>,
    body: &mut Vec<char>,
) -> (r: Vec<char>)
    ensures
        final(path)@ == old(path)@,
        (r@, StageState { order: final(order)@, body: final(body)@ }) == node_value(
            *g,
            *reg,
            d,
            vertex,
            id,
            old(path)@,
            StageState { order: old(order)@, body: old(body)@ },
        ),
    decreases room(g.node_seq().len() as int, old(path)@.len() as int), 0int,
{
    let ghost st0 = StageState { order: order@, body: body@ };
    let ghost path0 = path@;
    if holds_id(order, id) {
        let mut r: Vec<char> = Vec::new();
        push_var_name(&mut r, id);
        assert(r@ =~= var_name(id));
        return r;
    }
    if holds_id(path, id) || path.len() >= g.len() {
        return crate::text::chars_of("0.0");
    }
    let node = match g.node(id) {
        Some(n) => n,
        None => {
            return crate::text::chars_of("0.0");
        },
    };
    path.push(id);
    let ghost path2 = path@;
    let r = match node {
        UmbraNode::VertexOutput | UmbraNode::FragmentOutput => {
            let mut dflt: Vec<char> = Vec::new();
            let is_vertex_sink = match node {
                UmbraNode::VertexOutput => true,
                _ => false,
            };
            push_sink_default(&mut dflt, d, is_vertex_sink);
            assert(dflt@ =~= sink_default(d, is_vertex_sink));
            eval_input(g, reg, d, vertex, id, 0, &dflt, path, order, body)
        },
        _ => {
            let mut e: Vec<char> = Vec::new();
            match node {
                UmbraNode::Generic { node_type, properties } => {
                    match reg.get(node_type.as_str()) {
                        Some(desc) => {
                            let n = desc.inputs.len();
                            let mut ins: Vec<Vec<char>> = Vec::new();
                            let mut k: usize = 0;
                            let zero = crate::text::chars_of("0.0");
                            while k < n
                                invariant
                                    path@ == path2,
                                    path2 == path0.push(id),
                                    path0 == old(path)@,
                                    path0.len() < g.node_seq().len(),
                                    zero@ == zero_lit(),
                                    k <= n,
                                    n == desc.inputs@.len(),
                                    (texts(ins@), StageState { order: order@, body: body@ })
                                        == inputs_value(
                                        *g,
                                        *reg,
                                        d,
                                        vertex,
                                        id,
                                        k as nat,
                                        path2,
                                        st0,
                                    ),
                                decreases n - k,
                            {
                                let v = eval_input(
                                    g,
                                    reg,
                                    d,
                                    vertex,
                                    id,
                                    k,
                                    &zero,
                                    path,
                                    order,
                                    body,
                                );
                                let ghost before = ins@;
                                ins.push(v);
                                k = k + 1;
                                assert(texts(ins@) =~= texts(before).push(v@));
                            }
                            let x = execute(desc.op, &ins, properties);
                            e = retarget_expr(d, x);
                        },
                        None => {
                            push_str(&mut e, "0.0 /* unknown node */");
                        },
                    }
                },
                UmbraNode::Float(m) => push_fixed3(&mut e, *m),
                UmbraNode::Color(r, gr, b, a) => push_vec4_const(&mut e, d, *r, *gr, *b, *a),
                UmbraNode::Float4(x, y, z, w) => push_vec4_const(&mut e, d, *x, *y, *z, *w),
                UmbraNode::Property(name) => push_property(&mut e, d, name),
                UmbraNode::Position => push_position(&mut e, d, vertex),
                _ => push_str(&mut e, "0.0"),
            }
            push_decl(body, d, id, &e);
            order.push(id);
            let mut v: Vec<char> = Vec::new();
            push_var_name(&mut v, id);
            assert(v@ =~= var_name(id));
            v
        },
    };
    path.pop();
    assert(path@ =~= path0);
    r
}

/// Executable counterpart of `input_value`.
fn eval_input(
    g: &GraphEditor,
    reg: &NodeRegistry,
    d: TargetFormat,
    vertex: bool,
    id: usize,
    k: usize,
    dflt: &Vec<char>,
    path: &mut Vec<usize>,
    order: &mut Vec<usize>,
    body: &mut Vec<char>,
) -> (r: Vec<char>)
    ensures
        final(path)@ == old(path)@,
        (r@, StageState { order: final(order)@, body: final(body)@ }) == input_value(
            *g,
            *reg,
            d,
            vertex,
            id,
            k,
            dflt@,
            old(path)@,
            StageState { order: old(order)@, body: old(body)@ },
        ),
    decreases room(g.node_seq().len() as int, old(path)@.len() as int), 1int,
{
    match g.source_of(id, k) {
        Some(src) => eval_node(g, reg, d, vertex, src, path, order, body),
        None => {
            let mut r: Vec<char> = Vec::new();
            push_chars(&mut r, dflt);
            assert(r@ =~= dflt@);
            r
        },
    }
}

fn find_stage_sink(g: &GraphEditor, vertex: bool) -> (r: Option<usize>)
    ensures
        r == find_sink(g.node_seq(), vertex, 0),
{
    let n = g.len();
    let mut i: usize = 0;
    while i < n
        invariant
            n == g.node_seq().len(),
            i <= n,
            find_sink(g.node_seq(), vertex, 0) == find_sink(g.node_seq(), vertex, i as int),
        decreases n - i,
    {
        let hit = match g.node(i) {
            Some(UmbraNode::VertexOutput) => vertex,
            Some(UmbraNode::FragmentOutput) => !vertex,
            _ => false,
        };
        if hit {
            return Some(i);
        }
        i = i + 1;
    }
    None
}

/// The stage's final expression and its statement lines, as `stage_value`
/// gives them.
fn eval_stage(g: &GraphEditor, reg: &NodeRegistry, d: TargetFormat, vertex: bool) -> (r: (
    Vec<char>,
    Vec<char>,
))
    ensures
        r.0@ == stage_value(*g, *reg, d, vertex).0,
        r.1@ == stage_value(*g, *reg, d, vertex).1.body,
{
    let mut body: Vec<char> = Vec::new();
    match find_stage_sink(g, vertex) {
        Some(id) => {
            let mut path: Vec<usize> = Vec::new();
            let mut order: Vec<usize> = Vec::new();
            assert(path@ =~= Seq::<usize>::empty());
            let e = eval_node(g, reg, d, vertex, id, &mut path, &mut order, &mut body);
            assert(StageState { order: Seq::empty(), body: Seq::empty() } == empty_state());
            (e, body)
        },
        None => {
            let mut e: Vec<char> = Vec::new();
            push_stage_fallback(&mut e, d, vertex);
            assert(e@ =~= stage_fallback(d, vertex));
            (e, body)
        },
    }
}

fn push_uniform_decl(out: &mut Vec<char>, d: TargetFormat, p: &ShaderProperty)
    ensures
        final(out)@ == old(out)@ + uniform_decl(d, *p),
{
    let ghost start = out@;
    let n = p.name.as_str();
    match d {
        TargetFormat::Wgsl => match p.value {
            PropertyValue::Float(_) => {
                push_str(out, "  ");
                push_str(out, n);
                push_str(out, ": f32,\n");
                push_str(out, "  _pad_");
                push_str(out, n);
                push_str(out, "_0: f32,\n");
                push_str(out, "  _pad_");
                push_str(out, n);
                push_str(out, "_1: f32,\n");
                push_str(out, "  _pad_");
                push_str(out, n);
                push_str(out, "_2: f32,\n");
            },
            PropertyValue::Vec2(..) => {
                push_str(out, "  ");
                push_str(out, n);
                push_str(out, ": vec2<f32>,\n");
                push_str(out, "  _pad_");
                push_str(out, n);
                push_str(out, ": vec2<f32>,\n");
            },
            _ => {
                push_str(out, "  ");
                push_str(out, n);
                push_str(out, ": vec4<f32>,\n");
            },
        },
        TargetFormat::Godot => match p.value {
            PropertyValue::Float(_) => {
                push_str(out, "uniform float ");
                push_str(out, n);
                push_str(out, ";\n");
            },
            PropertyValue::Vec2(..) => {
                push_str(out, "uniform vec2 ");
                push_str(out, n);
                push_str(out, ";\n");
            },
            _ => {
                push_str(out, "uniform vec4 ");
                push_str(out, n);
                push_str(out, " : source_color;\n");
            },
        },
        TargetFormat::Generic => match p.value {
            PropertyValue::Float(_) => {
                push_str(out, "uniform float ");
                push_str(out, n);
                push_str(out, ";\n");
            },
            PropertyValue::Vec2(..) => {
                push_str(out, "uniform vec2 ");
                push_str(out, n);
                push_str(out, ";\n");
            },
            _ => {
                push_str(out, "uniform vec4 ");
                push_str(out, n);
                push_str(out, ";\n");
            },
        },
    }
    assert(out@ =~= start + uniform_decl(d, *p));
}

fn push_uniform_decls(out: &mut Vec<char>, d: TargetFormat, props: &Vec<ShaderProperty>)
    ensures
        final(out)@ == old(out)@ + uniform_decls(d, props@),
{
    let ghost start = out@;
    let mut k: usize = 0;
    while k < props.len()
        invariant
            k <= props@.len(),
            out@ == start + uniform_decls(d, props@.subrange(0, k as int)),
        decreases props@.len() - k,
    {
        push_uniform_decl(out, d, &props[k]);
        k = k + 1;
        proof {
            let pre = props@.subrange(0, k as int);
            assert(pre.drop_last() =~= props@.subrange(0, k - 1));
            assert(out@ =~= start + uniform_decls(d, pre));
        }
    }
    assert(props@.subrange(0, props@.len() as int) =~= props@);
}

/// The graph-to-source compiler.
pub struct Evaluator;

impl Evaluator {
    /// The complete shader source for `project` in dialect `format`, with
    /// generic nodes resolved through `registry`.
    pub fn evaluate(registry: &NodeRegistry, project: &UmbraProject, format: TargetFormat) -> (r:
        String)
        ensures
            r@ == evaluate_spec(*registry, *project, format),
    {
        let g = &project.graph;
        let d = format;
        let fs = eval_stage(g, registry, d, false);
        let mut out: Vec<char> = Vec::new();
        match d {
            TargetFormat::Wgsl => {
                let vs = eval_stage(g, registry, d, true);
                push_str(&mut out, "struct Uniforms {\n  view_proj: mat4x4<f32>,\n  time: f32,\n  p1: f32,\n  p2: f32,\n  p3: f32,\n  resolution: vec2<f32>,\n  mouse: vec2<f32>,\n");
                push_uniform_decls(&mut out, d, &project.properties);
                push_str(&mut out, "};\n\n@group(0) @binding(0) var<uniform> uniforms: Uniforms;\n\nstruct VertexInput {\n  @location(0) position: vec3<f32>,\n  @location(1) normal: vec3<f32>,\n  @location(2) uv: vec2<f32>,\n};\n\nstruct VertexOutput {\n  @builtin(position) clip_position: vec4<f32>,\n  @location(0) uv: vec2<f32>,\n  @location(1) world_position: vec3<f32>,\n};\n\n@vertex\nfn vs_main(model: VertexInput) -> VertexOutput {\n  var out: VertexOutput;\n");
                push_chars(&mut out, &vs.1);
                push_str(&mut out, "  let offset = ");
                push_chars(&mut out, &vs.0);
                push_str(&mut out, ";\n  out.clip_position = uniforms.view_proj * vec4<f32>(model.position + offset.xyz, 1.0);\n  out.uv = model.uv;\n  out.world_position = model.position;\n  return out;\n}\n\n@fragment\nfn fs_main(in: VertexOutput) -> @location(0) vec4<f32> {\n");
                push_chars(&mut out, &fs.1);
                push_str(&mut out, "  let color_final = ");
                push_chars(&mut out, &fs.0);
                push_str(&mut out, ";\n  return vec4<f32>(color_final.rgba);\n}\n");
            },
            TargetFormat::Godot => {
                let vs = eval_stage(g, registry, d, true);
                push_str(&mut out, "shader_type spatial;\n\nuniform float time;\n");
                push_uniform_decls(&mut out, d, &project.properties);
                push_str(&mut out, "\nvoid vertex() {\n");
                push_chars(&mut out, &vs.1);
                push_str(&mut out, "  VERTEX += (");
                push_chars(&mut out, &vs.0);
                push_str(&mut out, ").xyz;\n}\n\nvoid fragment() {\n");
                push_chars(&mut out, &fs.1);
                push_str(&mut out, "  vec4 color_final = ");
                push_chars(&mut out, &fs.0);
                push_str(&mut out, ";\n  ALBEDO = color_final.rgb;\n  ALPHA = color_final.a;\n}\n");
            },
            TargetFormat::Generic => {
                push_str(&mut out, "// Generic GLSL Shader\n\nuniform float time;\n");
                push_uniform_decls(&mut out, d, &project.properties);
                push_str(&mut out, "\nvoid main() {\n");
                push_chars(&mut out, &fs.1);
                push_str(&mut out, "  gl_FragColor = ");
                push_chars(&mut out, &fs.0);
                push_str(&mut out, ";\n}\n");
            },
        }
        assert(out@ =~= evaluate_spec(*registry, *project, format));
        text_of(&out)
    }
}

/// `after` extends `before` by nodes that are new, pairwise distinct and not
/// on `path`.
pub open spec fn grows_fresh(before: Seq<usize>, after: Seq<usize>, path: Seq<usize>) -> bool {
    &&& before.len() <= after.len()
    &&& after.subrange(0, before.len() as int) == before
    &&& forall|i: int|
        before.len() <= i < after.len() ==> !path.contains(#[trigger] after[i]) && !before.contains(
            after[i],
        )
    &&& forall|i: int, j: int|
        before.len() <= i < j < after.len() ==> #[trigger] after[i] != #[trigger] after[j]
}

proof fn lemma_grows_trans(a: Seq<usize>, b: Seq<usize>, c: Seq<usize>, path: Seq<usize>)
    requires
        grows_fresh(a, b, path),
        grows_fresh(b, c, path),
    ensures
        grows_fresh(a, c, path),
{
    assert(c.subrange(0, a.len() as int) =~= b.subrange(0, a.len() as int));
    assert forall|i: int| a.len() <= i < c.len() implies !path.contains(#[trigger] c[i])
        && !a.contains(c[i]) by {
        if i < b.len() {
            assert(c[i] == b[i]);
        } else {
            if a.contains(c[i]) {
                let k = choose|k: int| 0 <= k < a.len() && a[k] == c[i];
                assert(b[k] == a[k]);
            }
        }
    }
    assert forall|i: int, j: int| a.len() <= i < j < c.len() implies #[trigger] c[i]
        != #[trigger] c[j] by {
        if j >= b.len() && i < b.len() {
            assert(c[i] == b[i]);
            assert(b.contains(c[i]));
        } else if j < b.len() {
            assert(c[i] == b[i] && c[j] == b[j]);
        }
    }
}

proof fn lemma_grows_refl(a: Seq<usize>, path: Seq<usize>)
    ensures
        grows_fresh(a, a, path),
{
    assert(a.subrange(0, a.len() as int) =~= a);
}

/// The walk from node `id` declares the same nodes in the same order in any
/// two dialects, and only nodes that were neither declared nor on the path.
proof fn lemma_node_walk(
    g: GraphEditor,
    reg: NodeRegistry,
    d1: TargetFormat,
    d2: TargetFormat,
    vertex: bool,
    id: usize,
    path: Seq<usize>,
    s1: StageState,
    s2: StageState,
)
    requires
        s1.order == s2.order,
    ensures
        node_value(g, reg, d1, vertex, id, path, s1).1.order == node_value(
            g,
            reg,
            d2,
            vertex,
            id,
            path,
            s2,
        ).1.order,
        grows_fresh(s1.order, node_value(g, reg, d1, vertex, id, path, s1).1.order, path),
    decreases room(g.node_seq().len() as int, path.len() as int), 0int, 0int,
{
    lemma_grows_refl(s1.order, path);
    if s1.order.contains(id) {
    } else if path.contains(id) || path.len() >= g.node_seq().len() {
    } else {
        match g.node_at(id as int) {
            None => {},
            Some(node) => {
                let path2 = path.push(id);
                match node {
                    UmbraNode::VertexOutput => {
                        lemma_input_walk(
                            g,
                            reg,
                            d1,
                            d2,
                            vertex,
                            id,
                            0,
                            sink_default(d1, true),
                            sink_default(d2, true),
                            path2,
                            s1,
                            s2,
                        );
                        lemma_grows_shorter_path(s1.order, node_value(g, reg, d1, vertex, id, path, s1).1.order, path, id);
                    },
                    UmbraNode::FragmentOutput => {
                        lemma_input_walk(
                            g,
                            reg,
                            d1,
                            d2,
                            vertex,
                            id,
                            0,
                            sink_default(d1, false),
                            sink_default(d2, false),
                            path2,
                            s1,
                            s2,
                        );
                        lemma_grows_shorter_path(s1.order, node_value(g, reg, d1, vertex, id, path, s1).1.order, path, id);
                    },
                    _ => {
                        let mid = match node {
                            UmbraNode::Generic { node_type, properties } => match reg.entry(
                                node_type@,
                            ) {
                                Some(desc) => {
                                    lemma_inputs_walk(
                                        g,
                                        reg,
                                        d1,
                                        d2,
                                        vertex,
                                        id,
                                        desc.inputs@.len(),
                                        path2,
                                        s1,
                                        s2,
                                    );
                                    inputs_value(
                                        g,
                                        reg,
                                        d1,
                                        vertex,
                                        id,
                                        desc.inputs@.len(),
                                        path2,
                                        s1,
                                    ).1.order
                                },
                                None => {
                                    lemma_grows_refl(s1.order, path2);
                                    s1.order
                                },
                            },
                            _ => {
                                lemma_grows_refl(s1.order, path2);
                                s1.order
                            },
                        };
                        let fin = node_value(g, reg, d1, vertex, id, path, s1).1.order;
                        assert(fin == mid.push(id));
                        assert(grows_fresh(s1.order, mid, path2));
                        assert(path2.contains(id)) by {
                            assert(path2[path.len() as int] == id);
                        }
                        assert forall|i: int| s1.order.len() <= i < mid.len() implies mid[i] != id by {}
                        assert(fin.subrange(0, s1.order.len() as int) =~= mid.subrange(
                            0,
                            s1.order.len() as int,
                        ));
                        assert forall|i: int| s1.order.len() <= i < fin.len() implies !path.contains(
                            #[trigger] fin[i],
                        ) && !s1.order.contains(fin[i]) by {
                            if i < mid.len() {
                                assert(fin[i] == mid[i]);
                                if path.contains(mid[i]) {
                                    let k = choose|k: int| 0 <= k < path.len() && path[k] == mid[i];
                                    assert(path2[k] == mid[i]);
                                }
                            }
                        }
                        assert forall|i: int, j: int| s1.order.len() <= i < j < fin.len() implies #[trigger] fin[i]
                            != #[trigger] fin[j] by {
                            if j < mid.len() {
                                assert(fin[i] == mid[i] && fin[j] == mid[j]);
                            } else {
                                assert(fin[i] == mid[i]);
                            }
                        }
                    },
                }
            },
        }
    }
}

/// Growth that avoids a longer path avoids the path without its last node.
proof fn lemma_grows_shorter_path(a: Seq<usize>, b: Seq<usize>, path: Seq<usize>, id: usize)
    requires
        grows_fresh(a, b, path.push(id)),
    ensures
        grows_fresh(a, b, path),
{
    assert forall|i: int| a.len() <= i < b.len() implies !path.contains(#[trigger] b[i]) by {
        if path.contains(b[i]) {
            let k = choose|k: int| 0 <= k < path.len() && path[k] == b[i];
            assert(path.push(id)[k] == b[i]);
        }
    }
}

proof fn lemma_inputs_walk(
    g: GraphEditor,
    reg: NodeRegistry,
    d1: TargetFormat,
    d2: TargetFormat,
    vertex: bool,
    id: usize,
    n: nat,
    path: Seq<usize>,
    s1: StageState,
    s2: StageState,
)
    requires
        s1.order == s2.order,
    ensures
        inputs_value(g, reg, d1, vertex, id, n, path, s1).1.order == inputs_value(
            g,
            reg,
            d2,
            vertex,
            id,
            n,
            path,
            s2,
        ).1.order,
        grows_fresh(s1.order, inputs_value(g, reg, d1, vertex, id, n, path, s1).1.order, path),
    decreases room(g.node_seq().len() as int, path.len() as int), 2int, n,
{
    if n == 0 {
        lemma_grows_refl(s1.order, path);
    } else {
        lemma_inputs_walk(g, reg, d1, d2, vertex, id, (n - 1) as nat, path, s1, s2);
        let m1 = inputs_value(g, reg, d1, vertex, id, (n - 1) as nat, path, s1).1;
        let m2 = inputs_value(g, reg, d2, vertex, id, (n - 1) as nat, path, s2).1;
        lemma_input_walk(
            g,
            reg,
            d1,
            d2,
            vertex,
            id,
            (n - 1) as usize,
            zero_lit(),
            zero_lit(),
            path,
            m1,
            m2,
        );
        lemma_grows_trans(
            s1.order,
            m1.order,
            inputs_value(g, reg, d1, vertex, id, n, path, s1).1.order,
            path,
        );
    }
}

proof fn lemma_input_walk(
    g: GraphEditor,
    reg: NodeRegistry,
    d1: TargetFormat,
    d2: TargetFormat,
    vertex: bool,
    id: usize,
    k: usize,
    dflt1: Seq<char>,
    dflt2: Seq<char>,
    path: Seq<usize>,
    s1: StageState,
    s2: StageState,
)
    requires
        s1.order == s2.order,
    ensures
        input_value(g, reg, d1, vertex, id, k, dflt1, path, s1).1.order == input_value(
            g,
            reg,
            d2,
            vertex,
            id,
            k,
            dflt2,
            path,
            s2,
        ).1.order,
        grows_fresh(s1.order, input_value(g, reg, d1, vertex, id, k, dflt1, path, s1).1.order, path),
    decreases room(g.node_seq().len() as int, path.len() as int), 1int, 0int,
{
    match g.source(id, k) {
        Some(src) => lemma_node_walk(g, reg, d1, d2, vertex, src, path, s1, s2),
        None => lemma_grows_refl(s1.order, path),
    }
}

/// The declaration lines of nodes `ids`, the `i`-th with value `es[i]`.
pub open spec fn decl_lines(d: TargetFormat, ids: Seq<usize>, es: Seq<Seq<char>>) -> Seq<char>
    decreases ids.len(),
{
    if ids.len() == 0 || es.len() != ids.len() {
        Seq::empty()
    } else {
        decl_lines(d, ids.drop_last(), es.drop_last()) + decl_line(d, ids.last(), es.last())
    }
}

/// Going from `before` to `after` appended exactly one declaration line for
/// each newly declared node, in declaration order.
pub open spec fn declares(d: TargetFormat, before: StageState, after: StageState) -> bool {
    &&& before.order.len() <= after.order.len()
    &&& after.order.subrange(0, before.order.len() as int) == before.order
    &&& exists|es: Seq<Seq<char>>|
        es.len() == after.order.len() - before.order.len() && after.body == before.body
            + #[trigger] decl_lines(
            d,
            after.order.subrange(before.order.len() as int, after.order.len() as int),
            es,
        )
}

proof fn lemma_decl_lines_concat(
    d: TargetFormat,
    a: Seq<usize>,
    ea: Seq<Seq<char>>,
    b: Seq<usize>,
    eb: Seq<Seq<char>>,
)
    requires
        ea.len() == a.len(),
        eb.len() == b.len(),
    ensures
        decl_lines(d, a + b, ea + eb) == decl_lines(d, a, ea) + decl_lines(d, b, eb),
    decreases b.len(),
{
    if b.len() == 0 {
        assert(a + b =~= a);
        assert(ea + eb =~= ea);
        assert(decl_lines(d, a, ea) + Seq::<char>::empty() =~= decl_lines(d, a, ea));
    } else {
        lemma_decl_lines_concat(d, a, ea, b.drop_last(), eb.drop_last());
        assert((a + b).drop_last() =~= a + b.drop_last());
        assert((ea + eb).drop_last() =~= ea + eb.drop_last());
        assert((a + b).last() == b.last());
        assert((ea + eb).last() == eb.last());
    }
}

proof fn lemma_declares_refl(d: TargetFormat, st: StageState)
    ensures
        declares(d, st, st),
{
    let e = Seq::<Seq<char>>::empty();
    assert(st.order.subrange(0, st.order.len() as int) =~= st.order);
    assert(st.order.subrange(st.order.len() as int, st.order.len() as int) =~= Seq::<usize>::empty());
    assert(st.body =~= st.body + decl_lines(d, Seq::<usize>::empty(), e));
}

proof fn lemma_declares_trans(d: TargetFormat, x: StageState, y: StageState, z: StageState)
    requires
        declares(d, x, y),
        declares(d, y, z),
    ensures
        declares(d, x, z),
{
    let e1 = choose|es: Seq<Seq<char>>|
        es.len() == y.order.len() - x.order.len() && y.body == x.body + #[trigger] decl_lines(
            d,
            y.order.subrange(x.order.len() as int, y.order.len() as int),
            es,
        );
    let e2 = choose|es: Seq<Seq<char>>|
        es.len() == z.order.len() - y.order.len() && z.body == y.body + #[trigger] decl_lines(
            d,
            z.order.subrange(y.order.len() as int, z.order.len() as int),
            es,
        );
    let a = y.order.subrange(x.order.len() as int, y.order.len() as int);
    let b = z.order.subrange(y.order.len() as int, z.order.len() as int);
    assert(z.order.subrange(0, x.order.len() as int) =~= y.order.subrange(0, x.order.len() as int));
    assert(z.order.subrange(x.order.len() as int, z.order.len() as int) =~= a + b) by {
        assert forall|i: int| 0 <= i < a.len() implies z.order[x.order.len() + i] == a[i] by {
            assert(z.order.subrange(0, y.order.len() as int)[x.order.len() + i] == z.order[x.order.len() + i]);
        }
    }
    lemma_decl_lines_concat(d, a, e1, b, e2);
    assert(z.body =~= x.body + decl_lines(d, a + b, e1 + e2));
}

/// Extends a declaration record by the declaration of `id` with value `e`.
proof fn lemma_declares_push(d: TargetFormat, before: StageState, mid: StageState, id: usize, e: Seq<char>)
    requires
        declares(d, before, mid),
    ensures
        declares(
            d,
            before,
            StageState { order: mid.order.push(id), body: mid.body + decl_line(d, id, e) },
        ),
{
    let fin = StageState { order: mid.order.push(id), body: mid.body + decl_line(d, id, e) };
    let es = choose|es: Seq<Seq<char>>|
        es.len() == mid.order.len() - before.order.len() && mid.body == before.body
            + #[trigger] decl_lines(
            d,
            mid.order.subrange(before.order.len() as int, mid.order.len() as int),
            es,
        );
    let a = mid.order.subrange(before.order.len() as int, mid.order.len() as int);
    let sub = fin.order.subrange(before.order.len() as int, fin.order.len() as int);
    assert(sub =~= a.push(id));
    assert(sub.drop_last() =~= a);
    assert(es.push(e).drop_last() =~= es);
    assert(fin.order.subrange(0, before.order.len() as int) =~= mid.order.subrange(
        0,
        before.order.len() as int,
    ));
    assert(decl_lines(d, sub, es.push(e)) == decl_lines(d, a, es) + decl_line(d, id, e));
    assert(fin.body =~= before.body + decl_lines(d, sub, es.push(e)));
}

proof fn lemma_node_declares(
    g: GraphEditor,
    reg: NodeRegistry,
    d: TargetFormat,
    vertex: bool,
    id: usize,
    path: Seq<usize>,
    st: StageState,
)
    ensures
        declares(d, st, node_value(g, reg, d, vertex, id, path, st).1),
    decreases room(g.node_seq().len() as int, path.len() as int), 0int, 0int,
{
    lemma_declares_refl(d, st);
    if st.order.contains(id) {
    } else if path.contains(id) || path.len() >= g.node_seq().len() {
    } else {
        match g.node_at(id as int) {
            None => {},
            Some(node) => {
                let path2 = path.push(id);
                match node {
                    UmbraNode::VertexOutput => {
                        lemma_input_declares(g, reg, d, vertex, id, 0, sink_default(d, true), path2, st);
                    },
                    UmbraNode::FragmentOutput => {
                        lemma_input_declares(g, reg, d, vertex, id, 0, sink_default(d, false), path2, st);
                    },
                    _ => {
                        let (e, st1) = match node {
                            UmbraNode::Generic { node_type, properties } => match reg.entry(
                                node_type@,
                            ) {
                                Some(desc) => {
                                    let (ins, s1) = inputs_value(
                                        g,
                                        reg,
                                        d,
                                        vertex,
                                        id,
                                        desc.inputs@.len(),
                                        path2,
                                        st,
                                    );
                                    lemma_inputs_declares(g, reg, d, vertex, id, desc.inputs@.len(), path2, st);
                                    (retarget(d, execute_spec(desc.op, ins, properties@)), s1)
                                },
                                None => (unknown_lit(), st),
                            },
                            UmbraNode::Float(m) => (fixed3(m as int), st),
                            UmbraNode::Color(r, gr, b, a) => (vec4_const(d, r, gr, b, a), st),
                            UmbraNode::Float4(x, y, z, w) => (vec4_const(d, x, y, z, w), st),
                            UmbraNode::Property(name) => (property_expr(d, name@), st),
                            UmbraNode::Position => (position_expr(d, vertex), st),
                            _ => (zero_lit(), st),
                        };
                        lemma_declares_push(d, st, st1, id, e);
                    },
                }
            },
        }
    }
}

proof fn lemma_inputs_declares(
    g: GraphEditor,
    reg: NodeRegistry,
    d: TargetFormat,
    vertex: bool,
    id: usize,
    n: nat,
    path: Seq<usize>,
    st: StageState,
)
    ensures
        declares(d, st, inputs_value(g, reg, d, vertex, id, n, path, st).1),
    decreases room(g.node_seq().len() as int, path.len() as int), 2int, n,
{
    if n == 0 {
        lemma_declares_refl(d, st);
    } else {
        lemma_inputs_declares(g, reg, d, vertex, id, (n - 1) as nat, path, st);
        let m1 = inputs_value(g, reg, d, vertex, id, (n - 1) as nat, path, st).1;
        lemma_input_declares(g, reg, d, vertex, id, (n - 1) as usize, zero_lit(), path, m1);
        lemma_declares_trans(d, st, m1, inputs_value(g, reg, d, vertex, id, n, path, st).1);
    }
}

proof fn lemma_input_declares(
    g: GraphEditor,
    reg: NodeRegistry,
    d: TargetFormat,
    vertex: bool,
    id: usize,
    k: usize,
    dflt: Seq<char>,
    path: Seq<usize>,
    st: StageState,
)
    ensures
        declares(d, st, input_value(g, reg, d, vertex, id, k, dflt, path, st).1),
    decreases room(g.node_seq().len() as int, path.len() as int), 1int, 0int,
{
    match g.source(id, k) {
        Some(src) => lemma_node_declares(g, reg, d, vertex, src, path, st),
        None => lemma_declares_refl(d, st),
    }
}

/// Evaluation is a function of the registry, the project and the dialect:
/// evaluating the same inputs twice emits byte-identical text.
pub proof fn lemma_evaluate_idempotent(
    reg: NodeRegistry,
    p: UmbraProject,
    d: TargetFormat,
    first: Seq<char>,
    second: Seq<char>,
)
    requires
        first == evaluate_spec(reg, p, d),
        second == evaluate_spec(reg, p, d),
    ensures
        first == second,
{
}

/// Within a stage every node is declared at most once: the statements are
/// exactly one declaration line per declared node, in declaration order, and
/// no node is declared twice. A node reached again after its declaration, by
/// any consumer, yields that same variable and declares nothing more.
pub proof fn lemma_shared_node_declared_once(
    g: GraphEditor,
    reg: NodeRegistry,
    d: TargetFormat,
    vertex: bool,
)
    ensures
        stage_value(g, reg, d, vertex).1.order.no_duplicates(),
        exists|es: Seq<Seq<char>>|
            es.len() == stage_value(g, reg, d, vertex).1.order.len() && stage_value(
                g,
                reg,
                d,
                vertex,
            ).1.body == #[trigger] decl_lines(d, stage_value(g, reg, d, vertex).1.order, es),
        forall|id: usize, path: Seq<usize>|
            #![trigger node_value(g, reg, d, vertex, id, path, stage_value(g, reg, d, vertex).1)]
            stage_value(g, reg, d, vertex).1.order.contains(id) ==> node_value(
                g,
                reg,
                d,
                vertex,
                id,
                path,
                stage_value(g, reg, d, vertex).1,
            ) == (var_name(id), stage_value(g, reg, d, vertex).1),
{
    let st = stage_value(g, reg, d, vertex).1;
    match find_sink(g.node_seq(), vertex, 0) {
        Some(id) => {
            lemma_node_walk(g, reg, d, d, vertex, id, Seq::empty(), empty_state(), empty_state());
            lemma_node_declares(g, reg, d, vertex, id, Seq::empty(), empty_state());
        },
        None => {
            lemma_declares_refl(d, empty_state());
        },
    }
    assert(st.order.subrange(0, st.order.len() as int) =~= st.order);
    let es = choose|es: Seq<Seq<char>>|
        es.len() == st.order.len() - 0 && st.body == empty_state().body + #[trigger] decl_lines(
            d,
            st.order.subrange(0, st.order.len() as int),
            es,
        );
    assert(st.body =~= decl_lines(d, st.order, es));
}

/// At a back edge, a node met again while it is still being evaluated, the
/// walk yields the zero literal and declares nothing: a cycle is cut there.
pub proof fn lemma_back_edge_yields_zero(
    g: GraphEditor,
    reg: NodeRegistry,
    d: TargetFormat,
    vertex: bool,
    id: usize,
    path: Seq<usize>,
    st: StageState,
)
    requires
        path.contains(id),
        !st.order.contains(id),
    ensures
        node_value(g, reg, d, vertex, id, path, st) == (zero_lit(), st),
{
}

/// All dialects walk a stage alike: they declare the same nodes, in the same
/// order, and so the same number of them.
pub proof fn lemma_dialects_walk_alike(
    g: GraphEditor,
    reg: NodeRegistry,
    d1: TargetFormat,
    d2: TargetFormat,
    vertex: bool,
)
    ensures
        stage_value(g, reg, d1, vertex).1.order == stage_value(g, reg, d2, vertex).1.order,
{
    match find_sink(g.node_seq(), vertex, 0) {
        Some(id) => {
            lemma_node_walk(g, reg, d1, d2, vertex, id, Seq::empty(), empty_state(), empty_state());
        },
        None => {},
    }
}

/// Byte sizes of the members of the field group that the primary dialect
/// declares for a property value (`f32` and three `f32` pads, two `vec2<f32>`,
/// or one `vec4<f32>`).
pub open spec fn wgsl_member_sizes(v: PropertyValue) -> Seq<nat> {
    match v {
        PropertyValue::Float(_) => seq![4nat, 4nat, 4nat, 4nat],
        PropertyValue::Vec2(..) => seq![8nat, 8nat],
        _ => seq![16nat],
    }
}

pub open spec fn size_sum(s: Seq<nat>) -> nat
    decreases s.len(),
{
    if s.len() == 0 {
        0
    } else {
        size_sum(s.drop_last()) + s.last()
    }
}

/// Each member starts at a multiple of its own size, the natural alignment
/// of scalars and vectors of two or four components.
pub open spec fn naturally_aligned(s: Seq<nat>) -> bool {
    forall|i: int| 0 <= i < s.len() ==> #[trigger] s[i] > 0 && size_sum(s.subrange(0, i)) % s[i] == 0
}

/// The uniform struct that the primary dialect emits and the bytes that
/// `pack_buffer` lays out agree: the block is the base plus 16 bytes per
/// property; property `i` is the `i`-th field group declared, after those of
/// the properties before it; its members are naturally aligned and fill
/// exactly 16 bytes; and its bytes sit at offset `16 * i` past the base.
pub proof fn lemma_layout_matches_struct(props: Seq<ShaderProperty>)
    ensures
        BASE_UNIFORM_SIZE + packed(props).len() == BASE_UNIFORM_SIZE + SLOT_SIZE * props.len(),
        forall|i: int|
            0 <= i < props.len() ==> uniform_decls(TargetFormat::Wgsl, #[trigger] props.subrange(0, i + 1))
                == uniform_decls(TargetFormat::Wgsl, props.subrange(0, i)) + uniform_decl(
                TargetFormat::Wgsl,
                props[i],
            ),
        forall|i: int|
            0 <= i < props.len() ==> size_sum(wgsl_member_sizes(#[trigger] props[i].value))
                == SLOT_SIZE && naturally_aligned(wgsl_member_sizes(props[i].value)),
        forall|i: int|
            0 <= i < props.len() ==> #[trigger] packed(props).subrange(
                SLOT_SIZE * i,
                SLOT_SIZE * i + SLOT_SIZE,
            ) == slot_bytes(props[i].value),
{
    lemma_packed_slots(props);
    assert forall|i: int| 0 <= i < props.len() implies uniform_decls(
        TargetFormat::Wgsl,
        #[trigger] props.subrange(0, i + 1),
    ) == uniform_decls(TargetFormat::Wgsl, props.subrange(0, i)) + uniform_decl(
        TargetFormat::Wgsl,
        props[i],
    ) by {
        assert(props.subrange(0, i + 1).drop_last() =~= props.subrange(0, i));
    }
    assert forall|i: int| 0 <= i < props.len() implies size_sum(
        wgsl_member_sizes(#[trigger] props[i].value),
    ) == SLOT_SIZE && naturally_aligned(wgsl_member_sizes(props[i].value)) by {
        lemma_member_sizes(props[i].value);
    }
}

proof fn lemma_member_sizes(v: PropertyValue)
    ensures
        size_sum(wgsl_member_sizes(v)) == SLOT_SIZE,
        naturally_aligned(wgsl_member_sizes(v)),
{
    let s = wgsl_member_sizes(v);
    reveal_with_fuel(size_sum, 5);
    let e = Seq::<nat>::empty();
    assert(e.push(4nat).drop_last() =~= e);
    assert(e.push(8nat).drop_last() =~= e);
    assert(e.push(16nat).drop_last() =~= e);
    assert(e.push(4nat).push(4nat).drop_last() =~= e.push(4nat));
    assert(e.push(8nat).push(8nat).drop_last() =~= e.push(8nat));
    assert(e.push(4nat).push(4nat).push(4nat).drop_last() =~= e.push(4nat).push(4nat));
    assert(e.push(4nat).push(4nat).push(4nat).push(4nat).drop_last() =~= e.push(4nat).push(
        4nat,
    ).push(4nat));
    match v {
        PropertyValue::Float(_) => {
            assert(s =~= e.push(4nat).push(4nat).push(4nat).push(4nat));
            assert(s.subrange(0, 0) =~= e);
            assert(s.subrange(0, 1) =~= e.push(4nat));
            assert(s.subrange(0, 2) =~= e.push(4nat).push(4nat));
            assert(s.subrange(0, 3) =~= e.push(4nat).push(4nat).push(4nat));
            assert(size_sum(s.subrange(0, 1)) == 4);
            assert(size_sum(s.subrange(0, 2)) == 8);
            assert(size_sum(s.subrange(0, 3)) == 12);
            assert forall|j: int| 0 <= j < s.len() implies #[trigger] s[j] > 0 && size_sum(
                s.subrange(0, j),
            ) % s[j] == 0 by {
                assert(s[j] == 4);
                if j == 0 {
                    assert(size_sum(s.subrange(0, j)) == 0);
                } else if j == 1 {
                    assert(size_sum(s.subrange(0, j)) == 4);
                } else if j == 2 {
                    assert(size_sum(s.subrange(0, j)) == 8);
                } else {
                    assert(size_sum(s.subrange(0, j)) == 12);
                }
            }
            assert(naturally_aligned(s));
        },
        PropertyValue::Vec2(..) => {
            assert(s =~= e.push(8nat).push(8nat));
            assert(s.subrange(0, 0) =~= e);
            assert(s.subrange(0, 1) =~= e.push(8nat));
            assert(size_sum(s.subrange(0, 1)) == 8);
            assert forall|j: int| 0 <= j < s.len() implies #[trigger] s[j] > 0 && size_sum(
                s.subrange(0, j),
            ) % s[j] == 0 by {
                assert(s[j] == 8);
                if j == 0 {
                    assert(size_sum(s.subrange(0, j)) == 0);
                } else {
                    assert(size_sum(s.subrange(0, j)) == 8);
                }
            }
        },
        _ => {
            assert(s =~= e.push(16nat));
            assert(s.subrange(0, 0) =~= e);
            assert forall|j: int| 0 <= j < s.len() implies #[trigger] s[j] > 0 && size_sum(
                s.subrange(0, j),
            ) % s[j] == 0 by {
                assert(j == 0);
                assert(s[j] == 16);
                assert(size_sum(s.subrange(0, j)) == 0);
            }
        },
    }
}

} // verus!
