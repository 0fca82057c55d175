//! The target dialects and the spelling each gives to literals, references
//! and declarations. The traversal is shared; only these templates differ.
use vstd::prelude::*;
use crate::text::{
    chars_of, contains_text, dec, fixed3, has_text, push_chars, push_dec, push_fixed3, push_str,
    replace_all, replace_text,
};

verus! {

/// The shading languages the compiler can emit.
#[derive(Clone, Copy, Debug, PartialEq, Eq, Structural)]
pub enum TargetFormat {
    /// The primary dialect: WGSL.
    Wgsl,
    /// Engine-style shaders with flat uniforms and built-in outputs.
    Godot,
    /// A minimal fragment-only GLSL unit.
    Generic,
}

impl TargetFormat {
    /// File extension of exported shaders.
    pub fn extension(&self) -> (r: &'static str)
        ensures
            r@ == match self {
                TargetFormat::Wgsl => "wgsl"@,
                TargetFormat::Godot => "gdshader"@,
                TargetFormat::Generic => "shader"@,
            },
    {
        match self {
            TargetFormat::Wgsl => "wgsl",
            TargetFormat::Godot => "gdshader",
            TargetFormat::Generic => "shader",
        }
    }

    /// Human-readable name of the dialect.
    pub fn name(&self) -> (r: &'static str)
        ensures
            r@ == match self {
                TargetFormat::Wgsl => "WGSL"@,
                TargetFormat::Godot => "Godot Shader"@,
                TargetFormat::Generic => "Generic Shader"@,
            },
    {
        match self {
            TargetFormat::Wgsl => "WGSL",
            TargetFormat::Godot => "Godot Shader",
            TargetFormat::Generic => "Generic Shader",
        }
    }
}

/// The neutral literal used at a back edge of a cycle and for a wire whose
/// source is gone.
pub open spec fn zero_lit() -> Seq<char> {
    "0.0"@
}

/// Placeholder for a node whose type is not registered.
pub open spec fn unknown_lit() -> Seq<char> {
    "0.0 /* unknown node */"@
}

/// A four-component constant.
pub open spec fn vec4_const(d: TargetFormat, x: i32, y: i32, z: i32, w: i32) -> Seq<char> {
    (if d == TargetFormat::Wgsl {
        "vec4<f32>("@
    } else {
        "vec4("@
    }) + fixed3(x as int) + ", "@ + fixed3(y as int) + ", "@ + fixed3(z as int) + ", "@ + fixed3(
        w as int,
    ) + ")"@
}

/// The mesh position: raw in the vertex stage, interpolated in the fragment
/// stage.
pub open spec fn position_expr(d: TargetFormat, vertex: bool) -> Seq<char> {
    match d {
        TargetFormat::Wgsl => if vertex {
            "model.position"@
        } else {
            "in.world_position"@
        },
        TargetFormat::Godot => if vertex {
            "VERTEX"@
        } else {
            "WORLD_POSITION"@
        },
        TargetFormat::Generic => "position"@,
    }
}

/// Access to the exposed property `name`.
pub open spec fn property_expr(d: TargetFormat, name: Seq<char>) -> Seq<char> {
    if d == TargetFormat::Wgsl {
        "uniforms."@ + name
    } else {
        name
    }
}

/// Value of an unconnected sink input: a zero offset for the vertex sink,
/// opaque white for the fragment sink.
pub open spec fn sink_default(d: TargetFormat, vertex_sink: bool) -> Seq<char> {
    if vertex_sink {
        if d == TargetFormat::Wgsl {
            "vec3<f32>(0.0)"@
        } else {
            "vec3(0.0)"@
        }
    } else if d == TargetFormat::Wgsl {
        "vec4<f32>(1.0, 1.0, 1.0, 1.0)"@
    } else {
        "vec4(1.0, 1.0, 1.0, 1.0)"@
    }
}

/// Whole-stage value used when a sink is missing from the graph: a zero
/// offset, or opaque magenta.
pub open spec fn stage_fallback(d: TargetFormat, vertex: bool) -> Seq<char> {
    if vertex {
        if d == TargetFormat::Wgsl {
            "vec3<f32>(0.0)"@
        } else {
            "vec3(0.0)"@
        }
    } else if d == TargetFormat::Wgsl {
        "vec4<f32>(1.0, 0.0, 1.0, 1.0)"@
    } else {
        "vec4(1.0, 0.0, 1.0, 1.0)"@
    }
}

/// Rewrites the primary dialect's type spellings into the other dialects'.
pub open spec fn retarget(d: TargetFormat, e: Seq<char>) -> Seq<char> {
    if d == TargetFormat::Wgsl {
        e
    } else {
        replace_all(
            replace_all(
                replace_all(replace_all(e, "vec3<f32>"@, "vec3"@), "vec4<f32>"@, "vec4"@),
                "vec2<f32>"@,
                "vec2"@,
            ),
            "f32"@,
            "float"@,
        )
    }
}

/// The name of the variable holding node `id`'s value.
pub open spec fn var_name(id: usize) -> Seq<char> {
    "node_"@ + dec(id as nat)
}

/// The type a declaration gets outside the primary dialect, read from the
/// widest vector constructor in the expression.
pub open spec fn decl_type(e: Seq<char>) -> Seq<char> {
    if contains_text(e, "vec4"@) {
        "vec4"@
    } else if contains_text(e, "vec3"@) {
        "vec3"@
    } else if contains_text(e, "vec2"@) {
        "vec2"@
    } else {
        "float"@
    }
}

/// One statement line declaring node `id` with value `e`.
pub open spec fn decl_line(d: TargetFormat, id: usize, e: Seq<char>) -> Seq<char> {
    "  "@ + (if d == TargetFormat::Wgsl {
        "let "@
    } else {
        decl_type(e) + " "@
    }) + var_name(id) + " = "@ + e + ";\n"@
}

pub fn push_vec4_const(out: &mut Vec<char>, d: TargetFormat, x: i32, y: i32, z: i32, w: i32)
    ensures
        final(out)@ == old(out)@ + vec4_const(d, x, y, z, w),
{
    let ghost start = out@;
    if d == TargetFormat::Wgsl {
        push_str(out, "vec4<f32>(");
    } else {
        push_str(out, "vec4(");
    }
    push_fixed3(out, x);
    push_str(out, ", ");
    push_fixed3(out, y);
    push_str(out, ", ");
    push_fixed3(out, z);
    push_str(out, ", ");
    push_fixed3(out, w);
    push_str(out, ")");
    assert(out@ =~= start + vec4_const(d, x, y, z, w));
}

pub fn push_position(out: &mut Vec<char>, d: TargetFormat, vertex: bool)
    ensures
        final(out)@ == old(out)@ + position_expr(d, vertex),
{
    match d {
        TargetFormat::Wgsl => if vertex {
            push_str(out, "model.position")
        } else {
            push_str(out, "in.world_position")
        },
        TargetFormat::Godot => if vertex {
            push_str(out, "VERTEX")
        } else {
            push_str(out, "WORLD_POSITION")
        },
        TargetFormat::Generic => push_str(out, "position"),
    }
}

pub fn push_property(out: &mut Vec<char>, d: TargetFormat, name: &String)
    ensures
        final(out)@ == old(out)@ + property_expr(d, name@),
{
    let ghost start = out@;
    if d == TargetFormat::Wgsl {
        push_str(out, "uniforms.");
    }
    push_str(out, name.as_str());
    assert(out@ =~= start + property_expr(d, name@));
}

pub fn push_sink_default(out: &mut Vec<char>, d: TargetFormat, vertex_sink: bool)
    ensures
        final(out)@ == old(out)@ + sink_default(d, vertex_sink),
{
    if vertex_sink {
        if d == TargetFormat::Wgsl {
            push_str(out, "vec3<f32>(0.0)");
        } else {
            push_str(out, "vec3(0.0)");
        }
    } else if d == TargetFormat::Wgsl {
        push_str(out, "vec4<f32>(1.0, 1.0, 1.0, 1.0)");
    } else {
        push_str(out, "vec4(1.0, 1.0, 1.0, 1.0)");
    }
}

pub fn push_stage_fallback(out: &mut Vec<char>, d: TargetFormat, vertex: bool)
    ensures
        final(out)@ == old(out)@ + stage_fallback(d, vertex),
{
    if vertex {
        if d == TargetFormat::Wgsl {
            push_str(out, "vec3<f32>(0.0)");
        } else {
            push_str(out, "vec3(0.0)");
        }
    } else if d == TargetFormat::Wgsl {
        push_str(out, "vec4<f32>(1.0, 0.0, 1.0, 1.0)");
    } else {
        push_str(out, "vec4(1.0, 0.0, 1.0, 1.0)");
    }
}

/// `e` in the spelling of dialect `d`.
pub fn retarget_expr(d: TargetFormat, e: Vec<char>) -> (r: Vec<char>)
    ensures
        r@ == retarget(d, e@),
{
    if d == TargetFormat::Wgsl {
        return e;
    }
    let v3f = chars_of("vec3<f32>");
    let v4f = chars_of("vec4<f32>");
    let v2f = chars_of("vec2<f32>");
    let f = chars_of("f32");
    proof {
        reveal_strlit("vec3<f32>");
        reveal_strlit("vec4<f32>");
        reveal_strlit("vec2<f32>");
        reveal_strlit("f32");
    }
    let a = replace_text(&e, &v3f, &chars_of("vec3"));
    let b = replace_text(&a, &v4f, &chars_of("vec4"));
    let c = replace_text(&b, &v2f, &chars_of("vec2"));
    replace_text(&c, &f, &chars_of("float"))
}

pub fn push_var_name(out: &mut Vec<char>, id: usize)
    ensures
        final(out)@ == old(out)@ + var_name(id),
{
    let ghost start = out@;
    push_str(out, "node_");
    push_dec(out, id);
    assert(out@ =~= start + var_name(id));
}

/// Appends the statement line declaring node `id` with value `e`.
pub fn push_decl(out: &mut Vec<char>, d: TargetFormat, id: usize, e: &Vec<char>)
    ensures
        final(out)@ == old(out)@ + decl_line(d, id, e@),
{
    let ghost start = out@;
    push_str(out, "  ");
    if d == TargetFormat::Wgsl {
        push_str(out, "let ");
    } else {
        if has_text(e, &chars_of("vec4")) {
            push_str(out, "vec4");
        } else if has_text(e, &chars_of("vec3")) {
            push_str(out, "vec3");
        } else if has_text(e, &chars_of("vec2")) {
            push_str(out, "vec2");
        } else {
            push_str(out, "float");
        }
        push_str(out, " ");
    }
    push_var_name(out, id);
    push_str(out, " = ");
    push_chars(out, e);
    push_str(out, ";\n");
    assert(out@ =~= start + decl_line(d, id, e@));
}

} // verus!
