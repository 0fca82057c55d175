//! Node-type descriptors: what a node type is called, which pins it has, and
//! the expression it emits for given input expressions.
use vstd::prelude::*;
use crate::text::{chars_of, fixed3, push_chars, push_fixed3, push_str, texts};

verus! {

/// A value carried by a node. Scalars are fixed-point numbers counted in
/// thousandths, the precision at which constants are emitted.
#[derive(Clone, Copy, Debug, PartialEq, Eq, Structural)]
pub enum PropertyValue {
    Color(i32, i32, i32, i32),
    Float(i32),
    Vec2(i32, i32),
    Vec3(i32, i32, i32),
    Vec4(i32, i32, i32, i32),
    Int(i32),
    Bool(bool),
}

impl PropertyValue {
    /// The scalar, for a `Float` value.
    pub fn as_float(&self) -> (r: Option<i32>)
        ensures
            r == match *self {
                PropertyValue::Float(v) => Some(v),
                _ => None,
            },
    {
        match self {
            PropertyValue::Float(v) => Some(*v),
            _ => None,
        }
    }

    /// The four components, for a `Color` or `Vec4` value.
    pub fn as_color_tuple(&self) -> (r: Option<(i32, i32, i32, i32)>)
        ensures
            r == match *self {
                PropertyValue::Color(a, b, c, d) | PropertyValue::Vec4(a, b, c, d) => Some(
                    (a, b, c, d),
                ),
                _ => None,
            },
    {
        match self {
            PropertyValue::Color(a, b, c, d) | PropertyValue::Vec4(a, b, c, d) => Some(
                (*a, *b, *c, *d),
            ),
            _ => None,
        }
    }
}

/// A named value on a node.
#[derive(Clone, Debug)]
pub struct Property {
    pub name: String,
    pub value: PropertyValue,
}

/// Shader intermediate representation of one value.
#[derive(Clone, Debug)]
pub enum ShaderIR {
    Expr(String),
}

/// An input pin of a node type.
#[derive(Clone, Debug)]
pub struct InputDefinition {
    pub name: String,
    pub data_type: String,
}

/// An output pin of a node type.
#[derive(Clone, Debug)]
pub struct OutputDefinition {
    pub name: String,
    pub data_type: String,
}

/// The expression a node type emits.
#[derive(Clone, Copy, Debug, PartialEq, Eq, Structural)]
pub enum NodeOp {
    Add,
    Multiply,
    Sin,
    Cos,
    Fract,
    Abs,
    Time,
    Uv,
    FloatValue,
    ColorValue,
}

/// A registered node type.
pub struct NodeDescriptor {
    pub name: String,
    pub category: Vec<String>,
    pub inputs: Vec<InputDefinition>,
    pub outputs: Vec<OutputDefinition>,
    pub properties: Vec<Property>,
    pub op: NodeOp,
}

/// The first value named `name` in `props` at or after position `i`.
pub open spec fn lookup_from(props: Seq<Property>, name: Seq<char>, i: int) -> Option<
    PropertyValue,
>
    decreases props.len() - i,
{
    if i < 0 || i >= props.len() {
        None
    } else if props[i].name@ == name {
        Some(props[i].value)
    } else {
        lookup_from(props, name, i + 1)
    }
}

/// The value of the first property named `name`.
pub open spec fn lookup(props: Seq<Property>, name: Seq<char>) -> Option<PropertyValue> {
    lookup_from(props, name, 0)
}

/// The `i`-th input expression, or `0.0` where there is none.
pub open spec fn input_or_zero(ins: Seq<Seq<char>>, i: int) -> Seq<char> {
    if 0 <= i < ins.len() {
        ins[i]
    } else {
        "0.0"@
    }
}

pub open spec fn call1(f: Seq<char>, ins: Seq<Seq<char>>) -> Seq<char> {
    f + "("@ + input_or_zero(ins, 0) + ")"@
}

pub open spec fn binary(op: Seq<char>, ins: Seq<Seq<char>>) -> Seq<char> {
    "("@ + input_or_zero(ins, 0) + op + input_or_zero(ins, 1) + ")"@
}

/// A four-component constant in the primary dialect's spelling.
pub open spec fn vec4_lit(r: int, g: int, b: int, a: int) -> Seq<char> {
    "vec4<f32>("@ + fixed3(r) + ", "@ + fixed3(g) + ", "@ + fixed3(b) + ", "@ + fixed3(a) + ")"@
}

/// The expression emitted by `op` for the input expressions `ins` and the node's
/// properties `props`, in the primary dialect's spelling.
pub open spec fn execute_spec(op: NodeOp, ins: Seq<Seq<char>>, props: Seq<Property>) -> Seq<char> {
    match op {
        NodeOp::Add => binary(" + "@, ins),
        NodeOp::Multiply => binary(" * "@, ins),
        NodeOp::Sin => call1("sin"@, ins),
        NodeOp::Cos => call1("cos"@, ins),
        NodeOp::Fract => call1("fract"@, ins),
        NodeOp::Abs => call1("abs"@, ins),
        NodeOp::Time => "uniforms.time"@,
        NodeOp::Uv => "in.uv"@,
        NodeOp::FloatValue => match lookup(props, "value"@) {
            Some(PropertyValue::Float(m)) => fixed3(m as int),
            _ => "0.0"@,
        },
        NodeOp::ColorValue => match lookup(props, "value"@) {
            Some(PropertyValue::Color(r, g, b, a)) => vec4_lit(r as int, g as int, b as int, a as int),
            _ => "vec4<f32>(1.0, 1.0, 1.0, 1.0)"@,
        },
    }
}

/// The value of the first property named `name`.
pub fn find_property(props: &Vec<Property>, name: &str) -> (r: Option<PropertyValue>)
    ensures
        r == lookup(props@, name@),
{
    let key = chars_of(name);
    let mut i: usize = 0;
    while i < props.len()
        invariant
            i <= props@.len(),
            key@ == name@,
            lookup(props@, name@) == lookup_from(props@, name@, i as int),
        decreases props@.len() - i,
    {
        let here = chars_of(props[i].name.as_str());
        if crate::text::same_text(&here, &key) {
            return Some(props[i].value);
        }
        i = i + 1;
    }
    None
}

fn push_input(out: &mut Vec<char>, ins: &Vec<Vec<char>>, i: usize)
    ensures
        final(out)@ == old(out)@ + input_or_zero(texts(ins@), i as int),
{
    if i < ins.len() {
        push_chars(out, &ins[i]);
    } else {
        push_str(out, "0.0");
    }
}

/// The expression that `op` emits, in the primary dialect's spelling.
pub fn execute(op: NodeOp, ins: &Vec<Vec<char>>, props: &Vec<Property>) -> (r: Vec<char>)
    ensures
        r@ == execute_spec(op, texts(ins@), props@),
{
    let ghost iv = texts(ins@);
    let mut out: Vec<char> = Vec::new();
    match op {
        NodeOp::Add | NodeOp::Multiply => {
            push_str(&mut out, "(");
            push_input(&mut out, ins, 0);
            if op == NodeOp::Add {
                push_str(&mut out, " + ");
            } else {
                push_str(&mut out, " * ");
            }
            push_input(&mut out, ins, 1);
            push_str(&mut out, ")");
        },
        NodeOp::Sin | NodeOp::Cos | NodeOp::Fract | NodeOp::Abs => {
            match op {
                NodeOp::Sin => push_str(&mut out, "sin"),
                NodeOp::Cos => push_str(&mut out, "cos"),
                NodeOp::Fract => push_str(&mut out, "fract"),
                _ => push_str(&mut out, "abs"),
            }
            push_str(&mut out, "(");
            push_input(&mut out, ins, 0);
            push_str(&mut out, ")");
        },
        NodeOp::Time => push_str(&mut out, "uniforms.time"),
        NodeOp::Uv => push_str(&mut out, "in.uv"),
        NodeOp::FloatValue => {
            match find_property(props, "value") {
                Some(PropertyValue::Float(m)) => push_fixed3(&mut out, m),
                _ => push_str(&mut out, "0.0"),
            }
        },
        NodeOp::ColorValue => {
            match find_property(props, "value") {
                Some(PropertyValue::Color(r, g, b, a)) => {
                    push_str(&mut out, "vec4<f32>(");
                    push_fixed3(&mut out, r);
                    push_str(&mut out, ", ");
                    push_fixed3(&mut out, g);
                    push_str(&mut out, ", ");
                    push_fixed3(&mut out, b);
                    push_str(&mut out, ", ");
                    push_fixed3(&mut out, a);
                    push_str(&mut out, ")");
                },
                _ => push_str(&mut out, "vec4<f32>(1.0, 1.0, 1.0, 1.0)"),
            }
        },
    }
    assert(out@ =~= execute_spec(op, iv, props@));
    out
}

} // verus!
