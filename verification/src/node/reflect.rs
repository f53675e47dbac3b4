//! The descriptions of the processors of the audio graph, and the source
//! file that dispatches on a processor's id.
use crate::text::{debug_string, debug_text, decimal, push_decimal, push_text, text};
use vstd::prelude::*;
use vstd::utf8::encode_utf8;

verus! {

/// An input of a processor.
#[derive(Clone, Debug)]
pub struct Input {
    pub name: String,
    pub id: u64,
    pub trigger: bool,
    /// The bit pattern of the input's default value, a 64-bit float.
    pub default: u64,
}

/// The description of a processor: its name, the module it sits in, the
/// path of its implementation, its id, its inputs and its documentation.
#[derive(Clone, Debug)]
pub struct Node {
    pub name: String,
    pub module: Vec<String>,
    pub impl_path: String,
    pub id: u64,
    pub inputs: Vec<Input>,
    pub docs: String,
}

/// The index of the first `::` in `b` at or after `from`, if there is one.
pub open spec fn separator_from(b: Seq<u8>, from: int) -> Option<int>
    decreases b.len() - from,
{
    if from < 0 || from + 1 >= b.len() {
        None
    } else if b[from] == 58u8 && b[from + 1] == 58u8 {
        Some(from)
    } else {
        separator_from(b, from + 1)
    }
}

/// A separator found from `from` lies at or after it, and is a `::`.
proof fn lemma_separator_from(b: Seq<u8>, from: int)
    requires
        separator_from(b, from) is Some,
    ensures
        from <= separator_from(b, from)->0,
        separator_from(b, from)->0 + 1 < b.len(),
        b[separator_from(b, from)->0] == 58u8,
        b[separator_from(b, from)->0 + 1] == 58u8,
    decreases b.len() - from,
{
    if !(b[from] == 58u8 && b[from + 1] == 58u8) {
        lemma_separator_from(b, from + 1);
    }
}

/// The index of the first `::` in `b`, if there is one.
pub open spec fn separator(b: Seq<u8>) -> Option<int> {
    separator_from(b, 0)
}

/// The path by which the generated file reaches a processor: `crate::`,
/// what follows the first `::` of its implementation path, `::` and its
/// name.
pub open spec fn node_path(n: Node) -> Seq<u8>
    recommends
        separator(text(n.impl_path@)) is Some,
{
    let b = text(n.impl_path@);
    let i = separator(b)->0;
    text("crate::"@) + b.subrange(i + 2, b.len() as int) + text("::"@) + text(n.name@)
}

/// The parts of the generated file that have a line for each processor.
pub enum Section {
    Load,
    Name,
    Validate,
}

/// The line of a section for one processor.
pub open spec fn node_line(section: Section, n: Node) -> Seq<u8> {
    text("        "@) + decimal(n.id as nat) + match section {
        Section::Load => text(" => Some("@) + node_path(n) + text("::spawn()),\n"@),
        Section::Name => text(" => Some("@) + encode_utf8(debug_text(n.name@)) + text("),\n"@),
        Section::Validate => text(" => "@) + node_path(n)
            + text("::validate_parameter(parameter, value),\n"@),
    }
}

/// The lines of a section for each processor in turn.
pub open spec fn section_lines(section: Section, nodes: Seq<Node>) -> Seq<u8>
    decreases nodes.len(),
{
    if nodes.len() == 0 {
        Seq::empty()
    } else {
        section_lines(section, nodes.drop_last()) + node_line(section, nodes.last())
    }
}

/// Every processor's implementation path holds a `::`.
pub open spec fn paths_separated(nodes: Seq<Node>) -> bool {
    forall|i: int|
        0 <= i < nodes.len() ==> (#[trigger] separator(text(nodes[i].impl_path@))) is Some
}

/// The generated source file for the processors `nodes`, in their order.
pub open spec fn spec_nodes_file(nodes: Seq<Node>) -> Seq<u8> {
    text("#![deny(unreachable_patterns)]\n\n#[rustfmt::skip]\nuse euphony_node::{BoxProcessor, Error, ParameterValue as Value};\n\n#[rustfmt::skip]\n#[inline]\npub fn load(processor: u64) -> Option<BoxProcessor> {\n    match processor {\n"@)
        + section_lines(Section::Load, nodes)
        + text("        _ => None,\n    }\n}\n\n#[rustfmt::skip]\n#[inline]\npub fn name(processor: u64) -> Option<&'static str> {\n    match processor {\n"@)
        + section_lines(Section::Name, nodes)
        + text("        _ => None,\n    }\n}\n\n#[rustfmt::skip]\n#[inline]\npub fn validate_parameter(processor: u64, parameter: u64, value: Value) -> Result<(), Error> {\n    match processor {\n"@)
        + section_lines(Section::Validate, nodes)
        + text("        _ => unreachable!(\"processor ({}) param ({}) doesn't exist\", processor, parameter)\n    }\n}\n"@)
}

/// Appends the path by which the generated file reaches `node`.
fn push_path(out: &mut Vec<u8>, node: &Node)
    requires
        separator(text(node.impl_path@)) is Some,
    ensures
        final(out)@ == old(out)@ + node_path(*node),
{
    let b = node.impl_path.as_str().as_bytes();
    let ghost bs = text(node.impl_path@);
    let mut i: usize = 0;
    proof {
        lemma_separator_from(bs, 0);
    }
    while !(b[i] == 58u8 && b[i + 1] == 58u8)
        invariant
            b@ == bs,
            separator(bs) is Some,
            i <= separator(bs)->0,
            separator_from(bs, i as int) == separator(bs),
        decreases separator(bs)->0 - i,
    {
        proof {
            lemma_separator_from(bs, i as int);
        }
        i = i + 1;
        proof {
            lemma_separator_from(bs, i as int);
        }
    }
    push_text(out, "crate::");
    let ghost before = out@;
    let mut j: usize = i + 2;
    while j < b.len()
        invariant
            b@ == bs,
            i + 2 <= j <= b.len(),
            out@ == before + bs.subrange(i + 2, j as int),
        decreases b.len() - j,
    {
        out.push(b[j]);
        assert(bs.subrange(i + 2, j + 1) =~= bs.subrange(i + 2, j as int) + seq![bs[j as int]]);
        j = j + 1;
    }
    push_text(out, "::");
    push_text(out, node.name.as_str());
    assert(out@ =~= old(out)@ + node_path(*node));
}

/// Appends the lines of `section` for each of `nodes`.
#[verifier::rlimit(40)]
fn push_section(out: &mut Vec<u8>, section: Section, nodes: &Vec<Node>)
    requires
        paths_separated(nodes@),
    ensures
        final(out)@ == old(out)@ + section_lines(section, nodes@),
{
    let mut i: usize = 0;
    while i < nodes.len()
        invariant
            i <= nodes.len(),
            paths_separated(nodes@),
            out@ == old(out)@ + section_lines(section, nodes@.take(i as int)),
        decreases nodes.len() - i,
    {
        let node = &nodes[i];
        let ghost start = out@;
        push_text(out, "        ");
        push_decimal(out, node.id);
        match section {
            Section::Load => {
                push_text(out, " => Some(");
                push_path(out, node);
                push_text(out, "::spawn()),\n");
            },
            Section::Name => {
                push_text(out, " => Some(");
                let name = debug_string(node.name.as_str());
                push_text(out, name.as_str());
                push_text(out, "),\n");
            },
            Section::Validate => {
                push_text(out, " => ");
                push_path(out, node);
                push_text(out, "::validate_parameter(parameter, value),\n");
            },
        }
        assert(out@ =~= start + node_line(section, *node));
        assert(nodes@.take(i + 1).drop_last() =~= nodes@.take(i as int));
        i = i + 1;
    }
    assert(nodes@.take(nodes.len() as int) =~= nodes@);
}

/// The source file that maps each processor's id to its implementation,
/// its name and its parameter check, for the processors `nodes` in their
/// order. Each processor's implementation path must hold a `::`.
pub fn nodes_file(nodes: &Vec<Node>) -> (r: Vec<u8>)
    requires
        paths_separated(nodes@),
    ensures
        r@ == spec_nodes_file(nodes@),
{
    let mut out: Vec<u8> = Vec::new();
    push_text(
        &mut out,
        "#![deny(unreachable_patterns)]\n\n#[rustfmt::skip]\nuse euphony_node::{BoxProcessor, Error, ParameterValue as Value};\n\n#[rustfmt::skip]\n#[inline]\npub fn load(processor: u64) -> Option<BoxProcessor> {\n    match processor {\n",
    );
    push_section(&mut out, Section::Load, nodes);
    push_text(
        &mut out,
        "        _ => None,\n    }\n}\n\n#[rustfmt::skip]\n#[inline]\npub fn name(processor: u64) -> Option<&'static str> {\n    match processor {\n",
    );
    push_section(&mut out, Section::Name, nodes);
    push_text(
        &mut out,
        "        _ => None,\n    }\n}\n\n#[rustfmt::skip]\n#[inline]\npub fn validate_parameter(processor: u64, parameter: u64, value: Value) -> Result<(), Error> {\n    match processor {\n",
    );
    push_section(&mut out, Section::Validate, nodes);
    push_text(
        &mut out,
        "        _ => unreachable!(\"processor ({}) param ({}) doesn't exist\", processor, parameter)\n    }\n}\n",
    );
    out
}

} // verus!
