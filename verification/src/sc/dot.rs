//! A synth definition drawn as a Graphviz graph: the parameters in a
//! cluster of their own, then a cluster for each unit generator with its
//! inputs, the edges into them, and its outputs. The numbers of the
//! definition (parameter defaults, constants) are given as labels already
//! written out.
use crate::sc::ops::{
    lemma_binary_op_code_injective, lemma_unary_op_code_injective, BinaryOp, UnaryOp,
};
use crate::sc::synthdef::{Definition, DefinitionModel, Input, ParamNameModel, UGenModel};
use crate::text::{
    push_line, text_vec, debug_string, debug_text, decimal, push_decimal, push_signed, push_text, same_text,
    signed_decimal, text,
};
use vstd::prelude::*;
use vstd::utf8::encode_utf8;

verus! {

/// The binary operation with the code `v`, if there is one.
pub open spec fn binary_op_of(v: i16) -> Option<BinaryOp> {
    if exists|op: BinaryOp| op.spec_code() == v {
        Some(choose|op: BinaryOp| op.spec_code() == v)
    } else {
        None
    }
}

/// The unary operation with the code `v`, if there is one.
pub open spec fn unary_op_of(v: i16) -> Option<UnaryOp> {
    if exists|op: UnaryOp| op.spec_code() == v {
        Some(choose|op: UnaryOp| op.spec_code() == v)
    } else {
        None
    }
}

/// The name given to parameter `idx`: that of the last parameter name with
/// that index.
pub open spec fn param_name_of(names: Seq<ParamNameModel>, idx: int) -> Option<Seq<char>>
    decreases names.len(),
{
    if names.len() == 0 {
        None
    } else if names.last().index == idx {
        Some(names.last().name)
    } else {
        param_name_of(names.drop_last(), idx)
    }
}

/// The node of parameter `idx`, labelled with its name, if it has one, and
/// its default.
pub open spec fn param_line(names: Seq<ParamNameModel>, label: Seq<char>, idx: int) -> Seq<u8> {
    match param_name_of(names, idx) {
        Some(name) => text("    output_0_"@) + decimal(idx as nat) + text(" ["@) + text(
            "label = \""@,
        ) + text(name) + text(" ("@) + text(label) + text(")\""@) + text("];\n"@),
        None => text("    output_0_"@) + decimal(idx as nat) + text(" ["@) + text("label = \""@)
            + text(label) + text("\""@) + text("];\n"@),
    }
}

/// The nodes of the first `n` parameters.
pub open spec fn param_lines(d: DefinitionModel, labels: Seq<String>, n: int) -> Seq<u8>
    decreases n,
{
    if n <= 0 {
        Seq::empty()
    } else {
        param_lines(d, labels, n - 1) + param_line(d.param_names, labels[n - 1]@, n - 1)
    }
}

/// The cluster of the parameters, where there are any.
pub open spec fn params_part(d: DefinitionModel, labels: Seq<String>) -> Seq<u8> {
    if d.params.len() == 0 {
        Seq::empty()
    } else {
        text("  subgraph cluster_params {\n"@) + text("    label = \"params\";\n"@) + param_lines(
            d,
            labels,
            d.params.len() as int,
        ) + text("  }\n"@)
    }
}

/// The label of a unit generator: its operation for the operator
/// generators, else its name.
pub open spec fn ugen_label(u: UGenModel) -> Seq<u8> {
    if u.name == "BinaryOpGen"@ {
        match binary_op_of(u.special_index) {
            Some(op) => text("    label = \""@) + text(op.spec_name()) + text("\";\n"@),
            None => text("    label = \"BinaryOpUGen ("@) + signed_decimal(u.special_index as int)
                + text(")\";\n"@),
        }
    } else if u.name == "UnaryOpGen"@ {
        match unary_op_of(u.special_index) {
            Some(op) => text("    label = \""@) + text(op.spec_name()) + text("\";\n"@),
            None => text("    label = \"UnaryOpUGen ("@) + signed_decimal(u.special_index as int)
                + text(")\";\n"@),
        }
    } else {
        text("    label = "@) + encode_utf8(debug_text(u.name)) + text(";\n"@)
    }
}

/// The lines of input `k` of unit generator `idx`: its node and the edge
/// into it, or its node labelled with its constant.
pub open spec fn input_lines(input: Input, labels: Seq<String>, idx: int, k: int) -> Seq<u8> {
    match input {
        Input::UGen { index, output } => text("    input_"@) + decimal(idx as nat) + text("_"@)
            + decimal(k as nat) + text(" [label = \"input_"@) + decimal(k as nat) + text(
            "\"];\n"@,
        ) + text("    output_"@) + signed_decimal(index as int) + text("_"@) + signed_decimal(
            output as int,
        ) + text(" -> input_"@) + decimal(idx as nat) + text("_"@) + decimal(k as nat) + text(
            ";\n"@,
        ),
        Input::Constant { index } => text("    input_"@) + decimal(k as nat) + text("_"@)
            + decimal(idx as nat) + text(" [label = \"input_"@) + decimal(k as nat) + text(
            " = "@,
        ) + text(labels[index as int]@) + text("\"];\n"@),
    }
}

/// The lines of the first `n` inputs of unit generator `idx`.
pub open spec fn inputs_lines(u: UGenModel, labels: Seq<String>, idx: int, n: int) -> Seq<u8>
    decreases n,
{
    if n <= 0 {
        Seq::empty()
    } else {
        inputs_lines(u, labels, idx, n - 1) + input_lines(u.ins[n - 1], labels, idx, n - 1)
    }
}

/// The node of output `o` of unit generator `idx`.
pub open spec fn output_line(idx: int, o: int) -> Seq<u8> {
    text("    output_"@) + decimal(idx as nat) + text("_"@) + decimal(o as nat) + text(
        " [label = \"output_"@,
    ) + decimal(o as nat) + text("\"];\n"@)
}

/// The nodes of the first `n` outputs of unit generator `idx`.
pub open spec fn outputs_lines(idx: int, n: int) -> Seq<u8>
    decreases n,
{
    if n <= 0 {
        Seq::empty()
    } else {
        outputs_lines(idx, n - 1) + output_line(idx, n - 1)
    }
}

/// The cluster of unit generator `idx`; nothing for the generator of the
/// controls, which the parameters stand for.
pub open spec fn ugen_part(u: UGenModel, labels: Seq<String>, idx: int) -> Seq<u8> {
    if u.name == "Control"@ {
        Seq::empty()
    } else {
        text("  subgraph cluster_ugens_"@) + decimal(idx as nat) + text(" {\n"@) + ugen_label(u)
            + inputs_lines(u, labels, idx, u.ins.len() as int) + outputs_lines(
            idx,
            u.outs.len() as int,
        ) + text("  }\n"@)
    }
}

/// The clusters of the first `n` unit generators.
pub open spec fn ugens_part(d: DefinitionModel, labels: Seq<String>, n: int) -> Seq<u8>
    decreases n,
{
    if n <= 0 {
        Seq::empty()
    } else {
        ugens_part(d, labels, n - 1) + ugen_part(d.ugens[n - 1], labels, n - 1)
    }
}

/// The graph of a definition, with `param_labels` for its parameters'
/// defaults and `const_labels` for its constants.
pub open spec fn spec_dot(
    d: DefinitionModel,
    param_labels: Seq<String>,
    const_labels: Seq<String>,
) -> Seq<u8> {
    text("digraph G {\n"@) + text("  label = "@) + encode_utf8(debug_text(d.name)) + text(";\n"@)
        + text("  rankdir=\"LR\";\n"@) + params_part(d, param_labels) + ugens_part(
        d,
        const_labels,
        d.ugens.len() as int,
    ) + text("}\n"@)
}

/// Each constant that a unit generator other than the controls reads is
/// one of the definition's constants.
pub open spec fn constants_in_range(d: DefinitionModel) -> bool {
    forall|i: int, k: int|
        0 <= i < d.ugens.len() && d.ugens[i].name != "Control"@ && 0 <= k < d.ugens[i].ins.len()
            ==> match #[trigger] d.ugens[i].ins[k] {
            Input::Constant { index } => 0 <= index < d.consts.len(),
            Input::UGen { .. } => true,
        }
}

/// The name of parameter `idx`, if it has one.
fn param_name_at(names: &Vec<crate::sc::synthdef::ParamName>, idx: usize) -> (r: Option<&String>)
    ensures
        match param_name_of(names@.map_values(|x: crate::sc::synthdef::ParamName| x@), idx as int) {
            Some(name) => r matches Some(s) && s@ == name,
            None => r is None,
        },
{
    let ghost m = names@.map_values(|x: crate::sc::synthdef::ParamName| x@);
    let mut k: usize = names.len();
    assert(m.take(k as int) =~= m);
    while k > 0
        invariant
            k <= names.len(),
            m == names@.map_values(|x: crate::sc::synthdef::ParamName| x@),
            param_name_of(m, idx as int) == param_name_of(m.take(k as int), idx as int),
        decreases k,
    {
        assert(m.take(k as int).drop_last() =~= m.take(k - 1));
        assert(m.take(k as int).last() == m[k - 1]);
        let name = &names[k - 1];
        if name.index >= 0 && name.index as usize == idx {
            return Some(&name.name);
        }
        k = k - 1;
    }
    assert(m.take(0) =~= Seq::<ParamNameModel>::empty());
    None
}

/// Appends the label line of a unit generator.
fn push_ugen_label(out: &mut Vec<u8>, u: &crate::sc::synthdef::UGen)
    ensures
        final(out)@ == old(out)@ + ugen_label(u@),
{
    if same_text(u.name.as_str(), "BinaryOpGen") {
        match BinaryOp::from_i16(u.special_index) {
            Some(op) => {
                proof {
                    let c = choose|o: BinaryOp| o.spec_code() == u.special_index;
                    lemma_binary_op_code_injective(op, c);
                }
                push_text(out, "    label = \"");
                push_text(out, op.name());
                push_text(out, "\";\n");
            },
            None => {
                push_text(out, "    label = \"BinaryOpUGen (");
                push_signed(out, u.special_index as i64);
                push_text(out, ")\";\n");
            },
        }
    } else if same_text(u.name.as_str(), "UnaryOpGen") {
        match UnaryOp::from_i16(u.special_index) {
            Some(op) => {
                proof {
                    let c = choose|o: UnaryOp| o.spec_code() == u.special_index;
                    lemma_unary_op_code_injective(op, c);
                }
                push_text(out, "    label = \"");
                push_text(out, op.name());
                push_text(out, "\";\n");
            },
            None => {
                push_text(out, "    label = \"UnaryOpUGen (");
                push_signed(out, u.special_index as i64);
                push_text(out, ")\";\n");
            },
        }
    } else {
        push_text(out, "    label = ");
        let name = debug_string(u.name.as_str());
        push_text(out, name.as_str());
        push_text(out, ";\n");
    }
    assert(out@ =~= old(out)@ + ugen_label(u@));
}

/// Appends the lines of input `k` of unit generator `idx`.
#[verifier::rlimit(40)]
fn push_input_lines(
    out: &mut Vec<u8>,
    input: Input,
    const_labels: &Vec<String>,
    idx: usize,
    k: usize,
)
    requires
        match input {
            Input::Constant { index } => 0 <= index < const_labels@.len(),
            Input::UGen { .. } => true,
        },
    ensures
        final(out)@ == old(out)@ + input_lines(input, const_labels@, idx as int, k as int),
{
    let mut line = text_vec("    input_");
    match input {
        Input::UGen { index, output } => {
            push_decimal(&mut line, idx as u64);
            push_text(&mut line, "_");
            push_decimal(&mut line, k as u64);
            push_text(&mut line, " [label = \"input_");
            push_decimal(&mut line, k as u64);
            push_text(&mut line, "\"];\n");
            push_text(&mut line, "    output_");
            push_signed(&mut line, index as i64);
            push_text(&mut line, "_");
            push_signed(&mut line, output as i64);
            push_text(&mut line, " -> input_");
            push_decimal(&mut line, idx as u64);
            push_text(&mut line, "_");
            push_decimal(&mut line, k as u64);
            push_text(&mut line, ";\n");
        },
        Input::Constant { index } => {
            push_decimal(&mut line, k as u64);
            push_text(&mut line, "_");
            push_decimal(&mut line, idx as u64);
            push_text(&mut line, " [label = \"input_");
            push_decimal(&mut line, k as u64);
            push_text(&mut line, " = ");
            push_text(&mut line, const_labels[index as usize].as_str());
            push_text(&mut line, "\"];\n");
        },
    }
    push_line(out, &line);
    assert(out@ == old(out)@ + input_lines(input, const_labels@, idx as int, k as int));
}

/// Appends the node of parameter `idx`.
fn push_param_line(out: &mut Vec<u8>, def: &Definition, param_labels: &Vec<String>, idx: usize)
    requires
        idx < param_labels@.len(),
    ensures
        final(out)@ == old(out)@ + param_line(
            def@.param_names,
            param_labels@[idx as int]@,
            idx as int,
        ),
{
    let mut line = text_vec("    output_0_");
    push_decimal(&mut line, idx as u64);
    push_text(&mut line, " [");
    match param_name_at(&def.param_names, idx) {
        Some(name) => {
            push_text(&mut line, "label = \"");
            push_text(&mut line, name.as_str());
            push_text(&mut line, " (");
            push_text(&mut line, param_labels[idx].as_str());
            push_text(&mut line, ")\"");
        },
        None => {
            push_text(&mut line, "label = \"");
            push_text(&mut line, param_labels[idx].as_str());
            push_text(&mut line, "\"");
        },
    }
    push_text(&mut line, "];\n");
    push_line(out, &line);
    assert(out@ == old(out)@ + param_line(
        def@.param_names,
        param_labels@[idx as int]@,
        idx as int,
    ));
}

/// Appends the node of output `o` of unit generator `idx`.
fn push_output_line(out: &mut Vec<u8>, idx: usize, o: usize)
    ensures
        final(out)@ == old(out)@ + output_line(idx as int, o as int),
{
    let mut line = text_vec("    output_");
    push_decimal(&mut line, idx as u64);
    push_text(&mut line, "_");
    push_decimal(&mut line, o as u64);
    push_text(&mut line, " [label = \"output_");
    push_decimal(&mut line, o as u64);
    push_text(&mut line, "\"];\n");
    push_line(out, &line);
}

/// Appends the cluster of unit generator `idx`.
#[verifier::spinoff_prover]
fn push_ugen(
    out: &mut Vec<u8>,
    u: &crate::sc::synthdef::UGen,
    const_labels: &Vec<String>,
    idx: usize,
)
    requires
        u@.name != "Control"@,
        forall|k: int|
            0 <= k < u@.ins.len() ==> match #[trigger] u@.ins[k] {
                Input::Constant { index } => 0 <= index < const_labels@.len(),
                Input::UGen { .. } => true,
            },
    ensures
        final(out)@ == old(out)@ + ugen_part(u@, const_labels@, idx as int),
{
    let mut line = text_vec("  subgraph cluster_ugens_");
    push_decimal(&mut line, idx as u64);
    push_text(&mut line, " {\n");
    push_ugen_label(&mut line, u);
    let ghost before_inputs = line@;
    let mut k: usize = 0;
    while k < u.ins.len()
        invariant
            k <= u.ins.len(),
            forall|k: int|
                0 <= k < u@.ins.len() ==> match #[trigger] u@.ins[k] {
                    Input::Constant { index } => 0 <= index < const_labels@.len(),
                    Input::UGen { .. } => true,
                },
            line@ == before_inputs + inputs_lines(u@, const_labels@, idx as int, k as int),
        decreases u.ins.len() - k,
    {
        let input = u.ins[k];
        assert(u@.ins[k as int] == input);
        push_input_lines(&mut line, input, const_labels, idx, k);
        proof {
            vstd::seq_lib::lemma_concat_associative(
                before_inputs,
                inputs_lines(u@, const_labels@, idx as int, k as int),
                input_lines(input, const_labels@, idx as int, k as int),
            );
        }
        k = k + 1;
    }
    let ghost before_outputs = line@;
    let mut o: usize = 0;
    while o < u.outs.len()
        invariant
            o <= u.outs.len(),
            line@ == before_outputs + outputs_lines(idx as int, o as int),
        decreases u.outs.len() - o,
    {
        push_output_line(&mut line, idx, o);
        proof {
            vstd::seq_lib::lemma_concat_associative(
                before_outputs,
                outputs_lines(idx as int, o as int),
                output_line(idx as int, o as int),
            );
        }
        o = o + 1;
    }
    push_text(&mut line, "  }\n");
    push_line(out, &line);
}

/// Appends the cluster of the parameters, where there are any.
#[verifier::rlimit(40)]
fn push_params(out: &mut Vec<u8>, def: &Definition, param_labels: &Vec<String>)
    requires
        param_labels@.len() == def.params@.len(),
    ensures
        final(out)@ == old(out)@ + params_part(def@, param_labels@),
{
    let ghost d = def@;
    if def.params.len() > 0 {
        push_text(out, "  subgraph cluster_params {\n");
        push_text(out, "    label = \"params\";\n");
        let ghost before = out@;
        let mut idx: usize = 0;
        while idx < def.params.len()
            invariant
                idx <= def.params.len(),
                d == def@,
                param_labels@.len() == def.params@.len(),
                out@ == before + param_lines(d, param_labels@, idx as int),
            decreases def.params.len() - idx,
        {
            push_param_line(out, def, param_labels, idx);
            idx = idx + 1;
        }
        push_text(out, "  }\n");
    }
    assert(out@ =~= old(out)@ + params_part(d, param_labels@));
}

/// Appends the clusters of the unit generators.
fn push_ugens(out: &mut Vec<u8>, def: &Definition, const_labels: &Vec<String>)
    requires
        const_labels@.len() == def.consts@.len(),
        constants_in_range(def@),
    ensures
        final(out)@ == old(out)@ + ugens_part(def@, const_labels@, def.ugens@.len() as int),
{
    let ghost d = def@;
    let mut idx: usize = 0;
    while idx < def.ugens.len()
        invariant
            idx <= def.ugens.len(),
            d == def@,
            const_labels@.len() == def.consts@.len(),
            constants_in_range(d),
            out@ == old(out)@ + ugens_part(d, const_labels@, idx as int),
        decreases def.ugens.len() - idx,
    {
        let u = &def.ugens[idx];
        assert(d.ugens[idx as int] == u@);
        let ghost start = out@;
        if !same_text(u.name.as_str(), "Control") {
            assert forall|k: int| 0 <= k < u@.ins.len() implies match #[trigger] u@.ins[k] {
                Input::Constant { index } => 0 <= index < const_labels@.len(),
                Input::UGen { .. } => true,
            } by {
                assert(d.ugens[idx as int].ins[k] == u@.ins[k]);
            }
            push_ugen(out, u, const_labels, idx);
        }
        assert(out@ =~= start + ugen_part(u@, const_labels@, idx as int));
        idx = idx + 1;
    }
}

impl Definition {
    /// The definition drawn as a Graphviz graph, as text: `param_labels`
    /// label the parameters' defaults and `const_labels` the constants, one
    /// for each. Each constant that a unit generator reads must be one of the
    /// definition's.
    pub fn dot(&self, param_labels: &Vec<String>, const_labels: &Vec<String>) -> (r: Vec<u8>)
        requires
            param_labels@.len() == self.params@.len(),
            const_labels@.len() == self.consts@.len(),
            constants_in_range(self@),
        ensures
            r@ == spec_dot(self@, param_labels@, const_labels@),
    {
        let mut out: Vec<u8> = Vec::new();
        push_text(&mut out, "digraph G {\n");
        push_text(&mut out, "  label = ");
        let name = debug_string(self.name.as_str());
        push_text(&mut out, name.as_str());
        push_text(&mut out, ";\n");
        push_text(&mut out, "  rankdir=\"LR\";\n");
        push_params(&mut out, self, param_labels);
        push_ugens(&mut out, self, const_labels);
        push_text(&mut out, "}\n");
        assert(out@ =~= spec_dot(self@, param_labels@, const_labels@));
        out
    }
}

} // verus!
