//! Writing blocks back as arrays: opcode, then arguments in order, then branches.
use vstd::prelude::*;

use crate::json::Json;
use crate::sb2::{
    argument_encodes, basic_encodes, block_encodes, branch_encodes, is_text, literal_encodes,
    BasicBlock, Block, BlockArgument, LiteralValue,
};

verus! {

pub fn encode_literal(l: &LiteralValue) -> (r: Json)
    ensures
        literal_encodes(*l, r),
{
    match l {
        LiteralValue::Boolean(b) => Json::Boolean(*b),
        LiteralValue::Number(n) => Json::Number(*n),
        LiteralValue::String(s) => Json::String(s.clone()),
    }
}

pub fn encode_argument(a: &BlockArgument) -> (r: Json)
    ensures
        argument_encodes(*a, r),
    decreases a,
{
    match a {
        BlockArgument::Boolean(b) => Json::Boolean(*b),
        BlockArgument::Number(n) => Json::Number(*n),
        BlockArgument::String(s) => Json::String(s.clone()),
        BlockArgument::Reporter(b) => encode_basic(b),
    }
}

/// Pushes the opcode and the arguments, in order, onto `out`.
fn push_head(opcode: &String, args: &Vec<BlockArgument>, out: &mut Vec<Json>)
    requires
        old(out)@.len() == 0,
    ensures
        final(out)@.len() == args@.len() + 1,
        is_text(final(out)@[0], opcode@),
        forall|i: int| 0 <= i < args@.len() ==> argument_encodes(#[trigger] args@[i], final(out)@[i + 1]),
    decreases args,
{
    out.push(Json::String(opcode.clone()));
    let mut i: usize = 0;
    while i < args.len()
        invariant
            0 <= i <= args@.len(),
            out@.len() == i + 1,
            is_text(out@[0], opcode@),
            forall|t: int| 0 <= t < i ==> argument_encodes(#[trigger] args@[t], out@[t + 1]),
        decreases args@.len() - i,
    {
        proof {
            broadcast use vstd::std_specs::vec::axiom_vec_index_decreases;
            assert(decreases_to!(*args => args[i as int]));
        }
        let a = encode_argument(&args[i]);
        out.push(a);
        i += 1;
    }
}

pub fn encode_basic(b: &BasicBlock) -> (r: Json)
    ensures
        basic_encodes(*b, r),
    decreases b,
{
    let mut out: Vec<Json> = Vec::new();
    push_head(&b.opcode, &b.args, &mut out);
    Json::Array(out)
}

pub fn encode_branch(bs: &Vec<Block>) -> (r: Json)
    ensures
        branch_encodes(bs@, r),
    decreases bs,
{
    let mut out: Vec<Json> = Vec::new();
    let mut i: usize = 0;
    while i < bs.len()
        invariant
            0 <= i <= bs@.len(),
            out@.len() == i,
            forall|t: int| 0 <= t < i ==> block_encodes(#[trigger] bs@[t], out@[t]),
        decreases bs@.len() - i,
    {
        proof {
            broadcast use vstd::std_specs::vec::axiom_vec_index_decreases;
            assert(decreases_to!(*bs => bs[i as int]));
        }
        let j = encode_block(&bs[i]);
        out.push(j);
        i += 1;
    }
    Json::Array(out)
}

/// Writes a block back as the array it was read from.
pub fn encode_block(b: &Block) -> (r: Json)
    ensures
        block_encodes(*b, r),
    decreases b,
{
    match b {
        Block::Basic(x) => encode_basic(x),
        Block::C(x) => {
            let mut out: Vec<Json> = Vec::new();
            push_head(&x.opcode, &x.args, &mut out);
            let branch = encode_branch(&x.branch);
            out.push(branch);
            Json::Array(out)
        },
        Block::E(x) => {
            let mut out: Vec<Json> = Vec::new();
            push_head(&x.opcode, &x.args, &mut out);
            let branch0 = encode_branch(&x.branch0);
            out.push(branch0);
            let branch1 = encode_branch(&x.branch1);
            out.push(branch1);
            Json::Array(out)
        },
        Block::DefineProcedure(d) => {
            let mut names: Vec<Json> = Vec::new();
            let mut i: usize = 0;
            while i < d.parameter_names.len()
                invariant
                    0 <= i <= d.parameter_names@.len(),
                    names@.len() == i,
                    forall|t: int| 0 <= t < i ==> is_text(#[trigger] names@[t], d.parameter_names@[t]@),
                decreases d.parameter_names@.len() - i,
            {
                names.push(Json::String(d.parameter_names[i].clone()));
                i += 1;
            }
            let mut values: Vec<Json> = Vec::new();
            let mut i: usize = 0;
            while i < d.default_arg_values.len()
                invariant
                    0 <= i <= d.default_arg_values@.len(),
                    values@.len() == i,
                    forall|t: int| 0 <= t < i ==> literal_encodes(d.default_arg_values@[t], #[trigger] values@[t]),
                decreases d.default_arg_values@.len() - i,
            {
                values.push(encode_literal(&d.default_arg_values[i]));
                i += 1;
            }
            let mut out: Vec<Json> = Vec::new();
            out.push(Json::String(d.opcode.clone()));
            out.push(Json::String(d.spec.clone()));
            out.push(Json::Array(names));
            out.push(Json::Array(values));
            out.push(Json::Boolean(d.run_without_screen_refresh));
            Json::Array(out)
        },
    }
}

} // verus!
