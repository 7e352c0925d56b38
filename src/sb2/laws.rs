//! What holds of every block array: reading then writing gives the input back,
//! and where each element of an array ends up.
use vstd::prelude::*;

use crate::json::{json_same, Json};
use crate::sb2::{
    argument_encodes, basic_encodes, block_decodable, block_encodes, branch_encodes, is_text,
    json_opcode, literal_encodes, BasicBlock, Block, BlockArgument, EBlock, Shape,
};

verus! {

proof fn lemma_argument_same(a: BlockArgument, j1: Json, j2: Json)
    requires
        argument_encodes(a, j1),
        argument_encodes(a, j2),
    ensures
        json_same(j1, j2),
    decreases a,
{
    if let BlockArgument::Reporter(b) = a {
        lemma_basic_same(b, j1, j2);
    }
}

proof fn lemma_basic_same(b: BasicBlock, j1: Json, j2: Json)
    requires
        basic_encodes(b, j1),
        basic_encodes(b, j2),
    ensures
        json_same(j1, j2),
    decreases b,
{
    broadcast use vstd::std_specs::vec::axiom_vec_index_decreases;

    if let (Json::Array(v), Json::Array(w)) = (j1, j2) {
        assert forall|i: int| 0 <= i < v.len() implies json_same(#[trigger] v@[i], w@[i]) by {
            if i > 0 {
                assert(argument_encodes(b.args[i - 1], v[i]));
                lemma_argument_same(b.args[i - 1], v[i], w[i]);
            }
        }
    }
}

proof fn lemma_branch_same(bs: Seq<Block>, j1: Json, j2: Json)
    requires
        branch_encodes(bs, j1),
        branch_encodes(bs, j2),
    ensures
        json_same(j1, j2),
    decreases bs,
{
    if let (Json::Array(v), Json::Array(w)) = (j1, j2) {
        assert forall|i: int| 0 <= i < v.len() implies json_same(#[trigger] v@[i], w@[i]) by {
            lemma_block_same(bs[i], v[i], w[i]);
        }
    }
}

proof fn lemma_block_same(b: Block, j1: Json, j2: Json)
    requires
        block_encodes(b, j1),
        block_encodes(b, j2),
    ensures
        json_same(j1, j2),
    decreases b,
{
    broadcast use vstd::std_specs::vec::axiom_vec_index_decreases;
    broadcast use vstd::std_specs::vec::axiom_vec_decreases_to_view;

    match b {
        Block::Basic(x) => lemma_basic_same(x, j1, j2),
        Block::C(x) => {
            if let (Json::Array(v), Json::Array(w)) = (j1, j2) {
                assert forall|i: int| 0 <= i < v.len() implies json_same(#[trigger] v@[i], w@[i]) by {
                    if 0 < i < v.len() - 1 {
                        lemma_argument_same(x.args[i - 1], v[i], w[i]);
                    } else if i == v.len() - 1 {
                        assert(decreases_to!(x.branch => x.branch@));
                        lemma_branch_same(x.branch@, v[i], w[i]);
                    }
                }
            }
        },
        Block::E(x) => {
            if let (Json::Array(v), Json::Array(w)) = (j1, j2) {
                assert forall|i: int| 0 <= i < v.len() implies json_same(#[trigger] v@[i], w@[i]) by {
                    if 0 < i < v.len() - 2 {
                        lemma_argument_same(x.args[i - 1], v[i], w[i]);
                    } else if i == v.len() - 2 {
                        assert(decreases_to!(x.branch0 => x.branch0@));
                        lemma_branch_same(x.branch0@, v[i], w[i]);
                    } else if i == v.len() - 1 {
                        assert(decreases_to!(x.branch1 => x.branch1@));
                        lemma_branch_same(x.branch1@, v[i], w[i]);
                    }
                }
            }
        },
        Block::DefineProcedure(d) => {
            if let (Json::Array(v), Json::Array(w)) = (j1, j2) {
                assert forall|i: int| 0 <= i < v.len() implies json_same(#[trigger] v@[i], w@[i]) by {
                    if i == 2 {
                        let (pa, pb) = (v[2]->Array_0, w[2]->Array_0);
                        assert forall|k: int| 0 <= k < pa.len() implies json_same(#[trigger] pa@[k], pb@[k]) by {
                            assert(is_text(pa[k], d.parameter_names[k]@));
                            assert(is_text(pb[k], d.parameter_names[k]@));
                        }
                    } else if i == 3 {
                        let (qa, qb) = (v[3]->Array_0, w[3]->Array_0);
                        assert forall|k: int| 0 <= k < qa.len() implies json_same(#[trigger] qa@[k], qb@[k]) by {
                            assert(literal_encodes(d.default_arg_values[k], qa[k]));
                            assert(literal_encodes(d.default_arg_values[k], qb[k]));
                        }
                    }
                }
            }
        },
    }
}

/// Round trip: a block is written as exactly one array. So when reading `input`
/// gave `b` (which then encodes as `input`) and writing `b` gave `output`, the
/// two documents are the same.
pub proof fn lemma_decode_then_encode_is_identity(b: Block, input: Json, output: Json)
    requires
        block_encodes(b, input),
        block_encodes(b, output),
    ensures
        json_same(input, output),
{
    lemma_block_same(b, input, output);
}

/// A leaf array `[opcode]` with nothing after the opcode can be read, and it
/// reads as a block with that opcode and no arguments.
pub proof fn lemma_opcode_only_leaf(j: Json, b: BasicBlock)
    requires
        j matches Json::Array(v) && v.len() == 1 && v[0] is String,
        basic_encodes(b, j),
    ensures
        block_decodable(j, Shape::Leaf),
        b.args@.len() == 0,
        b.opcode@ == json_opcode(j),
{
}

/// In a two-branch block read from `[opcode, arg1, ..., argN, branchA, branchB]`
/// the arguments are exactly the elements between the opcode and the last two,
/// and the branches are exactly the last two: the last argument is never taken
/// for a branch, nor the first branch for an argument.
pub proof fn lemma_two_branch_positions(j: Json, b: EBlock)
    requires
        block_encodes(Block::E(b), j),
    ensures
        j matches Json::Array(v) && {
            &&& v.len() >= 3
            &&& b.args@.len() == v.len() - 3
            &&& forall|i: int| 0 <= i < b.args@.len() ==> argument_encodes(#[trigger] b.args@[i], v[i + 1])
            &&& branch_encodes(b.branch0@, v[v.len() - 2])
            &&& branch_encodes(b.branch1@, v[v.len() - 1])
        },
{
}

} // verus!
