//! Reading blocks from their arrays.
//!
//! A block array carries no tag saying how many of its trailing elements are
//! branches; the layout comes from the opcode. Elements are read in order
//! through a window as wide as the number of branches: each new element
//! confirms the oldest one in the window as an argument, and what the window
//! holds when the array ends are the branches.
//!
//! A branch is always an array of block arrays, possibly empty: in
//! `["doIfElse", 5, [["foo"]], [["bar"]]]` each branch holds one block,
//! `["foo"]` and `["bar"]`. A branch written as a single block array, as in
//! `["doIfElse", 5, ["foo"], ["bar"]]`, is refused with `InvalidBranch`: read
//! as a branch of one block it would write back as `[["foo"]]`, and reading
//! followed by writing must give the input back.
use vstd::prelude::*;
use vstd::string::*;

use crate::json::{lemma_element_decreases, Json};
use crate::sb2::{
    argument_decodable, argument_encodes, basic_encodes, block_decodable, block_encodes,
    block_error, block_opcode, branch_decodable, branch_encodes, branches_well_shaped, has_shape, is_text,
    json_opcode, literal_decodable, literal_encodes, nested_decodable, nested_well_shaped, shape_in,
    shape_of, shape_table, BasicBlock, Block, BlockArgument, CBlock, DecodeError, DefineProcedure,
    EBlock, LiteralValue, Shape,
};

verus! {

/// The opcodes with a layout other than a leaf, as data.
fn shape_entries() -> (r: Vec<(&'static str, Shape)>)
    ensures
        r@.len() == shape_table().len(),
        forall|i: int| 0 <= i < r@.len() ==> (#[trigger] r@[i]).0@ == shape_table()[i].0 && r@[i].1
            == shape_table()[i].1,
{
    proof {
        reveal_strlit("procDef");
        reveal_strlit("doForever");
        reveal_strlit("doRepeat");
        reveal_strlit("doUntil");
        reveal_strlit("doWhile");
        reveal_strlit("doIf");
        reveal_strlit("doForeverIf");
        reveal_strlit("doForLoop");
        reveal_strlit("warpSpeed");
        reveal_strlit("doIfElse");
    }
    let r = vec![
        ("procDef", Shape::ProcedureDefinition),
        ("doForever", Shape::OneBranch),
        ("doRepeat", Shape::OneBranch),
        ("doUntil", Shape::OneBranch),
        ("doWhile", Shape::OneBranch),
        ("doIf", Shape::OneBranch),
        ("doForeverIf", Shape::OneBranch),
        ("doForLoop", Shape::OneBranch),
        ("warpSpeed", Shape::OneBranch),
        ("doIfElse", Shape::TwoBranch),
    ];
    assert(r@.len() == shape_table().len());
    r
}

/// The layout of blocks with opcode `opcode`.
pub fn shape_of_opcode(opcode: &String) -> (r: Shape)
    ensures
        r == shape_of(opcode@),
{
    let table = shape_entries();
    let mut i: usize = 0;
    assert(shape_table().subrange(0, shape_table().len() as int) =~= shape_table());
    while i < table.len()
        invariant
            0 <= i <= table@.len(),
            table@.len() == shape_table().len(),
            forall|t: int| 0 <= t < table@.len() ==> (#[trigger] table@[t]).0@ == shape_table()[t].0
                && table@[t].1 == shape_table()[t].1,
            shape_of(opcode@) == shape_in(shape_table().subrange(i as int, shape_table().len() as int), opcode@),
        decreases table@.len() - i,
    {
        let entry = String::from_str(table[i].0);
        proof {
            let rest = shape_table().subrange(i as int, shape_table().len() as int);
            assert(rest.drop_first() == shape_table().subrange(i + 1, shape_table().len() as int));
        }
        if *opcode == entry {
            return table[i].1;
        }
        i += 1;
    }
    Shape::Leaf
}

pub fn decode_literal(j: &Json) -> (r: Result<LiteralValue, DecodeError>)
    ensures
        r is Ok <==> literal_decodable(*j),
        r matches Ok(l) ==> literal_encodes(l, *j),
        !literal_decodable(*j) ==> r == Err::<LiteralValue, DecodeError>(DecodeError::InvalidArgument),
{
    match j {
        Json::Boolean(b) => Ok(LiteralValue::Boolean(*b)),
        Json::Number(n) => Ok(LiteralValue::Number(*n)),
        Json::String(s) => Ok(LiteralValue::String(s.clone())),
        _ => Err(DecodeError::InvalidArgument),
    }
}

/// Reads one argument: a literal, or an array read as a reporter block.
pub fn decode_argument(j: &Json) -> (r: Result<BlockArgument, DecodeError>)
    ensures
        r is Ok <==> argument_decodable(*j),
        r matches Ok(a) ==> argument_encodes(a, *j),
        !argument_decodable(*j) ==> r == Err::<BlockArgument, DecodeError>(DecodeError::InvalidArgument),
    decreases j, 3nat,
{
    match j {
        Json::Boolean(b) => Ok(BlockArgument::Boolean(*b)),
        Json::Number(n) => Ok(BlockArgument::Number(*n)),
        Json::String(s) => Ok(BlockArgument::String(s.clone())),
        Json::Array(_) => match decode_basic(j) {
            Ok(b) => Ok(BlockArgument::Reporter(b)),
            Err(_) => Err(DecodeError::InvalidArgument),
        },
        _ => Err(DecodeError::InvalidArgument),
    }
}

/// Reads the opcode at the head of a block array.
pub(crate) fn read_opcode(v: &Vec<Json>) -> (r: Result<String, DecodeError>)
    ensures
        r is Ok <==> v@.len() >= 1 && v@[0] is String,
        r matches Ok(s) ==> is_text(v@[0], s@),
        r is Err ==> r == Err::<String, DecodeError>(DecodeError::MissingOpcode),
{
    if v.len() == 0 {
        return Err(DecodeError::MissingOpcode);
    }
    match &v[0] {
        Json::String(s) => Ok(s.clone()),
        _ => Err(DecodeError::MissingOpcode),
    }
}

/// Reads a block with no branch.
pub fn decode_basic(j: &Json) -> (r: Result<BasicBlock, DecodeError>)
    ensures
        r is Ok <==> block_decodable(*j, Shape::Leaf),
        r matches Ok(b) ==> basic_encodes(b, *j),
        r matches Err(e) ==> e == block_error(*j, Shape::Leaf),
    decreases j, 0nat,
{
    match j {
        Json::Array(v) => {
            let opcode = match read_opcode(v) {
                Ok(s) => s,
                Err(e) => return Err(e),
            };
            let mut args: Vec<BlockArgument> = Vec::new();
            let mut i: usize = 1;
            while i < v.len()
                invariant
                    *j == Json::Array(*v),
                    v@[0] is String,
                    is_text(v@[0], opcode@),
                    1 <= i <= v@.len(),
                    args@.len() == i - 1,
                    forall|t: int| 0 <= t < args@.len() ==> argument_encodes(#[trigger] args@[t], v@[t + 1]),
                    forall|t: int| 1 <= t < i ==> argument_decodable(#[trigger] v@[t]),
                decreases v@.len() - i,
            {
                proof {
                    lemma_element_decreases(*j, i as int);
                }
                match decode_argument(&v[i]) {
                    Ok(a) => args.push(a),
                    Err(e) => {
                        assert(!argument_decodable(v[i as int]));
                        return Err(e);
                    },
                }
                i += 1;
            }
            Ok(BasicBlock { opcode, args })
        },
        _ => Err(DecodeError::NotABlock),
    }
}

/// Reads the opcode and arguments of a block with `k` branches, and returns
/// the positions of the branches.
///
/// The window starts with the `k` elements after the opcode. Each further
/// element pushes the oldest one out of the window, and that one is an
/// argument. When the array ends, the window holds the branches.
fn decode_windowed(j: &Json, k: usize) -> (r: Result<(String, Vec<BlockArgument>, Vec<usize>), DecodeError>)
    requires
        1 <= k <= 2,
    ensures
        !(j is Array) ==> r == Err::<(String, Vec<BlockArgument>, Vec<usize>), DecodeError>(
            DecodeError::NotABlock,
        ),
        j matches Json::Array(v) ==> {
            &&& r is Ok <==> (v.len() >= 1 + k && v[0] is String && forall|i: int|
                1 <= i < v.len() - k ==> argument_decodable(#[trigger] v[i]))
            &&& !(v.len() >= 1 && v[0] is String) ==> r == Err::<
                (String, Vec<BlockArgument>, Vec<usize>),
                DecodeError,
            >(DecodeError::MissingOpcode)
            &&& (v.len() >= 1 && v[0] is String && v.len() < 1 + k) ==> r == Err::<
                (String, Vec<BlockArgument>, Vec<usize>),
                DecodeError,
            >(DecodeError::MissingBranch)
            &&& (v.len() >= 1 + k && v[0] is String) ==> (r is Err ==> r == Err::<
                (String, Vec<BlockArgument>, Vec<usize>),
                DecodeError,
            >(DecodeError::InvalidArgument))
            &&& r matches Ok(t) ==> {
                &&& is_text(v[0], t.0@)
                &&& t.1@.len() == v.len() - 1 - k
                &&& forall|i: int| 0 <= i < t.1@.len() ==> argument_encodes(#[trigger] t.1@[i], v[i + 1])
                &&& t.2@.len() == k
                &&& forall|i: int| 0 <= i < k ==> #[trigger] t.2@[i] == v.len() - k + i
            }
        },
    decreases j, 0nat,
{
    match j {
        Json::Array(v) => {
            let opcode = match read_opcode(v) {
                Ok(s) => s,
                Err(e) => return Err(e),
            };
            if v.len() < 1 + k {
                return Err(DecodeError::MissingBranch);
            }
            let mut window: Vec<usize> = Vec::new();
            let mut next: usize = 1;
            while next < 1 + k
                invariant
                    1 <= k <= 2,
                    1 <= next <= 1 + k,
                    window@.len() == next - 1,
                    forall|t: int| 0 <= t < window@.len() ==> #[trigger] window@[t] == t + 1,
                decreases 1 + k - next,
            {
                window.push(next);
                next += 1;
            }
            let mut args: Vec<BlockArgument> = Vec::new();
            while next < v.len()
                invariant
                    *j == Json::Array(*v),
                    v@[0] is String,
                    is_text(v@[0], opcode@),
                    1 <= k <= 2,
                    1 + k <= next <= v@.len(),
                    window@.len() == k,
                    forall|t: int| 0 <= t < k ==> #[trigger] window@[t] == next - k + t,
                    args@.len() == next - k - 1,
                    forall|t: int| 0 <= t < args@.len() ==> argument_encodes(#[trigger] args@[t], v@[t + 1]),
                    forall|t: int| 1 <= t < next - k ==> argument_decodable(#[trigger] v@[t]),
                decreases v@.len() - next,
            {
                let oldest = window.remove(0);
                proof {
                    lemma_element_decreases(*j, oldest as int);
                }
                match decode_argument(&v[oldest]) {
                    Ok(a) => args.push(a),
                    Err(e) => {
                        assert(!argument_decodable(v[oldest as int]));
                        return Err(e);
                    },
                }
                window.push(next);
                next += 1;
            }
            Ok((opcode, args, window))
        },
        _ => Err(DecodeError::NotABlock),
    }
}

/// Reads a block with one branch.
pub fn decode_c_block(j: &Json) -> (r: Result<CBlock, DecodeError>)
    ensures
        r is Ok <==> block_decodable(*j, Shape::OneBranch),
        r matches Ok(b) ==> block_encodes(Block::C(b), *j) && branches_well_shaped(Block::C(b)),
        r matches Err(e) ==> e == block_error(*j, Shape::OneBranch),
    decreases j, 1nat,
{
    let (opcode, args, window) = match decode_windowed(j, 1) {
        Ok(t) => t,
        Err(e) => return Err(e),
    };
    match j {
        Json::Array(v) => {
            let pos = window[0];
            proof {
                lemma_element_decreases(*j, pos as int);
            }
            let branch = match decode_branch(&v[pos]) {
                Ok(b) => b,
                Err(_) => return Err(DecodeError::InvalidBranch),
            };
            Ok(CBlock { opcode, args, branch })
        },
        _ => Err(DecodeError::NotABlock),
    }
}

/// Reads a block with two branches.
pub fn decode_e_block(j: &Json) -> (r: Result<EBlock, DecodeError>)
    ensures
        r is Ok <==> block_decodable(*j, Shape::TwoBranch),
        r matches Ok(b) ==> block_encodes(Block::E(b), *j) && branches_well_shaped(Block::E(b)),
        r matches Err(e) ==> e == block_error(*j, Shape::TwoBranch),
    decreases j, 1nat,
{
    let (opcode, args, window) = match decode_windowed(j, 2) {
        Ok(t) => t,
        Err(e) => return Err(e),
    };
    match j {
        Json::Array(v) => {
            let pos0 = window[0];
            let pos1 = window[1];
            proof {
                lemma_element_decreases(*j, pos0 as int);
                lemma_element_decreases(*j, pos1 as int);
            }
            let branch0 = match decode_branch(&v[pos0]) {
                Ok(b) => b,
                Err(_) => return Err(DecodeError::InvalidBranch),
            };
            let branch1 = match decode_branch(&v[pos1]) {
                Ok(b) => b,
                Err(_) => return Err(DecodeError::InvalidBranch),
            };
            Ok(EBlock { opcode, args, branch0, branch1 })
        },
        _ => Err(DecodeError::NotABlock),
    }
}

/// Reads a branch: an array of blocks, each laid out as its opcode says.
pub fn decode_branch(j: &Json) -> (r: Result<Vec<Block>, DecodeError>)
    ensures
        r is Ok <==> branch_decodable(*j),
        r matches Ok(bs) ==> branch_encodes(bs@, *j) && forall|i: int|
            0 <= i < bs@.len() ==> nested_well_shaped(#[trigger] bs@[i]),
        !(j is Array) ==> r == Err::<Vec<Block>, DecodeError>(DecodeError::InvalidBranch),
    decreases j, 0nat,
{
    match j {
        Json::Array(v) => {
            let mut blocks: Vec<Block> = Vec::new();
            let mut i: usize = 0;
            while i < v.len()
                invariant
                    *j == Json::Array(*v),
                    0 <= i <= v@.len(),
                    blocks@.len() == i,
                    forall|t: int| 0 <= t < i ==> block_encodes(#[trigger] blocks@[t], v@[t]) && nested_well_shaped(blocks@[t]),
                    forall|t: int| 0 <= t < i ==> nested_decodable(#[trigger] v@[t]),
                decreases v@.len() - i,
            {
                proof {
                    lemma_element_decreases(*j, i as int);
                }
                match decode_nested(&v[i]) {
                    Ok(b) => blocks.push(b),
                    Err(e) => {
                        assert(!nested_decodable(v[i as int]));
                        return Err(e);
                    },
                }
                i += 1;
            }
            Ok(blocks)
        },
        _ => Err(DecodeError::InvalidBranch),
    }
}

/// Reads a block that stands inside a branch.
pub(crate) fn decode_nested(j: &Json) -> (r: Result<Block, DecodeError>)
    ensures
        r is Ok <==> nested_decodable(*j),
        r matches Ok(b) ==> block_encodes(b, *j) && nested_well_shaped(b),
        (j matches Json::Array(v) && v.len() >= 1 && v[0] is String) && shape_of(json_opcode(*j))
            == Shape::ProcedureDefinition ==> r == Err::<Block, DecodeError>(
            DecodeError::MisplacedProcedureDefinition,
        ),
    decreases j, 3nat,
{
    let opcode = match j {
        Json::Array(v) => match read_opcode(v) {
            Ok(s) => s,
            Err(e) => return Err(e),
        },
        _ => return Err(DecodeError::NotABlock),
    };
    let shape = shape_of_opcode(&opcode);
    if shape == Shape::ProcedureDefinition {
        return Err(DecodeError::MisplacedProcedureDefinition);
    }
    decode_block(j, shape)
}

/// Reads an array of strings.
fn decode_names(j: &Json) -> (r: Option<Vec<String>>)
    ensures
        r is Some <==> (j matches Json::Array(p) && forall|i: int| 0 <= i < p.len() ==> (#[trigger] p[i]) is String),
        r matches Some(names) ==> j matches Json::Array(p) && p.len() == names.len() && forall|i: int|
            0 <= i < p.len() ==> is_text(#[trigger] p[i], names[i]@),
{
    match j {
        Json::Array(p) => {
            let mut names: Vec<String> = Vec::new();
            let mut i: usize = 0;
            while i < p.len()
                invariant
                    *j == Json::Array(*p),
                    0 <= i <= p@.len(),
                    names@.len() == i,
                    forall|t: int| 0 <= t < i ==> is_text(#[trigger] p@[t], names@[t]@),
                    forall|t: int| 0 <= t < i ==> (#[trigger] p@[t]) is String,
                decreases p@.len() - i,
            {
                match &p[i] {
                    Json::String(s) => names.push(s.clone()),
                    _ => {
                        assert(!(p[i as int] is String));
                        return None;
                    },
                }
                i += 1;
            }
            Some(names)
        },
        _ => None,
    }
}

/// Reads an array of literals.
pub(crate) fn decode_literals(j: &Json) -> (r: Option<Vec<LiteralValue>>)
    ensures
        r is Some <==> (j matches Json::Array(q) && forall|i: int| 0 <= i < q.len() ==> literal_decodable(#[trigger] q[i])),
        r matches Some(values) ==> j matches Json::Array(q) && q.len() == values.len() && forall|i: int|
            0 <= i < q.len() ==> literal_encodes(values[i], #[trigger] q[i]),
{
    match j {
        Json::Array(q) => {
            let mut values: Vec<LiteralValue> = Vec::new();
            let mut i: usize = 0;
            while i < q.len()
                invariant
                    *j == Json::Array(*q),
                    0 <= i <= q@.len(),
                    values@.len() == i,
                    forall|t: int| 0 <= t < i ==> literal_encodes(values@[t], #[trigger] q@[t]),
                    forall|t: int| 0 <= t < i ==> literal_decodable(#[trigger] q@[t]),
                decreases q@.len() - i,
            {
                match decode_literal(&q[i]) {
                    Ok(l) => values.push(l),
                    Err(_) => {
                        assert(!literal_decodable(q[i as int]));
                        let ghost qq = j->Array_0;
                        assert(qq == *q);
                        assert(qq[i as int] == q[i as int]);
                        assert(!literal_decodable(qq[i as int]));
                        return None;
                    },
                }
                i += 1;
            }
            Some(values)
        },
        _ => None,
    }
}

/// Reads a procedure head, which has a fixed layout.
pub fn decode_define_procedure(j: &Json) -> (r: Result<DefineProcedure, DecodeError>)
    ensures
        r is Ok <==> block_decodable(*j, Shape::ProcedureDefinition),
        r matches Ok(d) ==> block_encodes(Block::DefineProcedure(d), *j),
        r matches Err(e) ==> e == block_error(*j, Shape::ProcedureDefinition),
{
    match j {
        Json::Array(v) => {
            let opcode = match read_opcode(v) {
                Ok(s) => s,
                Err(e) => return Err(e),
            };
            if v.len() != 5 {
                return Err(DecodeError::InvalidProcedureDefinition);
            }
            let spec = match &v[1] {
                Json::String(s) => s.clone(),
                _ => return Err(DecodeError::InvalidProcedureDefinition),
            };
            let parameter_names = match decode_names(&v[2]) {
                Some(names) => names,
                None => return Err(DecodeError::InvalidProcedureDefinition),
            };
            let default_arg_values = match decode_literals(&v[3]) {
                Some(values) => values,
                None => return Err(DecodeError::InvalidProcedureDefinition),
            };
            let run_without_screen_refresh = match &v[4] {
                Json::Boolean(b) => *b,
                _ => return Err(DecodeError::InvalidProcedureDefinition),
            };
            Ok(DefineProcedure { opcode, spec, parameter_names, default_arg_values, run_without_screen_refresh })
        },
        _ => Err(DecodeError::NotABlock),
    }
}

/// Reads one block whose layout the caller knows.
pub fn decode_block(j: &Json, shape: Shape) -> (r: Result<Block, DecodeError>)
    ensures
        r is Ok <==> block_decodable(*j, shape),
        r matches Ok(b) ==> {
            &&& block_encodes(b, *j)
            &&& has_shape(b, shape)
            &&& branches_well_shaped(b)
            &&& block_opcode(b) == json_opcode(*j)
        },
        r matches Err(e) ==> e == block_error(*j, shape),
    decreases j, 2nat,
{
    match shape {
        Shape::Leaf => match decode_basic(j) {
            Ok(b) => Ok(Block::Basic(b)),
            Err(e) => Err(e),
        },
        Shape::OneBranch => match decode_c_block(j) {
            Ok(b) => Ok(Block::C(b)),
            Err(e) => Err(e),
        },
        Shape::TwoBranch => match decode_e_block(j) {
            Ok(b) => Ok(Block::E(b)),
            Err(e) => Err(e),
        },
        Shape::ProcedureDefinition => match decode_define_procedure(j) {
            Ok(d) => Ok(Block::DefineProcedure(d)),
            Err(e) => Err(e),
        },
    }
}

} // verus!
