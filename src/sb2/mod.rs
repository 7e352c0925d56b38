//! The legacy project tree: targets holding top-level scripts whose blocks are
//! flat, untagged arrays. This module holds the tree's types and the exact
//! statement of how each block is written as an array; `decode` reads the
//! arrays and `encode` writes them back.
use vstd::prelude::*;

use crate::json::{Decimal, Json};

pub mod decode;
pub mod document;
pub mod encode;
pub mod laws;

verus! {

/// A whole legacy project: the stage, the entities under it, and metadata.
#[derive(Debug, PartialEq)]
pub struct Project {
    pub stage: Stage,
    pub children: Vec<StageChild>,
    pub info: Info,
}

/// The stage: a target with a few fields of its own.
#[derive(Debug, PartialEq)]
pub struct Stage {
    pub pen_layer_md5: String,
    pub pen_layer_id: i32,
    pub tempo_bpm: Decimal,
    pub video_alpha: Decimal,
    pub target: Target,
}

/// An entity under the stage. Only sprites become targets.
#[derive(Debug, PartialEq)]
pub enum StageChild {
    Sprite(Sprite),
    Monitor(Monitor),
    List(List),
}

/// A sprite: a target with a transform.
#[derive(Debug, PartialEq)]
pub struct Sprite {
    pub x: Decimal,
    pub y: Decimal,
    /// Scaling factor: 1 means 100%.
    pub scale: Decimal,
    pub direction: Decimal,
    pub rotation_style: RotationStyle,
    pub is_draggable: bool,
    pub index_in_library: i32,
    pub is_visible: bool,
    pub target: Target,
}

/// What the stage and sprites have in common.
#[derive(Debug, PartialEq)]
pub struct Target {
    pub name: String,
    pub variables: Vec<Variable>,
    pub lists: Vec<List>,
    pub sounds: Vec<Sound>,
    pub costumes: Vec<Costume>,
    pub current_costume_index: usize,
    pub scripts: Vec<TopLevelScript>,
    /// Positions, in the document, of the scripts that could not be read and
    /// were left out.
    pub skipped_scripts: Vec<usize>,
}

/// An on-screen readout of a value.
#[derive(Debug, PartialEq)]
pub struct Monitor {
    pub target: String,
    pub cmd: String,
    pub param: String,
    pub color: Decimal,
    pub label: String,
    pub mode: i32,
    pub slider_min: Decimal,
    pub slider_max: Decimal,
    pub is_discrete: bool,
    pub x: Decimal,
    pub y: Decimal,
    pub visible: bool,
}

#[derive(Debug, PartialEq)]
pub struct Variable {
    pub name: String,
    pub value: LiteralValue,
    pub is_persistent: bool,
}

#[derive(Debug, PartialEq)]
pub struct List {
    pub name: String,
    pub contents: Vec<LiteralValue>,
    pub is_persistent: bool,
}

#[derive(Clone, Copy, Debug, PartialEq, Eq, Structural)]
pub enum RotationStyle {
    Normal,
    LeftRight,
    DoNotRotate,
}

/// A costume. Its image is named `baseLayerMD5`, written `<md5>.<extension>`.
#[derive(Debug, PartialEq)]
pub struct Costume {
    pub costume_name: String,
    pub base_layer_id: i32,
    pub base_layer_md5: String,
    pub bitmap_resolution: i32,
    pub rotation_center_x: Decimal,
    pub rotation_center_y: Decimal,
}

/// A sound. Its audio is named `md5`, written `<md5>.<extension>`.
#[derive(Debug, PartialEq)]
pub struct Sound {
    pub sound_name: String,
    pub sound_id: i32,
    pub md5: String,
    pub sample_count: i32,
    pub rate: i32,
    pub format: String,
}

/// Metadata about the tool that wrote the project.
#[derive(Debug, PartialEq)]
pub struct Info {
    pub user_agent: String,
    pub flash_version: String,
    pub sprite_count: i32,
    pub video_on: bool,
    pub script_count: i32,
    pub swf_version: String,
    /// The other members, in the order the object holds them.
    pub other_info: Vec<crate::json::Member>,
}

/// A script on the canvas at `(x, y)`.
#[derive(Debug, PartialEq)]
pub struct TopLevelScript {
    pub x: Decimal,
    pub y: Decimal,
    pub script: Vec<Block>,
}

/// A literal written directly in the document.
#[derive(Debug, PartialEq)]
pub enum LiteralValue {
    Boolean(bool),
    Number(Decimal),
    String(String),
}

/// One argument of a block: a literal, or a nested reporter block.
#[derive(Debug, PartialEq)]
pub enum BlockArgument {
    Boolean(bool),
    Number(Decimal),
    String(String),
    Reporter(BasicBlock),
}

/// A block with no branch: `[opcode, arg1, ..., argN]`.
#[derive(Debug, PartialEq)]
pub struct BasicBlock {
    pub opcode: String,
    pub args: Vec<BlockArgument>,
}

/// A block with one branch: `[opcode, arg1, ..., argN, branch]`.
#[derive(Debug, PartialEq)]
pub struct CBlock {
    pub opcode: String,
    pub args: Vec<BlockArgument>,
    pub branch: Vec<Block>,
}

/// A block with two branches: `[opcode, arg1, ..., argN, branch0, branch1]`.
#[derive(Debug, PartialEq)]
pub struct EBlock {
    pub opcode: String,
    pub args: Vec<BlockArgument>,
    pub branch0: Vec<Block>,
    pub branch1: Vec<Block>,
}

/// The head of a procedure:
/// `[opcode, spec, [parameter names], [default values], run_without_screen_refresh]`.
#[derive(Debug, PartialEq)]
pub struct DefineProcedure {
    pub opcode: String,
    pub spec: String,
    pub parameter_names: Vec<String>,
    pub default_arg_values: Vec<LiteralValue>,
    pub run_without_screen_refresh: bool,
}

/// One block of a script.
#[derive(Debug, PartialEq)]
pub enum Block {
    DefineProcedure(DefineProcedure),
    E(EBlock),
    C(CBlock),
    Basic(BasicBlock),
}

/// How a block is laid out, which is a property of its opcode.
#[derive(Clone, Copy, Debug, PartialEq, Eq, Structural)]
pub enum Shape {
    Leaf,
    OneBranch,
    TwoBranch,
    ProcedureDefinition,
}

/// Why an array could not be read as a block.
#[derive(Clone, Copy, Debug, PartialEq, Eq, Structural)]
pub enum DecodeError {
    /// The block is not an array.
    NotABlock,
    /// The array does not start with an opcode string.
    MissingOpcode,
    /// The array ends before all of its branches.
    MissingBranch,
    /// An argument is neither a literal nor a reporter block.
    InvalidArgument,
    /// A branch is not an array of blocks.
    InvalidBranch,
    /// A procedure head does not have its fixed layout.
    InvalidProcedureDefinition,
    /// A procedure head stands where only the first block of a script may be one.
    MisplacedProcedureDefinition,
    /// A top-level script is not `[x, y, [blocks]]`.
    NotAScript,
    /// A record lacks a member it needs, or the member has the wrong kind.
    MissingField,
    /// An entity under the stage is neither a sprite, a monitor nor a list.
    UnknownChild,
}

/// The opcode that marks a procedure head.
pub open spec fn procedure_opcode() -> Seq<char> {
    seq!['p', 'r', 'o', 'c', 'D', 'e', 'f']
}

/// Opcodes whose blocks carry branches, with their layout; every other opcode
/// is a leaf.
pub open spec fn shape_table() -> Seq<(Seq<char>, Shape)> {
    seq![
        (procedure_opcode(), Shape::ProcedureDefinition),
        (seq!['d', 'o', 'F', 'o', 'r', 'e', 'v', 'e', 'r'], Shape::OneBranch),
        (seq!['d', 'o', 'R', 'e', 'p', 'e', 'a', 't'], Shape::OneBranch),
        (seq!['d', 'o', 'U', 'n', 't', 'i', 'l'], Shape::OneBranch),
        (seq!['d', 'o', 'W', 'h', 'i', 'l', 'e'], Shape::OneBranch),
        (seq!['d', 'o', 'I', 'f'], Shape::OneBranch),
        (seq!['d', 'o', 'F', 'o', 'r', 'e', 'v', 'e', 'r', 'I', 'f'], Shape::OneBranch),
        (seq!['d', 'o', 'F', 'o', 'r', 'L', 'o', 'o', 'p'], Shape::OneBranch),
        (seq!['w', 'a', 'r', 'p', 'S', 'p', 'e', 'e', 'd'], Shape::OneBranch),
        (seq!['d', 'o', 'I', 'f', 'E', 'l', 's', 'e'], Shape::TwoBranch),
    ]
}

/// The layout of `op` in `table`: the first entry naming it, else a leaf.
pub open spec fn shape_in(table: Seq<(Seq<char>, Shape)>, op: Seq<char>) -> Shape
    decreases table.len(),
{
    if table.len() == 0 {
        Shape::Leaf
    } else if table[0].0 == op {
        table[0].1
    } else {
        shape_in(table.drop_first(), op)
    }
}

pub open spec fn shape_of(op: Seq<char>) -> Shape {
    shape_in(shape_table(), op)
}

/// `j` is a string with the text `s`.
pub open spec fn is_text(j: Json, s: Seq<char>) -> bool {
    j matches Json::String(t) && t@ == s
}

// ---- how each value is written ----

pub open spec fn literal_encodes(v: LiteralValue, j: Json) -> bool {
    match v {
        LiteralValue::Boolean(x) => j matches Json::Boolean(y) && y == x,
        LiteralValue::Number(x) => j matches Json::Number(y) && y == x,
        LiteralValue::String(s) => is_text(j, s@),
    }
}

pub open spec fn argument_encodes(a: BlockArgument, j: Json) -> bool
    decreases a,
{
    match a {
        BlockArgument::Boolean(x) => j matches Json::Boolean(y) && y == x,
        BlockArgument::Number(x) => j matches Json::Number(y) && y == x,
        BlockArgument::String(s) => is_text(j, s@),
        BlockArgument::Reporter(b) => basic_encodes(b, j),
    }
}

pub open spec fn basic_encodes(b: BasicBlock, j: Json) -> bool
    decreases b,
{
    match j {
        Json::Array(v) => {
            &&& v.len() == b.args.len() + 1
            &&& is_text(v[0], b.opcode@)
            &&& forall|i: int|
                0 <= i < b.args.len() ==> argument_encodes(#[trigger] b.args[i], v[i + 1])
        },
        _ => false,
    }
}

/// The branch `bs` is written as the array `j`.
pub open spec fn branch_encodes(bs: Seq<Block>, j: Json) -> bool
    decreases bs,
{
    match j {
        Json::Array(v) => v.len() == bs.len() && forall|i: int|
            0 <= i < bs.len() ==> block_encodes(#[trigger] bs[i], v[i]),
        _ => false,
    }
}

pub open spec fn block_encodes(b: Block, j: Json) -> bool
    decreases b,
{
    match b {
        Block::Basic(x) => basic_encodes(x, j),
        Block::C(x) => match j {
            Json::Array(v) => {
                &&& v.len() == x.args.len() + 2
                &&& is_text(v[0], x.opcode@)
                &&& forall|i: int|
                    0 <= i < x.args.len() ==> argument_encodes(#[trigger] x.args[i], v[i + 1])
                &&& branch_encodes(x.branch@, v[v.len() - 1])
            },
            _ => false,
        },
        Block::E(x) => match j {
            Json::Array(v) => {
                &&& v.len() == x.args.len() + 3
                &&& is_text(v[0], x.opcode@)
                &&& forall|i: int|
                    0 <= i < x.args.len() ==> argument_encodes(#[trigger] x.args[i], v[i + 1])
                &&& branch_encodes(x.branch0@, v[v.len() - 2])
                &&& branch_encodes(x.branch1@, v[v.len() - 1])
            },
            _ => false,
        },
        Block::DefineProcedure(d) => match j {
            Json::Array(v) => {
                &&& v.len() == 5
                &&& is_text(v[0], d.opcode@)
                &&& is_text(v[1], d.spec@)
                &&& v[2] matches Json::Array(p) && p.len() == d.parameter_names.len() && forall|i: int|
                    0 <= i < p.len() ==> is_text(#[trigger] p[i], d.parameter_names[i]@)
                &&& v[3] matches Json::Array(q) && q.len() == d.default_arg_values.len() && forall|i: int|
                    0 <= i < q.len() ==> literal_encodes(d.default_arg_values[i], #[trigger] q[i])
                &&& v[4] matches Json::Boolean(r) && r == d.run_without_screen_refresh
            },
            _ => false,
        },
    }
}


// ---- which arrays can be read as blocks ----

pub open spec fn literal_decodable(j: Json) -> bool {
    j is Boolean || j is Number || j is String
}

pub open spec fn argument_decodable(j: Json) -> bool
    decreases j, 3nat,
{
    match j {
        Json::Boolean(_) => true,
        Json::Number(_) => true,
        Json::String(_) => true,
        Json::Array(_) => block_decodable(j, Shape::Leaf),
        _ => false,
    }
}

/// `j` can be read as a block of layout `shape`: an array that starts with an
/// opcode, then arguments, then as many branches as the layout has.
pub open spec fn block_decodable(j: Json, shape: Shape) -> bool
    decreases j, 2nat,
{
    match j {
        Json::Array(v) => {
            &&& v.len() >= 1
            &&& v[0] is String
            &&& match shape {
                Shape::Leaf => forall|i: int| 1 <= i < v.len() ==> argument_decodable(#[trigger] v[i]),
                Shape::OneBranch => {
                    &&& v.len() >= 2
                    &&& forall|i: int| 1 <= i < v.len() - 1 ==> argument_decodable(#[trigger] v[i])
                    &&& branch_decodable(v[v.len() - 1])
                },
                Shape::TwoBranch => {
                    &&& v.len() >= 3
                    &&& forall|i: int| 1 <= i < v.len() - 2 ==> argument_decodable(#[trigger] v[i])
                    &&& branch_decodable(v[v.len() - 2])
                    &&& branch_decodable(v[v.len() - 1])
                },
                Shape::ProcedureDefinition => {
                    &&& v.len() == 5
                    &&& v[1] is String
                    &&& v[2] matches Json::Array(p) && forall|i: int|
                        0 <= i < p.len() ==> (#[trigger] p[i]) is String
                    &&& v[3] matches Json::Array(q) && forall|i: int|
                        0 <= i < q.len() ==> literal_decodable(#[trigger] q[i])
                    &&& v[4] is Boolean
                },
            }
        },
        _ => false,
    }
}

/// `j` can be read as a branch: an array of blocks, none of them a procedure head.
pub open spec fn branch_decodable(j: Json) -> bool
    decreases j, 0nat,
{
    match j {
        Json::Array(v) => forall|i: int| 0 <= i < v.len() ==> nested_decodable(#[trigger] v[i]),
        _ => false,
    }
}

/// The opcode of a block written as `j`.
pub open spec fn json_opcode(j: Json) -> Seq<char> {
    match j {
        Json::Array(v) => if v.len() >= 1 {
            match v[0] {
                Json::String(s) => s@,
                _ => Seq::empty(),
            }
        } else {
            Seq::empty()
        },
        _ => Seq::empty(),
    }
}

/// `j` can be read as a block inside a branch, with the layout its opcode has.
pub open spec fn nested_decodable(j: Json) -> bool
    decreases j, 3nat,
{
    &&& j matches Json::Array(v) && v.len() >= 1 && v[0] is String
    &&& shape_of(json_opcode(j)) != Shape::ProcedureDefinition
    &&& block_decodable(j, shape_of(json_opcode(j)))
}

/// The elements `v[1..v.len() - k]` before the last `k` can be read as arguments.
pub open spec fn arguments_decodable(v: Seq<Json>, k: int) -> bool {
    forall|i: int| 1 <= i < v.len() - k ==> argument_decodable(#[trigger] v[i])
}

/// Which error reading `j` as a block of layout `shape` gives when it cannot
/// be read: the first thing found missing, in the order the array is read.
pub open spec fn block_error(j: Json, shape: Shape) -> DecodeError {
    match j {
        Json::Array(v) => if !(v.len() >= 1 && v[0] is String) {
            DecodeError::MissingOpcode
        } else {
            match shape {
                Shape::Leaf => DecodeError::InvalidArgument,
                Shape::OneBranch => if v.len() < 2 {
                    DecodeError::MissingBranch
                } else if !arguments_decodable(v@, 1) {
                    DecodeError::InvalidArgument
                } else {
                    DecodeError::InvalidBranch
                },
                Shape::TwoBranch => if v.len() < 3 {
                    DecodeError::MissingBranch
                } else if !arguments_decodable(v@, 2) {
                    DecodeError::InvalidArgument
                } else {
                    DecodeError::InvalidBranch
                },
                Shape::ProcedureDefinition => DecodeError::InvalidProcedureDefinition,
            }
        },
        _ => DecodeError::NotABlock,
    }
}

// ---- the layout of decoded blocks ----

pub open spec fn block_opcode(b: Block) -> Seq<char> {
    match b {
        Block::Basic(x) => x.opcode@,
        Block::C(x) => x.opcode@,
        Block::E(x) => x.opcode@,
        Block::DefineProcedure(x) => x.opcode@,
    }
}

pub open spec fn has_shape(b: Block, s: Shape) -> bool {
    match b {
        Block::Basic(_) => s == Shape::Leaf,
        Block::C(_) => s == Shape::OneBranch,
        Block::E(_) => s == Shape::TwoBranch,
        Block::DefineProcedure(_) => s == Shape::ProcedureDefinition,
    }
}

/// A block inside a branch: never a procedure head, laid out as its opcode says.
pub open spec fn nested_well_shaped(b: Block) -> bool
    decreases b, 1nat,
{
    &&& shape_of(block_opcode(b)) != Shape::ProcedureDefinition
    &&& has_shape(b, shape_of(block_opcode(b)))
    &&& branches_well_shaped(b)
}

/// Every block in the branches of `b` is well shaped.
pub open spec fn branches_well_shaped(b: Block) -> bool
    decreases b, 0nat,
{
    match b {
        Block::C(x) => forall|i: int| 0 <= i < x.branch.len() ==> nested_well_shaped(#[trigger] x.branch[i]),
        Block::E(x) => {
            &&& forall|i: int| 0 <= i < x.branch0.len() ==> nested_well_shaped(#[trigger] x.branch0[i])
            &&& forall|i: int| 0 <= i < x.branch1.len() ==> nested_well_shaped(#[trigger] x.branch1[i])
        },
        _ => true,
    }
}

// ---- top-level scripts ----

/// `j` can be read as the first block of a top-level script, which may be a
/// procedure head.
pub open spec fn top_decodable(j: Json) -> bool {
    &&& j matches Json::Array(v) && v.len() >= 1 && v[0] is String
    &&& block_decodable(j, shape_of(json_opcode(j)))
}

/// `j` can be read as the blocks of a top-level script: only the first may be
/// a procedure head.
pub open spec fn script_decodable(j: Json) -> bool {
    j matches Json::Array(v) && (v.len() >= 1 ==> top_decodable(v[0])) && forall|i: int|
        1 <= i < v.len() ==> nested_decodable(#[trigger] v[i])
}

/// The blocks `bs` of a top-level script are laid out as their opcodes say,
/// and only the first may be a procedure head.
pub open spec fn script_well_shaped(bs: Seq<Block>) -> bool {
    &&& bs.len() >= 1 ==> has_shape(bs[0], shape_of(block_opcode(bs[0]))) && branches_well_shaped(bs[0])
    &&& forall|i: int| 1 <= i < bs.len() ==> nested_well_shaped(#[trigger] bs[i])
}

pub open spec fn top_level_decodable(j: Json) -> bool {
    j matches Json::Array(v) && v.len() == 3 && v[0] is Number && v[1] is Number && script_decodable(v[2])
}

pub open spec fn top_level_encodes(s: TopLevelScript, j: Json) -> bool {
    &&& j matches Json::Array(v) && v.len() == 3
    &&& j->Array_0[0] matches Json::Number(x) && x == s.x
    &&& j->Array_0[1] matches Json::Number(y) && y == s.y
    &&& branch_encodes(s.script@, j->Array_0[2])
    &&& script_well_shaped(s.script@)
}

} // verus!
