//! The canonical program: the form every source format is converted into and
//! that the virtual machine installs. This is fixed program data.
use vstd::prelude::*;

use crate::assets::AssetHandle;
use crate::json::Decimal;

pub mod from_sb2;

verus! {

#[derive(Debug, PartialEq)]
pub struct Project {
    pub sprites: Vec<Sprite>,
}

/// One program with the state its first target starts from. The first sprite
/// of a project is the stage.
#[derive(Debug, PartialEq)]
pub struct Sprite {
    pub name: String,
    pub scripts: Vec<TopLevelItem>,
    pub sounds: Vec<Sound>,
    pub costumes: Vec<Costume>,
    pub x: Decimal,
    pub y: Decimal,
    /// Percentage: 100 means 100%.
    pub scale: Decimal,
    pub direction: Decimal,
    pub rotation_style: RotationStyle,
    pub is_draggable: bool,
    pub is_visible: bool,
    /// Variables by name, in document order; a later one of the same name
    /// takes precedence.
    pub variables: Vec<(String, Variable)>,
    /// Lists by name, in document order; a later one of the same name takes
    /// precedence.
    pub lists: Vec<(String, List)>,
    pub current_costume: usize,
}

#[derive(Clone, Copy, Debug, PartialEq, Eq, Structural)]
pub enum RotationStyle {
    Normal,
    LeftRight,
    DoNotRotate,
}

/// A script or a procedure, with its place on the authoring canvas.
#[derive(Debug, PartialEq)]
pub struct TopLevelItem {
    pub x: Decimal,
    pub y: Decimal,
    pub stack: BlockStack,
}

#[derive(Debug, PartialEq)]
pub enum BlockStack {
    Script(Vec<Block>),
    Definition(ProcedureDefinition),
}

/// A block: an opcode, its arguments, and zero, one or two branches.
#[derive(Debug, PartialEq)]
pub struct Block {
    pub opcode: String,
    pub arguments: Vec<Argument>,
    pub branches: Vec<Vec<Block>>,
}

#[derive(Debug, PartialEq)]
pub enum Argument {
    Expression(Block),
    Literal(Value),
}

#[derive(Debug, PartialEq)]
pub enum Value {
    Boolean(bool),
    Number(Decimal),
    String(String),
}

#[derive(Debug, PartialEq)]
pub struct ProcedureDefinition {
    pub spec: String,
    pub body: Vec<Block>,
    pub parameter_names: Vec<String>,
    pub default_arguments: Vec<Value>,
    pub run_without_screen_refresh: bool,
}

#[derive(Debug, PartialEq)]
pub struct Variable {
    pub value: Value,
    pub is_cloud: bool,
}

#[derive(Debug, PartialEq)]
pub struct List {
    pub values: Vec<Value>,
    pub is_cloud: bool,
}

#[derive(Debug, PartialEq)]
pub struct Costume {
    pub name: String,
    /// The loaded image; none when the costume names it in no `<md5>.<extension>` form.
    pub image: Option<AssetHandle>,
    pub bitmap_resolution: i32,
    pub rotation_center_x: Decimal,
    pub rotation_center_y: Decimal,
    pub layer_index: i32,
}

#[derive(Debug, PartialEq)]
pub struct Sound {
    pub name: String,
    /// The loaded audio; none when the sound names it in no `<md5>.<extension>` form.
    pub audio_source: Option<AssetHandle>,
    pub format: String,
    pub sample_rate: i32,
    pub sample_count: i32,
    pub sound_index: i32,
}

} // verus!
