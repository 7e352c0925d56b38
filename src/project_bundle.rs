//! Identifiers and kinds used by the newer project format, where blocks,
//! lists and variables are keyed by opaque ids.
use vstd::prelude::*;
use vstd::string::*;

use crate::json::{Decimal, Json};

verus! {

/// A whole project in the newer format.
#[derive(Debug, PartialEq)]
pub struct ProjectBundle {
    pub targets: Vec<Target>,
    pub monitors: Vec<Monitor>,
    pub extensions: Vec<String>,
    pub meta: Vec<(String, String)>,
}

/// The stage or a sprite in the newer format, with its blocks keyed by id.
#[derive(Debug, PartialEq)]
pub struct Target {
    pub is_stage: bool,
    pub name: String,
    pub variables: Vec<(VariableId, VariableNameAndValue)>,
    pub lists: Vec<(ListId, ListNameAndValues)>,
    pub broadcasts: Json,
    pub blocks: Vec<(BlockId, Block)>,
    pub comments: Json,
    pub current_costume: i32,
    pub costumes: Json,
    pub sounds: Json,
    pub volume: Decimal,
    pub layer_order: i32,
    pub tempo: Decimal,
    pub video_transparency: Decimal,
    pub video_state: Json,
    pub text_to_speech_language: Json,
    pub visible: bool,
    pub x: Decimal,
    pub y: Decimal,
    pub size: Decimal,
    pub direction: Decimal,
    pub draggable: bool,
    pub rotation_style: RotationStyle,
}

#[derive(Debug, PartialEq)]
pub struct VariableNameAndValue {
    pub name: String,
    pub value: Json,
}

#[derive(Debug, PartialEq)]
pub struct ListNameAndValues {
    pub name: String,
    pub values: Vec<Json>,
}

/// One block, linked to the blocks before and after it by id.
#[derive(Debug, PartialEq)]
pub struct Block {
    pub opcode: String,
    pub next: Option<BlockId>,
    pub parent: Option<BlockId>,
    pub inputs: Vec<(String, Json)>,
    pub fields: Json,
    pub shadow: bool,
    pub top_level: bool,
}

#[derive(Clone, Copy, Debug, PartialEq, Eq, Structural)]
pub enum RotationStyle {
    AllAround,
    LeftRight,
    DoNotRotate,
}

/// An on-screen readout in the newer format.
#[derive(Debug, PartialEq)]
pub struct Monitor {
    pub id: String,
    pub mode: MonitorMode,
    pub opcode: String,
    pub params: Json,
    pub sprite_name: Option<String>,
    pub value: Json,
    pub width: Decimal,
    pub height: Decimal,
    pub x: Decimal,
    pub y: Decimal,
    pub visible: bool,
    pub slider_min: Decimal,
    pub slider_max: Decimal,
    pub is_discrete: bool,
}

/// A sprite target with nothing in it: full volume, 60 beats per minute, video
/// half transparent and on, visible at the origin at 100%, draggable, rotating
/// all around.
impl Default for Target {
    fn default() -> (r: Target)
        ensures
            !r.is_stage,
            r.name@.len() == 0,
            r.variables@.len() == 0,
            r.lists@.len() == 0,
            (r.broadcasts is Null),
            r.blocks@.len() == 0,
            (r.comments is Null),
            r.current_costume == 0,
            (r.costumes is Null),
            (r.sounds is Null),
            r.volume == (Decimal { mantissa: 100, exponent: 0 }),
            r.layer_order == 0,
            r.tempo == (Decimal { mantissa: 60, exponent: 0 }),
            r.video_transparency == (Decimal { mantissa: 50, exponent: 0 }),
            (r.video_state matches Json::String(s) && s@ == "on"@),
            (r.text_to_speech_language is Null),
            r.visible,
            r.x == (Decimal { mantissa: 0, exponent: 0 }),
            r.y == (Decimal { mantissa: 0, exponent: 0 }),
            r.size == (Decimal { mantissa: 100, exponent: 0 }),
            r.direction == (Decimal { mantissa: 0, exponent: 0 }),
            r.draggable,
            r.rotation_style == RotationStyle::AllAround,
    {
        Target {
            is_stage: false,
            name: String::new(),
            variables: Vec::new(),
            lists: Vec::new(),
            broadcasts: Json::Null,
            blocks: Vec::new(),
            comments: Json::Null,
            current_costume: 0,
            costumes: Json::Null,
            sounds: Json::Null,
            volume: Decimal::integer(100),
            layer_order: 0,
            tempo: Decimal::integer(60),
            video_transparency: Decimal::integer(50),
            video_state: Json::String(String::from_str("on")),
            text_to_speech_language: Json::Null,
            visible: true,
            x: Decimal::integer(0),
            y: Decimal::integer(0),
            size: Decimal::integer(100),
            direction: Decimal::integer(0),
            draggable: true,
            rotation_style: RotationStyle::AllAround,
        }
    }
}

/// A visible readout of a variable showing 0, with a discrete slider from 0
/// to 100.
impl Default for Monitor {
    fn default() -> (r: Monitor)
        ensures
            r.id@.len() == 0,
            r.mode == MonitorMode::Default,
            r.opcode@ == "data_variable"@,
            (r.params is Null),
            (r.sprite_name is None),
            (r.value matches Json::Number(n) && n == (Decimal { mantissa: 0, exponent: 0 })),
            r.width == (Decimal { mantissa: 0, exponent: 0 }),
            r.height == (Decimal { mantissa: 0, exponent: 0 }),
            r.x == (Decimal { mantissa: 0, exponent: 0 }),
            r.y == (Decimal { mantissa: 0, exponent: 0 }),
            r.visible,
            r.slider_min == (Decimal { mantissa: 0, exponent: 0 }),
            r.slider_max == (Decimal { mantissa: 100, exponent: 0 }),
            r.is_discrete,
    {
        Monitor {
            id: String::new(),
            mode: MonitorMode::Default,
            opcode: String::from_str("data_variable"),
            params: Json::Null,
            sprite_name: None,
            value: Json::Number(Decimal::integer(0)),
            width: Decimal::integer(0),
            height: Decimal::integer(0),
            x: Decimal::integer(0),
            y: Decimal::integer(0),
            visible: true,
            slider_min: Decimal::integer(0),
            slider_max: Decimal::integer(100),
            is_discrete: true,
        }
    }
}

/// The id of a block.
#[derive(Debug, PartialEq, Eq, Hash)]
pub struct BlockId(pub String);

/// The id of a list.
#[derive(Debug, PartialEq, Eq, Hash)]
pub struct ListId(pub String);

/// The id of a variable.
#[derive(Debug, PartialEq, Eq, Hash)]
pub struct VariableId(pub String);

impl BlockId {
    pub fn new(id: String) -> (r: BlockId)
        ensures
            r.0@ == id@,
    {
        BlockId(id)
    }
}

impl ListId {
    pub fn new(id: String) -> (r: ListId)
        ensures
            r.0@ == id@,
    {
        ListId(id)
    }
}

impl VariableId {
    pub fn new(id: String) -> (r: VariableId)
        ensures
            r.0@ == id@,
    {
        VariableId(id)
    }
}

/// How a monitor shows its value: as a single readout or as a list.
#[derive(Clone, Copy, Debug, PartialEq, Eq, Structural)]
pub enum MonitorMode {
    Default,
    List,
}

impl MonitorMode {
    /// The mode written `name` in a document: `default` or `list`.
    pub fn from_name(name: &String) -> (r: Option<MonitorMode>)
        ensures
            r == (if name@ == "default"@ {
                Some(MonitorMode::Default)
            } else if name@ == "list"@ {
                Some(MonitorMode::List)
            } else {
                None
            }),
    {
        if *name == String::from_str("default") {
            Some(MonitorMode::Default)
        } else if *name == String::from_str("list") {
            Some(MonitorMode::List)
        } else {
            None
        }
    }
}

} // verus!
