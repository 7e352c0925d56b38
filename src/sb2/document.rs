//! Reading the legacy project document into the legacy tree.
use vstd::prelude::*;

use crate::json::Json;
use crate::json_fields::{
    array_field_ok, array_field_read, bool_at, field, get_array, get_bool, get_field, get_i32,
    get_number, get_text, get_usize, has_bool, has_i32, has_number, has_text, has_usize, i32_at,
    number_at, text_at, usize_at,
};
use crate::sb2::decode::{
    decode_block, decode_literal, decode_literals, decode_nested, read_opcode, shape_of_opcode,
};
use crate::sb2::{
    block_encodes, block_opcode, branch_encodes, branches_well_shaped, has_shape, json_opcode,
    literal_decodable, literal_encodes, nested_decodable, nested_well_shaped, script_decodable,
    script_well_shaped, shape_of, top_decodable, top_level_decodable, top_level_encodes, Block,
    Costume, DecodeError, Info, List, Monitor, Project, RotationStyle, Shape, Sound, Sprite, Stage,
    StageChild, Target, TopLevelScript, Variable,
};

verus! {

/// Reads the blocks of a top-level script. The first may be a procedure head;
/// one anywhere else is refused.
pub fn decode_script(j: &Json) -> (r: Result<Vec<Block>, DecodeError>)
    ensures
        r is Ok <==> script_decodable(*j),
        r matches Ok(bs) ==> branch_encodes(bs@, *j) && script_well_shaped(bs@),
        j matches Json::Array(v) ==> forall|i: int|
            1 <= i < v.len() && shape_of(json_opcode(#[trigger] v[i])) == Shape::ProcedureDefinition
                ==> r is Err,
        j matches Json::Array(v) ==> forall|i: int|
            1 <= i < v.len() && (v[i] matches Json::Array(w) && w.len() >= 1 && w[0] is String) && shape_of(
                json_opcode(#[trigger] v[i]),
            ) == Shape::ProcedureDefinition && top_decodable(v[0]) && (forall|t: int|
                1 <= t < i ==> nested_decodable(#[trigger] v[t])) ==> r == Err::<Vec<Block>, DecodeError>(
                DecodeError::MisplacedProcedureDefinition,
            ),
        !(j is Array) ==> r == Err::<Vec<Block>, DecodeError>(DecodeError::NotAScript),
{
    match j {
        Json::Array(v) => {
            let mut blocks: Vec<Block> = Vec::new();
            let mut i: usize = 0;
            while i < v.len()
                invariant
                    *j == Json::Array(*v),
                    0 <= i <= v@.len(),
                    blocks@.len() == i,
                    forall|t: int| 0 <= t < i ==> block_encodes(#[trigger] blocks@[t], v@[t]),
                    i >= 1 ==> has_shape(blocks@[0], shape_of(block_opcode(blocks@[0])))
                        && branches_well_shaped(blocks@[0]) && top_decodable(v@[0]),
                    forall|t: int| 1 <= t < i ==> nested_well_shaped(#[trigger] blocks@[t]),
                    forall|t: int| 1 <= t < i ==> nested_decodable(#[trigger] v@[t]),
                decreases v@.len() - i,
            {
                if i == 0 {
                    let opcode = match &v[0] {
                        Json::Array(w) => match read_opcode(w) {
                            Ok(s) => s,
                            Err(e) => return Err(e),
                        },
                        _ => return Err(DecodeError::NotABlock),
                    };
                    let shape = shape_of_opcode(&opcode);
                    match decode_block(&v[0], shape) {
                        Ok(b) => blocks.push(b),
                        Err(e) => return Err(e),
                    }
                } else {
                    match decode_nested(&v[i]) {
                        Ok(b) => blocks.push(b),
                        Err(e) => {
                            assert(!nested_decodable(v[i as int]));
                            return Err(e);
                        },
                    }
                }
                i += 1;
            }
            Ok(blocks)
        },
        _ => Err(DecodeError::NotAScript),
    }
}

/// Reads a top-level script `[x, y, [blocks]]`.
pub fn decode_top_level_script(j: &Json) -> (r: Result<TopLevelScript, DecodeError>)
    ensures
        r is Ok <==> top_level_decodable(*j),
        r matches Ok(s) ==> top_level_encodes(s, *j),
{
    match j {
        Json::Array(v) => {
            if v.len() != 3 {
                return Err(DecodeError::NotAScript);
            }
            let x = match &v[0] {
                Json::Number(d) => *d,
                _ => return Err(DecodeError::NotAScript),
            };
            let y = match &v[1] {
                Json::Number(d) => *d,
                _ => return Err(DecodeError::NotAScript),
            };
            let script = match decode_script(&v[2]) {
                Ok(bs) => bs,
                Err(e) => return Err(e),
            };
            Ok(TopLevelScript { x, y, script })
        },
        _ => Err(DecodeError::NotAScript),
    }
}

// ---- records ----

pub open spec fn literal_at(j: Json, key: Seq<char>, l: crate::sb2::LiteralValue) -> bool {
    field(j, key) matches Some(x) && literal_encodes(l, x)
}

pub open spec fn literals_read(ls: Seq<crate::sb2::LiteralValue>, j: Json) -> bool {
    j matches Json::Array(q) && q.len() == ls.len() && forall|i: int|
        0 <= i < q.len() ==> literal_encodes(ls[i], #[trigger] q[i])
}

pub open spec fn literals_ok(j: Json) -> bool {
    j matches Json::Array(q) && forall|i: int| 0 <= i < q.len() ==> literal_decodable(#[trigger] q[i])
}

pub open spec fn variable_decodable(j: Json) -> bool {
    &&& has_text(j, "name"@)
    &&& field(j, "value"@) matches Some(x) && literal_decodable(x)
    &&& has_bool(j, "isPersistent"@)
}

pub open spec fn variable_read(x: Variable, j: Json) -> bool {
    &&& text_at(j, "name"@, x.name@)
    &&& literal_at(j, "value"@, x.value)
    &&& bool_at(j, "isPersistent"@, x.is_persistent)
}

pub fn decode_variable(j: &Json) -> (r: Result<Variable, DecodeError>)
    ensures
        r is Ok <==> variable_decodable(*j),
        r matches Ok(x) ==> variable_read(x, *j),
{
    let name = match get_text(j, "name") {
        Some(s) => s,
        None => return Err(DecodeError::MissingField),
    };
    let value = match get_field(j, "value") {
        Some(x) => match decode_literal(x) {
            Ok(l) => l,
            Err(_) => return Err(DecodeError::MissingField),
        },
        None => return Err(DecodeError::MissingField),
    };
    let is_persistent = match get_bool(j, "isPersistent") {
        Some(b) => b,
        None => return Err(DecodeError::MissingField),
    };
    Ok(Variable { name, value, is_persistent })
}

pub open spec fn list_decodable(j: Json) -> bool {
    &&& has_text(j, "listName"@)
    &&& field(j, "contents"@) matches Some(x) && literals_ok(x)
    &&& has_bool(j, "isPersistent"@)
}

pub open spec fn list_read(x: List, j: Json) -> bool {
    &&& text_at(j, "listName"@, x.name@)
    &&& field(j, "contents"@) matches Some(c) && literals_read(x.contents@, c)
    &&& bool_at(j, "isPersistent"@, x.is_persistent)
}

pub fn decode_list(j: &Json) -> (r: Result<List, DecodeError>)
    ensures
        r is Ok <==> list_decodable(*j),
        r matches Ok(x) ==> list_read(x, *j),
{
    let name = match get_text(j, "listName") {
        Some(s) => s,
        None => return Err(DecodeError::MissingField),
    };
    let contents = match get_field(j, "contents") {
        Some(x) => match decode_literals(x) {
            Some(ls) => ls,
            None => return Err(DecodeError::MissingField),
        },
        None => return Err(DecodeError::MissingField),
    };
    let is_persistent = match get_bool(j, "isPersistent") {
        Some(b) => b,
        None => return Err(DecodeError::MissingField),
    };
    Ok(List { name, contents, is_persistent })
}

pub open spec fn costume_decodable(j: Json) -> bool {
    &&& has_text(j, "costumeName"@)
    &&& has_i32(j, "baseLayerID"@)
    &&& has_text(j, "baseLayerMD5"@)
    &&& has_i32(j, "bitmapResolution"@)
    &&& has_number(j, "rotationCenterX"@)
    &&& has_number(j, "rotationCenterY"@)
}

pub open spec fn costume_read(x: Costume, j: Json) -> bool {
    &&& text_at(j, "costumeName"@, x.costume_name@)
    &&& i32_at(j, "baseLayerID"@, x.base_layer_id)
    &&& text_at(j, "baseLayerMD5"@, x.base_layer_md5@)
    &&& i32_at(j, "bitmapResolution"@, x.bitmap_resolution)
    &&& number_at(j, "rotationCenterX"@, x.rotation_center_x)
    &&& number_at(j, "rotationCenterY"@, x.rotation_center_y)
}

pub fn decode_costume(j: &Json) -> (r: Result<Costume, DecodeError>)
    ensures
        r is Ok <==> costume_decodable(*j),
        r matches Ok(x) ==> costume_read(x, *j),
{
    let costume_name = match get_text(j, "costumeName") {
        Some(s) => s,
        None => return Err(DecodeError::MissingField),
    };
    let base_layer_id = match get_i32(j, "baseLayerID") {
        Some(n) => n,
        None => return Err(DecodeError::MissingField),
    };
    let base_layer_md5 = match get_text(j, "baseLayerMD5") {
        Some(s) => s,
        None => return Err(DecodeError::MissingField),
    };
    let bitmap_resolution = match get_i32(j, "bitmapResolution") {
        Some(n) => n,
        None => return Err(DecodeError::MissingField),
    };
    let rotation_center_x = match get_number(j, "rotationCenterX") {
        Some(d) => d,
        None => return Err(DecodeError::MissingField),
    };
    let rotation_center_y = match get_number(j, "rotationCenterY") {
        Some(d) => d,
        None => return Err(DecodeError::MissingField),
    };
    Ok(Costume {
        costume_name,
        base_layer_id,
        base_layer_md5,
        bitmap_resolution,
        rotation_center_x,
        rotation_center_y,
    })
}

pub open spec fn sound_decodable(j: Json) -> bool {
    &&& has_text(j, "soundName"@)
    &&& has_i32(j, "soundID"@)
    &&& has_text(j, "md5"@)
    &&& has_i32(j, "sampleCount"@)
    &&& has_i32(j, "rate"@)
    &&& has_text(j, "format"@)
}

pub open spec fn sound_read(x: Sound, j: Json) -> bool {
    &&& text_at(j, "soundName"@, x.sound_name@)
    &&& i32_at(j, "soundID"@, x.sound_id)
    &&& text_at(j, "md5"@, x.md5@)
    &&& i32_at(j, "sampleCount"@, x.sample_count)
    &&& i32_at(j, "rate"@, x.rate)
    &&& text_at(j, "format"@, x.format@)
}

pub fn decode_sound(j: &Json) -> (r: Result<Sound, DecodeError>)
    ensures
        r is Ok <==> sound_decodable(*j),
        r matches Ok(x) ==> sound_read(x, *j),
{
    let sound_name = match get_text(j, "soundName") {
        Some(s) => s,
        None => return Err(DecodeError::MissingField),
    };
    let sound_id = match get_i32(j, "soundID") {
        Some(n) => n,
        None => return Err(DecodeError::MissingField),
    };
    let md5 = match get_text(j, "md5") {
        Some(s) => s,
        None => return Err(DecodeError::MissingField),
    };
    let sample_count = match get_i32(j, "sampleCount") {
        Some(n) => n,
        None => return Err(DecodeError::MissingField),
    };
    let rate = match get_i32(j, "rate") {
        Some(n) => n,
        None => return Err(DecodeError::MissingField),
    };
    let format = match get_text(j, "format") {
        Some(s) => s,
        None => return Err(DecodeError::MissingField),
    };
    Ok(Sound { sound_name, sound_id, md5, sample_count, rate, format })
}

pub open spec fn target_decodable(j: Json) -> bool {
    &&& has_text(j, "objName"@)
    &&& array_field_ok(j, "variables"@, |x: Json| variable_decodable(x))
    &&& array_field_ok(j, "lists"@, |x: Json| list_decodable(x))
    &&& array_field_ok(j, "sounds"@, |x: Json| sound_decodable(x))
    &&& array_field_ok(j, "costumes"@, |x: Json| costume_decodable(x))
    &&& has_usize(j, "currentCostumeIndex"@)
    &&& field(j, "scripts"@) is None || field(j, "scripts"@) matches Some(Json::Array(_))
}

/// `xs` are the scripts read, in order, from the elements of `v` that can be
/// read as one, and `skipped` the positions of the others, ascending.
pub open spec fn scripts_read(v: Seq<Json>, xs: Seq<TopLevelScript>, skipped: Seq<usize>) -> bool
    decreases v.len(),
{
    if v.len() == 0 {
        xs.len() == 0 && skipped.len() == 0
    } else if top_level_decodable(v.last()) {
        &&& xs.len() > 0
        &&& top_level_encodes(xs.last(), v.last())
        &&& scripts_read(v.drop_last(), xs.drop_last(), skipped)
    } else {
        &&& skipped.len() > 0
        &&& skipped.last() == v.len() - 1
        &&& scripts_read(v.drop_last(), xs, skipped.drop_last())
    }
}

pub open spec fn target_read(x: Target, j: Json) -> bool {
    &&& text_at(j, "objName"@, x.name@)
    &&& array_field_read(j, "variables"@, x.variables@, |v: Variable, y: Json| variable_read(v, y))
    &&& array_field_read(j, "lists"@, x.lists@, |v: List, y: Json| list_read(v, y))
    &&& array_field_read(j, "sounds"@, x.sounds@, |v: Sound, y: Json| sound_read(v, y))
    &&& array_field_read(j, "costumes"@, x.costumes@, |v: Costume, y: Json| costume_read(v, y))
    &&& usize_at(j, "currentCostumeIndex"@, x.current_costume_index)
    &&& match field(j, "scripts"@) {
        None => x.scripts@.len() == 0 && x.skipped_scripts@.len() == 0,
        Some(Json::Array(v)) => scripts_read(v@, x.scripts@, x.skipped_scripts@),
        _ => false,
    }
}

/// Reads the scripts in `v`, leaving out and reporting those that cannot be
/// read: one bad script does not stop the others.
fn decode_scripts(v: &Vec<Json>) -> (r: (Vec<TopLevelScript>, Vec<usize>))
    ensures
        scripts_read(v@, r.0@, r.1@),
{
    let mut scripts: Vec<TopLevelScript> = Vec::new();
    let mut skipped: Vec<usize> = Vec::new();
    let mut i: usize = 0;
    assert(v@.subrange(0, 0).len() == 0);
    while i < v.len()
        invariant
            0 <= i <= v@.len(),
            scripts_read(v@.subrange(0, i as int), scripts@, skipped@),
        decreases v@.len() - i,
    {
        let ghost done = v@.subrange(0, i as int);
        let ghost next = v@.subrange(0, i + 1);
        let ghost scripts0 = scripts@;
        let ghost skipped0 = skipped@;
        assert(next.drop_last() =~= done);
        assert(next.last() == v@[i as int]);
        match decode_top_level_script(&v[i]) {
            Ok(x) => {
                scripts.push(x);
                assert(scripts@.drop_last() =~= scripts0);
            },
            Err(_) => {
                skipped.push(i);
                assert(skipped@.drop_last() =~= skipped0);
            },
        }
        i += 1;
    }
    assert(v@.subrange(0, v@.len() as int) =~= v@);
    (scripts, skipped)
}

/// Reads the members that the stage and sprites share. Absent collections
/// read as empty; scripts that cannot be read are left out and recorded.
pub fn decode_target(j: &Json) -> (r: Result<Target, DecodeError>)
    ensures
        r is Ok <==> target_decodable(*j),
        r matches Ok(x) ==> target_read(x, *j),
{
    let name = match get_text(j, "objName") {
        Some(s) => s,
        None => return Err(DecodeError::MissingField),
    };
    let variables = match get_array(
        j,
        "variables",
        decode_variable,
        DecodeError::MissingField,
        Ghost(|x: Json| variable_decodable(x)),
        Ghost(|v: Variable, y: Json| variable_read(v, y)),
    ) {
        Ok(xs) => xs,
        Err(e) => return Err(e),
    };
    let lists = match get_array(
        j,
        "lists",
        decode_list,
        DecodeError::MissingField,
        Ghost(|x: Json| list_decodable(x)),
        Ghost(|v: List, y: Json| list_read(v, y)),
    ) {
        Ok(xs) => xs,
        Err(e) => return Err(e),
    };
    let sounds = match get_array(
        j,
        "sounds",
        decode_sound,
        DecodeError::MissingField,
        Ghost(|x: Json| sound_decodable(x)),
        Ghost(|v: Sound, y: Json| sound_read(v, y)),
    ) {
        Ok(xs) => xs,
        Err(e) => return Err(e),
    };
    let costumes = match get_array(
        j,
        "costumes",
        decode_costume,
        DecodeError::MissingField,
        Ghost(|x: Json| costume_decodable(x)),
        Ghost(|v: Costume, y: Json| costume_read(v, y)),
    ) {
        Ok(xs) => xs,
        Err(e) => return Err(e),
    };
    let current_costume_index = match get_usize(j, "currentCostumeIndex") {
        Some(n) => n,
        None => return Err(DecodeError::MissingField),
    };
    let (scripts, skipped_scripts) = match get_field(j, "scripts") {
        None => (Vec::new(), Vec::new()),
        Some(Json::Array(v)) => decode_scripts(v),
        Some(_) => return Err(DecodeError::MissingField),
    };
    Ok(Target {
        name,
        variables,
        lists,
        sounds,
        costumes,
        current_costume_index,
        scripts,
        skipped_scripts,
    })
}

/// The rotation style named `s`; an unknown name falls back to `Normal`.
pub open spec fn rotation_style_of(s: Seq<char>) -> RotationStyle {
    if s == "leftRight"@ {
        RotationStyle::LeftRight
    } else if s == "none"@ {
        RotationStyle::DoNotRotate
    } else {
        RotationStyle::Normal
    }
}

pub fn rotation_style_from_name(s: &String) -> (r: RotationStyle)
    ensures
        r == rotation_style_of(s@),
{
    if *s == String::from_str("leftRight") {
        RotationStyle::LeftRight
    } else if *s == String::from_str("none") {
        RotationStyle::DoNotRotate
    } else {
        RotationStyle::Normal
    }
}

pub open spec fn sprite_decodable(j: Json) -> bool {
    &&& has_number(j, "scratchX"@)
    &&& has_number(j, "scratchY"@)
    &&& has_number(j, "scale"@)
    &&& has_number(j, "direction"@)
    &&& has_text(j, "rotationStyle"@)
    &&& has_bool(j, "isDraggable"@)
    &&& has_i32(j, "indexInLibrary"@)
    &&& has_bool(j, "visible"@)
    &&& target_decodable(j)
}

pub open spec fn sprite_read(x: Sprite, j: Json) -> bool {
    &&& number_at(j, "scratchX"@, x.x)
    &&& number_at(j, "scratchY"@, x.y)
    &&& number_at(j, "scale"@, x.scale)
    &&& number_at(j, "direction"@, x.direction)
    &&& field(j, "rotationStyle"@) matches Some(Json::String(t)) && x.rotation_style == rotation_style_of(t@)
    &&& bool_at(j, "isDraggable"@, x.is_draggable)
    &&& i32_at(j, "indexInLibrary"@, x.index_in_library)
    &&& bool_at(j, "visible"@, x.is_visible)
    &&& target_read(x.target, j)
}

pub fn decode_sprite(j: &Json) -> (r: Result<Sprite, DecodeError>)
    ensures
        r is Ok <==> sprite_decodable(*j),
        r matches Ok(x) ==> sprite_read(x, *j),
{
    let x = match get_number(j, "scratchX") {
        Some(d) => d,
        None => return Err(DecodeError::MissingField),
    };
    let y = match get_number(j, "scratchY") {
        Some(d) => d,
        None => return Err(DecodeError::MissingField),
    };
    let scale = match get_number(j, "scale") {
        Some(d) => d,
        None => return Err(DecodeError::MissingField),
    };
    let direction = match get_number(j, "direction") {
        Some(d) => d,
        None => return Err(DecodeError::MissingField),
    };
    let rotation_style = match get_text(j, "rotationStyle") {
        Some(s) => rotation_style_from_name(&s),
        None => return Err(DecodeError::MissingField),
    };
    let is_draggable = match get_bool(j, "isDraggable") {
        Some(b) => b,
        None => return Err(DecodeError::MissingField),
    };
    let index_in_library = match get_i32(j, "indexInLibrary") {
        Some(n) => n,
        None => return Err(DecodeError::MissingField),
    };
    let is_visible = match get_bool(j, "visible") {
        Some(b) => b,
        None => return Err(DecodeError::MissingField),
    };
    let target = match decode_target(j) {
        Ok(t) => t,
        Err(e) => return Err(e),
    };
    Ok(Sprite {
        x,
        y,
        scale,
        direction,
        rotation_style,
        is_draggable,
        index_in_library,
        is_visible,
        target,
    })
}

pub open spec fn monitor_decodable(j: Json) -> bool {
    &&& has_text(j, "target"@)
    &&& has_text(j, "cmd"@)
    &&& has_text(j, "param"@)
    &&& has_number(j, "color"@)
    &&& has_text(j, "label"@)
    &&& has_i32(j, "mode"@)
    &&& has_number(j, "sliderMin"@)
    &&& has_number(j, "sliderMax"@)
    &&& has_bool(j, "isDiscrete"@)
    &&& has_number(j, "x"@)
    &&& has_number(j, "y"@)
    &&& has_bool(j, "visible"@)
}

pub open spec fn monitor_read(x: Monitor, j: Json) -> bool {
    &&& text_at(j, "target"@, x.target@)
    &&& text_at(j, "cmd"@, x.cmd@)
    &&& text_at(j, "param"@, x.param@)
    &&& number_at(j, "color"@, x.color)
    &&& text_at(j, "label"@, x.label@)
    &&& i32_at(j, "mode"@, x.mode)
    &&& number_at(j, "sliderMin"@, x.slider_min)
    &&& number_at(j, "sliderMax"@, x.slider_max)
    &&& bool_at(j, "isDiscrete"@, x.is_discrete)
    &&& number_at(j, "x"@, x.x)
    &&& number_at(j, "y"@, x.y)
    &&& bool_at(j, "visible"@, x.visible)
}

pub fn decode_monitor(j: &Json) -> (r: Result<Monitor, DecodeError>)
    ensures
        r is Ok <==> monitor_decodable(*j),
        r matches Ok(x) ==> monitor_read(x, *j),
{
    let target = match get_text(j, "target") {
        Some(s) => s,
        None => return Err(DecodeError::MissingField),
    };
    let cmd = match get_text(j, "cmd") {
        Some(s) => s,
        None => return Err(DecodeError::MissingField),
    };
    let param = match get_text(j, "param") {
        Some(s) => s,
        None => return Err(DecodeError::MissingField),
    };
    let color = match get_number(j, "color") {
        Some(d) => d,
        None => return Err(DecodeError::MissingField),
    };
    let label = match get_text(j, "label") {
        Some(s) => s,
        None => return Err(DecodeError::MissingField),
    };
    let mode = match get_i32(j, "mode") {
        Some(n) => n,
        None => return Err(DecodeError::MissingField),
    };
    let slider_min = match get_number(j, "sliderMin") {
        Some(d) => d,
        None => return Err(DecodeError::MissingField),
    };
    let slider_max = match get_number(j, "sliderMax") {
        Some(d) => d,
        None => return Err(DecodeError::MissingField),
    };
    let is_discrete = match get_bool(j, "isDiscrete") {
        Some(b) => b,
        None => return Err(DecodeError::MissingField),
    };
    let x = match get_number(j, "x") {
        Some(d) => d,
        None => return Err(DecodeError::MissingField),
    };
    let y = match get_number(j, "y") {
        Some(d) => d,
        None => return Err(DecodeError::MissingField),
    };
    let visible = match get_bool(j, "visible") {
        Some(b) => b,
        None => return Err(DecodeError::MissingField),
    };
    Ok(Monitor { target, cmd, param, color, label, mode, slider_min, slider_max, is_discrete, x, y, visible })
}

pub open spec fn child_decodable(j: Json) -> bool {
    sprite_decodable(j) || monitor_decodable(j) || list_decodable(j)
}

/// An entity under the stage is read as a sprite if it can be, else as a
/// monitor, else as a list.
pub open spec fn child_read(c: StageChild, j: Json) -> bool {
    match c {
        StageChild::Sprite(s) => sprite_read(s, j),
        StageChild::Monitor(m) => !sprite_decodable(j) && monitor_read(m, j),
        StageChild::List(l) => !sprite_decodable(j) && !monitor_decodable(j) && list_read(l, j),
    }
}

pub fn decode_stage_child(j: &Json) -> (r: Result<StageChild, DecodeError>)
    ensures
        r is Ok <==> child_decodable(*j),
        r matches Ok(c) ==> child_read(c, *j),
        !child_decodable(*j) ==> r == Err::<StageChild, DecodeError>(DecodeError::UnknownChild),
{
    if let Ok(s) = decode_sprite(j) {
        return Ok(StageChild::Sprite(s));
    }
    if let Ok(m) = decode_monitor(j) {
        return Ok(StageChild::Monitor(m));
    }
    if let Ok(l) = decode_list(j) {
        return Ok(StageChild::List(l));
    }
    Err(DecodeError::UnknownChild)
}

/// The member `key` is absent (read as `default`) or the number `d`.
pub open spec fn number_or(j: Json, key: Seq<char>, default: crate::json::Decimal, d: crate::json::Decimal) -> bool {
    match field(j, key) {
        None => d == default,
        Some(Json::Number(x)) => x == d,
        _ => false,
    }
}

pub open spec fn stage_decodable(j: Json) -> bool {
    &&& field(j, "penLayerMD5"@) is None || has_text(j, "penLayerMD5"@)
    &&& field(j, "penLayerID"@) is None || has_i32(j, "penLayerID"@)
    &&& field(j, "tempoBPM"@) is None || has_number(j, "tempoBPM"@)
    &&& field(j, "videoAlpha"@) is None || has_number(j, "videoAlpha"@)
    &&& target_decodable(j)
}

pub open spec fn stage_read(x: Stage, j: Json) -> bool {
    &&& if field(j, "penLayerMD5"@) is None {
        x.pen_layer_md5@.len() == 0
    } else {
        text_at(j, "penLayerMD5"@, x.pen_layer_md5@)
    }
    &&& if field(j, "penLayerID"@) is None {
        x.pen_layer_id == 0
    } else {
        i32_at(j, "penLayerID"@, x.pen_layer_id)
    }
    &&& number_or(j, "tempoBPM"@, crate::json::Decimal { mantissa: 0, exponent: 0 }, x.tempo_bpm)
    &&& number_or(j, "videoAlpha"@, crate::json::Decimal { mantissa: 0, exponent: 0 }, x.video_alpha)
    &&& target_read(x.target, j)
}

/// Reads the stage from the project object; its own members default to empty
/// text and zero.
pub fn decode_stage(j: &Json) -> (r: Result<Stage, DecodeError>)
    ensures
        r is Ok <==> stage_decodable(*j),
        r matches Ok(x) ==> stage_read(x, *j),
{
    let pen_layer_md5 = match get_field(j, "penLayerMD5") {
        None => String::new(),
        Some(Json::String(s)) => s.clone(),
        Some(_) => return Err(DecodeError::MissingField),
    };
    let pen_layer_id = match get_field(j, "penLayerID") {
        None => 0,
        Some(_) => match get_i32(j, "penLayerID") {
            Some(n) => n,
            None => return Err(DecodeError::MissingField),
        },
    };
    let tempo_bpm = match get_field(j, "tempoBPM") {
        None => crate::json::Decimal::integer(0),
        Some(Json::Number(d)) => *d,
        Some(_) => return Err(DecodeError::MissingField),
    };
    let video_alpha = match get_field(j, "videoAlpha") {
        None => crate::json::Decimal::integer(0),
        Some(Json::Number(d)) => *d,
        Some(_) => return Err(DecodeError::MissingField),
    };
    let target = match decode_target(j) {
        Ok(t) => t,
        Err(e) => return Err(e),
    };
    Ok(Stage { pen_layer_md5, pen_layer_id, tempo_bpm, video_alpha, target })
}

pub open spec fn info_decodable(j: Json) -> bool {
    &&& has_text(j, "userAgent"@)
    &&& has_text(j, "flashVersion"@)
    &&& has_i32(j, "spriteCount"@)
    &&& has_bool(j, "videoOn"@)
    &&& has_i32(j, "scriptCount"@)
    &&& has_text(j, "swfVersion"@)
}

pub open spec fn info_read(x: Info, j: Json) -> bool {
    &&& text_at(j, "userAgent"@, x.user_agent@)
    &&& text_at(j, "flashVersion"@, x.flash_version@)
    &&& i32_at(j, "spriteCount"@, x.sprite_count)
    &&& bool_at(j, "videoOn"@, x.video_on)
    &&& i32_at(j, "scriptCount"@, x.script_count)
    &&& text_at(j, "swfVersion"@, x.swf_version@)
    &&& j matches Json::Object(m) && others_kept(m@, x.other_info@)
}

/// The members of `info` that have fields of their own.
pub open spec fn known_info_key(k: Seq<char>) -> bool {
    k == "userAgent"@ || k == "flashVersion"@ || k == "spriteCount"@ || k == "videoOn"@ || k
        == "scriptCount"@ || k == "swfVersion"@
}

/// `out` copies, in the order of `m`, the members of `m` without fields of
/// their own.
pub open spec fn others_kept(m: Seq<crate::json::Member>, out: Seq<crate::json::Member>) -> bool
    decreases m.len(),
{
    if m.len() == 0 {
        out.len() == 0
    } else if known_info_key(m.last().key@) {
        others_kept(m.drop_last(), out)
    } else {
        &&& out.len() > 0
        &&& out.last().key@ == m.last().key@
        &&& crate::json::json_same(m.last().value, out.last().value)
        &&& others_kept(m.drop_last(), out.drop_last())
    }
}

fn is_known_info_key(k: &String) -> (r: bool)
    ensures
        r == known_info_key(k@),
{
    *k == String::from_str("userAgent") || *k == String::from_str("flashVersion") || *k == String::from_str(
        "spriteCount",
    ) || *k == String::from_str("videoOn") || *k == String::from_str("scriptCount") || *k
        == String::from_str("swfVersion")
}

/// Copies the members of `m` that have no field of their own.
fn other_members(m: &Vec<crate::json::Member>) -> (r: Vec<crate::json::Member>)
    ensures
        others_kept(m@, r@),
{
    let mut out: Vec<crate::json::Member> = Vec::new();
    let mut i: usize = 0;
    assert(m@.subrange(0, 0).len() == 0);
    while i < m.len()
        invariant
            0 <= i <= m@.len(),
            others_kept(m@.subrange(0, i as int), out@),
        decreases m@.len() - i,
    {
        let ghost next = m@.subrange(0, i + 1);
        let ghost out0 = out@;
        assert(next.drop_last() =~= m@.subrange(0, i as int));
        assert(next.last() == m@[i as int]);
        if !is_known_info_key(&m[i].key) {
            out.push(crate::json::Member { key: m[i].key.clone(), value: crate::json::copy_json(&m[i].value) });
            assert(out@.drop_last() =~= out0);
        }
        i += 1;
    }
    assert(m@.subrange(0, m@.len() as int) =~= m@);
    out
}

pub fn decode_info(j: &Json) -> (r: Result<Info, DecodeError>)
    ensures
        r is Ok <==> info_decodable(*j),
        r matches Ok(x) ==> info_read(x, *j),
{
    let user_agent = match get_text(j, "userAgent") {
        Some(s) => s,
        None => return Err(DecodeError::MissingField),
    };
    let flash_version = match get_text(j, "flashVersion") {
        Some(s) => s,
        None => return Err(DecodeError::MissingField),
    };
    let sprite_count = match get_i32(j, "spriteCount") {
        Some(n) => n,
        None => return Err(DecodeError::MissingField),
    };
    let video_on = match get_bool(j, "videoOn") {
        Some(b) => b,
        None => return Err(DecodeError::MissingField),
    };
    let script_count = match get_i32(j, "scriptCount") {
        Some(n) => n,
        None => return Err(DecodeError::MissingField),
    };
    let swf_version = match get_text(j, "swfVersion") {
        Some(s) => s,
        None => return Err(DecodeError::MissingField),
    };
    let other_info = match j {
        Json::Object(m) => other_members(m),
        _ => return Err(DecodeError::MissingField),
    };
    Ok(Info { user_agent, flash_version, sprite_count, video_on, script_count, swf_version, other_info })
}

/// `cs` are the entities read, in order, from the elements of `v` that can
/// be read as one, and `skipped` the positions of the others, ascending.
pub open spec fn children_kept(v: Seq<Json>, cs: Seq<StageChild>, skipped: Seq<usize>) -> bool
    decreases v.len(),
{
    if v.len() == 0 {
        cs.len() == 0 && skipped.len() == 0
    } else if child_decodable(v.last()) {
        &&& cs.len() > 0
        &&& child_read(cs.last(), v.last())
        &&& children_kept(v.drop_last(), cs.drop_last(), skipped)
    } else {
        &&& skipped.len() > 0
        &&& skipped.last() == v.len() - 1
        &&& children_kept(v.drop_last(), cs, skipped.drop_last())
    }
}

pub open spec fn project_decodable(j: Json) -> bool {
    &&& stage_decodable(j)
    &&& field(j, "children"@) matches Some(c) && c is Array
    &&& field(j, "info"@) matches Some(i) && info_decodable(i)
}

/// `p` was read from `j`, leaving out the entities under the stage at
/// `skipped`: those that are neither a sprite, a monitor nor a list.
pub open spec fn project_read(p: Project, skipped: Seq<usize>, j: Json) -> bool {
    &&& stage_read(p.stage, j)
    &&& field(j, "children"@) matches Some(Json::Array(v)) && children_kept(v@, p.children@, skipped)
    &&& field(j, "info"@) matches Some(i) && info_read(p.info, i)
}

/// Reads the entities under the stage, leaving out and reporting those that
/// are neither a sprite, a monitor nor a list.
fn decode_children(v: &Vec<Json>) -> (r: (Vec<StageChild>, Vec<usize>))
    ensures
        children_kept(v@, r.0@, r.1@),
{
    let mut children: Vec<StageChild> = Vec::new();
    let mut skipped: Vec<usize> = Vec::new();
    let mut i: usize = 0;
    assert(v@.subrange(0, 0).len() == 0);
    while i < v.len()
        invariant
            0 <= i <= v@.len(),
            children_kept(v@.subrange(0, i as int), children@, skipped@),
        decreases v@.len() - i,
    {
        let ghost done = v@.subrange(0, i as int);
        let ghost next = v@.subrange(0, i + 1);
        let ghost children0 = children@;
        let ghost skipped0 = skipped@;
        assert(next.drop_last() =~= done);
        assert(next.last() == v@[i as int]);
        match decode_stage_child(&v[i]) {
            Ok(c) => {
                children.push(c);
                assert(children@.drop_last() =~= children0);
            },
            Err(_) => {
                skipped.push(i);
                assert(skipped@.drop_last() =~= skipped0);
            },
        }
        i += 1;
    }
    assert(v@.subrange(0, v@.len() as int) =~= v@);
    (children, skipped)
}

/// Reads a whole legacy project document: the stage's members stand in the
/// top-level object beside `children` and `info`. Beside the project comes
/// the positions of the entities under the stage that were left out.
pub fn decode_legacy_project(j: &Json) -> (r: Result<(Project, Vec<usize>), DecodeError>)
    ensures
        r is Ok <==> project_decodable(*j),
        r matches Ok(t) ==> project_read(t.0, t.1@, *j),
{
    let stage = match decode_stage(j) {
        Ok(s) => s,
        Err(e) => return Err(e),
    };
    let (children, skipped) = match get_field(j, "children") {
        Some(Json::Array(v)) => decode_children(v),
        _ => return Err(DecodeError::MissingField),
    };
    let info = match get_field(j, "info") {
        Some(i) => match decode_info(i) {
            Ok(x) => x,
            Err(e) => return Err(e),
        },
        None => return Err(DecodeError::MissingField),
    };
    Ok((Project { stage, children, info }, skipped))
}

} // verus!
