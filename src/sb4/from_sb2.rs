//! Converting the legacy tree into the canonical program.
use vstd::prelude::*;

use crate::assets::{keys_extend, names_asset, resolve_named, AssetHandle, AssetRegistry, AssetResolver};
use crate::json::{percent_of, Decimal};
use crate::sb2;
use crate::sb4;

verus! {

/// Why a legacy script has no canonical form. Such a script is left out of
/// the converted program and reported; the rest converts.
#[derive(Clone, Copy, Debug, PartialEq, Eq, Structural)]
pub enum ConversionError {
    /// A procedure head stands where only the first block of a script may be one.
    MisplacedProcedureDefinition,
}

// ---- blocks ----

pub open spec fn value_converts(l: sb2::LiteralValue, v: sb4::Value) -> bool {
    match l {
        sb2::LiteralValue::Boolean(b) => v matches sb4::Value::Boolean(x) && x == b,
        sb2::LiteralValue::Number(n) => v matches sb4::Value::Number(x) && x == n,
        sb2::LiteralValue::String(s) => v matches sb4::Value::String(t) && t@ == s@,
    }
}

pub open spec fn argument_converts(a: sb2::BlockArgument, c: sb4::Argument) -> bool
    decreases a,
{
    match a {
        sb2::BlockArgument::Boolean(b) => c matches sb4::Argument::Literal(sb4::Value::Boolean(x)) && x == b,
        sb2::BlockArgument::Number(n) => c matches sb4::Argument::Literal(sb4::Value::Number(x)) && x == n,
        sb2::BlockArgument::String(s) => c matches sb4::Argument::Literal(sb4::Value::String(t)) && t@ == s@,
        sb2::BlockArgument::Reporter(r) => c matches sb4::Argument::Expression(e) && basic_converts(r, e),
    }
}

pub open spec fn basic_converts(b: sb2::BasicBlock, c: sb4::Block) -> bool
    decreases b,
{
    &&& c.opcode@ == b.opcode@
    &&& c.arguments.len() == b.args.len()
    &&& forall|i: int| 0 <= i < b.args.len() ==> argument_converts(#[trigger] b.args[i], c.arguments[i])
    &&& c.branches.len() == 0
}

/// `cs` are the conversions of `bs`, one for one.
pub open spec fn branch_converts(bs: Seq<sb2::Block>, cs: Seq<sb4::Block>) -> bool
    decreases bs,
{
    bs.len() == cs.len() && forall|i: int| 0 <= i < bs.len() ==> block_converts(#[trigger] bs[i], cs[i])
}

/// `c` is `b` with its branches, if any, as a list: none for a leaf, one for
/// a one-branch block, two for a two-branch block.
pub open spec fn block_converts(b: sb2::Block, c: sb4::Block) -> bool
    decreases b,
{
    match b {
        sb2::Block::Basic(x) => basic_converts(x, c),
        sb2::Block::C(x) => {
            &&& c.opcode@ == x.opcode@
            &&& c.arguments.len() == x.args.len()
            &&& forall|i: int| 0 <= i < x.args.len() ==> argument_converts(#[trigger] x.args[i], c.arguments[i])
            &&& c.branches.len() == 1
            &&& branch_converts(x.branch@, c.branches[0]@)
        },
        sb2::Block::E(x) => {
            &&& c.opcode@ == x.opcode@
            &&& c.arguments.len() == x.args.len()
            &&& forall|i: int| 0 <= i < x.args.len() ==> argument_converts(#[trigger] x.args[i], c.arguments[i])
            &&& c.branches.len() == 2
            &&& branch_converts(x.branch0@, c.branches[0]@)
            &&& branch_converts(x.branch1@, c.branches[1]@)
        },
        sb2::Block::DefineProcedure(_) => false,
    }
}

/// Neither `b` nor any block in its branches is a procedure head.
pub open spec fn free_of_definitions(b: sb2::Block) -> bool
    decreases b,
{
    match b {
        sb2::Block::Basic(_) => true,
        sb2::Block::C(x) => forall|i: int| 0 <= i < x.branch.len() ==> free_of_definitions(#[trigger] x.branch[i]),
        sb2::Block::E(x) => {
            &&& forall|i: int| 0 <= i < x.branch0.len() ==> free_of_definitions(#[trigger] x.branch0[i])
            &&& forall|i: int| 0 <= i < x.branch1.len() ==> free_of_definitions(#[trigger] x.branch1[i])
        },
        sb2::Block::DefineProcedure(_) => false,
    }
}

pub fn convert_value(l: &sb2::LiteralValue) -> (r: sb4::Value)
    ensures
        value_converts(*l, r),
{
    match l {
        sb2::LiteralValue::Boolean(b) => sb4::Value::Boolean(*b),
        sb2::LiteralValue::Number(n) => sb4::Value::Number(*n),
        sb2::LiteralValue::String(s) => sb4::Value::String(s.clone()),
    }
}

pub fn convert_argument(a: &sb2::BlockArgument) -> (r: sb4::Argument)
    ensures
        argument_converts(*a, r),
    decreases a,
{
    match a {
        sb2::BlockArgument::Boolean(b) => sb4::Argument::Literal(sb4::Value::Boolean(*b)),
        sb2::BlockArgument::Number(n) => sb4::Argument::Literal(sb4::Value::Number(*n)),
        sb2::BlockArgument::String(s) => sb4::Argument::Literal(sb4::Value::String(s.clone())),
        sb2::BlockArgument::Reporter(r) => sb4::Argument::Expression(convert_basic(r)),
    }
}

fn convert_arguments(args: &Vec<sb2::BlockArgument>) -> (r: Vec<sb4::Argument>)
    ensures
        r@.len() == args@.len(),
        forall|i: int| 0 <= i < args@.len() ==> argument_converts(#[trigger] args@[i], r@[i]),
    decreases args,
{
    let mut out: Vec<sb4::Argument> = Vec::new();
    let mut i: usize = 0;
    while i < args.len()
        invariant
            0 <= i <= args@.len(),
            out@.len() == i,
            forall|t: int| 0 <= t < i ==> argument_converts(#[trigger] args@[t], out@[t]),
        decreases args@.len() - i,
    {
        proof {
            broadcast use vstd::std_specs::vec::axiom_vec_index_decreases;
            assert(decreases_to!(*args => args[i as int]));
        }
        out.push(convert_argument(&args[i]));
        i += 1;
    }
    out
}

pub fn convert_basic(b: &sb2::BasicBlock) -> (r: sb4::Block)
    ensures
        basic_converts(*b, r),
    decreases b,
{
    sb4::Block { opcode: b.opcode.clone(), arguments: convert_arguments(&b.args), branches: Vec::new() }
}

/// Converts a branch; fails when a procedure head stands anywhere in it.
pub fn convert_branch(bs: &Vec<sb2::Block>) -> (r: Result<Vec<sb4::Block>, ConversionError>)
    ensures
        r is Ok <==> forall|i: int| 0 <= i < bs@.len() ==> free_of_definitions(#[trigger] bs@[i]),
        r matches Ok(cs) ==> branch_converts(bs@, cs@),
        r is Err ==> r == Err::<Vec<sb4::Block>, ConversionError>(ConversionError::MisplacedProcedureDefinition),
    decreases bs,
{
    let mut out: Vec<sb4::Block> = Vec::new();
    let mut i: usize = 0;
    while i < bs.len()
        invariant
            0 <= i <= bs@.len(),
            out@.len() == i,
            forall|t: int| 0 <= t < i ==> block_converts(#[trigger] bs@[t], out@[t]),
            forall|t: int| 0 <= t < i ==> free_of_definitions(#[trigger] bs@[t]),
        decreases bs@.len() - i,
    {
        proof {
            broadcast use vstd::std_specs::vec::axiom_vec_index_decreases;
            assert(decreases_to!(*bs => bs[i as int]));
        }
        match convert_block(&bs[i]) {
            Ok(c) => out.push(c),
            Err(e) => return Err(e),
        }
        i += 1;
    }
    Ok(out)
}

/// Converts a block that is not the head of a procedure.
pub fn convert_block(b: &sb2::Block) -> (r: Result<sb4::Block, ConversionError>)
    ensures
        r is Ok <==> free_of_definitions(*b),
        r matches Ok(c) ==> block_converts(*b, c),
        r is Err ==> r == Err::<sb4::Block, ConversionError>(ConversionError::MisplacedProcedureDefinition),
    decreases b,
{
    match b {
        sb2::Block::Basic(x) => Ok(convert_basic(x)),
        sb2::Block::C(x) => {
            let branch = match convert_branch(&x.branch) {
                Ok(cs) => cs,
                Err(e) => return Err(e),
            };
            let mut branches: Vec<Vec<sb4::Block>> = Vec::new();
            branches.push(branch);
            Ok(sb4::Block { opcode: x.opcode.clone(), arguments: convert_arguments(&x.args), branches })
        },
        sb2::Block::E(x) => {
            let branch0 = match convert_branch(&x.branch0) {
                Ok(cs) => cs,
                Err(e) => return Err(e),
            };
            let branch1 = match convert_branch(&x.branch1) {
                Ok(cs) => cs,
                Err(e) => return Err(e),
            };
            let mut branches: Vec<Vec<sb4::Block>> = Vec::new();
            branches.push(branch0);
            branches.push(branch1);
            Ok(sb4::Block { opcode: x.opcode.clone(), arguments: convert_arguments(&x.args), branches })
        },
        sb2::Block::DefineProcedure(_) => Err(ConversionError::MisplacedProcedureDefinition),
    }
}

// ---- top-level items ----

/// Every block of the script is free of procedure heads, but the first may be one.
pub open spec fn script_convertible(bs: Seq<sb2::Block>) -> bool {
    forall|i: int|
        0 <= i < bs.len() ==> free_of_definitions(#[trigger] bs[i]) || (i == 0
            && bs[0] is DefineProcedure)
}

pub open spec fn definition_converts(d: sb2::DefineProcedure, body: Seq<sb2::Block>, p: sb4::ProcedureDefinition) -> bool {
    &&& p.spec@ == d.spec@
    &&& p.parameter_names.len() == d.parameter_names.len()
    &&& forall|i: int| 0 <= i < d.parameter_names.len() ==> (#[trigger] p.parameter_names[i])@ == d.parameter_names[i]@
    &&& p.default_arguments.len() == d.default_arg_values.len()
    &&& forall|i: int| 0 <= i < d.default_arg_values.len() ==> value_converts(#[trigger] d.default_arg_values[i], p.default_arguments[i])
    &&& p.run_without_screen_refresh == d.run_without_screen_refresh
    &&& branch_converts(body, p.body@)
}

/// A script that starts with a procedure head becomes that procedure, with
/// the rest of the script as its body; any other script stays a script.
pub open spec fn top_level_converts(s: sb2::TopLevelScript, t: sb4::TopLevelItem) -> bool {
    &&& t.x == s.x
    &&& t.y == s.y
    &&& if s.script.len() >= 1 && s.script[0] is DefineProcedure {
        t.stack matches sb4::BlockStack::Definition(p) && definition_converts(
            s.script[0]->DefineProcedure_0,
            s.script@.drop_first(),
            p,
        )
    } else {
        t.stack matches sb4::BlockStack::Script(bs) && branch_converts(s.script@, bs@)
    }
}

fn convert_values(ls: &Vec<sb2::LiteralValue>) -> (r: Vec<sb4::Value>)
    ensures
        r@.len() == ls@.len(),
        forall|i: int| 0 <= i < ls@.len() ==> value_converts(#[trigger] ls@[i], r@[i]),
{
    let mut out: Vec<sb4::Value> = Vec::new();
    let mut i: usize = 0;
    while i < ls.len()
        invariant
            0 <= i <= ls@.len(),
            out@.len() == i,
            forall|t: int| 0 <= t < i ==> value_converts(#[trigger] ls@[t], out@[t]),
        decreases ls@.len() - i,
    {
        out.push(convert_value(&ls[i]));
        i += 1;
    }
    out
}

fn clone_names(ns: &Vec<String>) -> (r: Vec<String>)
    ensures
        r@.len() == ns@.len(),
        forall|i: int| 0 <= i < ns@.len() ==> (#[trigger] r@[i])@ == ns@[i]@,
{
    let mut out: Vec<String> = Vec::new();
    let mut i: usize = 0;
    while i < ns.len()
        invariant
            0 <= i <= ns@.len(),
            out@.len() == i,
            forall|t: int| 0 <= t < i ==> (#[trigger] out@[t])@ == ns@[t]@,
        decreases ns@.len() - i,
    {
        out.push(ns[i].clone());
        i += 1;
    }
    out
}

/// Converts the blocks `bs[from..]`.
fn convert_blocks_from(bs: &Vec<sb2::Block>, from: usize) -> (r: Result<Vec<sb4::Block>, ConversionError>)
    requires
        from <= bs@.len(),
    ensures
        r is Ok <==> forall|i: int| from <= i < bs@.len() ==> free_of_definitions(#[trigger] bs@[i]),
        r matches Ok(cs) ==> branch_converts(bs@.subrange(from as int, bs@.len() as int), cs@),
        r is Err ==> r == Err::<Vec<sb4::Block>, ConversionError>(ConversionError::MisplacedProcedureDefinition),
{
    let mut out: Vec<sb4::Block> = Vec::new();
    let mut i: usize = from;
    while i < bs.len()
        invariant
            from <= i <= bs@.len(),
            out@.len() == i - from,
            forall|t: int| from <= t < i ==> block_converts(#[trigger] bs@[t], out@[t - from]),
            forall|t: int| from <= t < i ==> free_of_definitions(#[trigger] bs@[t]),
        decreases bs@.len() - i,
    {
        match convert_block(&bs[i]) {
            Ok(c) => out.push(c),
            Err(e) => return Err(e),
        }
        i += 1;
    }
    proof {
        let sub = bs@.subrange(from as int, bs@.len() as int);
        assert forall|t: int| 0 <= t < sub.len() implies block_converts(#[trigger] sub[t], out@[t]) by {
            assert(sub[t] == bs@[t + from]);
        }
    }
    Ok(out)
}

/// Converts one top-level script.
pub fn convert_top_level(s: &sb2::TopLevelScript) -> (r: Result<sb4::TopLevelItem, ConversionError>)
    ensures
        r is Ok <==> script_convertible(s.script@),
        r matches Ok(t) ==> top_level_converts(*s, t),
        r is Err ==> r == Err::<sb4::TopLevelItem, ConversionError>(ConversionError::MisplacedProcedureDefinition),
{
    if s.script.len() >= 1 {
        if let sb2::Block::DefineProcedure(d) = &s.script[0] {
            let body = match convert_blocks_from(&s.script, 1) {
                Ok(cs) => cs,
                Err(e) => return Err(e),
            };
            assert(s.script@.subrange(1, s.script@.len() as int) =~= s.script@.drop_first());
            let p = sb4::ProcedureDefinition {
                spec: d.spec.clone(),
                body,
                parameter_names: clone_names(&d.parameter_names),
                default_arguments: convert_values(&d.default_arg_values),
                run_without_screen_refresh: d.run_without_screen_refresh,
            };
            return Ok(sb4::TopLevelItem { x: s.x, y: s.y, stack: sb4::BlockStack::Definition(p) });
        }
    }
    let bs = match convert_blocks_from(&s.script, 0) {
        Ok(cs) => cs,
        Err(e) => return Err(e),
    };
    assert(s.script@.subrange(0, s.script@.len() as int) =~= s.script@);
    Ok(sb4::TopLevelItem { x: s.x, y: s.y, stack: sb4::BlockStack::Script(bs) })
}

// ---- targets ----

pub type Keys = Seq<(Seq<char>, Seq<char>)>;

/// The asset handle `h` stands for the asset named `name` in `keys`; it is
/// none exactly when the name has no `<md5>.<extension>` form.
pub open spec fn handle_names(h: Option<AssetHandle>, name: Seq<char>, keys: Keys) -> bool {
    if name.contains('.') {
        h matches Some(k) && k < keys.len() && names_asset(name, keys[k as int])
    } else {
        h is None
    }
}

pub open spec fn costume_converts(c: sb2::Costume, x: sb4::Costume, images: Keys) -> bool {
    &&& x.name@ == c.costume_name@
    &&& handle_names(x.image, c.base_layer_md5@, images)
    &&& x.bitmap_resolution == c.bitmap_resolution
    &&& x.rotation_center_x == c.rotation_center_x
    &&& x.rotation_center_y == c.rotation_center_y
    &&& x.layer_index == c.base_layer_id
}

pub open spec fn sound_converts(c: sb2::Sound, x: sb4::Sound, sounds: Keys) -> bool {
    &&& x.name@ == c.sound_name@
    &&& handle_names(x.audio_source, c.md5@, sounds)
    &&& x.format@ == c.format@
    &&& x.sample_rate == c.rate
    &&& x.sample_count == c.sample_count
    &&& x.sound_index == c.sound_id
}

pub open spec fn rotation_converts(r: sb2::RotationStyle) -> sb4::RotationStyle {
    match r {
        sb2::RotationStyle::Normal => sb4::RotationStyle::Normal,
        sb2::RotationStyle::LeftRight => sb4::RotationStyle::LeftRight,
        sb2::RotationStyle::DoNotRotate => sb4::RotationStyle::DoNotRotate,
    }
}

/// `xs` are the conversions, in order, of the scripts among `ss` that can be
/// converted, and `skipped` the positions of the others, ascending.
pub open spec fn scripts_kept(ss: Seq<sb2::TopLevelScript>, xs: Seq<sb4::TopLevelItem>, skipped: Seq<usize>) -> bool
    decreases ss.len(),
{
    if ss.len() == 0 {
        xs.len() == 0 && skipped.len() == 0
    } else if script_convertible(ss.last().script@) {
        &&& xs.len() > 0
        &&& top_level_converts(ss.last(), xs.last())
        &&& scripts_kept(ss.drop_last(), xs.drop_last(), skipped)
    } else {
        &&& skipped.len() > 0
        &&& skipped.last() == ss.len() - 1
        &&& scripts_kept(ss.drop_last(), xs, skipped.drop_last())
    }
}

/// `x` carries the program and the variables of `t`, leaving out the scripts
/// at `skipped`; its transform is set apart.
pub open spec fn target_converts(t: sb2::Target, x: sb4::Sprite, skipped: Seq<usize>, images: Keys, sounds: Keys) -> bool {
    &&& x.name@ == t.name@
    &&& scripts_kept(t.scripts@, x.scripts@, skipped)
    &&& x.costumes.len() == t.costumes.len()
    &&& forall|i: int| 0 <= i < t.costumes.len() ==> costume_converts(#[trigger] t.costumes[i], x.costumes[i], images)
    &&& x.sounds.len() == t.sounds.len()
    &&& forall|i: int| 0 <= i < t.sounds.len() ==> sound_converts(#[trigger] t.sounds[i], x.sounds[i], sounds)
    &&& x.variables.len() == t.variables.len()
    &&& forall|i: int| 0 <= i < t.variables.len() ==> {
        &&& (#[trigger] x.variables[i]).0@ == t.variables[i].name@
        &&& value_converts(t.variables[i].value, x.variables[i].1.value)
        &&& x.variables[i].1.is_cloud == t.variables[i].is_persistent
    }
    &&& x.lists.len() == t.lists.len()
    &&& forall|i: int| 0 <= i < t.lists.len() ==> {
        &&& (#[trigger] x.lists[i]).0@ == t.lists[i].name@
        &&& x.lists[i].1.values.len() == t.lists[i].contents.len()
        &&& forall|k: int| 0 <= k < t.lists[i].contents.len() ==> value_converts(
            #[trigger] t.lists[i].contents[k],
            x.lists[i].1.values[k],
        )
        &&& x.lists[i].1.is_cloud == t.lists[i].is_persistent
    }
    &&& x.current_costume == t.current_costume_index
}

/// The stage always starts at the origin, at 100%, facing 90 degrees, not
/// draggable and visible; its own transform members are not read.
pub open spec fn stage_converts(s: sb2::Stage, x: sb4::Sprite, skipped: Seq<usize>, images: Keys, sounds: Keys) -> bool {
    &&& target_converts(s.target, x, skipped, images, sounds)
    &&& x.x == Decimal { mantissa: 0, exponent: 0 }
    &&& x.y == Decimal { mantissa: 0, exponent: 0 }
    &&& x.scale == Decimal { mantissa: 100, exponent: 0 }
    &&& x.direction == Decimal { mantissa: 90, exponent: 0 }
    &&& x.rotation_style == sb4::RotationStyle::Normal
    &&& !x.is_draggable
    &&& x.is_visible
}

/// A sprite keeps its transform, with its scale as a percentage.
pub open spec fn sprite_converts(s: sb2::Sprite, x: sb4::Sprite, skipped: Seq<usize>, images: Keys, sounds: Keys) -> bool {
    &&& target_converts(s.target, x, skipped, images, sounds)
    &&& x.x == s.x
    &&& x.y == s.y
    &&& x.scale == percent_of(s.scale)
    &&& x.direction == s.direction
    &&& x.rotation_style == rotation_converts(s.rotation_style)
    &&& x.is_draggable == s.is_draggable
    &&& x.is_visible == s.is_visible
}

proof fn lemma_target_converts_extends(
    t: sb2::Target,
    x: sb4::Sprite,
    skipped: Seq<usize>,
    i1: Keys,
    i2: Keys,
    s1: Keys,
    s2: Keys,
)
    requires
        target_converts(t, x, skipped, i1, s1),
        keys_extend(i1, i2),
        keys_extend(s1, s2),
    ensures
        target_converts(t, x, skipped, i2, s2),
{
    assert forall|i: int| 0 <= i < t.costumes.len() implies costume_converts(#[trigger] t.costumes[i], x.costumes[i], i2) by {
        assert(costume_converts(t.costumes[i], x.costumes[i], i1));
        if let Some(h) = x.costumes[i].image {
            assert(i2[h as int] == i1[h as int]);
        }
    }
    assert forall|i: int| 0 <= i < t.sounds.len() implies sound_converts(#[trigger] t.sounds[i], x.sounds[i], s2) by {
        assert(sound_converts(t.sounds[i], x.sounds[i], s1));
        if let Some(h) = x.sounds[i].audio_source {
            assert(s2[h as int] == s1[h as int]);
        }
    }
}

/// Converts a costume; an image named without a `<md5>.<extension>` form is
/// left without a handle.
fn convert_costume(c: &sb2::Costume, images: &mut AssetRegistry) -> (r: sb4::Costume)
    requires
        old(images).wf(),
    ensures
        final(images).wf(),
        keys_extend(old(images).keys(), final(images).keys()),
        costume_converts(*c, r, final(images).keys()),
{
    let image = resolve_named(images, &c.base_layer_md5, c.base_layer_id);
    sb4::Costume {
        name: c.costume_name.clone(),
        image,
        bitmap_resolution: c.bitmap_resolution,
        rotation_center_x: c.rotation_center_x,
        rotation_center_y: c.rotation_center_y,
        layer_index: c.base_layer_id,
    }
}

/// Converts a sound; audio named without a `<md5>.<extension>` form is left
/// without a handle.
fn convert_sound(c: &sb2::Sound, sounds: &mut AssetRegistry) -> (r: sb4::Sound)
    requires
        old(sounds).wf(),
    ensures
        final(sounds).wf(),
        keys_extend(old(sounds).keys(), final(sounds).keys()),
        sound_converts(*c, r, final(sounds).keys()),
{
    let audio_source = resolve_named(sounds, &c.md5, c.sound_id);
    sb4::Sound {
        name: c.sound_name.clone(),
        audio_source,
        format: c.format.clone(),
        sample_rate: c.rate,
        sample_count: c.sample_count,
        sound_index: c.sound_id,
    }
}

fn convert_costumes(cs: &Vec<sb2::Costume>, images: &mut AssetRegistry) -> (r: Vec<sb4::Costume>)
    requires
        old(images).wf(),
    ensures
        final(images).wf(),
        keys_extend(old(images).keys(), final(images).keys()),
        r@.len() == cs@.len(),
        forall|i: int| 0 <= i < cs@.len() ==> costume_converts(#[trigger] cs@[i], r@[i], final(images).keys()),
{
    let ghost start = images.keys();
    let mut out: Vec<sb4::Costume> = Vec::new();
    let mut i: usize = 0;
    while i < cs.len()
        invariant
            images.wf(),
            keys_extend(start, images.keys()),
            start == old(images).keys(),
            0 <= i <= cs@.len(),
            out@.len() == i,
            forall|t: int| 0 <= t < i ==> costume_converts(#[trigger] cs@[t], out@[t], images.keys()),
        decreases cs@.len() - i,
    {
        let ghost before = images.keys();
        let x = convert_costume(&cs[i], images);
        out.push(x);
        proof {
            assert forall|t: int| 0 <= t < i implies costume_converts(#[trigger] cs@[t], out@[t], images.keys()) by {
                assert(costume_converts(cs@[t], out@[t], before));
                if let Some(h) = out@[t].image {
                    assert(images.keys()[h as int] == before[h as int]);
                }
            }
            assert forall|k: int| 0 <= k < start.len() implies #[trigger] images.keys()[k] == start[k] by {
                assert(before[k] == start[k]);
            }
        }
        i += 1;
    }
    out
}

fn convert_sounds(cs: &Vec<sb2::Sound>, sounds: &mut AssetRegistry) -> (r: Vec<sb4::Sound>)
    requires
        old(sounds).wf(),
    ensures
        final(sounds).wf(),
        keys_extend(old(sounds).keys(), final(sounds).keys()),
        r@.len() == cs@.len(),
        forall|i: int| 0 <= i < cs@.len() ==> sound_converts(#[trigger] cs@[i], r@[i], final(sounds).keys()),
{
    let ghost start = sounds.keys();
    let mut out: Vec<sb4::Sound> = Vec::new();
    let mut i: usize = 0;
    while i < cs.len()
        invariant
            sounds.wf(),
            keys_extend(start, sounds.keys()),
            start == old(sounds).keys(),
            0 <= i <= cs@.len(),
            out@.len() == i,
            forall|t: int| 0 <= t < i ==> sound_converts(#[trigger] cs@[t], out@[t], sounds.keys()),
        decreases cs@.len() - i,
    {
        let ghost before = sounds.keys();
        let x = convert_sound(&cs[i], sounds);
        out.push(x);
        proof {
            assert forall|t: int| 0 <= t < i implies sound_converts(#[trigger] cs@[t], out@[t], sounds.keys()) by {
                assert(sound_converts(cs@[t], out@[t], before));
                if let Some(h) = out@[t].audio_source {
                    assert(sounds.keys()[h as int] == before[h as int]);
                }
            }
            assert forall|k: int| 0 <= k < start.len() implies #[trigger] sounds.keys()[k] == start[k] by {
                assert(before[k] == start[k]);
            }
        }
        i += 1;
    }
    out
}

fn convert_variables(vs: &Vec<sb2::Variable>) -> (r: Vec<(String, sb4::Variable)>)
    ensures
        r@.len() == vs@.len(),
        forall|i: int| 0 <= i < vs@.len() ==> {
            &&& (#[trigger] r@[i]).0@ == vs@[i].name@
            &&& value_converts(vs@[i].value, r@[i].1.value)
            &&& r@[i].1.is_cloud == vs@[i].is_persistent
        },
{
    let mut out: Vec<(String, sb4::Variable)> = Vec::new();
    let mut i: usize = 0;
    while i < vs.len()
        invariant
            0 <= i <= vs@.len(),
            out@.len() == i,
            forall|t: int| 0 <= t < i ==> {
                &&& (#[trigger] out@[t]).0@ == vs@[t].name@
                &&& value_converts(vs@[t].value, out@[t].1.value)
                &&& out@[t].1.is_cloud == vs@[t].is_persistent
            },
        decreases vs@.len() - i,
    {
        let v = &vs[i];
        out.push((v.name.clone(), sb4::Variable { value: convert_value(&v.value), is_cloud: v.is_persistent }));
        i += 1;
    }
    out
}

fn convert_lists(ls: &Vec<sb2::List>) -> (r: Vec<(String, sb4::List)>)
    ensures
        r@.len() == ls@.len(),
        forall|i: int| 0 <= i < ls@.len() ==> {
            &&& (#[trigger] r@[i]).0@ == ls@[i].name@
            &&& r@[i].1.values.len() == ls@[i].contents.len()
            &&& forall|k: int| 0 <= k < ls@[i].contents.len() ==> value_converts(
                #[trigger] ls@[i].contents[k],
                r@[i].1.values[k],
            )
            &&& r@[i].1.is_cloud == ls@[i].is_persistent
        },
{
    let mut out: Vec<(String, sb4::List)> = Vec::new();
    let mut i: usize = 0;
    while i < ls.len()
        invariant
            0 <= i <= ls@.len(),
            out@.len() == i,
            forall|t: int| 0 <= t < i ==> {
                &&& (#[trigger] out@[t]).0@ == ls@[t].name@
                &&& out@[t].1.values.len() == ls@[t].contents.len()
                &&& forall|k: int| 0 <= k < ls@[t].contents.len() ==> value_converts(
                    #[trigger] ls@[t].contents[k],
                    out@[t].1.values[k],
                )
                &&& out@[t].1.is_cloud == ls@[t].is_persistent
            },
        decreases ls@.len() - i,
    {
        let l = &ls[i];
        out.push((l.name.clone(), sb4::List { values: convert_values(&l.contents), is_cloud: l.is_persistent }));
        i += 1;
    }
    out
}

/// Converts the scripts that can be converted, and returns the positions of
/// those left out: a script with a procedure head after its first block.
fn convert_scripts(ss: &Vec<sb2::TopLevelScript>) -> (r: (Vec<sb4::TopLevelItem>, Vec<usize>))
    ensures
        scripts_kept(ss@, r.0@, r.1@),
{
    let mut out: Vec<sb4::TopLevelItem> = Vec::new();
    let mut skipped: Vec<usize> = Vec::new();
    let mut i: usize = 0;
    assert(ss@.subrange(0, 0).len() == 0);
    while i < ss.len()
        invariant
            0 <= i <= ss@.len(),
            scripts_kept(ss@.subrange(0, i as int), out@, skipped@),
        decreases ss@.len() - i,
    {
        let ghost done = ss@.subrange(0, i as int);
        let ghost next = ss@.subrange(0, i + 1);
        let ghost out0 = out@;
        let ghost skipped0 = skipped@;
        assert(next.drop_last() =~= done);
        assert(next.last() == ss@[i as int]);
        match convert_top_level(&ss[i]) {
            Ok(x) => {
                out.push(x);
                assert(out@.drop_last() =~= out0);
            },
            Err(_) => {
                skipped.push(i);
                assert(skipped@.drop_last() =~= skipped0);
            },
        }
        i += 1;
    }
    assert(ss@.subrange(0, ss@.len() as int) =~= ss@);
    (out, skipped)
}

/// The placement a converted target starts from.
#[derive(Clone, Copy, Debug)]
pub struct Transform {
    pub x: Decimal,
    pub y: Decimal,
    pub scale: Decimal,
    pub direction: Decimal,
    pub rotation_style: sb4::RotationStyle,
    pub is_draggable: bool,
    pub is_visible: bool,
}

/// Converts the program and variables of `t`, placed at `place`, and returns
/// the positions of the scripts left out.
fn convert_target(t: &sb2::Target, place: Transform, assets: &mut AssetResolver) -> (r: (sb4::Sprite, Vec<usize>))
    requires
        old(assets).images.wf(),
        old(assets).sounds.wf(),
    ensures
        final(assets).images.wf(),
        final(assets).sounds.wf(),
        keys_extend(old(assets).images.keys(), final(assets).images.keys()),
        keys_extend(old(assets).sounds.keys(), final(assets).sounds.keys()),
        target_converts(*t, r.0, r.1@, final(assets).images.keys(), final(assets).sounds.keys()),
        r.0.x == place.x,
        r.0.y == place.y,
        r.0.scale == place.scale,
        r.0.direction == place.direction,
        r.0.rotation_style == place.rotation_style,
        r.0.is_draggable == place.is_draggable,
        r.0.is_visible == place.is_visible,
{
    let (scripts, skipped) = convert_scripts(&t.scripts);
    let costumes = convert_costumes(&t.costumes, &mut assets.images);
    let sounds = convert_sounds(&t.sounds, &mut assets.sounds);
    let sprite = sb4::Sprite {
        name: t.name.clone(),
        scripts,
        sounds,
        costumes,
        x: place.x,
        y: place.y,
        scale: place.scale,
        direction: place.direction,
        rotation_style: place.rotation_style,
        is_draggable: place.is_draggable,
        is_visible: place.is_visible,
        variables: convert_variables(&t.variables),
        lists: convert_lists(&t.lists),
        current_costume: t.current_costume_index,
    };
    (sprite, skipped)
}

pub fn convert_rotation_style(r: sb2::RotationStyle) -> (c: sb4::RotationStyle)
    ensures
        c == rotation_converts(r),
{
    match r {
        sb2::RotationStyle::Normal => sb4::RotationStyle::Normal,
        sb2::RotationStyle::LeftRight => sb4::RotationStyle::LeftRight,
        sb2::RotationStyle::DoNotRotate => sb4::RotationStyle::DoNotRotate,
    }
}

/// Converts the stage, which always starts from the same placement, and
/// returns the positions of the scripts left out.
pub fn convert_stage(s: &sb2::Stage, assets: &mut AssetResolver) -> (r: (sb4::Sprite, Vec<usize>))
    requires
        old(assets).images.wf(),
        old(assets).sounds.wf(),
    ensures
        final(assets).images.wf(),
        final(assets).sounds.wf(),
        keys_extend(old(assets).images.keys(), final(assets).images.keys()),
        keys_extend(old(assets).sounds.keys(), final(assets).sounds.keys()),
        stage_converts(*s, r.0, r.1@, final(assets).images.keys(), final(assets).sounds.keys()),
{
    let place = Transform {
        x: Decimal::integer(0),
        y: Decimal::integer(0),
        scale: Decimal::integer(100),
        direction: Decimal::integer(90),
        rotation_style: sb4::RotationStyle::Normal,
        is_draggable: false,
        is_visible: true,
    };
    convert_target(&s.target, place, assets)
}

/// Converts a sprite with its own placement, its scale as a percentage, and
/// returns the positions of the scripts left out.
pub fn convert_sprite(s: &sb2::Sprite, assets: &mut AssetResolver) -> (r: (sb4::Sprite, Vec<usize>))
    requires
        old(assets).images.wf(),
        old(assets).sounds.wf(),
    ensures
        final(assets).images.wf(),
        final(assets).sounds.wf(),
        keys_extend(old(assets).images.keys(), final(assets).images.keys()),
        keys_extend(old(assets).sounds.keys(), final(assets).sounds.keys()),
        sprite_converts(*s, r.0, r.1@, final(assets).images.keys(), final(assets).sounds.keys()),
{
    let place = Transform {
        x: s.x,
        y: s.y,
        scale: s.scale.as_percent(),
        direction: s.direction,
        rotation_style: convert_rotation_style(s.rotation_style),
        is_draggable: s.is_draggable,
        is_visible: s.is_visible,
    };
    convert_target(&s.target, place, assets)
}

// ---- projects ----

/// `out` holds, in order, the conversions of the sprites among `cs`, and
/// `skipped` for each of them the positions of its scripts left out;
/// monitors and lists under the stage give nothing.
pub open spec fn sprites_converted(
    cs: Seq<sb2::StageChild>,
    out: Seq<sb4::Sprite>,
    skipped: Seq<Vec<usize>>,
    images: Keys,
    sounds: Keys,
) -> bool
    decreases cs.len(),
{
    if cs.len() == 0 {
        out.len() == 0 && skipped.len() == 0
    } else {
        match cs.last() {
            sb2::StageChild::Sprite(s) => {
                &&& out.len() > 0
                &&& skipped.len() > 0
                &&& sprite_converts(s, out.last(), skipped.last()@, images, sounds)
                &&& sprites_converted(cs.drop_last(), out.drop_last(), skipped.drop_last(), images, sounds)
            },
            _ => sprites_converted(cs.drop_last(), out, skipped, images, sounds),
        }
    }
}

/// How many of `cs` are sprites.
pub open spec fn sprite_count(cs: Seq<sb2::StageChild>) -> nat
    decreases cs.len(),
{
    if cs.len() == 0 {
        0
    } else {
        sprite_count(cs.drop_last()) + if cs.last() is Sprite { 1nat } else { 0nat }
    }
}

proof fn lemma_sprites_converted_extends(
    cs: Seq<sb2::StageChild>,
    out: Seq<sb4::Sprite>,
    skipped: Seq<Vec<usize>>,
    i1: Keys,
    i2: Keys,
    s1: Keys,
    s2: Keys,
)
    requires
        sprites_converted(cs, out, skipped, i1, s1),
        keys_extend(i1, i2),
        keys_extend(s1, s2),
    ensures
        sprites_converted(cs, out, skipped, i2, s2),
    decreases cs.len(),
{
    if cs.len() > 0 {
        match cs.last() {
            sb2::StageChild::Sprite(s) => {
                lemma_target_converts_extends(s.target, out.last(), skipped.last()@, i1, i2, s1, s2);
                lemma_sprites_converted_extends(cs.drop_last(), out.drop_last(), skipped.drop_last(), i1, i2, s1, s2);
            },
            _ => lemma_sprites_converted_extends(cs.drop_last(), out, skipped, i1, i2, s1, s2),
        }
    }
}

/// The stage first, then each sprite under it in order; monitors and lists
/// under the stage are dropped. Beside the program comes, for each of its
/// sprites, the positions of the scripts left out.
pub fn convert_to_canonical(p: &sb2::Project, assets: &mut AssetResolver) -> (r: (sb4::Project, Vec<Vec<usize>>))
    requires
        old(assets).images.wf(),
        old(assets).sounds.wf(),
    ensures
        final(assets).images.wf(),
        final(assets).sounds.wf(),
        keys_extend(old(assets).images.keys(), final(assets).images.keys()),
        keys_extend(old(assets).sounds.keys(), final(assets).sounds.keys()),
        r.0.sprites@.len() >= 1,
        r.1@.len() == r.0.sprites@.len(),
        stage_converts(p.stage, r.0.sprites@[0], r.1@[0]@, final(assets).images.keys(), final(assets).sounds.keys()),
        sprites_converted(
            p.children@,
            r.0.sprites@.drop_first(),
            r.1@.drop_first(),
            final(assets).images.keys(),
            final(assets).sounds.keys(),
        ),
{
    let ghost images0 = assets.images.keys();
    let ghost sounds0 = assets.sounds.keys();
    let (stage, stage_skipped) = convert_stage(&p.stage, assets);
    let mut sprites: Vec<sb4::Sprite> = Vec::new();
    let mut skipped: Vec<Vec<usize>> = Vec::new();
    sprites.push(stage);
    skipped.push(stage_skipped);
    let mut i: usize = 0;
    assert(p.children@.subrange(0, 0) =~= Seq::<sb2::StageChild>::empty());
    assert(sprites@.drop_first() =~= Seq::<sb4::Sprite>::empty());
    assert(skipped@.drop_first() =~= Seq::<Vec<usize>>::empty());
    while i < p.children.len()
        invariant
            assets.images.wf(),
            assets.sounds.wf(),
            keys_extend(images0, assets.images.keys()),
            keys_extend(sounds0, assets.sounds.keys()),
            images0 == old(assets).images.keys(),
            sounds0 == old(assets).sounds.keys(),
            0 <= i <= p.children@.len(),
            sprites@.len() >= 1,
            skipped@.len() == sprites@.len(),
            stage_converts(p.stage, sprites@[0], skipped@[0]@, assets.images.keys(), assets.sounds.keys()),
            sprites_converted(
                p.children@.subrange(0, i as int),
                sprites@.drop_first(),
                skipped@.drop_first(),
                assets.images.keys(),
                assets.sounds.keys(),
            ),
        decreases p.children@.len() - i,
    {
        let ghost before_images = assets.images.keys();
        let ghost before_sounds = assets.sounds.keys();
        let ghost before_sprites = sprites@;
        let ghost before_skipped = skipped@;
        let ghost done = p.children@.subrange(0, i as int);
        let ghost next = p.children@.subrange(0, i + 1);
        assert(next.drop_last() =~= done);
        assert(next.last() == p.children@[i as int]);
        match &p.children[i] {
            sb2::StageChild::Sprite(s) => {
                let (x, k) = convert_sprite(s, assets);
                sprites.push(x);
                skipped.push(k);
                proof {
                    lemma_target_converts_extends(
                        p.stage.target,
                        sprites@[0],
                        skipped@[0]@,
                        before_images,
                        assets.images.keys(),
                        before_sounds,
                        assets.sounds.keys(),
                    );
                    lemma_sprites_converted_extends(
                        done,
                        before_sprites.drop_first(),
                        before_skipped.drop_first(),
                        before_images,
                        assets.images.keys(),
                        before_sounds,
                        assets.sounds.keys(),
                    );
                    assert(sprites@.drop_first().drop_last() =~= before_sprites.drop_first());
                    assert(skipped@.drop_first().drop_last() =~= before_skipped.drop_first());
                    assert forall|k: int| 0 <= k < images0.len() implies #[trigger] assets.images.keys()[k]
                        == images0[k] by {
                        assert(before_images[k] == images0[k]);
                    }
                    assert forall|k: int| 0 <= k < sounds0.len() implies #[trigger] assets.sounds.keys()[k]
                        == sounds0[k] by {
                        assert(before_sounds[k] == sounds0[k]);
                    }
                }
            },
            _ => {},
        }
        i += 1;
    }
    assert(p.children@.subrange(0, p.children@.len() as int) =~= p.children@);
    (sb4::Project { sprites }, skipped)
}

/// Only sprites under the stage become targets: a converted project has one
/// target for the stage and one per sprite child, none for a monitor or list.
pub proof fn lemma_only_sprites_become_targets(
    cs: Seq<sb2::StageChild>,
    out: Seq<sb4::Sprite>,
    skipped: Seq<Vec<usize>>,
    images: Keys,
    sounds: Keys,
)
    requires
        sprites_converted(cs, out, skipped, images, sounds),
    ensures
        out.len() == sprite_count(cs),
    decreases cs.len(),
{
    if cs.len() > 0 {
        match cs.last() {
            sb2::StageChild::Sprite(_) => lemma_only_sprites_become_targets(
                cs.drop_last(),
                out.drop_last(),
                skipped.drop_last(),
                images,
                sounds,
            ),
            _ => lemma_only_sprites_become_targets(cs.drop_last(), out, skipped, images, sounds),
        }
    }
}

} // verus!
