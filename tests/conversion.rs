use scratch_bevy::assets::{
    is_vector_image, kind_of_file_name, kind_of_lowercase, split_asset_name, AssetKind, AssetResolver,
};
use scratch_bevy::json::{Decimal, Json, Member};
use scratch_bevy::sb2::document::decode_legacy_project;
use scratch_bevy::sb2::{BasicBlock, Block, DecodeError, DefineProcedure, StageChild, TopLevelScript};
use scratch_bevy::sb4;
use scratch_bevy::sb4::from_sb2::convert_to_canonical;

fn text(s: &str) -> Json {
    Json::String(s.to_string())
}

fn num(n: i64) -> Json {
    Json::Number(Decimal::integer(n))
}

fn arr(items: Vec<Json>) -> Json {
    Json::Array(items)
}

fn obj(members: Vec<(&str, Json)>) -> Json {
    Json::Object(members.into_iter().map(|(k, v)| Member { key: k.to_string(), value: v }).collect())
}

fn costume(name: &str, id: i64, md5: &str) -> Json {
    obj(vec![
        ("costumeName", text(name)),
        ("baseLayerID", num(id)),
        ("baseLayerMD5", text(md5)),
        ("bitmapResolution", num(1)),
        ("rotationCenterX", num(47)),
        ("rotationCenterY", num(55)),
    ])
}

fn sound(name: &str, id: i64, md5: &str) -> Json {
    obj(vec![
        ("soundName", text(name)),
        ("soundID", num(id)),
        ("md5", text(md5)),
        ("sampleCount", num(258)),
        ("rate", num(11025)),
        ("format", text("adpcm")),
    ])
}

fn sprite(name: &str, scale: Json, rotation: &str, costumes: Vec<Json>) -> Json {
    obj(vec![
        ("objName", text(name)),
        ("scripts", arr(vec![arr(vec![num(10), num(20), arr(vec![arr(vec![text("whenGreenFlag")])])])])),
        ("costumes", arr(costumes)),
        ("currentCostumeIndex", num(0)),
        ("scratchX", num(-12)),
        ("scratchY", num(34)),
        ("scale", scale),
        ("direction", num(45)),
        ("rotationStyle", text(rotation)),
        ("isDraggable", Json::Boolean(true)),
        ("indexInLibrary", num(1)),
        ("visible", Json::Boolean(false)),
        ("spriteInfo", obj(vec![])),
    ])
}

fn monitor() -> Json {
    obj(vec![
        ("target", text("Sprite1")),
        ("cmd", text("getVar:")),
        ("param", text("score")),
        ("color", num(15629590)),
        ("label", text("Sprite1: score")),
        ("mode", num(1)),
        ("sliderMin", num(0)),
        ("sliderMax", num(100)),
        ("isDiscrete", Json::Boolean(true)),
        ("x", num(5)),
        ("y", num(5)),
        ("visible", Json::Boolean(true)),
    ])
}

fn info() -> Json {
    obj(vec![
        ("userAgent", text("test")),
        ("flashVersion", text("MAC 32,0,0,0")),
        ("spriteCount", num(1)),
        ("videoOn", Json::Boolean(false)),
        ("scriptCount", num(1)),
        ("swfVersion", text("v461")),
    ])
}

fn project(children: Vec<Json>) -> Json {
    obj(vec![
        ("objName", text("Stage")),
        ("variables", arr(vec![obj(vec![("name", text("score")), ("value", num(0)), ("isPersistent", Json::Boolean(false))])])),
        ("sounds", arr(vec![sound("pop", 0, "83a9787d4cb6f3b7632b4ddfebf74367.wav")])),
        ("costumes", arr(vec![costume("backdrop1", 1, "739b5e2a2435f6e1ec2993791b423146.png")])),
        ("currentCostumeIndex", num(0)),
        ("penLayerMD5", text("5c81a336fab8be57adc039a8a2b33ca9.png")),
        ("tempoBPM", num(60)),
        ("children", arr(children)),
        ("info", info()),
    ])
}

#[test]
fn monitor_beside_sprite_gives_one_sprite_target() {
    let doc = project(vec![monitor(), sprite("Sprite1", num(1), "normal", vec![costume("c1", 2, "aaa.png")])]);
    let legacy = decode_legacy_project(&doc).unwrap().0;
    assert!(matches!(legacy.children[0], StageChild::Monitor(_)));
    assert!(matches!(legacy.children[1], StageChild::Sprite(_)));
    let mut assets = AssetResolver::new();
    let program = convert_to_canonical(&legacy, &mut assets).0;
    assert_eq!(program.sprites.len(), 2);
    assert_eq!(program.sprites[0].name, "Stage");
    assert_eq!(program.sprites[1].name, "Sprite1");
}

#[test]
fn list_child_is_dropped() {
    let list = obj(vec![
        ("listName", text("items")),
        ("contents", arr(vec![text("a"), num(2)])),
        ("isPersistent", Json::Boolean(false)),
    ]);
    let doc = project(vec![list]);
    let legacy = decode_legacy_project(&doc).unwrap().0;
    assert!(matches!(legacy.children[0], StageChild::List(_)));
    let program = convert_to_canonical(&legacy, &mut AssetResolver::new()).0;
    assert_eq!(program.sprites.len(), 1);
}

#[test]
fn costumes_with_same_key_share_one_handle() {
    let doc = project(vec![sprite(
        "Sprite1",
        num(1),
        "normal",
        vec![costume("a", 3, "abc123.png"), costume("b", 7, "abc123.png"), costume("c", 8, "def456.png")],
    )]);
    let legacy = decode_legacy_project(&doc).unwrap().0;
    let mut assets = AssetResolver::new();
    let program = convert_to_canonical(&legacy, &mut assets).0;
    let cs = &program.sprites[1].costumes;
    assert_eq!(cs[0].image, cs[1].image);
    assert_ne!(cs[0].image, cs[2].image);
    // the stage backdrop plus two distinct sprite images
    assert_eq!(assets.images.len(), 3);
    let e = assets.images.entry(cs[0].image.unwrap());
    assert_eq!(e.md5, "abc123");
    assert_eq!(e.extension, "png");
    assert_eq!(e.archive_id, 3);
    assert_eq!(assets.sounds.len(), 1);
}

#[test]
fn stage_gets_the_fixed_transform() {
    let legacy = decode_legacy_project(&project(vec![])).unwrap().0;
    let program = convert_to_canonical(&legacy, &mut AssetResolver::new()).0;
    let stage = &program.sprites[0];
    assert_eq!(stage.x, Decimal::integer(0));
    assert_eq!(stage.y, Decimal::integer(0));
    assert_eq!(stage.scale, Decimal::integer(100));
    assert_eq!(stage.direction, Decimal::integer(90));
    assert_eq!(stage.rotation_style, sb4::RotationStyle::Normal);
    assert!(!stage.is_draggable);
    assert!(stage.is_visible);
    assert_eq!(stage.variables.len(), 1);
    assert_eq!(stage.variables[0].0, "score");
    assert_eq!(legacy.stage.pen_layer_id, 0);
    assert_eq!(legacy.stage.tempo_bpm, Decimal::integer(60));
}

#[test]
fn sprite_keeps_its_transform_with_scale_as_percentage() {
    let doc = project(vec![sprite("S", Json::Number(Decimal::new(15, -1)), "leftRight", vec![])]);
    let legacy = decode_legacy_project(&doc).unwrap().0;
    let program = convert_to_canonical(&legacy, &mut AssetResolver::new()).0;
    let s = &program.sprites[1];
    assert_eq!(s.x, Decimal::integer(-12));
    assert_eq!(s.y, Decimal::integer(34));
    assert_eq!(s.scale, Decimal::new(15, 1));
    assert_eq!(s.direction, Decimal::integer(45));
    assert_eq!(s.rotation_style, sb4::RotationStyle::LeftRight);
    assert!(s.is_draggable);
    assert!(!s.is_visible);
    assert_eq!(s.scripts.len(), 1);
    assert_eq!(s.scripts[0].x, Decimal::integer(10));
    match &s.scripts[0].stack {
        sb4::BlockStack::Script(bs) => assert_eq!(bs[0].opcode, "whenGreenFlag"),
        other => panic!("expected a script, got {:?}", other),
    }
}

#[test]
fn unknown_rotation_style_falls_back_to_normal() {
    let doc = project(vec![sprite("S", num(1), "sideways", vec![])]);
    let legacy = decode_legacy_project(&doc).unwrap().0;
    let program = convert_to_canonical(&legacy, &mut AssetResolver::new()).0;
    assert_eq!(program.sprites[1].rotation_style, sb4::RotationStyle::Normal);
}

#[test]
fn asset_name_without_extension_keeps_costume_without_handle() {
    let doc = project(vec![sprite("S", num(1), "normal", vec![costume("a", 1, "nodot"), costume("b", 2, "ok.png")])]);
    let legacy = decode_legacy_project(&doc).unwrap().0;
    let mut assets = AssetResolver::new();
    let (program, skipped) = convert_to_canonical(&legacy, &mut assets);
    let s = &program.sprites[1];
    assert_eq!(s.costumes.len(), 2);
    assert_eq!(s.costumes[0].image, None);
    assert_eq!(s.costumes[0].name, "a");
    assert!(s.costumes[1].image.is_some());
    assert_eq!(skipped, vec![Vec::<usize>::new(), vec![]]);
    // the stage backdrop and the second costume
    assert_eq!(assets.images.len(), 2);
}

#[test]
fn split_asset_name_at_first_dot() {
    assert_eq!(split_asset_name(&"ab.c.png".to_string()), Some(("ab".to_string(), "c.png".to_string())));
    assert_eq!(split_asset_name(&"abc".to_string()), None);
    assert_eq!(split_asset_name(&".svg".to_string()), Some((String::new(), "svg".to_string())));
}

#[test]
fn project_without_children_is_refused() {
    let doc = obj(vec![("objName", text("Stage")), ("currentCostumeIndex", num(0)), ("info", info())]);
    assert_eq!(decode_legacy_project(&doc).err(), Some(DecodeError::MissingField));
}

#[test]
fn unknown_child_is_skipped_and_reported() {
    let doc = project(vec![
        obj(vec![("what", num(1))]),
        sprite("S", num(1), "normal", vec![]),
        monitor(),
    ]);
    let (legacy, skipped) = decode_legacy_project(&doc).unwrap();
    assert_eq!(skipped, vec![0]);
    assert_eq!(legacy.children.len(), 2);
    assert!(matches!(legacy.children[0], StageChild::Sprite(_)));
    assert!(matches!(legacy.children[1], StageChild::Monitor(_)));
    let (program, _) = convert_to_canonical(&legacy, &mut AssetResolver::new());
    assert_eq!(program.sprites.len(), 2);
}

#[test]
fn unreadable_script_is_skipped_and_reported() {
    let doc = obj(vec![
        ("objName", text("Stage")),
        ("currentCostumeIndex", num(0)),
        (
            "scripts",
            arr(vec![
                arr(vec![num(0), num(0), arr(vec![arr(vec![text("show")]), arr(vec![text("doForever")])])]),
                arr(vec![num(1), num(2), arr(vec![arr(vec![text("hide")])])]),
                text("junk"),
            ]),
        ),
        ("children", arr(vec![])),
        ("info", info()),
    ]);
    let (legacy, _) = decode_legacy_project(&doc).unwrap();
    assert_eq!(legacy.stage.target.skipped_scripts, vec![0, 2]);
    assert_eq!(legacy.stage.target.scripts.len(), 1);
    assert_eq!(legacy.stage.target.scripts[0].x, Decimal::integer(1));
}

#[test]
fn archive_files_are_classified_by_extension_in_any_case() {
    assert_eq!(kind_of_lowercase(&"3.png".to_string()), AssetKind::Bitmap);
    assert_eq!(kind_of_lowercase(&"0.wav".to_string()), AssetKind::Audio);
    assert_eq!(kind_of_lowercase(&"1.mp3".to_string()), AssetKind::Audio);
    assert_eq!(kind_of_lowercase(&"project.json".to_string()), AssetKind::Document);
    assert_eq!(kind_of_lowercase(&"2.svg".to_string()), AssetKind::Unrecognized);
    assert_eq!(kind_of_lowercase(&"png".to_string()), AssetKind::Unrecognized);
    assert_eq!(kind_of_file_name(&"4.PNG".to_string()), AssetKind::Bitmap);
    assert_eq!(kind_of_file_name(&"Project.JSON".to_string()), AssetKind::Document);
    assert!(is_vector_image(&"SVG".to_string()));
    assert!(is_vector_image(&"svg".to_string()));
    assert!(!is_vector_image(&"png".to_string()));
}

#[test]
fn script_with_misplaced_procedure_head_is_left_out_of_conversion() {
    let mut legacy = decode_legacy_project(&project(vec![])).unwrap().0;
    let head = || {
        Block::DefineProcedure(DefineProcedure {
            opcode: "procDef".to_string(),
            spec: "p".to_string(),
            parameter_names: vec![],
            default_arg_values: vec![],
            run_without_screen_refresh: false,
        })
    };
    legacy.stage.target.scripts.push(TopLevelScript {
        x: Decimal::integer(0),
        y: Decimal::integer(0),
        script: vec![head(), Block::Basic(BasicBlock { opcode: "show".to_string(), args: vec![] })],
    });
    let (program, skipped) = convert_to_canonical(&legacy, &mut AssetResolver::new());
    assert_eq!(skipped, vec![Vec::<usize>::new()]);
    match &program.sprites[0].scripts[0].stack {
        sb4::BlockStack::Definition(d) => {
            assert_eq!(d.spec, "p");
            assert_eq!(d.body.len(), 1);
            assert_eq!(d.body[0].opcode, "show");
        },
        other => panic!("expected a procedure, got {:?}", other),
    }
    legacy.stage.target.scripts.push(TopLevelScript {
        x: Decimal::integer(0),
        y: Decimal::integer(0),
        script: vec![Block::Basic(BasicBlock { opcode: "show".to_string(), args: vec![] }), head()],
    });
    let (program, skipped) = convert_to_canonical(&legacy, &mut AssetResolver::new());
    assert_eq!(skipped, vec![vec![1]]);
    assert_eq!(program.sprites[0].scripts.len(), 1);
}

#[test]
fn scale_percentage_when_exponent_has_no_room() {
    let big = Decimal::new(3, i32::MAX);
    assert_eq!(big.as_percent(), Decimal::new(300, i32::MAX));
    assert_eq!(Decimal::new(0, i32::MAX).as_percent(), Decimal::new(0, i32::MAX));
    assert_eq!(Decimal::new(i64::MAX, i32::MAX).as_percent(), Decimal::integer(100));
    assert_eq!(Decimal::new(15, -1).as_percent(), Decimal::new(15, 1));
}

#[test]
fn unknown_info_members_are_kept_in_order() {
    let mut doc = project(vec![]);
    if let Json::Object(members) = &mut doc {
        for m in members.iter_mut() {
            if m.key == "info" {
                if let Json::Object(info_members) = &mut m.value {
                    info_members.push(Member { key: "projectID".to_string(), value: text("12345") });
                    info_members.insert(0, Member { key: "hasCloudData".to_string(), value: Json::Boolean(false) });
                }
            }
        }
    }
    let (legacy, _) = decode_legacy_project(&doc).unwrap();
    assert_eq!(legacy.info.user_agent, "test");
    assert_eq!(
        legacy.info.other_info,
        vec![
            Member { key: "hasCloudData".to_string(), value: Json::Boolean(false) },
            Member { key: "projectID".to_string(), value: text("12345") },
        ]
    );
}
