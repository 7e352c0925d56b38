use scratch_bevy::json::{Decimal, Json};
use scratch_bevy::sb2::decode::{decode_block, decode_branch, shape_of_opcode};
use scratch_bevy::sb2::document::decode_script;
use scratch_bevy::sb2::encode::encode_block;
use scratch_bevy::sb2::{BasicBlock, Block, BlockArgument, DecodeError, Shape};

fn text(s: &str) -> Json {
    Json::String(s.to_string())
}

fn num(n: i64) -> Json {
    Json::Number(Decimal::integer(n))
}

fn arr(items: Vec<Json>) -> Json {
    Json::Array(items)
}

fn leaf(op: &str) -> Block {
    Block::Basic(BasicBlock { opcode: op.to_string(), args: vec![] })
}

#[test]
fn if_else_with_branches_of_blocks_decodes_to_two_branches() {
    let input = arr(vec![text("ifElse"), num(5), arr(vec![arr(vec![text("foo")])]), arr(vec![arr(vec![text("bar")])])]);
    let b = decode_block(&input, Shape::TwoBranch).unwrap();
    match b {
        Block::E(e) => {
            assert_eq!(e.opcode, "ifElse");
            assert_eq!(e.args, vec![BlockArgument::Number(Decimal::integer(5))]);
            assert_eq!(e.branch0, vec![leaf("foo")]);
            assert_eq!(e.branch1, vec![leaf("bar")]);
        },
        other => panic!("expected a two-branch block, got {:?}", other),
    }
}

#[test]
fn if_else_with_bare_block_branches_is_refused() {
    let input = arr(vec![text("ifElse"), num(5), arr(vec![text("foo")]), arr(vec![text("bar")])]);
    assert_eq!(decode_block(&input, Shape::TwoBranch), Err(DecodeError::InvalidBranch));
}

#[test]
fn opcode_only_leaf_has_no_arguments_and_round_trips() {
    for op in ["show", "hide", "nextCostume"] {
        let input = arr(vec![text(op)]);
        let b = decode_block(&input, Shape::Leaf).unwrap();
        assert_eq!(b, leaf(op));
        assert_eq!(encode_block(&b), input);
    }
}

#[test]
fn one_branch_round_trip_for_zero_to_six_arguments() {
    for n in 0..=6i64 {
        let mut items = vec![text("doRepeat")];
        for k in 0..n {
            if k % 2 == 0 {
                items.push(num(k));
            } else {
                items.push(text("x"));
            }
        }
        items.push(arr(vec![arr(vec![text("forward:"), num(10)]), arr(vec![text("turnRight:"), num(15)])]));
        let input = arr(items);
        let b = decode_block(&input, Shape::OneBranch).unwrap();
        match &b {
            Block::C(c) => {
                assert_eq!(c.args.len() as i64, n);
                assert_eq!(c.branch.len(), 2);
            },
            other => panic!("expected a one-branch block, got {:?}", other),
        }
        assert_eq!(encode_block(&b), input);
    }
}

#[test]
fn two_branch_keeps_last_argument_and_first_branch_apart() {
    for n in 0..=5i64 {
        let mut items = vec![text("doIfElse")];
        for k in 0..n {
            items.push(num(k + 1));
        }
        items.push(arr(vec![arr(vec![text("a")])]));
        items.push(arr(vec![]));
        let input = arr(items);
        let b = decode_block(&input, Shape::TwoBranch).unwrap();
        match &b {
            Block::E(e) => {
                assert_eq!(e.args.len() as i64, n);
                if n > 0 {
                    assert_eq!(e.args[(n - 1) as usize], BlockArgument::Number(Decimal::integer(n)));
                }
                assert_eq!(e.branch0, vec![leaf("a")]);
                assert_eq!(e.branch1, vec![]);
            },
            other => panic!("expected a two-branch block, got {:?}", other),
        }
        assert_eq!(encode_block(&b), input);
    }
}

#[test]
fn reporter_argument_is_a_nested_block() {
    let input = arr(vec![text("say:"), arr(vec![text("+"), num(1), num(2)])]);
    let b = decode_block(&input, Shape::Leaf).unwrap();
    let expected = Block::Basic(BasicBlock {
        opcode: "say:".to_string(),
        args: vec![BlockArgument::Reporter(BasicBlock {
            opcode: "+".to_string(),
            args: vec![BlockArgument::Number(Decimal::integer(1)), BlockArgument::Number(Decimal::integer(2))],
        })],
    });
    assert_eq!(b, expected);
    assert_eq!(encode_block(&b), input);
}

#[test]
fn nested_blocks_take_their_layout_from_the_opcode() {
    let branch = arr(vec![
        arr(vec![text("doForever"), arr(vec![arr(vec![text("turnRight:"), num(1)])])]),
        arr(vec![text("doIfElse"), Json::Boolean(true), arr(vec![]), arr(vec![])]),
    ]);
    let bs = decode_branch(&branch).unwrap();
    assert!(matches!(bs[0], Block::C(_)));
    assert!(matches!(bs[1], Block::E(_)));
}

#[test]
fn shape_table_lookups() {
    assert_eq!(shape_of_opcode(&"doIfElse".to_string()), Shape::TwoBranch);
    assert_eq!(shape_of_opcode(&"doForever".to_string()), Shape::OneBranch);
    assert_eq!(shape_of_opcode(&"doRepeat".to_string()), Shape::OneBranch);
    assert_eq!(shape_of_opcode(&"procDef".to_string()), Shape::ProcedureDefinition);
    assert_eq!(shape_of_opcode(&"forward:".to_string()), Shape::Leaf);
    assert_eq!(shape_of_opcode(&"ifElse".to_string()), Shape::Leaf);
}

#[test]
fn procedure_head_is_accepted_first_in_a_script() {
    let head = || {
        arr(vec![text("procDef"), text("jump %n"), arr(vec![text("height")]), arr(vec![num(10)]), Json::Boolean(false)])
    };
    let script = arr(vec![head(), arr(vec![text("changeYposBy:"), num(10)])]);
    let bs = decode_script(&script).unwrap();
    match &bs[0] {
        Block::DefineProcedure(d) => {
            assert_eq!(d.spec, "jump %n");
            assert_eq!(d.parameter_names, vec!["height".to_string()]);
            assert!(!d.run_without_screen_refresh);
        },
        other => panic!("expected a procedure head, got {:?}", other),
    }
    assert_eq!(encode_block(&bs[0]), head());
}

#[test]
fn procedure_head_after_the_first_block_is_refused() {
    let head = arr(vec![text("procDef"), text("p"), arr(vec![]), arr(vec![]), Json::Boolean(true)]);
    let script = arr(vec![arr(vec![text("whenGreenFlag")]), head]);
    assert_eq!(decode_script(&script), Err(DecodeError::MisplacedProcedureDefinition));
    let nested = arr(vec![
        text("doForever"),
        arr(vec![arr(vec![text("procDef"), text("p"), arr(vec![]), arr(vec![]), Json::Boolean(true)])]),
    ]);
    assert!(decode_block(&nested, Shape::OneBranch).is_err());
}

#[test]
fn decode_errors_name_what_is_missing() {
    assert_eq!(decode_block(&text("x"), Shape::Leaf), Err(DecodeError::NotABlock));
    assert_eq!(decode_block(&arr(vec![]), Shape::Leaf), Err(DecodeError::MissingOpcode));
    assert_eq!(decode_block(&arr(vec![num(1)]), Shape::OneBranch), Err(DecodeError::MissingOpcode));
    assert_eq!(decode_block(&arr(vec![text("doForever")]), Shape::OneBranch), Err(DecodeError::MissingBranch));
    assert_eq!(
        decode_block(&arr(vec![text("doIfElse"), arr(vec![])]), Shape::TwoBranch),
        Err(DecodeError::MissingBranch)
    );
    assert_eq!(decode_block(&arr(vec![text("say:"), Json::Null]), Shape::Leaf), Err(DecodeError::InvalidArgument));
    assert_eq!(
        decode_block(&arr(vec![text("doForever"), Json::Null]), Shape::OneBranch),
        Err(DecodeError::InvalidBranch)
    );
    assert_eq!(
        decode_block(&arr(vec![text("procDef"), text("p")]), Shape::ProcedureDefinition),
        Err(DecodeError::InvalidProcedureDefinition)
    );
    assert_eq!(decode_script(&num(3)), Err(DecodeError::NotAScript));
}
