use scratch_bevy::json::Decimal;
use scratch_bevy::sb4;
use scratch_bevy::virtual_machine::runtime::{
    Scheduler, StepOutcome, TICK_PERIOD_NANOS, WORK_BUDGET_NANOS,
};
use scratch_bevy::virtual_machine::VirtualMachine;

fn block(op: &str, branches: Vec<Vec<sb4::Block>>) -> sb4::Block {
    sb4::Block { opcode: op.to_string(), arguments: vec![], branches }
}

fn forever_sprite(name: &str) -> sb4::Sprite {
    let script = vec![
        block("whenGreenFlag", vec![]),
        block("doForever", vec![vec![block("turnRight:", vec![])]]),
    ];
    sb4::Sprite {
        name: name.to_string(),
        scripts: vec![sb4::TopLevelItem {
            x: Decimal::integer(0),
            y: Decimal::integer(0),
            stack: sb4::BlockStack::Script(script),
        }],
        sounds: vec![],
        costumes: vec![],
        x: Decimal::integer(0),
        y: Decimal::integer(0),
        scale: Decimal::integer(100),
        direction: Decimal::integer(90),
        rotation_style: sb4::RotationStyle::Normal,
        is_draggable: false,
        is_visible: true,
        variables: vec![],
        lists: vec![],
        current_costume: 0,
    }
}

#[test]
fn budget_is_three_quarters_of_the_tick() {
    assert_eq!(TICK_PERIOD_NANOS, 33_333_333);
    assert_eq!(WORK_BUDGET_NANOS, 25_000_000);
    assert_eq!(TICK_PERIOD_NANOS / 4 * 3, 24_999_999);
}

#[test]
fn two_infinite_loops_both_run_and_tick_stops_within_one_step_of_budget() {
    let project = sb4::Project { sprites: vec![forever_sprite("A"), forever_sprite("B")] };
    let mut vm = VirtualMachine::spawn_from(project, 1);
    let start: u64 = 1_000_000_000;
    let step_cost: u64 = 3_000_000;
    vm.reset_work_timer(start);
    vm.start_hats(&"whenGreenFlag".to_string());
    assert_eq!(vm.scheduler.len(), 2);
    let mut now = start;
    let mut stepped = [0u32; 2];
    while let Some(i) = vm.step_threads(now) {
        assert!(now - start <= WORK_BUDGET_NANOS);
        let target = vm.scheduler.threads_ref()[i].target;
        stepped[target] += 1;
        now += step_cost;
        vm.end_step(i, StepOutcome::Yielded { pc: 1 });
    }
    assert!(stepped[0] >= 1 && stepped[1] >= 1);
    assert!(stepped[0].abs_diff(stepped[1]) <= 1);
    assert!(now - start <= WORK_BUDGET_NANOS + step_cost);
    assert!(now - start > WORK_BUDGET_NANOS);
    assert_eq!(vm.scheduler.len(), 2);
}

#[test]
fn hats_do_not_start_twice() {
    let project = sb4::Project { sprites: vec![forever_sprite("A")] };
    let mut vm = VirtualMachine::spawn_from(project, 0);
    vm.reset_work_timer(0);
    vm.start_hats(&"whenGreenFlag".to_string());
    vm.start_hats(&"whenGreenFlag".to_string());
    assert_eq!(vm.scheduler.len(), 1);
    vm.start_hats(&"whenKeyPressed".to_string());
    assert_eq!(vm.scheduler.len(), 1);
}

#[test]
fn finished_and_faulted_threads_are_removed() {
    let project = sb4::Project { sprites: vec![forever_sprite("A"), forever_sprite("B")] };
    let mut vm = VirtualMachine::spawn_from(project, 0);
    vm.reset_work_timer(0);
    vm.start_hats(&"whenGreenFlag".to_string());
    let i = vm.step_threads(0).unwrap();
    assert_eq!(i, 0);
    vm.end_step(i, StepOutcome::Finished);
    assert_eq!(vm.scheduler.len(), 1);
    let j = vm.step_threads(1).unwrap();
    vm.end_step(j, StepOutcome::Fault);
    assert_eq!(vm.scheduler.len(), 0);
    assert_eq!(vm.step_threads(2), None);
}

#[test]
fn no_step_begins_after_the_budget() {
    let mut s = Scheduler::new(100);
    s.begin_tick(50);
    assert!(s.start_thread(0, 0));
    assert!(!s.start_thread(0, 0));
    assert_eq!(s.next_thread(150), Some(0));
    assert_eq!(s.next_thread(151), None);
    assert_eq!(s.next_thread(10), Some(0));
}

#[test]
fn picks_rotate_over_threads() {
    let mut s = Scheduler::new(1_000);
    s.begin_tick(0);
    s.start_thread(0, 0);
    s.start_thread(1, 0);
    s.start_thread(2, 0);
    let picks: Vec<usize> = (0..6).map(|_| s.next_thread(0).unwrap()).collect();
    assert_eq!(picks, vec![0, 1, 2, 0, 1, 2]);
    s.begin_tick(2_000);
    assert_eq!(s.next_thread(2_000), Some(0));
}

#[test]
fn install_replaces_the_machine_with_a_new_generation() {
    let mut vm = VirtualMachine::spawn_from(sb4::Project { sprites: vec![forever_sprite("A")] }, 4);
    vm.reset_work_timer(0);
    vm.start_hats(&"whenGreenFlag".to_string());
    vm.install(sb4::Project { sprites: vec![forever_sprite("B"), forever_sprite("C")] });
    assert_eq!(vm.generation, 5);
    assert_eq!(vm.sprites.len(), 2);
    assert_eq!(vm.targets[1].sprite, 1);
    assert_eq!(vm.sprites[1].name, "C");
    assert_eq!(vm.scheduler.len(), 0);
}

#[test]
fn later_variable_of_the_same_name_wins() {
    let mut s = forever_sprite("A");
    let var = |n: i64| sb4::Variable { value: sb4::Value::Number(Decimal::integer(n)), is_cloud: false };
    s.variables = vec![("a".to_string(), var(1)), ("b".to_string(), var(2)), ("a".to_string(), var(3))];
    s.lists = vec![("l".to_string(), sb4::List { values: vec![], is_cloud: true })];
    let vm = VirtualMachine::spawn_from(sb4::Project { sprites: vec![s] }, 0);
    let t = &vm.targets[0];
    assert_eq!(t.variable(&"a".to_string()), Some(&var(3)));
    assert_eq!(t.variable(&"b".to_string()), Some(&var(2)));
    assert_eq!(t.variable(&"c".to_string()), None);
    assert!(t.list(&"l".to_string()).unwrap().is_cloud);
    assert_eq!(t.list(&"m".to_string()), None);
}

#[test]
fn short_ticks_still_reach_every_thread() {
    let mut s = Scheduler::new(10);
    s.begin_tick(0);
    s.start_thread(0, 0);
    s.start_thread(1, 0);
    s.start_thread(2, 0);
    let mut picked = vec![];
    for tick in 0..6u64 {
        let start = tick * 100;
        s.begin_tick(start);
        // one step per tick: the step takes longer than the budget
        let i = s.next_thread(start).unwrap();
        picked.push(i);
        assert_eq!(s.next_thread(start + 11), None);
    }
    assert_eq!(picked, vec![0, 1, 2, 0, 1, 2]);
}
