use lsystem::grammar::{find_action, find_rule, Action};
use lsystem::rewrite::{expand, rewrite_once};
use lsystem::system::{LindenmeyerSystem, LindenmeyerSystemPreset};
use lsystem::turtle::{interpret, PathCommand, TurtleError};

fn chars(s: &str) -> Vec<char> {
    s.chars().collect()
}

fn text(v: &[char]) -> String {
    v.iter().collect()
}

fn degree_steps(length: f64) -> Vec<(i32, i32)> {
    (0..360)
        .map(|d| {
            let a = (d as f64).to_radians();
            ((length * a.cos()) as i32, (length * a.sin()) as i32)
        })
        .collect()
}

fn dragon_rules() -> Vec<(char, Vec<char>)> {
    vec![
        ('F', chars("F+G")),
        ('G', chars("F-G")),
        ('+', chars("+")),
        ('-', chars("-")),
    ]
}

fn bracket_actions() -> Vec<(char, Action)> {
    vec![
        ('A', Action::Forward),
        ('B', Action::Forward),
        ('C', Action::Forward),
        ('[', Action::Push),
        (']', Action::Pop),
        ('+', Action::IncrementAngle),
        ('-', Action::DecrementAngle),
        ('X', Action::NoOp),
    ]
}

#[test]
fn dragon_generations() {
    let rules = dragon_rules();
    assert_eq!(text(&expand(&chars("F"), &rules, 1)), "F+G");
    assert_eq!(text(&expand(&chars("F"), &rules, 2)), "F+G+F-G");
}

#[test]
fn zero_generations_keep_start() {
    let rules = dragon_rules();
    assert_eq!(text(&expand(&chars("F-G+"), &rules, 0)), "F-G+");
}

#[test]
fn rewrite_once_replaces_in_order() {
    let rules = dragon_rules();
    assert_eq!(text(&rewrite_once(&chars("GF"), &rules)), "F-GF+G");
    assert_eq!(text(&rewrite_once(&chars(""), &rules)), "");
}

#[test]
fn growth_never_shrinks() {
    let system = LindenmeyerSystem::from_preset(LindenmeyerSystemPreset::Plant);
    let mut previous = system.expand(0).len();
    for k in 1..5 {
        let now = system.expand(k).len();
        assert!(now >= previous);
        previous = now;
    }
}

#[test]
fn expand_and_interpret_are_deterministic() {
    let system = LindenmeyerSystem::from_preset(LindenmeyerSystemPreset::Tree);
    let a = system.expand(4);
    let b = system.expand(4);
    assert_eq!(a, b);
    let steps = degree_steps(10.0);
    assert_eq!(system.interpret(&a, &steps), system.interpret(&b, &steps));
}

#[test]
fn bracket_excursion_returns() {
    let steps = degree_steps(10.0);
    let actions = bracket_actions();
    let with = interpret(&chars("A[B]C"), &actions, 0, &steps).unwrap();
    assert_eq!(
        with,
        vec![
            PathCommand::MoveTo(0, 0),
            PathCommand::LineBy(10, 0),
            PathCommand::LineBy(10, 0),
            PathCommand::MoveTo(10, 0),
            PathCommand::LineBy(10, 0),
        ]
    );
    let without = interpret(&chars("AC"), &actions, 0, &steps).unwrap();
    assert_eq!(
        without,
        vec![PathCommand::MoveTo(0, 0), PathCommand::LineBy(10, 0), PathCommand::LineBy(10, 0)]
    );
}

#[test]
fn turns_accumulate_before_forward() {
    let steps = degree_steps(10.0);
    let path = interpret(&chars("++A"), &bracket_actions(), 90, &steps).unwrap();
    assert_eq!(path, vec![PathCommand::MoveTo(0, 0), PathCommand::LineBy(-10, 0)]);
}

#[test]
fn decrement_wraps_below_zero() {
    let steps = degree_steps(10.0);
    let path = interpret(&chars("-A"), &bracket_actions(), 90, &steps).unwrap();
    assert_eq!(path, vec![PathCommand::MoveTo(0, 0), PathCommand::LineBy(0, -10)]);
}

#[test]
fn full_turn_comes_back() {
    let steps = degree_steps(10.0);
    let path = interpret(&chars("++++A"), &bracket_actions(), 450, &steps).unwrap();
    assert_eq!(path, vec![PathCommand::MoveTo(0, 0), PathCommand::LineBy(10, 0)]);
}

#[test]
fn pop_on_empty_stack_fails_at_symbol() {
    let steps = degree_steps(10.0);
    let actions = bracket_actions();
    assert_eq!(
        interpret(&chars("A]A"), &actions, 0, &steps),
        Err(TurtleError::StackUnderflow(1))
    );
    assert_eq!(
        interpret(&chars("[]]]"), &actions, 0, &steps),
        Err(TurtleError::StackUnderflow(2))
    );
}

#[test]
fn empty_string_draws_origin_move() {
    let steps = degree_steps(10.0);
    let path = interpret(&chars(""), &bracket_actions(), 0, &steps).unwrap();
    assert_eq!(path, vec![PathCommand::MoveTo(0, 0)]);
}

#[test]
fn noop_draws_nothing() {
    let steps = degree_steps(10.0);
    let path = interpret(&chars("XAX"), &bracket_actions(), 0, &steps).unwrap();
    assert_eq!(path, vec![PathCommand::MoveTo(0, 0), PathCommand::LineBy(10, 0)]);
}

#[test]
fn later_entry_wins() {
    let actions = vec![('F', Action::Forward), ('F', Action::NoOp)];
    assert_eq!(find_action(&actions, 'F'), Some(Action::NoOp));
    assert_eq!(find_action(&actions, 'G'), None);
    let rules = vec![('F', chars("FF")), ('F', chars("F"))];
    assert_eq!(find_rule(&rules, 'F'), Some(1));
    assert_eq!(find_rule(&rules, 'x'), None);
}

#[test]
fn preset_values() {
    assert_eq!(LindenmeyerSystem::recommended_generations(LindenmeyerSystemPreset::HeighwayDragon), 16);
    assert_eq!(LindenmeyerSystem::recommended_generations(LindenmeyerSystemPreset::Plant), 6);
    assert_eq!(LindenmeyerSystem::recommended_generations(LindenmeyerSystemPreset::Tree), 7);
    let dragon = LindenmeyerSystem::from_preset(LindenmeyerSystemPreset::HeighwayDragon);
    assert_eq!(dragon.angle_delta, 90);
    assert_eq!(text(&dragon.expand(2)), "F+G+F-G");
    let tree = LindenmeyerSystem::from_preset(LindenmeyerSystemPreset::Tree);
    assert_eq!(tree.angle_delta, 30);
    assert_eq!(text(&tree.expand(1)), "1[l0]r0");
    let plant = LindenmeyerSystem::from_preset(LindenmeyerSystemPreset::Plant);
    assert_eq!(plant.angle_delta, 25);
    assert_eq!(text(&plant.expand(1)), "F+[[X]-X]-F[-FX]+X");
}

#[test]
fn presets_draw_without_underflow() {
    let steps = degree_steps(10.0);
    for preset in [
        LindenmeyerSystemPreset::HeighwayDragon,
        LindenmeyerSystemPreset::Plant,
        LindenmeyerSystemPreset::Tree,
    ] {
        let system = LindenmeyerSystem::from_preset(preset);
        let s = system.expand(5);
        let path = system.interpret(&s, &steps).unwrap();
        assert_eq!(path[0], PathCommand::MoveTo(0, 0));
        assert!(path.len() > 1);
    }
}

#[test]
fn tree_first_generation_path() {
    let steps = degree_steps(10.0);
    let tree = LindenmeyerSystem::from_preset(LindenmeyerSystemPreset::Tree);
    let path = tree.interpret(&tree.expand(1), &steps).unwrap();
    // 1 [ l 0 ] r 0 at 30 degrees a step; 10 * sin 30 truncates to 4
    assert_eq!(
        path,
        vec![
            PathCommand::MoveTo(0, 0),
            PathCommand::LineBy(10, 0),
            PathCommand::LineBy(8, 4),
            PathCommand::MoveTo(10, 0),
            PathCommand::LineBy(8, -5),
        ]
    );
}
