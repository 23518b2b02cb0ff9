use vstd::prelude::*;

use crate::grammar::{action_map, rule_map, Action};
use crate::rewrite::{expand, generate, lemma_generate_symbols, rules_closed, symbols_in};
use crate::turtle::{interpret, walk, PathCommand, TurtleError};

verus! {

/// The built-in grammars.
#[derive(Clone, Copy, Debug, PartialEq, Eq, Structural)]
pub enum LindenmeyerSystemPreset {
    HeighwayDragon,
    Plant,
    Tree,
}

/// A grammar: its start string, its production rules, the action of each
/// symbol, and the turn of one angle step, in degrees.
pub struct LindenmeyerSystem {
    pub actions: Vec<(char, Action)>,
    pub angle_delta: usize,
    pub start: Vec<char>,
    pub rules: Vec<(char, Vec<char>)>,
}

impl LindenmeyerSystem {
    /// Every symbol of the start string and of each replacement has a rule,
    /// and every symbol with a rule has an action.
    pub open spec fn wf(&self) -> bool {
        &&& rules_closed(rule_map(self.rules@))
        &&& symbols_in(self.start@, rule_map(self.rules@).dom())
        &&& rule_map(self.rules@).dom().subset_of(action_map(self.actions@).dom())
    }

    /// The string after `generations` rewrites of the start string; every
    /// symbol of it has an action.
    pub fn expand(&self, generations: u32) -> (r: Vec<char>)
        requires
            self.wf(),
        ensures
            r@ == generate(self.start@, rule_map(self.rules@), generations as nat),
            symbols_in(r@, action_map(self.actions@).dom()),
    {
        let r = expand(&self.start, &self.rules, generations);
        proof {
            lemma_generate_symbols(self.start@, rule_map(self.rules@), generations as nat);
            assert forall|i: int| 0 <= i < r@.len() implies action_map(self.actions@).dom().contains(
                #[trigger] r@[i],
            ) by {
                assert(rule_map(self.rules@).dom().contains(r@[i]));
            }
        }
        r
    }

    /// The path that the turtle draws for `syms` under this grammar's
    /// actions and angle step; `steps[h]` is the move at heading `h`.
    pub fn interpret(&self, syms: &Vec<char>, steps: &Vec<(i32, i32)>) -> (r: Result<
        Vec<PathCommand>,
        TurtleError,
    >)
        requires
            symbols_in(syms@, action_map(self.actions@).dom()),
            steps@.len() > 0,
            syms@.len() <= u32::MAX,
        ensures
            match walk(syms@, action_map(self.actions@), self.angle_delta as int, steps@) {
                Ok(w) => r is Ok && r->Ok_0@ == w.path,
                Err(e) => r == Err::<Vec<PathCommand>, TurtleError>(
                    TurtleError::StackUnderflow(e as usize),
                ),
            },
    {
        interpret(syms, &self.actions, self.angle_delta, steps)
    }

    /// The generation count that suits each preset.
    pub fn recommended_generations(preset: LindenmeyerSystemPreset) -> (r: u8)
        ensures
            r == match preset {
                LindenmeyerSystemPreset::HeighwayDragon => 16u8,
                LindenmeyerSystemPreset::Plant => 6u8,
                LindenmeyerSystemPreset::Tree => 7u8,
            },
    {
        match preset {
            LindenmeyerSystemPreset::HeighwayDragon => 16,
            LindenmeyerSystemPreset::Plant => 6,
            LindenmeyerSystemPreset::Tree => 7,
        }
    }

    /// The grammar of a preset.
    pub fn from_preset(preset: LindenmeyerSystemPreset) -> (r: Self)
        ensures
            r.wf(),
            r.angle_delta == preset_angle(preset),
            r.start@ == preset_start(preset),
            rule_map(r.rules@) == preset_rules(preset),
            action_map(r.actions@) == preset_actions(preset),
    {
        let mut actions: Vec<(char, Action)> = Vec::new();
        let mut rules: Vec<(char, Vec<char>)> = Vec::new();
        match preset {
            LindenmeyerSystemPreset::HeighwayDragon => {
                add_action(&mut actions, 'F', Action::Forward);
                add_action(&mut actions, 'G', Action::Forward);
                add_action(&mut actions, '+', Action::IncrementAngle);
                add_action(&mut actions, '-', Action::DecrementAngle);
                let v = vec!['F', '+', 'G'];
                assert(v@ =~= seq!['F', '+', 'G']);
                add_rule(&mut rules, 'F', v);
                let v = vec!['F', '-', 'G'];
                assert(v@ =~= seq!['F', '-', 'G']);
                add_rule(&mut rules, 'G', v);
                let v = vec!['+'];
                assert(v@ =~= seq!['+']);
                add_rule(&mut rules, '+', v);
                let v = vec!['-'];
                assert(v@ =~= seq!['-']);
                add_rule(&mut rules, '-', v);
                proof {
                    lemma_preset_complete(preset);
                }
                LindenmeyerSystem { actions, angle_delta: 90, start: vec!['F'], rules }
            },
            LindenmeyerSystemPreset::Plant => {
                add_action(&mut actions, 'X', Action::NoOp);
                add_action(&mut actions, 'F', Action::Forward);
                add_action(&mut actions, '+', Action::IncrementAngle);
                add_action(&mut actions, '-', Action::DecrementAngle);
                add_action(&mut actions, '[', Action::Push);
                add_action(&mut actions, ']', Action::Pop);
                let v = vec!['F', '+', '[', '[', 'X', ']', '-', 'X', ']', '-', 'F', '[', '-', 'F', 'X', ']', '+', 'X'];
                assert(v@ =~= seq!['F', '+', '[', '[', 'X', ']', '-', 'X', ']', '-', 'F', '[', '-', 'F', 'X', ']', '+', 'X']);
                add_rule(&mut rules, 'X', v);
                let v = vec!['F', 'F'];
                assert(v@ =~= seq!['F', 'F']);
                add_rule(&mut rules, 'F', v);
                let v = vec!['+'];
                assert(v@ =~= seq!['+']);
                add_rule(&mut rules, '+', v);
                let v = vec!['-'];
                assert(v@ =~= seq!['-']);
                add_rule(&mut rules, '-', v);
                let v = vec!['['];
                assert(v@ =~= seq!['[']);
                add_rule(&mut rules, '[', v);
                let v = vec![']'];
                assert(v@ =~= seq![']']);
                add_rule(&mut rules, ']', v);
                proof {
                    lemma_preset_complete(preset);
                }
                LindenmeyerSystem { actions, angle_delta: 25, start: vec!['X'], rules }
            },
            LindenmeyerSystemPreset::Tree => {
                add_action(&mut actions, '0', Action::Forward);
                add_action(&mut actions, '1', Action::Forward);
                add_action(&mut actions, 'l', Action::IncrementAngle);
                add_action(&mut actions, 'r', Action::DecrementAngle);
                add_action(&mut actions, '[', Action::Push);
                add_action(&mut actions, ']', Action::Pop);
                let v = vec!['1', '[', 'l', '0', ']', 'r', '0'];
                assert(v@ =~= seq!['1', '[', 'l', '0', ']', 'r', '0']);
                add_rule(&mut rules, '0', v);
                let v = vec!['1', '1'];
                assert(v@ =~= seq!['1', '1']);
                add_rule(&mut rules, '1', v);
                let v = vec!['l'];
                assert(v@ =~= seq!['l']);
                add_rule(&mut rules, 'l', v);
                let v = vec!['r'];
                assert(v@ =~= seq!['r']);
                add_rule(&mut rules, 'r', v);
                let v = vec!['['];
                assert(v@ =~= seq!['[']);
                add_rule(&mut rules, '[', v);
                let v = vec![']'];
                assert(v@ =~= seq![']']);
                add_rule(&mut rules, ']', v);
                proof {
                    lemma_preset_complete(preset);
                }
                LindenmeyerSystem { actions, angle_delta: 30, start: vec!['0'], rules }
            },
        }
    }
}

fn add_action(t: &mut Vec<(char, Action)>, c: char, a: Action)
    ensures
        action_map(final(t)@) == action_map(old(t)@).insert(c, a),
{
    t.push((c, a));
    assert(final(t)@.drop_last() =~= old(t)@);
}

fn add_rule(t: &mut Vec<(char, Vec<char>)>, c: char, rep: Vec<char>)
    ensures
        rule_map(final(t)@) == rule_map(old(t)@).insert(c, rep@),
{
    t.push((c, rep));
    assert(final(t)@.drop_last() =~= old(t)@);
}

/// The turn of one angle step of each preset, in degrees.
pub open spec fn preset_angle(p: LindenmeyerSystemPreset) -> usize {
    match p {
        LindenmeyerSystemPreset::HeighwayDragon => 90,
        LindenmeyerSystemPreset::Plant => 25,
        LindenmeyerSystemPreset::Tree => 30,
    }
}

/// The start string of each preset.
pub open spec fn preset_start(p: LindenmeyerSystemPreset) -> Seq<char> {
    match p {
        LindenmeyerSystemPreset::HeighwayDragon => seq!['F'],
        LindenmeyerSystemPreset::Plant => seq!['X'],
        LindenmeyerSystemPreset::Tree => seq!['0'],
    }
}

/// The production rules of each preset.
pub open spec fn preset_rules(p: LindenmeyerSystemPreset) -> Map<char, Seq<char>> {
    match p {
        LindenmeyerSystemPreset::HeighwayDragon => Map::empty().insert('F', seq!['F', '+', 'G']).insert('G', seq!['F', '-', 'G']).insert('+', seq!['+']).insert('-', seq!['-']),
        LindenmeyerSystemPreset::Plant => Map::empty().insert('X', seq!['F', '+', '[', '[', 'X', ']', '-', 'X', ']', '-', 'F', '[', '-', 'F', 'X', ']', '+', 'X']).insert('F', seq!['F', 'F']).insert('+', seq!['+']).insert('-', seq!['-']).insert('[', seq!['[']).insert(']', seq![']']),
        LindenmeyerSystemPreset::Tree => Map::empty().insert('0', seq!['1', '[', 'l', '0', ']', 'r', '0']).insert('1', seq!['1', '1']).insert('l', seq!['l']).insert('r', seq!['r']).insert('[', seq!['[']).insert(']', seq![']']),
    }
}

/// The action of each symbol of each preset.
pub open spec fn preset_actions(p: LindenmeyerSystemPreset) -> Map<char, Action> {
    match p {
        LindenmeyerSystemPreset::HeighwayDragon => Map::empty().insert('F', Action::Forward).insert('G', Action::Forward).insert('+', Action::IncrementAngle).insert('-', Action::DecrementAngle),
        LindenmeyerSystemPreset::Plant => Map::empty().insert('X', Action::NoOp).insert('F', Action::Forward).insert('+', Action::IncrementAngle).insert('-', Action::DecrementAngle).insert('[', Action::Push).insert(']', Action::Pop),
        LindenmeyerSystemPreset::Tree => Map::empty().insert('0', Action::Forward).insert('1', Action::Forward).insert('l', Action::IncrementAngle).insert('r', Action::DecrementAngle).insert('[', Action::Push).insert(']', Action::Pop),
    }
}

proof fn lemma_preset_complete(p: LindenmeyerSystemPreset)
    ensures
        rules_closed(preset_rules(p)),
        symbols_in(preset_start(p), preset_rules(p).dom()),
        preset_rules(p).dom().subset_of(preset_actions(p).dom()),
{
    let m = preset_rules(p);
    assert forall|c: char| #[trigger] m.contains_key(c) implies symbols_in(m[c], m.dom()) by {
        let r = m[c];
        assert forall|i: int| 0 <= i < r.len() implies m.dom().contains(#[trigger] r[i]) by {
        }
    }
}

} // verus!
