use vstd::prelude::*;

verus! {

/// The drawing command that a symbol stands for.
#[derive(Clone, Copy, Debug, PartialEq, Eq, Structural)]
pub enum Action {
    DecrementAngle,
    Forward,
    IncrementAngle,
    NoOp,
    Pop,
    Push,
}

/// The mapping that a table of `(symbol, value)` entries denotes: a later
/// entry for the same symbol replaces an earlier one.
pub open spec fn action_map(t: Seq<(char, Action)>) -> Map<char, Action>
    decreases t.len(),
{
    if t.len() == 0 {
        Map::empty()
    } else {
        action_map(t.drop_last()).insert(t.last().0, t.last().1)
    }
}

/// Finds the action of symbol `c`, if the table has one.
pub fn find_action(t: &Vec<(char, Action)>, c: char) -> (r: Option<Action>)
    ensures
        r is Some <==> action_map(t@).contains_key(c),
        r is Some ==> r->Some_0 == action_map(t@)[c],
{
    let mut i: usize = t.len();
    assert(t@.take(t@.len() as int) =~= t@);
    while i > 0
        invariant
            i <= t@.len(),
            action_map(t@.take(i as int)).contains_key(c) == action_map(t@).contains_key(c),
            action_map(t@).contains_key(c) ==> action_map(t@.take(i as int))[c] == action_map(t@)[c],
        decreases i,
    {
        assert(t@.take(i as int).drop_last() =~= t@.take(i - 1));
        if t[i - 1].0 == c {
            return Some(t[i - 1].1);
        }
        i = i - 1;
    }
    None
}

/// The production rules that a table of `(symbol, replacement)` entries
/// denotes: a later entry for the same symbol replaces an earlier one.
pub open spec fn rule_map(t: Seq<(char, Vec<char>)>) -> Map<char, Seq<char>>
    decreases t.len(),
{
    if t.len() == 0 {
        Map::empty()
    } else {
        rule_map(t.drop_last()).insert(t.last().0, t.last().1@)
    }
}

/// Finds the position of the entry that gives the replacement of `c`.
pub fn find_rule(t: &Vec<(char, Vec<char>)>, c: char) -> (r: Option<usize>)
    ensures
        r is Some <==> rule_map(t@).contains_key(c),
        r is Some ==> r->Some_0 < t@.len() && t@[r->Some_0 as int].1@ == rule_map(t@)[c],
{
    let mut i: usize = t.len();
    assert(t@.take(t@.len() as int) =~= t@);
    while i > 0
        invariant
            i <= t@.len(),
            rule_map(t@.take(i as int)).contains_key(c) == rule_map(t@).contains_key(c),
            rule_map(t@).contains_key(c) ==> rule_map(t@.take(i as int))[c] == rule_map(t@)[c],
        decreases i,
    {
        assert(t@.take(i as int).drop_last() =~= t@.take(i - 1));
        if t[i - 1].0 == c {
            return Some(i - 1);
        }
        i = i - 1;
    }
    None
}

} // verus!
