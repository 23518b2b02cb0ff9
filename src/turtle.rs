use vstd::prelude::*;
use vstd::arithmetic::div_mod::{
    lemma_add_mod_noop_right, lemma_mod_add_multiples_vanish, lemma_mod_sub_multiples_vanish,
    lemma_small_mod, lemma_sub_mod_noop,
};

use crate::grammar::{action_map, find_action, Action};
use crate::rewrite::symbols_in;

verus! {

/// One instruction of the emitted path.
#[derive(Clone, Copy, Debug, PartialEq, Eq, Structural)]
pub enum PathCommand {
    /// Pen up: go to this absolute position.
    MoveTo(i64, i64),
    /// Pen down: draw a line by this displacement from the current position.
    LineBy(i64, i64),
}

/// Why a walk stopped.
#[derive(Clone, Copy, Debug, PartialEq, Eq, Structural)]
pub enum TurtleError {
    /// The symbol at this index popped an empty stack.
    StackUnderflow(usize),
}

/// The state of a walk: position, heading (in units of a full turn split
/// into as many parts as the step table has entries), the saved states,
/// and the path emitted so far.
pub struct TurtleModel {
    pub x: int,
    pub y: int,
    pub heading: int,
    pub stack: Seq<(int, int, int)>,
    pub path: Seq<PathCommand>,
}

/// The state before the first symbol: at the origin, heading 0, nothing
/// saved, and a move to the origin emitted.
pub open spec fn initial_turtle() -> TurtleModel {
    TurtleModel {
        x: 0,
        y: 0,
        heading: 0,
        stack: Seq::empty(),
        path: seq![PathCommand::MoveTo(0, 0)],
    }
}

/// The effect of one action, or `None` for a pop of an empty stack.
/// `steps[h]` is the displacement of a forward move at heading `h`.
pub open spec fn apply_action(
    w: TurtleModel,
    a: Action,
    delta: int,
    steps: Seq<(i32, i32)>,
) -> Option<TurtleModel> {
    match a {
        Action::Forward => {
            let d = steps[w.heading];
            Some(
                TurtleModel {
                    x: w.x + d.0,
                    y: w.y + d.1,
                    path: w.path.push(PathCommand::LineBy(d.0 as i64, d.1 as i64)),
                    ..w
                },
            )
        },
        Action::IncrementAngle => Some(
            TurtleModel { heading: (w.heading + delta) % (steps.len() as int), ..w },
        ),
        Action::DecrementAngle => Some(
            TurtleModel { heading: (w.heading - delta) % (steps.len() as int), ..w },
        ),
        Action::Push => Some(TurtleModel { stack: w.stack.push((w.x, w.y, w.heading)), ..w }),
        Action::Pop => if w.stack.len() == 0 {
            None
        } else {
            let t = w.stack.last();
            Some(
                TurtleModel {
                    x: t.0,
                    y: t.1,
                    heading: t.2,
                    stack: w.stack.drop_last(),
                    path: w.path.push(PathCommand::MoveTo(t.0 as i64, t.1 as i64)),
                },
            )
        },
        Action::NoOp => Some(w),
    }
}

/// The walk over `syms`: the final state, or the index of the symbol whose
/// pop found the stack empty.
pub open spec fn walk(
    syms: Seq<char>,
    actions: Map<char, Action>,
    delta: int,
    steps: Seq<(i32, i32)>,
) -> Result<TurtleModel, nat>
    decreases syms.len(),
{
    if syms.len() == 0 {
        Ok(initial_turtle())
    } else {
        match walk(syms.drop_last(), actions, delta, steps) {
            Ok(w) => match apply_action(w, actions[syms.last()], delta, steps) {
                Some(next) => Ok(next),
                None => Err((syms.len() - 1) as nat),
            },
            Err(e) => Err(e),
        }
    }
}

/// Pushes minus pops among the actions of `syms`.
pub open spec fn balance(syms: Seq<char>, actions: Map<char, Action>) -> int
    decreases syms.len(),
{
    if syms.len() == 0 {
        0
    } else {
        balance(syms.drop_last(), actions) + match actions[syms.last()] {
            Action::Push => 1int,
            Action::Pop => -1int,
            _ => 0int,
        }
    }
}

proof fn lemma_error_persists(
    syms: Seq<char>,
    actions: Map<char, Action>,
    delta: int,
    steps: Seq<(i32, i32)>,
    j: int,
    k: int,
)
    requires
        0 <= j <= k <= syms.len(),
        walk(syms.take(j), actions, delta, steps) is Err,
    ensures
        walk(syms.take(k), actions, delta, steps) == walk(syms.take(j), actions, delta, steps),
    decreases k - j,
{
    if k > j {
        lemma_error_persists(syms, actions, delta, steps, j, k - 1);
        assert(syms.take(k).drop_last() =~= syms.take(k - 1));
    }
}

/// A walk fails exactly at the first symbol where pops outnumber pushes; a
/// walk that succeeds ends with as many saved states as the balance of
/// pushes over pops.
pub proof fn lemma_stack_balance(
    syms: Seq<char>,
    actions: Map<char, Action>,
    delta: int,
    steps: Seq<(i32, i32)>,
)
    ensures
        walk(syms, actions, delta, steps) is Ok ==> (forall|i: int|
            0 <= i <= syms.len() ==> balance(#[trigger] syms.take(i), actions) >= 0)
            && walk(syms, actions, delta, steps)->Ok_0.stack.len() == balance(syms, actions),
        walk(syms, actions, delta, steps) is Err ==> ({
            let e = walk(syms, actions, delta, steps)->Err_0 as int;
            &&& 0 <= e < syms.len()
            &&& balance(syms.take(e + 1), actions) < 0
            &&& forall|i: int| 0 <= i <= e ==> balance(#[trigger] syms.take(i), actions) >= 0
        }),
    decreases syms.len(),
{
    if syms.len() > 0 {
        let p = syms.drop_last();
        lemma_stack_balance(p, actions, delta, steps);
        assert forall|i: int| 0 <= i <= p.len() implies #[trigger] syms.take(i) == p.take(i) by {
            assert(syms.take(i) =~= p.take(i));
        }
        assert(syms.take(syms.len() as int) =~= syms);
        assert(p.take(p.len() as int) =~= p);
    } else {
        assert(syms.take(0) =~= syms);
    }
}

/// `interpret` is deterministic: two results of it on the same inputs are
/// the same path.
pub proof fn lemma_interpret_deterministic(
    syms: Seq<char>,
    actions: Map<char, Action>,
    delta: int,
    steps: Seq<(i32, i32)>,
    first: Seq<PathCommand>,
    second: Seq<PathCommand>,
)
    requires
        walk(syms, actions, delta, steps) is Ok,
        first == walk(syms, actions, delta, steps)->Ok_0.path,
        second == walk(syms, actions, delta, steps)->Ok_0.path,
    ensures
        first == second,
{
}

proof fn lemma_turn(h: int, delta: int, n: int)
    requires
        0 <= h < n,
        0 <= delta,
    ensures
        (h + delta) % n == if delta % n >= n - h {
            h - (n - delta % n)
        } else {
            h + delta % n
        },
        (h - delta) % n == if h >= delta % n {
            h - delta % n
        } else {
            h + (n - delta % n)
        },
{
    let d = delta % n;
    lemma_add_mod_noop_right(h, delta, n);
    if h + d < n {
        lemma_small_mod((h + d) as nat, n as nat);
    } else {
        lemma_mod_sub_multiples_vanish(h + d, n);
        lemma_small_mod((h + d - n) as nat, n as nat);
    }
    lemma_sub_mod_noop(h, delta, n);
    lemma_small_mod(h as nat, n as nat);
    if h >= d {
        lemma_small_mod((h - d) as nat, n as nat);
    } else {
        lemma_mod_add_multiples_vanish(h - d, n);
        lemma_small_mod((n + h - d) as nat, n as nat);
    }
}

/// The stack as integers.
pub open spec fn stack_view(s: Seq<(i64, i64, usize)>) -> Seq<(int, int, int)> {
    s.map_values(|e: (i64, i64, usize)| (e.0 as int, e.1 as int, e.2 as int))
}

/// Walks `syms` and returns the emitted path. A forward move at heading `h`
/// moves by `steps[h]`; turning adds or subtracts `angle_delta`, modulo the
/// number of entries of `steps`.
pub fn interpret(
    syms: &Vec<char>,
    actions: &Vec<(char, Action)>,
    angle_delta: usize,
    steps: &Vec<(i32, i32)>,
) -> (r: Result<Vec<PathCommand>, TurtleError>)
    requires
        symbols_in(syms@, action_map(actions@).dom()),
        steps@.len() > 0,
        syms@.len() <= u32::MAX,
    ensures
        match walk(syms@, action_map(actions@), angle_delta as int, steps@) {
            Ok(w) => r is Ok && r->Ok_0@ == w.path,
            Err(e) => r == Err::<Vec<PathCommand>, TurtleError>(TurtleError::StackUnderflow(e as usize)),
        },
{
    let ghost m = action_map(actions@);
    let ghost delta = angle_delta as int;
    let n = steps.len();
    let d = angle_delta % n;
    let mut x: i64 = 0;
    let mut y: i64 = 0;
    let mut h: usize = 0;
    let mut stack: Vec<(i64, i64, usize)> = Vec::new();
    let mut path: Vec<PathCommand> = Vec::new();
    path.push(PathCommand::MoveTo(0, 0));
    assert(stack_view(stack@) =~= Seq::<(int, int, int)>::empty());
    assert(path@ =~= seq![PathCommand::MoveTo(0, 0)]);
    let mut i: usize = 0;
    while i < syms.len()
        invariant
            m == action_map(actions@),
            delta == angle_delta as int,
            n == steps@.len(),
            n > 0,
            d == delta % (n as int),
            symbols_in(syms@, m.dom()),
            syms@.len() <= u32::MAX,
            i <= syms@.len(),
            walk(syms@.take(i as int), m, delta, steps@) is Ok,
            ({
                let w = walk(syms@.take(i as int), m, delta, steps@)->Ok_0;
                &&& w.x == x as int
                &&& w.y == y as int
                &&& w.heading == h as int
                &&& w.stack == stack_view(stack@)
                &&& w.path == path@
            }),
            h < n,
            -(i as int) * 2147483648 <= x <= (i as int) * 2147483648,
            -(i as int) * 2147483648 <= y <= (i as int) * 2147483648,
            forall|k: int|
                0 <= k < stack@.len() ==> {
                    &&& -(i as int) * 2147483648 <= (#[trigger] stack@[k]).0 <= (i as int) * 2147483648
                    &&& -(i as int) * 2147483648 <= stack@[k].1 <= (i as int) * 2147483648
                    &&& stack@[k].2 < n
                },
        decreases syms@.len() - i,
    {
        let ghost w = walk(syms@.take(i as int), m, delta, steps@)->Ok_0;
        assert(syms@.take(i + 1).drop_last() =~= syms@.take(i as int));
        let c = syms[i];
        assert(m.contains_key(c));
        let a = find_action(actions, c).unwrap();
        proof {
            lemma_turn(h as int, delta, n as int);
        }
        match a {
            Action::Forward => {
                let (dx, dy) = steps[h];
                x = x + dx as i64;
                y = y + dy as i64;
                path.push(PathCommand::LineBy(dx as i64, dy as i64));
            },
            Action::IncrementAngle => {
                if d >= n - h {
                    h = h - (n - d);
                } else {
                    h = h + d;
                }
            },
            Action::DecrementAngle => {
                if h >= d {
                    h = h - d;
                } else {
                    h = h + (n - d);
                }
            },
            Action::Push => {
                stack.push((x, y, h));
                assert(stack_view(stack@) =~= w.stack.push((w.x, w.y, w.heading)));
            },
            Action::Pop => {
                match stack.pop() {
                    Some(t) => {
                        x = t.0;
                        y = t.1;
                        h = t.2;
                        path.push(PathCommand::MoveTo(x, y));
                        assert(stack_view(stack@) =~= w.stack.drop_last());
                    },
                    None => {
                        proof {
                            lemma_error_persists(
                                syms@,
                                m,
                                delta,
                                steps@,
                                i + 1,
                                syms@.len() as int,
                            );
                            assert(syms@.take(syms@.len() as int) =~= syms@);
                        }
                        return Err(TurtleError::StackUnderflow(i));
                    },
                }
            },
            Action::NoOp => {},
        }
        i = i + 1;
    }
    assert(syms@.take(syms@.len() as int) =~= syms@);
    Ok(path)
}

} // verus!
