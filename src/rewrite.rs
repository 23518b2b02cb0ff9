use vstd::prelude::*;

use crate::grammar::{find_rule, rule_map};

verus! {

/// Every symbol of `s` lies in `d`.
pub open spec fn symbols_in(s: Seq<char>, d: Set<char>) -> bool {
    forall|i: int| 0 <= i < s.len() ==> d.contains(#[trigger] s[i])
}

/// Every symbol that a rule produces has a rule of its own.
pub open spec fn rules_closed(rules: Map<char, Seq<char>>) -> bool {
    forall|c: char| #[trigger] rules.contains_key(c) ==> symbols_in(rules[c], rules.dom())
}

/// One generation: each symbol replaced by its rule's replacement, in order.
pub open spec fn rewrite(s: Seq<char>, rules: Map<char, Seq<char>>) -> Seq<char>
    decreases s.len(),
{
    if s.len() == 0 {
        Seq::empty()
    } else {
        rewrite(s.drop_last(), rules) + rules[s.last()]
    }
}

/// The string after `n` generations starting from `start`.
pub open spec fn generate(start: Seq<char>, rules: Map<char, Seq<char>>, n: nat) -> Seq<char>
    decreases n,
{
    if n == 0 {
        start
    } else {
        rewrite(generate(start, rules, (n - 1) as nat), rules)
    }
}

proof fn lemma_rewrite_symbols(s: Seq<char>, rules: Map<char, Seq<char>>)
    requires
        rules_closed(rules),
        symbols_in(s, rules.dom()),
    ensures
        symbols_in(rewrite(s, rules), rules.dom()),
    decreases s.len(),
{
    if s.len() > 0 {
        let p = s.drop_last();
        assert(symbols_in(p, rules.dom())) by {
            assert forall|i: int| 0 <= i < p.len() implies rules.dom().contains(#[trigger] p[i]) by {
                assert(p[i] == s[i]);
            }
        }
        lemma_rewrite_symbols(p, rules);
        assert(rules.contains_key(s[s.len() - 1]));
    }
}

/// Every string that the rules generate from a closed start uses only
/// symbols that have rules.
pub proof fn lemma_generate_symbols(start: Seq<char>, rules: Map<char, Seq<char>>, n: nat)
    requires
        rules_closed(rules),
        symbols_in(start, rules.dom()),
    ensures
        symbols_in(generate(start, rules, n), rules.dom()),
    decreases n,
{
    if n > 0 {
        lemma_generate_symbols(start, rules, (n - 1) as nat);
        lemma_rewrite_symbols(generate(start, rules, (n - 1) as nat), rules);
    }
}

proof fn lemma_rewrite_not_shorter(s: Seq<char>, rules: Map<char, Seq<char>>)
    requires
        symbols_in(s, rules.dom()),
        forall|c: char| #[trigger] rules.contains_key(c) ==> rules[c].len() >= 1,
    ensures
        rewrite(s, rules).len() >= s.len(),
    decreases s.len(),
{
    if s.len() > 0 {
        let p = s.drop_last();
        assert(symbols_in(p, rules.dom())) by {
            assert forall|i: int| 0 <= i < p.len() implies rules.dom().contains(#[trigger] p[i]) by {
                assert(p[i] == s[i]);
            }
        }
        lemma_rewrite_not_shorter(p, rules);
        assert(rules.contains_key(s[s.len() - 1]));
    }
}

/// Zero generations leave the start unchanged.
pub proof fn lemma_zero_generations(start: Seq<char>, rules: Map<char, Seq<char>>)
    ensures
        generate(start, rules, 0) == start,
{
}

/// Where no rule has an empty replacement, a string never gets shorter from
/// one generation to the next.
pub proof fn lemma_growth_monotonic(start: Seq<char>, rules: Map<char, Seq<char>>, k: nat)
    requires
        rules_closed(rules),
        symbols_in(start, rules.dom()),
        forall|c: char| #[trigger] rules.contains_key(c) ==> rules[c].len() >= 1,
    ensures
        generate(start, rules, k + 1).len() >= generate(start, rules, k).len(),
{
    lemma_generate_symbols(start, rules, k);
    lemma_rewrite_not_shorter(generate(start, rules, k), rules);
}

/// `expand` is deterministic: two results of it on the same inputs are the
/// same string.
pub proof fn lemma_expand_deterministic(
    start: Seq<char>,
    rules: Map<char, Seq<char>>,
    n: nat,
    first: Seq<char>,
    second: Seq<char>,
)
    requires
        first == generate(start, rules, n),
        second == generate(start, rules, n),
    ensures
        first == second,
{
}

/// Applies the rules once to every symbol of `s`.
pub fn rewrite_once(s: &Vec<char>, rules: &Vec<(char, Vec<char>)>) -> (r: Vec<char>)
    requires
        symbols_in(s@, rule_map(rules@).dom()),
    ensures
        r@ == rewrite(s@, rule_map(rules@)),
{
    let ghost m = rule_map(rules@);
    let mut out: Vec<char> = Vec::new();
    let mut i: usize = 0;
    while i < s.len()
        invariant
            i <= s@.len(),
            m == rule_map(rules@),
            symbols_in(s@, m.dom()),
            out@ == rewrite(s@.take(i as int), m),
        decreases s@.len() - i,
    {
        let c = s[i];
        assert(m.contains_key(c));
        let k = find_rule(rules, c).unwrap();
        let rep = &rules[k].1;
        let ghost before = out@;
        let mut j: usize = 0;
        while j < rep.len()
            invariant
                j <= rep@.len(),
                out@ == before + rep@.take(j as int),
            decreases rep@.len() - j,
        {
            out.push(rep[j]);
            assert(before + rep@.take(j + 1) =~= before + rep@.take(j as int) + seq![rep@[j as int]]);
            j = j + 1;
        }
        assert(rep@.take(rep@.len() as int) =~= rep@);
        assert(s@.take(i + 1).drop_last() =~= s@.take(i as int));
        i = i + 1;
    }
    assert(s@.take(s@.len() as int) =~= s@);
    out
}

/// Rewrites `start` through `count` generations.
pub fn expand(start: &Vec<char>, rules: &Vec<(char, Vec<char>)>, count: u32) -> (r: Vec<char>)
    requires
        rules_closed(rule_map(rules@)),
        symbols_in(start@, rule_map(rules@).dom()),
    ensures
        r@ == generate(start@, rule_map(rules@), count as nat),
{
    let mut current = start.clone();
    assert(current@ =~= start@);
    let mut k: u32 = 0;
    while k < count
        invariant
            k <= count,
            rules_closed(rule_map(rules@)),
            symbols_in(start@, rule_map(rules@).dom()),
            current@ == generate(start@, rule_map(rules@), k as nat),
        decreases count - k,
    {
        proof {
            lemma_generate_symbols(start@, rule_map(rules@), k as nat);
        }
        current = rewrite_once(&current, rules);
        k = k + 1;
    }
    current
}

} // verus!
