//! Putting the agent store in Morton order.
//!
//! Agents that stand close to each other on the field read and write texels
//! that are close to each other. Storing them in ascending order of the Morton
//! code of their texel keeps the memory traffic of one group of agents local.
//! The order is produced by a stable merge sort: agents of the same texel keep
//! the order in which they were handed in, so the result is one fixed
//! arrangement of the input.

use vstd::prelude::*;
use vstd::seq_lib::lemma_multiset_commutative;
use crate::agent::Agent;

verus! {

/// Whether the agents of `s` stand in ascending order of Morton code.
pub open spec fn ascending(s: Seq<Agent>) -> bool {
    forall|i: int, j: int| 0 <= i < j < s.len() ==> s[i].morton() <= s[j].morton()
}

/// The test "this agent has the Morton code `code`".
pub open spec fn has_code(code: nat) -> spec_fn(Agent) -> bool {
    |a: Agent| a.morton() == code
}

/// The agents of `s` whose Morton code is `code`, in the order in which they
/// stand in `s`.
pub open spec fn of_code(s: Seq<Agent>, code: nat) -> Seq<Agent> {
    s.filter(has_code(code))
}

/// Whether `sorted` is `unsorted` in Morton order, ties in the order in which
/// they stood: it ascends, it holds the same agents as often, and for every
/// code the agents of that code follow each other as they did in `unsorted`.
pub open spec fn is_morton_order_of(sorted: Seq<Agent>, unsorted: Seq<Agent>) -> bool {
    &&& ascending(sorted)
    &&& sorted.to_multiset() == unsorted.to_multiset()
    &&& sorted.len() == unsorted.len()
    &&& forall|code: nat| #[trigger] of_code(sorted, code) == of_code(unsorted, code)
}

proof fn lemma_of_code_push(s: Seq<Agent>, a: Agent, code: nat)
    ensures
        of_code(s.push(a), code) == if a.morton() == code {
            of_code(s, code).push(a)
        } else {
            of_code(s, code)
        },
{
    s.lemma_filter_push(a, has_code(code));
}

proof fn lemma_of_code_below(s: Seq<Agent>, code: nat)
    requires
        forall|k: int| 0 <= k < s.len() ==> s[k].morton() < code,
    ensures
        of_code(s, code) == Seq::<Agent>::empty(),
    decreases s.len(),
{
    if s.len() == 0 {
        reveal(Seq::filter);
    } else {
        lemma_of_code_below(s.drop_last(), code);
        assert(s == s.drop_last().push(s.last()));
        lemma_of_code_push(s.drop_last(), s.last(), code);
    }
}

/// In Morton order an agent with a lower code stands before every agent with
/// a higher code.
pub proof fn lemma_lower_code_stands_first(s: Seq<Agent>, i: int, j: int)
    requires
        ascending(s),
        0 <= i < s.len(),
        0 <= j < s.len(),
        s[i].morton() < s[j].morton(),
    ensures
        i < j,
{
}

/// Two ascending sequences in which, for every code, the same agents of that
/// code follow each other in the same order are the same sequence.
pub proof fn lemma_same_runs_same_sequence(a: Seq<Agent>, b: Seq<Agent>)
    requires
        ascending(a),
        ascending(b),
        forall|code: nat| #[trigger] of_code(a, code) == of_code(b, code),
    ensures
        a == b,
    decreases a.len() + b.len(),
{
    if a.len() == 0 && b.len() == 0 {
        assert(a =~= b);
    } else if a.len() == 0 || b.len() == 0 {
        let full = if a.len() == 0 { b } else { a };
        let void = if a.len() == 0 { a } else { b };
        let code = full.last().morton();
        assert(full == full.drop_last().push(full.last()));
        lemma_of_code_push(full.drop_last(), full.last(), code);
        lemma_of_code_below(void, code);
        assert(of_code(full, code).len() > 0);
        assert(of_code(void, code).len() == 0);
        assert(of_code(a, code) == of_code(b, code));
    } else {
        let a_front = a.drop_last();
        let b_front = b.drop_last();
        let a_code = a.last().morton();
        let b_code = b.last().morton();
        assert(a == a_front.push(a.last()));
        assert(b == b_front.push(b.last()));
        if a_code > b_code {
            lemma_of_code_push(a_front, a.last(), a_code);
            lemma_of_code_below(b, a_code);
            assert(of_code(a, a_code) == of_code(b, a_code));
            assert(of_code(a, a_code).len() > 0);
        }
        if b_code > a_code {
            lemma_of_code_push(b_front, b.last(), b_code);
            lemma_of_code_below(a, b_code);
            assert(of_code(a, b_code) == of_code(b, b_code));
            assert(of_code(b, b_code).len() > 0);
        }
        assert(a_code == b_code);
        lemma_of_code_push(a_front, a.last(), a_code);
        lemma_of_code_push(b_front, b.last(), a_code);
        assert(of_code(a, a_code) == of_code(b, a_code));
        assert(of_code(a, a_code).last() == a.last());
        assert(of_code(b, a_code).last() == b.last());
        assert(of_code(a_front, a_code) =~= of_code(a, a_code).drop_last());
        assert(of_code(b_front, a_code) =~= of_code(b, a_code).drop_last());
        assert forall|code: nat| #[trigger] of_code(a_front, code) == of_code(b_front, code) by {
            lemma_of_code_push(a_front, a.last(), code);
            lemma_of_code_push(b_front, b.last(), code);
            assert(of_code(a, code) == of_code(b, code));
        }
        lemma_same_runs_same_sequence(a_front, b_front);
    }
}

/// A sequence of agents has one Morton order, not several.
pub proof fn lemma_morton_order_is_unique(first: Seq<Agent>, second: Seq<Agent>, unsorted: Seq<Agent>)
    requires
        is_morton_order_of(first, unsorted),
        is_morton_order_of(second, unsorted),
    ensures
        first == second,
{
    assert forall|code: nat| #[trigger] of_code(first, code) == of_code(second, code) by {
        assert(of_code(first, code) == of_code(unsorted, code));
        assert(of_code(second, code) == of_code(unsorted, code));
    }
    lemma_same_runs_same_sequence(first, second);
}

/// Merges two ascending runs into one. Where both runs offer agents of the
/// same code, those of `left` come first.
fn merge(left: &Vec<Agent>, right: &Vec<Agent>) -> (out: Vec<Agent>)
    requires
        ascending(left@),
        ascending(right@),
    ensures
        ascending(out@),
        out@.len() == left@.len() + right@.len(),
        out@.to_multiset() == left@.to_multiset().add(right@.to_multiset()),
        forall|code: nat| #[trigger]
            of_code(out@, code) == of_code(left@, code) + of_code(right@, code),
{
    let mut out: Vec<Agent> = Vec::new();
    let mut i: usize = 0;
    let mut j: usize = 0;
    proof {
        assert(left@.take(0) == Seq::<Agent>::empty());
        assert(right@.take(0) == Seq::<Agent>::empty());
        assert(out@ == Seq::<Agent>::empty());
        assert forall|code: nat| #[trigger]
            of_code(out@, code) == of_code(left@.take(0), code) + of_code(
                right@.take(0),
                code,
            ) by {
            reveal(Seq::filter);
        }
        assert(out@.to_multiset() =~= left@.take(0).to_multiset().add(
            right@.take(0).to_multiset(),
        )) by {
            broadcast use vstd::seq_lib::group_to_multiset_ensures;
            broadcast use vstd::multiset::group_multiset_axioms;

        }
    }
    while i < left.len() || j < right.len()
        invariant
            i <= left.len(),
            j <= right.len(),
            out@.len() == i + j,
            ascending(left@),
            ascending(right@),
            ascending(out@),
            forall|k: int|
                0 <= k < out@.len() && i < left@.len() ==> out@[k].morton() <= left@[i as int].morton(),
            forall|k: int|
                0 <= k < out@.len() && j < right@.len() ==> out@[k].morton() <= right@[j as int].morton(),
            forall|k: int|
                0 <= k < j && i < left@.len() ==> right@[k].morton() < left@[i as int].morton(),
            out@.to_multiset() == left@.take(i as int).to_multiset().add(
                right@.take(j as int).to_multiset(),
            ),
            forall|code: nat| #[trigger]
                of_code(out@, code) == of_code(left@.take(i as int), code) + of_code(
                    right@.take(j as int),
                    code,
                ),
        decreases left.len() - i + (right.len() - j),
    {
        let from_left: bool = if i >= left.len() {
            false
        } else if j >= right.len() {
            true
        } else {
            left[i].morton_pos() <= right[j].morton_pos()
        };
        let ghost before = out@;
        if from_left {
            let a: Agent = left[i];
            out.push(a);
            proof {
                let taken = left@.take(i as int);
                let others = right@.take(j as int);
                assert(left@.take(i + 1) == taken.push(a));
                vstd::seq_lib::to_multiset_build(before, a);
                vstd::seq_lib::to_multiset_build(taken, a);
                assert(out@.to_multiset() =~= left@.take(i + 1).to_multiset().add(
                    others.to_multiset(),
                ));
                assert forall|k: int| 0 <= k < others.len() implies others[k].morton()
                    < a.morton() by {
                    assert(others[k] == right@[k]);
                }
                lemma_of_code_below(others, a.morton());
                assert forall|code: nat| #[trigger]
                    of_code(out@, code) == of_code(left@.take(i + 1), code) + of_code(
                        others,
                        code,
                    ) by {
                    lemma_of_code_push(before, a, code);
                    lemma_of_code_push(taken, a, code);
                    assert(of_code(before, code) == of_code(taken, code) + of_code(others, code));
                    if a.morton() == code {
                        assert(of_code(before, code).push(a) =~= of_code(taken, code).push(a)
                            + of_code(others, code));
                    }
                }
            }
            i = i + 1;
        } else {
            let a: Agent = right[j];
            out.push(a);
            proof {
                let taken = right@.take(j as int);
                let others = left@.take(i as int);
                assert(right@.take(j + 1) == taken.push(a));
                vstd::seq_lib::to_multiset_build(before, a);
                vstd::seq_lib::to_multiset_build(taken, a);
                assert(out@.to_multiset() =~= others.to_multiset().add(
                    right@.take(j + 1).to_multiset(),
                ));
                assert forall|code: nat| #[trigger]
                    of_code(out@, code) == of_code(others, code) + of_code(
                        right@.take(j + 1),
                        code,
                    ) by {
                    lemma_of_code_push(before, a, code);
                    lemma_of_code_push(taken, a, code);
                    assert(of_code(before, code) == of_code(others, code) + of_code(taken, code));
                    if a.morton() == code {
                        assert(of_code(before, code).push(a) =~= of_code(others, code) + of_code(
                            taken,
                            code,
                        ).push(a));
                    }
                }
            }
            j = j + 1;
        }
    }
    proof {
        assert(left@.take(i as int) == left@);
        assert(right@.take(j as int) == right@);
    }
    out
}

/// Sorts the agents of `agents` from index `from` up to, not including,
/// index `to`.
fn sort_range(agents: &Vec<Agent>, from: usize, to: usize) -> (out: Vec<Agent>)
    requires
        from <= to <= agents.len(),
    ensures
        is_morton_order_of(out@, agents@.subrange(from as int, to as int)),
    decreases to - from,
{
    let ghost whole = agents@.subrange(from as int, to as int);
    if to - from <= 1 {
        let mut out: Vec<Agent> = Vec::new();
        if from < to {
            out.push(agents[from]);
        }
        proof {
            assert(out@ == whole);
        }
        out
    } else {
        let middle: usize = from + (to - from) / 2;
        let left: Vec<Agent> = sort_range(agents, from, middle);
        let right: Vec<Agent> = sort_range(agents, middle, to);
        let out: Vec<Agent> = merge(&left, &right);
        proof {
            let first = agents@.subrange(from as int, middle as int);
            let second = agents@.subrange(middle as int, to as int);
            assert(whole == first + second);
            lemma_multiset_commutative(first, second);
            assert forall|code: nat| #[trigger] of_code(out@, code) == of_code(whole, code) by {
                Seq::filter_distributes_over_add(first, second, has_code(code));
                assert(of_code(left@, code) == of_code(first, code));
                assert(of_code(right@, code) == of_code(second, code));
            }
        }
        out
    }
}

/// Puts the agents in ascending order of the Morton code of their texel.
/// Agents of the same texel keep their order.
pub fn sort_by_morton(agents: Vec<Agent>) -> (sorted: Vec<Agent>)
    ensures
        is_morton_order_of(sorted@, agents@),
{
    let sorted: Vec<Agent> = sort_range(&agents, 0, agents.len());
    proof {
        assert(agents@.subrange(0, agents@.len() as int) == agents@);
    }
    sorted
}

} // verus!
