//! What the list of the processes of the system comes to, told by the processes that are given.

use vstd::prelude::*;

use crate::processes::{MAX_LISTED, SystemProcessModel, descending, first, is_target};
use crate::processes::{lemma_ranked, lowercase_text, of_rank, ranked, targeted, targets};
use crate::text_laws::lemma_parts;

verus! {

/// Whether a text is the given one between two others.
pub open spec fn holds(s: Seq<char>, part: Seq<char>) -> bool {
    exists|a: Seq<char>, b: Seq<char>| s == #[trigger] (a + part + b)
}

/// Whether a lower-case name holds the name of a development tool anywhere.
pub open spec fn names_a_tool(lower: Seq<char>) -> bool {
    ||| holds(lower, "node"@)
    ||| holds(lower, "npm"@)
    ||| holds(lower, "yarn"@)
    ||| holds(lower, "pnpm"@)
    ||| holds(lower, "python"@)
    ||| holds(lower, "python3"@)
    ||| holds(lower, "cargo"@)
    ||| holds(lower, "go"@)
    ||| holds(lower, "dotnet"@)
    ||| holds(lower, "java"@)
    ||| holds(lower, "docker"@)
}

/// Whether a process is one of a development tool.
pub open spec fn is_development(p: SystemProcessModel) -> bool {
    names_a_tool(lowercase_text(p.name))
}

/// A lower-case name is of interest exactly where it holds the name of a tool anywhere.
pub proof fn lemma_tools(lower: Seq<char>)
    ensures
        is_target(lower) <==> names_a_tool(lower),
{
    let t = targets();
    assert(t.len() == 11);
    assert(t[0] == "node"@ && t[1] == "npm"@ && t[2] == "yarn"@ && t[3] == "pnpm"@);
    assert(t[4] == "python"@ && t[5] == "python3"@ && t[6] == "cargo"@ && t[7] == "go"@);
    assert(t[8] == "dotnet"@ && t[9] == "java"@ && t[10] == "docker"@);
    assert forall|k: int| 0 <= k < t.len() implies crate::text::has_part(lower, #[trigger] t[k])
        == holds(lower, t[k]) by {
        lemma_parts(lower, t[k]);
    }
}

/// Of the processes that are given, those of development tools are taken, each as often as it is
/// given and in the given order, and no other.
pub proof fn lemma_nothing_of_interest_is_left_out(s: Seq<SystemProcessModel>)
    ensures
        targeted(s) == s.filter(|p: SystemProcessModel| is_development(p)),
        forall|p: SystemProcessModel| #[trigger]
            targeted(s).to_multiset().count(p) == if is_development(p) {
                s.to_multiset().count(p)
            } else {
                0
            },
        forall|p: SystemProcessModel| #[trigger]
            ranked(targeted(s)).to_multiset().count(p) == if is_development(p) {
                s.to_multiset().count(p)
            } else {
                0
            },
    decreases s.len(),
{
    broadcast use vstd::seq_lib::to_multiset_build;

    reveal(Seq::filter);
    lemma_ranked(targeted(s));
    if s.len() > 0 {
        let t = s.drop_last();
        lemma_nothing_of_interest_is_left_out(t);
        lemma_tools(lowercase_text(s.last().name));
        assert(t.push(s.last()) =~= s);
        assert forall|p: SystemProcessModel| #[trigger]
            targeted(s).to_multiset().count(p) == if is_development(p) {
                s.to_multiset().count(p)
            } else {
                0
            } by {
            assert(targeted(t).to_multiset().count(p) == if is_development(p) {
                t.to_multiset().count(p)
            } else {
                0
            });
        }
    } else {
        assert(targeted(s) =~= s);
        s.to_multiset_ensures();
    }
}

/// The list holds at most ten processes of development tools, the busiest first. All are listed
/// where there are no more than ten. Where there are more, none that is left out, wholly or in
/// one of its occurrences, is busier than one that is listed. Processes that are equally busy
/// stand in the given order.
pub proof fn lemma_listed_processes(s: Seq<SystemProcessModel>)
    ensures
        ({
            let wanted = s.filter(|p: SystemProcessModel| is_development(p));
            let listed = first(ranked(targeted(s)), MAX_LISTED as int);
            &&& listed.len() == if wanted.len() > 10 {
                10
            } else {
                wanted.len()
            }
            &&& wanted.len() <= 10 ==> listed.to_multiset() == wanted.to_multiset()
            &&& forall|i: int, j: int|
                0 <= i < j < listed.len() ==> listed[i].cpu_rank >= listed[j].cpu_rank
            &&& forall|i: int|
                0 <= i < listed.len() ==> is_development(#[trigger] listed[i]) && s.contains(
                    listed[i],
                )
            &&& forall|p: SystemProcessModel| #[trigger]
                listed.to_multiset().count(p) <= wanted.to_multiset().count(p)
            &&& forall|p: SystemProcessModel, i: int|
                #![trigger wanted.to_multiset().count(p), listed[i]]
                wanted.to_multiset().count(p) > listed.to_multiset().count(p) && 0 <= i
                    < listed.len() ==> listed[i].cpu_rank >= p.cpu_rank
            &&& forall|rank: i64| #[trigger]
                of_one_rank(listed, rank).is_prefix_of(of_one_rank(wanted, rank))
        }),
{
    broadcast use vstd::seq_lib::to_multiset_contains;

    let wanted = s.filter(|p: SystemProcessModel| is_development(p));
    let all = ranked(targeted(s));
    let listed = first(all, MAX_LISTED as int);
    let n = listed.len() as int;
    let rest = all.skip(n);
    lemma_nothing_of_interest_is_left_out(s);
    lemma_ranked(wanted);
    assert(descending(all));
    assert(all =~= listed + rest);
    vstd::seq_lib::lemma_multiset_commutative(listed, rest);
    if wanted.len() <= 10 {
        assert(listed =~= all);
    }
    assert forall|i: int| 0 <= i < listed.len() implies is_development(#[trigger] listed[i])
        && s.contains(listed[i]) by {
        assert(all[i] == listed[i]);
        assert(all.contains(listed[i]));
        assert(all.to_multiset().count(listed[i]) > 0);
    }
    assert forall|p: SystemProcessModel, i: int|
        #![trigger wanted.to_multiset().count(p), listed[i]]
        wanted.to_multiset().count(p) > listed.to_multiset().count(p) && 0 <= i
            < listed.len() implies listed[i].cpu_rank >= p.cpu_rank by {
        assert(rest.to_multiset().count(p) > 0);
        assert(rest.contains(p));
        let k = choose|k: int| 0 <= k < rest.len() && rest[k] == p;
        assert(all[i] == listed[i] && all[n + k] == p);
    }
    assert forall|rank: i64| #[trigger]
        of_one_rank(listed, rank).is_prefix_of(of_one_rank(wanted, rank)) by {
        lemma_of_rank(all, rank);
        lemma_of_rank(wanted, rank);
        assert(of_rank(all, rank) == of_rank(wanted, rank));
        Seq::filter_distributes_over_add(
            listed,
            rest,
            |p: SystemProcessModel| p.cpu_rank == rank,
        );
        assert(of_one_rank(all, rank).take(of_one_rank(listed, rank).len() as int) =~= of_one_rank(
            listed,
            rank,
        ));
    }
}

/// The processes of one rank.
pub open spec fn of_one_rank(s: Seq<SystemProcessModel>, rank: i64) -> Seq<SystemProcessModel> {
    s.filter(|p: SystemProcessModel| p.cpu_rank == rank)
}

proof fn lemma_of_rank(s: Seq<SystemProcessModel>, rank: i64)
    ensures
        of_rank(s, rank) == of_one_rank(s, rank),
    decreases s.len(),
{
    reveal(Seq::filter);
    if s.len() > 0 {
        lemma_of_rank(s.drop_last(), rank);
    } else {
        assert(of_rank(s, rank) =~= s);
    }
}

} // verus!
