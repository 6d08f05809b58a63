//! The processes of the system that are of interest to a developer.

use vstd::prelude::*;

use crate::text::{chars_of, contains_part, has_part};

verus! {

/// How many processes of the system are listed.
pub const MAX_LISTED: usize = 10;

/// A process of the system.
#[derive(Debug)]
pub struct SystemProcess {
    /// The name of its program.
    pub name: String,
    /// The process id.
    pub pid: u32,
    /// A number that orders processes by the share of a processor that they take.
    pub cpu_rank: i64,
    /// The share of a processor that it takes, in percent with one decimal.
    pub cpu_usage: String,
    /// The memory that it takes, in bytes.
    pub memory: u64,
}

/// The contents of a [`SystemProcess`].
#[verifier::ext_equal]
pub struct SystemProcessModel {
    /// See [`SystemProcess::name`].
    pub name: Seq<char>,
    /// See [`SystemProcess::pid`].
    pub pid: u32,
    /// See [`SystemProcess::cpu_rank`].
    pub cpu_rank: i64,
    /// See [`SystemProcess::cpu_usage`].
    pub cpu_usage: Seq<char>,
    /// See [`SystemProcess::memory`].
    pub memory: u64,
}

impl View for SystemProcess {
    type V = SystemProcessModel;

    open spec fn view(&self) -> SystemProcessModel {
        SystemProcessModel {
            name: self.name@,
            pid: self.pid,
            cpu_rank: self.cpu_rank,
            cpu_usage: self.cpu_usage@,
            memory: self.memory,
        }
    }
}

impl Clone for SystemProcess {
    fn clone(&self) -> (r: Self)
        ensures
            r@ == self@,
    {
        SystemProcess {
            name: self.name.clone(),
            pid: self.pid,
            cpu_rank: self.cpu_rank,
            cpu_usage: self.cpu_usage.clone(),
            memory: self.memory,
        }
    }
}

/// The contents of a list of processes.
pub open spec fn process_models(s: Seq<SystemProcess>) -> Seq<SystemProcessModel> {
    Seq::new(s.len(), |i: int| s[i]@)
}

/// The lower-case form of a text, by the mapping of the Unicode standard.
pub uninterp spec fn lowercase_text(s: Seq<char>) -> Seq<char>;

/// `str::to_lowercase`: the lower-case form of a string, which depends on its characters alone.
pub assume_specification[ str::to_lowercase ](s: &str) -> (r: String)
    ensures
        r@ == lowercase_text(s@),
;

/// The programs that are of interest.
pub open spec fn targets() -> Seq<Seq<char>> {
    seq![
        "node"@,
        "npm"@,
        "yarn"@,
        "pnpm"@,
        "python"@,
        "python3"@,
        "cargo"@,
        "go"@,
        "dotnet"@,
        "java"@,
        "docker"@,
    ]
}

/// Whether a lower-case name holds the name of a program of interest.
pub open spec fn is_target(lower: Seq<char>) -> bool {
    exists|k: int| 0 <= k < targets().len() && has_part(lower, #[trigger] targets()[k])
}

/// The processes of interest, in the given order.
pub open spec fn targeted(s: Seq<SystemProcessModel>) -> Seq<SystemProcessModel>
    decreases s.len(),
{
    if s.len() == 0 {
        Seq::empty()
    } else if is_target(lowercase_text(s.last().name)) {
        targeted(s.drop_last()).push(s.last())
    } else {
        targeted(s.drop_last())
    }
}

/// A list in descending order with one process more: behind all that rank as high.
pub open spec fn ranked_with(
    s: Seq<SystemProcessModel>,
    p: SystemProcessModel,
) -> Seq<SystemProcessModel>
    decreases s.len(),
{
    if s.len() == 0 || s.last().cpu_rank >= p.cpu_rank {
        s.push(p)
    } else {
        ranked_with(s.drop_last(), p).push(s.last())
    }
}

/// The list in descending order of rank, where equals keep their order.
pub open spec fn ranked(s: Seq<SystemProcessModel>) -> Seq<SystemProcessModel>
    decreases s.len(),
{
    if s.len() == 0 {
        Seq::empty()
    } else {
        ranked_with(ranked(s.drop_last()), s.last())
    }
}

/// At most the first `n` of a list.
pub open spec fn first<T>(s: Seq<T>, n: int) -> Seq<T> {
    if s.len() > n {
        s.take(n)
    } else {
        s
    }
}

/// Whether a lower-case name holds the name of a program of interest.
pub fn matches_target(lower: &str) -> (r: bool)
    ensures
        r == is_target(lower@),
{
    let names: Vec<&str> = vec![
        "node", "npm", "yarn", "pnpm", "python", "python3", "cargo", "go", "dotnet", "java",
        "docker",
    ];
    assert(names@.len() == targets().len());
    assert(forall|k: int| 0 <= k < names@.len() ==> (#[trigger] names@[k])@ == targets()[k]);
    let chars = chars_of(lower);
    let mut i: usize = 0;
    while i < names.len()
        invariant
            i <= names@.len(),
            names@.len() == targets().len(),
            forall|k: int| 0 <= k < names@.len() ==> (#[trigger] names@[k])@ == targets()[k],
            chars@ == lower@,
            forall|k: int| 0 <= k < i ==> !has_part(lower@, #[trigger] targets()[k]),
        decreases names@.len() - i,
    {
        let name = chars_of(names[i]);
        if contains_part(chars.as_slice(), name.as_slice()) {
            assert(has_part(lower@, targets()[i as int]));
            return true;
        }
        i += 1;
    }
    false
}

/// Adds a process to a list in descending order, behind all that rank as high.
fn insert_ranked(list: &mut Vec<SystemProcess>, p: SystemProcess)
    ensures
        process_models(final(list)@) == ranked_with(process_models(old(list)@), p@),
{
    let ghost before = process_models(list@);
    let mut at: usize = list.len();
    while at > 0 && list[at - 1].cpu_rank < p.cpu_rank
        invariant
            at <= list@.len(),
            before == process_models(list@),
            forall|k: int| at <= k < list@.len() ==> before[k].cpu_rank < p@.cpu_rank,
        decreases at,
    {
        assert(before[at - 1].cpu_rank == list@[at - 1].cpu_rank);
        at -= 1;
    }
    assert(at > 0 ==> before[at - 1].cpu_rank >= p@.cpu_rank);
    list.insert(at, p);
    proof {
        lemma_ranked_with(before, p@, at as int);
        assert(process_models(list@) =~= before.insert(at as int, p@));
    }
}

proof fn lemma_ranked_with(s: Seq<SystemProcessModel>, p: SystemProcessModel, at: int)
    requires
        0 <= at <= s.len(),
        forall|k: int| at <= k < s.len() ==> (#[trigger] s[k]).cpu_rank < p.cpu_rank,
        at > 0 ==> s[at - 1].cpu_rank >= p.cpu_rank,
    ensures
        ranked_with(s, p) == s.insert(at, p),
    decreases s.len(),
{
    if at == s.len() {
        assert(s.insert(at, p) =~= s.push(p));
    } else {
        lemma_ranked_with(s.drop_last(), p, at);
        assert(s.last() == s[s.len() - 1]);
        assert(s.insert(at, p) =~= s.drop_last().insert(at, p).push(s.last()));
    }
}

/// The processes to list, out of all processes of the system: those of interest, with the one
/// that takes the most of a processor first, and no more than fit.
pub fn get_system_processes(all: &Vec<SystemProcess>) -> (r: Vec<SystemProcess>)
    ensures
        process_models(r@) == first(ranked(targeted(process_models(all@))), MAX_LISTED as int),
{
    let mut list: Vec<SystemProcess> = Vec::new();
    let ghost models = process_models(all@);
    let mut i: usize = 0;
    assert(models.take(0) =~= Seq::empty());
    assert(process_models(list@) =~= ranked(targeted(models.take(0))));
    while i < all.len()
        invariant
            i <= all@.len(),
            models == process_models(all@),
            process_models(list@) == ranked(targeted(models.take(i as int))),
        decreases all@.len() - i,
    {
        let ghost seen = models.take(i + 1);
        assert(seen.drop_last() =~= models.take(i as int));
        assert(seen.last() == all@[i as int]@);
        let lower = all[i].name.as_str().to_lowercase();
        if matches_target(lower.as_str()) {
            let p = all[i].clone();
            insert_ranked(&mut list, p);
            assert(targeted(seen).drop_last() =~= targeted(models.take(i as int)));
        }
        i += 1;
    }
    assert(models.take(i as int) =~= models);
    let ghost whole = process_models(list@);
    list.truncate(MAX_LISTED);
    assert(process_models(list@) =~= first(whole, MAX_LISTED as int));
    list
}

proof fn lemma_ranked_with_is_descending(s: Seq<SystemProcessModel>, p: SystemProcessModel)
    requires
        descending(s),
    ensures
        descending(ranked_with(s, p)),
        ranked_with(s, p).len() == s.len() + 1,
        ranked_with(s, p).last() == p || (s.len() > 0 && ranked_with(s, p).last() == s.last()),
        ranked_with(s, p).to_multiset() =~= s.to_multiset().insert(p),
        forall|rank: i64|
            #[trigger] of_rank(ranked_with(s, p), rank) == of_rank(s.push(p), rank),
    decreases s.len(),
{
    broadcast use vstd::seq_lib::to_multiset_build;

    if s.len() == 0 || s.last().cpu_rank >= p.cpu_rank {
        assert(descending(s.push(p)));
    } else {
        let t = s.drop_last();
        let last = s.last();
        lemma_ranked_with_is_descending(t, p);
        let u = ranked_with(t, p);
        assert(t.push(last) =~= s);
        assert forall|i: int, j: int| 0 <= i < j < u.push(last).len() implies u.push(
            last,
        )[i].cpu_rank >= u.push(last)[j].cpu_rank by {
            if j == u.len() {
                assert(u[i].cpu_rank >= u.last().cpu_rank);
                if t.len() > 0 {
                    assert(s[t.len() - 1].cpu_rank >= s[t.len() as int].cpu_rank);
                }
            }
        }
        assert forall|rank: i64| #[trigger] of_rank(ranked_with(s, p), rank) == of_rank(
            s.push(p),
            rank,
        ) by {
            reveal_with_fuel(of_rank, 3);
            assert(ranked_with(s, p).drop_last() =~= u);
            assert(of_rank(u, rank) == of_rank(t.push(p), rank));
            assert(t.push(p).drop_last() =~= t);
            assert(s.push(p).drop_last() =~= s);
        }
    }
}

/// The processes of one rank, in the given order.
pub open spec fn of_rank(s: Seq<SystemProcessModel>, rank: i64) -> Seq<SystemProcessModel>
    decreases s.len(),
{
    if s.len() == 0 {
        Seq::empty()
    } else if s.last().cpu_rank == rank {
        of_rank(s.drop_last(), rank).push(s.last())
    } else {
        of_rank(s.drop_last(), rank)
    }
}

/// Whether no process ranks higher than one before it.
pub open spec fn descending(s: Seq<SystemProcessModel>) -> bool {
    forall|i: int, j: int| 0 <= i < j < s.len() ==> s[i].cpu_rank >= s[j].cpu_rank
}

/// The processes are listed from the highest rank down; the list holds what was given, and
/// processes of one rank keep their order.
pub proof fn lemma_ranked(s: Seq<SystemProcessModel>)
    ensures
        descending(ranked(s)),
        ranked(s).len() == s.len(),
        ranked(s).to_multiset() == s.to_multiset(),
        forall|rank: i64| #[trigger] of_rank(ranked(s), rank) == of_rank(s, rank),
    decreases s.len(),
{
    broadcast use vstd::seq_lib::to_multiset_build;

    if s.len() > 0 {
        let t = s.drop_last();
        lemma_ranked(t);
        lemma_ranked_with_is_descending(ranked(t), s.last());
        assert(t.push(s.last()) =~= s);
        assert forall|rank: i64| #[trigger] of_rank(ranked(s), rank) == of_rank(s, rank) by {
            assert(of_rank(ranked(t), rank) == of_rank(t, rank));
            assert(ranked(t).push(s.last()).drop_last() =~= ranked(t));
        }
    } else {
        assert(ranked(s) =~= s);
    }
}

/// Every listed process is of interest, and no process of interest that is left out ranks higher
/// than one that is listed.
pub proof fn lemma_listed_processes_rank_highest(s: Seq<SystemProcessModel>)
    ensures
        ({
            let listed = first(ranked(targeted(s)), MAX_LISTED as int);
            let rest = ranked(targeted(s)).skip(listed.len() as int);
            &&& listed.len() <= MAX_LISTED
            &&& listed.len() < MAX_LISTED ==> rest.len() == 0
            &&& listed + rest == ranked(targeted(s))
            &&& descending(listed)
            &&& forall|i: int, j: int|
                0 <= i < listed.len() && 0 <= j < rest.len() ==> (#[trigger] listed[i]).cpu_rank
                    >= (#[trigger] rest[j]).cpu_rank
            &&& forall|i: int|
                0 <= i < listed.len() ==> is_target(
                    lowercase_text((#[trigger] listed[i]).name),
                ) && s.contains(listed[i])
        }),
{
    broadcast use vstd::seq_lib::to_multiset_contains;

    let t = targeted(s);
    lemma_ranked(t);
    lemma_targeted(s);
    let listed = first(ranked(t), MAX_LISTED as int);
    let rest = ranked(t).skip(listed.len() as int);
    assert(listed + rest =~= ranked(t));
    assert forall|i: int| 0 <= i < listed.len() implies is_target(
        lowercase_text((#[trigger] listed[i]).name),
    ) && s.contains(listed[i]) by {
        assert(ranked(t)[i] == listed[i]);
        assert(ranked(t).contains(listed[i]));
        assert(ranked(t).to_multiset().count(listed[i]) > 0);
        assert(t.to_multiset().count(listed[i]) > 0);
        assert(t.contains(listed[i]));
    }
}

proof fn lemma_targeted(s: Seq<SystemProcessModel>)
    ensures
        forall|p: SystemProcessModel| #[trigger]
            targeted(s).contains(p) ==> is_target(lowercase_text(p.name)) && s.contains(p),
    decreases s.len(),
{
    if s.len() > 0 {
        lemma_targeted(s.drop_last());
        assert forall|p: SystemProcessModel| #[trigger]
            targeted(s).contains(p) implies is_target(lowercase_text(p.name)) && s.contains(p) by {
            let k = choose|k: int| 0 <= k < targeted(s).len() && targeted(s)[k] == p;
            if k < targeted(s.drop_last()).len() {
                assert(targeted(s.drop_last())[k] == p);
                assert(targeted(s.drop_last()).contains(p));
                let j = choose|j: int| 0 <= j < s.drop_last().len() && s.drop_last()[j] == p;
                assert(s[j] == p);
            } else {
                assert(s[s.len() - 1] == p);
            }
        }
    }
}

} // verus!
