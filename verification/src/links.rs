//! Chains of links between highlight groups: where a chain ends, and when it runs in a circle.

use crate::configuration::HighlightView;
use crate::name_map::{has_name, index_of, lemma_lookup_at, lookup, sorted};
use vstd::prelude::*;

verus! {

/// Highlight groups by name, in the order of their names.
pub type Groups = Seq<(Seq<char>, HighlightView)>;

/// The group that `name` links to, where `name` is a group and links to one.
pub open spec fn link_of(groups: Groups, name: Seq<char>) -> Option<Seq<char>> {
    match lookup(groups, name) {
        Some(h) => h.link,
        None => None,
    }
}

/// The name that is reached from `start` by following `n` links, where there are that many.
pub open spec fn hop(groups: Groups, start: Seq<char>, n: nat) -> Option<Seq<char>>
    decreases n,
{
    if n == 0 {
        Some(start)
    } else {
        match hop(groups, start, (n - 1) as nat) {
            Some(name) => link_of(groups, name),
            None => None,
        }
    }
}

/// The chain from `start` ends after exactly `n` links: the name reached there links to
/// nothing, because it is a group without a link or no group at all.
pub open spec fn ends_after(groups: Groups, start: Seq<char>, n: nat) -> bool {
    hop(groups, start, n) matches Some(name) && link_of(groups, name) is None
}

/// The chain from `start` ends.
pub open spec fn chain_ends(groups: Groups, start: Seq<char>) -> bool {
    exists|n: nat| ends_after(groups, start, n)
}

/// The number of links in the chain from `start`, where it ends.
pub open spec fn chain_length(groups: Groups, start: Seq<char>) -> nat {
    choose|n: nat| ends_after(groups, start, n)
}

/// The name at which the chain from `start` ends, where it ends.
pub open spec fn chain_end(groups: Groups, start: Seq<char>) -> Seq<char> {
    hop(groups, start, chain_length(groups, start)).unwrap()
}

/// After `n` links the chain from `start` is at a name at which it has been before.
pub open spec fn repeats_at(groups: Groups, start: Seq<char>, n: nat) -> bool {
    hop(groups, start, n) is Some && exists|i: nat|
        i < n && #[trigger] hop(groups, start, i) == hop(groups, start, n)
}

/// `n` is the first number of links after which the chain from `start` repeats a name.
pub open spec fn first_repeat_at(groups: Groups, start: Seq<char>, n: nat) -> bool {
    repeats_at(groups, start, n) && forall|m: nat| m < n ==> !repeats_at(groups, start, m)
}

/// The first name that the chain from `start` reaches a second time, where it does.
pub open spec fn cycle_member(groups: Groups, start: Seq<char>) -> Seq<char> {
    hop(groups, start, choose|n: nat| first_repeat_at(groups, start, n)).unwrap()
}

/// `name` lies on a circle of links: following one link or more leads from it back to it.
pub open spec fn on_cycle(groups: Groups, name: Seq<char>) -> bool {
    exists|n: nat| n >= 1 && hop(groups, name, n) == Some(name)
}

/// Once a chain has ended it does not start again.
pub proof fn lemma_hop_stays_none(groups: Groups, start: Seq<char>, m: nat, n: nat)
    requires
        m <= n,
        hop(groups, start, m) is None,
    ensures
        hop(groups, start, n) is None,
    decreases n,
{
    if m < n {
        lemma_hop_stays_none(groups, start, m, (n - 1) as nat);
    }
}

/// Following `m` links and then `n` more is following `m + n` links.
pub proof fn lemma_hop_add(groups: Groups, start: Seq<char>, m: nat, n: nat)
    requires
        hop(groups, start, m) is Some,
    ensures
        hop(groups, start, m + n) == hop(groups, hop(groups, start, m).unwrap(), n),
    decreases n,
{
    if n > 0 {
        lemma_hop_add(groups, start, m, (n - 1) as nat);
    }
}

/// A chain ends at one place only.
pub proof fn lemma_end_unique(groups: Groups, start: Seq<char>, n: nat)
    requires
        ends_after(groups, start, n),
    ensures
        chain_ends(groups, start),
        chain_length(groups, start) == n,
        chain_end(groups, start) == hop(groups, start, n).unwrap(),
{
    let c = chain_length(groups, start);
    if c < n {
        lemma_hop_stays_none(groups, start, c + 1, n);
    } else if n < c {
        lemma_hop_stays_none(groups, start, n + 1, c);
    }
}

/// A chain that comes to a name for the second time goes on for ever: after any number of
/// links it is at a group that links on.
pub proof fn lemma_repeat_goes_on(groups: Groups, start: Seq<char>, i: nat, k: nat, n: nat)
    requires
        i < k,
        hop(groups, start, k) is Some,
        hop(groups, start, i) == hop(groups, start, k),
    ensures
        hop(groups, start, n) matches Some(name) && link_of(groups, name) is Some,
        n >= i ==> hop(groups, start, (n + (k - i)) as nat) == hop(groups, start, n),
    decreases n,
{
    let d = (k - i) as nat;
    if n < k {
        if hop(groups, start, n) is None {
            lemma_hop_stays_none(groups, start, n, k);
        }
        if hop(groups, start, n + 1) is None {
            lemma_hop_stays_none(groups, start, n + 1, k);
        }
        if n > i {
            lemma_repeat_goes_on(groups, start, i, k, (n - 1) as nat);
        }
    } else {
        lemma_repeat_goes_on(groups, start, i, k, (n - 1) as nat);
        lemma_repeat_goes_on(groups, start, i, k, (n - d) as nat);
    }
}

/// A chain that comes to a name for the second time does not end.
pub proof fn lemma_repeat_never_ends(groups: Groups, start: Seq<char>, i: nat, k: nat)
    requires
        i < k,
        hop(groups, start, k) is Some,
        hop(groups, start, i) == hop(groups, start, k),
    ensures
        !chain_ends(groups, start),
{
    assert forall|n: nat| !ends_after(groups, start, n) by {
        lemma_repeat_goes_on(groups, start, i, k, n);
    }
}

/// There is one first repeat only, and the name found there lies on a circle.
pub proof fn lemma_first_repeat(groups: Groups, start: Seq<char>, k: nat)
    requires
        first_repeat_at(groups, start, k),
    ensures
        cycle_member(groups, start) == hop(groups, start, k).unwrap(),
        on_cycle(groups, cycle_member(groups, start)),
        !chain_ends(groups, start),
{
    let c = choose|n: nat| first_repeat_at(groups, start, n);
    assert(c == k);
    let i = choose|i: nat| i < k && #[trigger] hop(groups, start, i) == hop(groups, start, k);
    lemma_hop_add(groups, start, i, (k - i) as nat);
    lemma_repeat_never_ends(groups, start, i, k);
}

/// Names that differ from one another and are all names of groups are no more than the
/// groups are.
pub proof fn lemma_distinct_names_bound(groups: Groups, names: Seq<Seq<char>>)
    requires
        names.no_duplicates(),
        forall|i: int| 0 <= i < names.len() ==> has_name(groups, #[trigger] names[i]),
    ensures
        names.len() <= groups.len(),
    decreases groups.len(),
{
    if groups.len() == 0 {
        if names.len() > 0 {
            assert(has_name(groups, names[0]));
        }
    } else {
        let last = groups.last().0;
        let fewer = groups.drop_last();
        let rest = if names.contains(last) {
            names.remove(names.index_of(last))
        } else {
            names
        };
        assert forall|i: int| 0 <= i < rest.len() implies has_name(fewer, #[trigger] rest[i]) by {
            let at = if names.contains(last) && i >= names.index_of(last) {
                i + 1
            } else {
                i
            };
            let j = index_of(groups, names[at]);
            assert(fewer[j] == groups[j]);
        }
        assert forall|a: int, b: int| 0 <= a < rest.len() && 0 <= b < rest.len() && a
            != b implies rest[a] != rest[b] by {
            if names.contains(last) {
                let cut = names.index_of(last);
                let oa = if a >= cut { a + 1 } else { a };
                let ob = if b >= cut { b + 1 } else { b };
                assert(rest[a] == names[oa] && rest[b] == names[ob]);
            }
        }
        lemma_distinct_names_bound(fewer, rest);
    }
}

/// A highlight group whose link, if it has one, goes straight to the end of its chain.
pub open spec fn relinked(groups: Groups, h: HighlightView) -> HighlightView {
    match h.link {
        Some(link) => HighlightView { link: Some(chain_end(groups, link)), ..h },
        None => h,
    }
}

/// The groups with each link put straight to the end of its chain.
pub open spec fn reduced(groups: Groups) -> Groups {
    Seq::new(groups.len(), |i: int| (groups[i].0, relinked(groups, groups[i].1)))
}

/// The group at position `i` has a link whose chain does not end.
pub open spec fn cyclic_at(groups: Groups, i: int) -> bool {
    groups[i].1.link matches Some(link) && !chain_ends(groups, link)
}

/// The chain of every link ends.
pub open spec fn acyclic(groups: Groups) -> bool {
    forall|i: int| 0 <= i < groups.len() ==> !cyclic_at(groups, i)
}

/// `i` is the first position of a group whose chain does not end.
pub open spec fn first_cyclic_at(groups: Groups, i: int) -> bool {
    &&& 0 <= i < groups.len()
    &&& cyclic_at(groups, i)
    &&& forall|j: int| 0 <= j < i ==> !cyclic_at(groups, j)
}

/// What reducing the links comes to. Where every chain ends: the groups, each link put
/// straight to the end of its chain. Where not: for the first group, in the order of the
/// names, whose chain does not end, the first name that its chain reaches a second time.
pub open spec fn reduction(groups: Groups) -> Result<Groups, Seq<char>> {
    if acyclic(groups) {
        Ok(reduced(groups))
    } else {
        let i = choose|i: int| first_cyclic_at(groups, i);
        Err(cycle_member(groups, groups[i].1.link.unwrap()))
    }
}

/// There is one first group only whose chain does not end.
pub proof fn lemma_first_cyclic(groups: Groups, i: int)
    requires
        first_cyclic_at(groups, i),
    ensures
        reduction(groups) == Err::<Groups, Seq<char>>(
            cycle_member(groups, groups[i].1.link.unwrap()),
        ),
{
}

/// Reducing the links leaves every group under its name and changes nothing but links.
pub proof fn lemma_reduced_names(groups: Groups)
    requires
        sorted(groups),
    ensures
        sorted(reduced(groups)),
        forall|name: Seq<char>| has_name(reduced(groups), name) <==> has_name(groups, name),
        forall|name: Seq<char>|
            has_name(groups, name) ==> lookup(reduced(groups), name) == Some(
                relinked(groups, lookup(groups, name).unwrap()),
            ),
{
    let r = reduced(groups);
    assert forall|i: int, j: int| 0 <= i < j < r.len() implies crate::text::precedes(
        (#[trigger] r[i]).0,
        (#[trigger] r[j]).0,
    ) by {
        assert(r[i].0 == groups[i].0 && r[j].0 == groups[j].0);
    }
    assert forall|name: Seq<char>| has_name(r, name) <==> has_name(groups, name) by {
        if has_name(r, name) {
            let i = index_of(r, name);
            assert(groups[i].0 == name);
        }
        if has_name(groups, name) {
            let i = index_of(groups, name);
            assert(r[i].0 == name);
        }
    }
    assert forall|name: Seq<char>| has_name(groups, name) implies lookup(r, name) == Some(
        relinked(groups, lookup(groups, name).unwrap()),
    ) by {
        let i = index_of(groups, name);
        lemma_lookup_at(groups, i);
        lemma_lookup_at(r, i);
    }
}

/// Once the links are reduced, no group links to a group that links on.
pub proof fn lemma_reduced_links_end(groups: Groups)
    requires
        sorted(groups),
        acyclic(groups),
    ensures
        forall|i: int|
            0 <= i < groups.len() ==> ((#[trigger] reduced(groups)[i]).1.link matches Some(target)
                ==> link_of(reduced(groups), target) is None),
{
    lemma_reduced_names(groups);
    assert forall|i: int| 0 <= i < groups.len() implies ((#[trigger] reduced(
        groups,
    )[i]).1.link matches Some(target) ==> link_of(reduced(groups), target) is None) by {
        if groups[i].1.link is Some {
            let link = groups[i].1.link.unwrap();
            assert(!cyclic_at(groups, i));
            assert(ends_after(groups, link, chain_length(groups, link)));
        }
    }
}

/// Where a group links to a second one, the second to a third, and the third links to
/// nothing, reducing the links makes the first group link to the third.
pub proof fn lemma_link_through(groups: Groups, a: Seq<char>, b: Seq<char>, c: Seq<char>)
    requires
        sorted(groups),
        acyclic(groups),
        link_of(groups, a) == Some(b),
        link_of(groups, b) == Some(c),
        link_of(groups, c) is None,
    ensures
        reduction(groups) matches Ok(flat) && link_of(flat, a) == Some(c),
{
    lemma_reduced_names(groups);
    assert(hop(groups, b, 1) == link_of(groups, hop(groups, b, 0).unwrap()));
    lemma_end_unique(groups, b, 1);
}

/// A chain that does not end is, after any number of links, at a group that links on.
pub proof fn lemma_endless_chain(groups: Groups, start: Seq<char>, n: nat)
    requires
        !chain_ends(groups, start),
    ensures
        hop(groups, start, n) matches Some(name) && link_of(groups, name) is Some,
    decreases n,
{
    if n > 0 {
        lemma_endless_chain(groups, start, (n - 1) as nat);
    }
    assert(!ends_after(groups, start, n));
}

proof fn lemma_search_repeat(groups: Groups, start: Seq<char>, k: nat)
    requires
        !chain_ends(groups, start),
        k <= groups.len(),
        forall|m: nat| m < k ==> !repeats_at(groups, start, m),
    ensures
        exists|n: nat| first_repeat_at(groups, start, n),
    decreases groups.len() - k,
{
    lemma_endless_chain(groups, start, k);
    if repeats_at(groups, start, k) {
        assert(first_repeat_at(groups, start, k));
    } else {
        let names = Seq::new(k + 1, |i: int| hop(groups, start, i as nat).unwrap());
        assert forall|i: int| 0 <= i < names.len() implies has_name(
            groups,
            #[trigger] names[i],
        ) by {
            lemma_endless_chain(groups, start, i as nat);
        }
        assert forall|i: int, j: int|
            0 <= i < names.len() && 0 <= j < names.len() && i != j implies names[i]
            != names[j] by {
            lemma_endless_chain(groups, start, i as nat);
            lemma_endless_chain(groups, start, j as nat);
            if i < j {
                assert(!repeats_at(groups, start, j as nat));
            } else {
                assert(!repeats_at(groups, start, i as nat));
            }
        }
        lemma_distinct_names_bound(groups, names);
        assert forall|m: nat| m < k + 1 implies !repeats_at(groups, start, m) by {}
        lemma_search_repeat(groups, start, k + 1);
    }
}

/// A chain that does not end comes to some name for the second time.
pub proof fn lemma_endless_chain_repeats(groups: Groups, start: Seq<char>)
    requires
        !chain_ends(groups, start),
    ensures
        exists|n: nat| first_repeat_at(groups, start, n),
{
    lemma_search_repeat(groups, start, 0);
}

proof fn lemma_search_cyclic(groups: Groups, i: int, from: int)
    requires
        0 <= from <= i < groups.len(),
        cyclic_at(groups, i),
        forall|j: int| 0 <= j < from ==> !cyclic_at(groups, j),
    ensures
        exists|c: int| first_cyclic_at(groups, c),
    decreases i - from,
{
    if cyclic_at(groups, from) {
        assert(first_cyclic_at(groups, from));
    } else {
        lemma_search_cyclic(groups, i, from + 1);
    }
}

/// Where the links run in a circle anywhere, reducing them fails, and the name that the
/// failure carries lies on a circle.
pub proof fn lemma_cycle_is_reported(groups: Groups, name: Seq<char>)
    requires
        sorted(groups),
        on_cycle(groups, name),
    ensures
        reduction(groups) matches Err(member) && on_cycle(groups, member),
{
    let n = choose|n: nat| n >= 1 && hop(groups, name, n) == Some(name);
    lemma_repeat_goes_on(groups, name, 0, n, 0);
    let i = index_of(groups, name);
    lemma_lookup_at(groups, i);
    let link = groups[i].1.link.unwrap();
    assert forall|m: nat| !ends_after(groups, link, m) by {
        lemma_repeat_goes_on(groups, name, 0, n, 1 + m);
        lemma_hop_add(groups, name, 1, m);
    }
    lemma_search_cyclic(groups, i, 0);
    let c = choose|c: int| first_cyclic_at(groups, c);
    lemma_first_cyclic(groups, c);
    let bad = groups[c].1.link.unwrap();
    lemma_endless_chain_repeats(groups, bad);
    let k = choose|k: nat| first_repeat_at(groups, bad, k);
    lemma_first_repeat(groups, bad, k);
}

} // verus!
