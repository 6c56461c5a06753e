//! Counting with `counter::Counter`, and the ranking of commands by it.

use crate::frequency::{
    first_position, has_entry, is_ranking, lemma_first_position, lemma_first_position_is,
    lemma_occurrences_bound, lemma_occurrences_contains, lemma_occurrences_matching, occurrences,
};
use crate::text::texts;
use counter::Counter;
use vstd::hash_map::StringHashMap;
use vstd::prelude::*;

verus! {

/// `counter::Counter`, carried as it is: what it holds is known through
/// [`tally_entries`] alone.
#[verifier::external_type_specification]
#[verifier::external_body]
#[verifier::reject_recursive_types(T)]
#[verifier::reject_recursive_types(N)]
#[verifier::reject_recursive_types(S)]
pub struct ExCounter<T, N, S>(Counter<T, N, S>);

/// The entries that a counter holds: each key of its map with its count.
pub uninterp spec fn tally_entries(c: Counter<usize, usize>) -> Map<usize, usize>;

/// The count of `key` among `entries`; zero where it has no entry.
pub open spec fn count_of(entries: Map<usize, usize>, key: usize) -> nat {
    if entries.contains_key(key) {
        entries[key] as nat
    } else {
        0
    }
}

/// `Counter::new`: a counter without entries.
#[verifier::external_body]
pub(crate) fn tally_new() -> (fresh: Counter<usize, usize>)
    ensures
        tally_entries(fresh) == (Map::<usize, usize>::empty()),
{
    Counter::new()
}

/// `Counter::update` with one item: the count of `key` grows by one, an entry
/// being made for it where there was none, and no other entry changes. The
/// count must have room to grow.
#[verifier::external_body]
pub(crate) fn tally_add(c: &mut Counter<usize, usize>, key: usize)
    requires
        count_of(tally_entries(*old(c)), key) < usize::MAX,
    ensures
        tally_entries(*final(c)) == tally_entries(*old(c)).insert(
            key,
            (count_of(tally_entries(*old(c)), key) + 1) as usize,
        ),
{
    c.update([key]);
}

/// `Counter::most_common_ordered`: every entry once, by falling count, and by
/// rising key among entries of one count.
#[verifier::external_body]
pub(crate) fn tally_ranked(c: &Counter<usize, usize>) -> (r: Vec<(usize, usize)>)
    ensures
        forall|i: int|
            0 <= i < r@.len() ==> tally_entries(*c).contains_pair((#[trigger] r@[i]).0, r@[i].1),
        forall|k: usize|
            #[trigger] tally_entries(*c).contains_key(k) ==> exists|i: int|
                0 <= i < r@.len() && (#[trigger] r@[i]).0 == k,
        forall|i: int, j: int|
            0 <= i < j < r@.len() ==> (#[trigger] r@[i]).1 > (#[trigger] r@[j]).1 || (r@[i].1
                == r@[j].1 && r@[i].0 < r@[j].0),
{
    c.most_common_ordered()
}

/// A ranking as plain text and numbers.
pub open spec fn ranked_view(ranked: Seq<(String, usize)>) -> Seq<(Seq<char>, nat)> {
    ranked.map_values(|entry: (String, usize)| (entry.0@, entry.1 as nat))
}

/// For each command, the first position that holds its text.
pub fn first_positions(cmds: &[String]) -> (firsts: Vec<usize>)
    ensures
        firsts@.len() == cmds@.len(),
        forall|i: int|
            0 <= i < cmds@.len() ==> #[trigger] firsts@[i] == first_position(
                texts(cmds@),
                texts(cmds@)[i],
            ),
{
    let ghost all = texts(cmds@);
    let mut seen: StringHashMap<usize> = StringHashMap::new();
    let mut firsts: Vec<usize> = Vec::new();
    let mut i: usize = 0;
    while i < cmds.len()
        invariant
            i <= cmds@.len(),
            all == texts(cmds@),
            firsts@.len() == i,
            forall|t: Seq<char>| #[trigger]
                seen@.contains_key(t) ==> 0 <= seen@[t] < i && all[seen@[t] as int] == t
                    && first_position(all, t) == seen@[t],
            forall|j: int| 0 <= j < i ==> seen@.contains_key(#[trigger] all[j]),
            forall|j: int| 0 <= j < i ==> #[trigger] firsts@[j] == first_position(all, all[j]),
        decreases cmds@.len() - i,
    {
        let found = seen.get(cmds[i].as_str());
        let first = match found {
            Some(at) => *at,
            None => i,
        };
        if found.is_none() {
            proof {
                lemma_first_position_is(all, all[i as int], i as int);
            }
            seen.insert(cmds[i].clone(), i);
        }
        firsts.push(first);
        i += 1;
    }
    firsts
}

/// A counter that holds each key of `keys` with the number of its occurrences.
fn tally_of(keys: &[usize]) -> (c: Counter<usize, usize>)
    ensures
        forall|k: usize| #[trigger] count_of(tally_entries(c), k) == occurrences(keys@, k),
        forall|k: usize| #[trigger]
            tally_entries(c).contains_key(k) ==> occurrences(keys@, k) > 0,
{
    let mut c = tally_new();
    let mut i: usize = 0;
    while i < keys.len()
        invariant
            i <= keys@.len(),
            forall|k: usize| #[trigger]
                count_of(tally_entries(c), k) == occurrences(keys@.take(i as int), k),
            forall|k: usize| #[trigger]
                tally_entries(c).contains_key(k) ==> occurrences(keys@.take(i as int), k) > 0,
        decreases keys@.len() - i,
    {
        let ghost before = tally_entries(c);
        proof {
            lemma_occurrences_bound(keys@.take(i as int), keys@[i as int]);
        }
        tally_add(&mut c, keys[i]);
        proof {
            assert(keys@.take(i + 1).drop_last() =~= keys@.take(i as int));
            assert forall|k: usize| #[trigger]
                count_of(tally_entries(c), k) == occurrences(keys@.take(i + 1), k) by {
                assert(count_of(before, k) == occurrences(keys@.take(i as int), k));
            }
        }
        i += 1;
    }
    assert(keys@.take(i as int) =~= keys@);
    c
}

/// Whether `entry` holds the text that first stands at the position `slot.0`
/// of `all`, and its number of occurrences, which is `slot.1`.
spec fn placed(all: Seq<Seq<char>>, entry: (String, usize), slot: (usize, usize)) -> bool {
    &&& slot.0 < all.len()
    &&& entry.0@ == all[slot.0 as int]
    &&& entry.1 == slot.1
    &&& first_position(all, entry.0@) == slot.0
    &&& occurrences(all, entry.0@) == entry.1
}

/// The ranking of `cmds`: each text once with the number of its occurrences,
/// the most frequent first, and the one that occurs first before the others of
/// its frequency.
pub fn rank_commands(cmds: &[String]) -> (ranked: Vec<(String, usize)>)
    ensures
        is_ranking(texts(cmds@), ranked_view(ranked@)),
{
    let ghost all = texts(cmds@);
    let firsts = first_positions(cmds);
    let c = tally_of(firsts.as_slice());
    let order = tally_ranked(&c);
    let mut ranked: Vec<(String, usize)> = Vec::new();
    let mut i: usize = 0;
    proof {
        assert forall|j: int| 0 <= j < all.len() implies firsts@[j] < all.len() && all[firsts@[j] as int] == all[j] by {
            lemma_first_position(all, all[j]);
        }
    }
    while i < order.len()
        invariant
            i <= order@.len(),
            all == texts(cmds@),
            ranked@.len() == i,
            firsts@.len() == all.len(),
            forall|j: int| 0 <= j < all.len() ==> #[trigger] firsts@[j] == first_position(all, all[j]),
            forall|k: usize| #[trigger] count_of(tally_entries(c), k) == occurrences(firsts@, k),
            forall|k: usize| #[trigger]
                tally_entries(c).contains_key(k) ==> occurrences(firsts@, k) > 0,
            forall|j: int|
                0 <= j < order@.len() ==> tally_entries(c).contains_pair(
                    (#[trigger] order@[j]).0,
                    order@[j].1,
                ),
            forall|j: int| 0 <= j < i ==> placed(all, #[trigger] ranked@[j], order@[j]),
        decreases order@.len() - i,
    {
        let (key, count) = order[i];
        proof {
            assert(count_of(tally_entries(c), key) == occurrences(firsts@, key));
            lemma_occurrences_contains(firsts@, key);
            let j = choose|j: int| 0 <= j < firsts@.len() && firsts@[j] == key;
            lemma_first_position(all, all[j]);
            let text = all[key as int];
            assert forall|m: int| 0 <= m < all.len() implies (firsts@[m] == key <==> all[m]
                == text) by {
                lemma_first_position(all, all[m]);
            }
            lemma_occurrences_matching(firsts@, key, all, text);
        }
        let text = cmds[key].clone();
        ranked.push((text, count));
        i += 1;
    }
    proof {
        let r = ranked_view(ranked@);
        assert forall|j: int| 0 <= j < all.len() implies has_entry(r, #[trigger] all[j]) by {
            let key = firsts@[j];
            lemma_occurrences_contains(firsts@, key);
            assert(count_of(tally_entries(c), key) == occurrences(firsts@, key));
            let m = choose|m: int| 0 <= m < order@.len() && (#[trigger] order@[m]).0 == key;
            assert(r[m].0 == all[j]);
        }
    }
    ranked
}

} // verus!
