//! Lists of keyed values read as tables.
use vstd::prelude::*;

verus! {

/// The table a list of entries spells: a later entry replaces an earlier one of its key.
pub open spec fn table_of<K, V>(list: Seq<(K, V)>) -> Map<K, V>
    decreases list.len(),
{
    if list.len() == 0 {
        Map::empty()
    } else {
        table_of(list.drop_last()).insert(list.last().0, list.last().1)
    }
}

/// Whether no key occurs twice.
pub open spec fn distinct<K, V>(list: Seq<(K, V)>) -> bool {
    forall|i: int, j: int| 0 <= i < j < list.len() ==> (#[trigger] list[i]).0 != (#[trigger] list[j]).0
}

/// What the last entry of a key says is what the table says of it.
pub proof fn lemma_lookup<K, V>(list: Seq<(K, V)>, key: K, at: int)
    requires
        -1 <= at < list.len(),
        forall|j: int| at < j < list.len() ==> (#[trigger] list[j]).0 != key,
        at >= 0 ==> list[at].0 == key,
    ensures
        at >= 0 ==> table_of(list).dom().contains(key) && table_of(list)[key] == list[at].1,
        at < 0 ==> !table_of(list).dom().contains(key),
    decreases list.len(),
{
    if list.len() > 0 && at < list.len() - 1 {
        let rest = list.drop_last();
        assert(list[list.len() - 1].0 != key);
        lemma_lookup(rest, key, at);
    }
}

/// Replacing the last entry of a key replaces what the table says of it.
pub proof fn lemma_update<K, V>(list: Seq<(K, V)>, at: int, value: V)
    requires
        0 <= at < list.len(),
        forall|j: int| at < j < list.len() ==> (#[trigger] list[j]).0 != list[at].0,
    ensures
        table_of(list.update(at, (list[at].0, value))) == table_of(list).insert(list[at].0, value),
    decreases list.len(),
{
    let key = list[at].0;
    let updated = list.update(at, (key, value));
    let rest = list.drop_last();
    if at == list.len() - 1 {
        assert(updated.drop_last() =~= rest);
        assert(table_of(updated) =~= table_of(list).insert(key, value));
    } else {
        assert(updated.drop_last() =~= rest.update(at, (key, value)));
        assert(list[list.len() - 1].0 != key);
        assert forall|j: int| at < j < rest.len() implies (#[trigger] rest[j]).0 != rest[at].0 by {
            assert(list[j].0 != list[at].0);
        }
        lemma_update(rest, at, value);
        assert(table_of(updated) =~= table_of(list).insert(key, value));
    }
}

/// Removing the only entry of a key removes the key.
pub proof fn lemma_remove<K, V>(list: Seq<(K, V)>, at: int)
    requires
        0 <= at < list.len(),
        distinct(list),
    ensures
        table_of(list.remove(at)) == table_of(list).remove(list[at].0),
        distinct(list.remove(at)),
    decreases list.len(),
{
    let key = list[at].0;
    let rest = list.drop_last();
    let after = list.remove(at);
    assert forall|i: int, j: int| 0 <= i < j < after.len() implies (#[trigger] after[i]).0 != (#[trigger] after[j]).0 by {
        let x = if i < at { i } else { i + 1 };
        let y = if j < at { j } else { j + 1 };
        assert(after[i] == list[x] && after[j] == list[y]);
    }
    if at == list.len() - 1 {
        assert(after =~= rest);
        assert forall|j: int| -1 < j < rest.len() implies (#[trigger] rest[j]).0 != key by {
            assert(list[j].0 != list[at].0);
        }
        lemma_lookup(rest, key, -1);
        assert(table_of(rest) =~= table_of(list).remove(key));
    } else {
        assert(after.drop_last() =~= rest.remove(at));
        assert(after.last() == list.last());
        assert(list[at].0 != list[list.len() - 1].0);
        lemma_remove(rest, at);
        assert(table_of(after) =~= table_of(list).remove(key));
    }
}

/// A table of distinct entries says of each key what its entry says, and of nothing else.
pub proof fn lemma_entries<K, V>(list: Seq<(K, V)>)
    requires
        distinct(list),
    ensures
        forall|i: int|
            0 <= i < list.len() ==> table_of(list).dom().contains((#[trigger] list[i]).0) && table_of(
                list,
            )[list[i].0] == list[i].1,
        forall|key: K| #[trigger]
            table_of(list).dom().contains(key) ==> exists|i: int| 0 <= i < list.len() && (#[trigger] list[i]).0 == key,
{
    assert forall|i: int| 0 <= i < list.len() implies table_of(list).dom().contains((#[trigger] list[i]).0) && table_of(
        list,
    )[list[i].0] == list[i].1 by {
        lemma_lookup(list, list[i].0, i);
    }
    assert forall|key: K| #[trigger] table_of(list).dom().contains(key) implies exists|i: int|
        0 <= i < list.len() && (#[trigger] list[i]).0 == key by {
        if !(exists|i: int| 0 <= i < list.len() && (#[trigger] list[i]).0 == key) {
            lemma_lookup(list, key, -1);
        }
    }
}

} // verus!
