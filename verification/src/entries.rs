//! Lists of named values that stand for maps.
use vstd::prelude::*;
use crate::models::{EnvValue, distinct_names};
use crate::text::{cat3, same, strs};

verus! {

/// The map that a list of named values stands for.
pub open spec fn entry_map<V: View>(entries: Seq<(String, V)>) -> Map<Seq<char>, V::V>
    decreases entries.len(),
{
    if entries.len() == 0 {
        Map::empty()
    } else {
        entry_map(entries.drop_last()).insert(entries.last().0@, entries.last().1@)
    }
}

/// Giving the entry at `i` a new value gives its name a new value in the map.
proof fn lemma_entry_update<V: View>(entries: Seq<(String, V)>, i: int, entry: (String, V))
    requires
        0 <= i < entries.len(),
        entry.0@ == entries[i].0@,
        distinct_names(entries),
    ensures
        entry_map(entries.update(i, entry)) == entry_map(entries).insert(entry.0@, entry.1@),
        distinct_names(entries.update(i, entry)),
    decreases entries.len(),
{
    let changed = entries.update(i, entry);
    let init = entries.drop_last();
    if i == entries.len() - 1 {
        assert(changed.drop_last() =~= init);
        assert(entry_map(changed) =~= entry_map(entries).insert(entry.0@, entry.1@));
    } else {
        assert(changed.drop_last() =~= init.update(i, entry));
        assert forall|a: int, b: int| 0 <= a < b < init.len() implies (#[trigger] init[a]).0@ != (
        #[trigger] init[b]).0@ by {
            assert(entries[a].0@ != entries[b].0@);
        }
        lemma_entry_update(init, i, entry);
        assert(entries[i].0@ != entries[entries.len() - 1].0@);
        assert(entry_map(changed) =~= entry_map(entries).insert(entry.0@, entry.1@));
    }
    assert forall|a: int, b: int| 0 <= a < b < changed.len() implies (#[trigger] changed[a]).0@ != (
    #[trigger] changed[b]).0@ by {
        assert(entries[a].0@ != entries[b].0@);
    }
}

/// Give a name a value.
pub fn upsert<V: View>(entries: &mut Vec<(String, V)>, key: &str, value: V)
    requires
        distinct_names(old(entries)@),
    ensures
        entry_map(final(entries)@) == entry_map(old(entries)@).insert(key@, value@),
        distinct_names(final(entries)@),
{
    let ghost before = entries@;
    let mut i: usize = 0;
    while i < entries.len()
        invariant
            i <= entries.len(),
            entries@ == before,
            before == old(entries)@,
            distinct_names(before),
            forall|j: int| 0 <= j < i ==> (#[trigger] before[j]).0@ != key@,
        decreases entries.len() - i,
    {
        if same(entries[i].0.as_str(), key) {
            let entry = (key.to_owned(), value);
            proof {
                lemma_entry_update(before, i as int, entry);
            }
            entries.set(i, entry);
            return ;
        }
        i += 1;
    }
    entries.push((key.to_owned(), value));
    assert(entries@.drop_last() =~= before);
}

/// The map `base` with the values of `over` in front of its own.
pub open spec fn overlaid(
    base: Map<Seq<char>, Seq<char>>,
    over: Seq<(String, String)>,
) -> Map<Seq<char>, Seq<char>>
    decreases over.len(),
{
    if over.len() == 0 {
        base
    } else {
        overlaid(base, over.drop_last()).insert(over.last().0@, over.last().1@)
    }
}

/// The labels of an instance: the deployment's own, over the one that names the
/// deployment.
pub open spec fn label_map(
    key: Seq<char>,
    deployment_id: Seq<char>,
    labels: Seq<(String, String)>,
) -> Map<Seq<char>, Seq<char>> {
    overlaid(Map::empty().insert(key, deployment_id), labels)
}

/// The labels of an instance: the deployment's own, over the one that names the
/// deployment.
pub fn instance_labels(key: &str, deployment_id: &str, labels: &Vec<(String, String)>) -> (r: Vec<
    (String, String),
>)
    ensures
        entry_map(r@) == label_map(key@, deployment_id@, labels@),
        distinct_names(r@),
{
    let mut out: Vec<(String, String)> = Vec::new();
    upsert(&mut out, key, deployment_id.to_owned());
    let mut i: usize = 0;
    assert(labels@.take(0) =~= seq![]);
    while i < labels.len()
        invariant
            i <= labels.len(),
            distinct_names(out@),
            entry_map(out@) == label_map(key@, deployment_id@, labels@.take(i as int)),
        decreases labels.len() - i,
    {
        upsert(&mut out, labels[i].0.as_str(), labels[i].1.clone());
        assert(labels@.take(i + 1).drop_last() =~= labels@.take(i as int));
        i += 1;
    }
    assert(labels@.take(labels.len() as int) =~= labels@);
    out
}

/// `NAME=value` for every environment variable that has a plain value.
pub open spec fn env_lines(env: Seq<(String, EnvValue)>) -> Seq<Seq<char>>
    decreases env.len(),
{
    if env.len() == 0 {
        seq![]
    } else {
        let rest = env_lines(env.drop_last());
        match env.last().1 {
            EnvValue::Plain(v) => rest.push(env.last().0@ + "="@ + v@),
            EnvValue::SecretRef { secret_ref } => rest,
        }
    }
}

/// `NAME=value` for every environment variable that has a plain value. A
/// reference that was left unresolved is skipped.
pub fn plain_env(env: &Vec<(String, EnvValue)>) -> (r: Vec<String>)
    ensures
        strs(r@) == env_lines(env@),
{
    let mut out: Vec<String> = Vec::new();
    let mut i: usize = 0;
    assert(strs(out@) =~= seq![]);
    while i < env.len()
        invariant
            i <= env.len(),
            strs(out@) == env_lines(env@.take(i as int)),
        decreases env.len() - i,
    {
        assert(env@.take(i + 1).drop_last() =~= env@.take(i as int));
        let ghost before = out@;
        if let EnvValue::Plain(v) = &env[i].1 {
            let line = cat3(env[i].0.as_str(), "=", v.as_str());
            out.push(line);
            assert(strs(out@) =~= strs(before).push(line@));
        }
        i += 1;
    }
    assert(env@.take(env.len() as int) =~= env@);
    out
}

/// A copy of a list of strings.
pub fn copy_strings(list: &Vec<String>) -> (r: Vec<String>)
    ensures
        r@ == list@,
{
    let mut out: Vec<String> = Vec::new();
    let mut i: usize = 0;
    while i < list.len()
        invariant
            i <= list.len(),
            out@ == list@.take(i as int),
        decreases list.len() - i,
    {
        out.push(list[i].clone());
        assert(list@.take(i + 1) =~= list@.take(i as int).push(list[i as int]));
        i += 1;
    }
    assert(list@.take(list.len() as int) =~= list@);
    out
}

/// Whether a text is in a list.
pub fn contains_text(list: &Vec<String>, text: &str) -> (r: bool)
    ensures
        r == strs(list@).contains(text@),
{
    let mut i: usize = 0;
    while i < list.len()
        invariant
            i <= list.len(),
            forall|j: int| 0 <= j < i ==> (#[trigger] list@[j])@ != text@,
        decreases list.len() - i,
    {
        if same(list[i].as_str(), text) {
            assert(strs(list@)[i as int] == text@);
            return true;
        }
        i += 1;
    }
    assert forall|j: int| 0 <= j < strs(list@).len() implies strs(list@)[j] != text@ by {
        assert(strs(list@)[j] == list@[j]@);
    }
    false
}

/// A list holds what it held before and what was pushed.
pub proof fn lemma_contains_pushed(list: Seq<Seq<char>>, pushed: Seq<char>, x: Seq<char>)
    ensures
        list.push(pushed).contains(x) <==> list.contains(x) || x == pushed,
{
    let more = list.push(pushed);
    if list.contains(x) {
        let i = choose|i: int| 0 <= i < list.len() && list[i] == x;
        assert(more[i] == x);
    }
    if x == pushed {
        assert(more[list.len() as int] == x);
    }
    if more.contains(x) {
        let i = choose|i: int| 0 <= i < more.len() && more[i] == x;
        if i < list.len() {
            assert(list[i] == x);
        }
    }
}

/// A name that the labels do not give a value keeps the base's value; a name
/// that they do give one has theirs.
pub proof fn law_own_labels_win(
    base: Map<Seq<char>, Seq<char>>,
    over: Seq<(String, String)>,
    name: Seq<char>,
)
    requires
        distinct_names(over),
    ensures
        (forall|i: int| 0 <= i < over.len() ==> (#[trigger] over[i]).0@ != name) ==> (overlaid(
            base,
            over,
        ).dom().contains(name) == base.dom().contains(name) && (base.dom().contains(name)
            ==> overlaid(base, over)[name] == base[name])),
        forall|i: int|
            0 <= i < over.len() && (#[trigger] over[i]).0@ == name ==> overlaid(
                base,
                over,
            ).dom().contains(name) && overlaid(base, over)[name] == over[i].1@,
    decreases over.len(),
{
    if over.len() > 0 {
        let init = over.drop_last();
        let last = over.len() - 1;
        assert forall|a: int, b: int| 0 <= a < b < init.len() implies (#[trigger] init[a]).0@ != (
        #[trigger] init[b]).0@ by {
            assert(over[a].0@ != over[b].0@);
        }
        law_own_labels_win(base, init, name);
        if forall|i: int| 0 <= i < over.len() ==> (#[trigger] over[i]).0@ != name {
            assert forall|i: int| 0 <= i < init.len() implies (#[trigger] init[i]).0@ != name by {
                assert(over[i].0@ != name);
            }
            assert(over[last].0@ != name);
        }
        assert forall|i: int| 0 <= i < over.len() && (#[trigger] over[i]).0@ == name implies overlaid(
            base,
            over,
        ).dom().contains(name) && overlaid(base, over)[name] == over[i].1@ by {
            if i < last {
                assert(init[i] == over[i]);
                assert(over[i].0@ != over[last].0@);
            }
        }
    }
}

/// The labels of an instance name its deployment unless the deployment gives
/// that name itself, and hold every label of the deployment.
pub proof fn law_instance_is_labelled(
    key: &str,
    deployment_id: &str,
    labels: &Vec<(String, String)>,
    r: Vec<(String, String)>,
)
    requires
        distinct_names(labels@),
        call_ensures(instance_labels, (key, deployment_id, labels), r),
    ensures
        (forall|i: int| 0 <= i < labels@.len() ==> (#[trigger] labels@[i]).0@ != key@) ==> entry_map(
            r@,
        ).dom().contains(key@) && entry_map(r@)[key@] == deployment_id@,
        forall|i: int|
            0 <= i < labels@.len() ==> entry_map(r@).dom().contains((#[trigger] labels@[i]).0@)
                && entry_map(r@)[labels@[i].0@] == labels@[i].1@,
        forall|name: Seq<char>|
            name != key@ && (forall|i: int|
                0 <= i < labels@.len() ==> (#[trigger] labels@[i]).0@ != name) ==> !(
            #[trigger] entry_map(r@).dom().contains(name)),
        distinct_names(r@),
{
    let base = Map::<Seq<char>, Seq<char>>::empty().insert(key@, deployment_id@);
    law_own_labels_win(base, labels@, key@);
    assert forall|i: int| 0 <= i < labels@.len() implies entry_map(r@).dom().contains(
        (#[trigger] labels@[i]).0@,
    ) && entry_map(r@)[labels@[i].0@] == labels@[i].1@ by {
        law_own_labels_win(base, labels@, labels@[i].0@);
    }
    assert forall|name: Seq<char>|
        name != key@ && (forall|i: int|
            0 <= i < labels@.len() ==> (#[trigger] labels@[i]).0@ != name) implies !(
    #[trigger] entry_map(r@).dom().contains(name)) by {
        law_own_labels_win(base, labels@, name);
    }
}

/// The environment that is handed on is that of the variables with a plain
/// value, in their order: one more variable adds its line, or nothing where its
/// value is a reference.
pub proof fn law_plain_values_are_handed_on(
    env: &Vec<(String, EnvValue)>,
    more: &Vec<(String, EnvValue)>,
    last: (String, EnvValue),
    before: Vec<String>,
    after: Vec<String>,
)
    requires
        more@ == env@.push(last),
        call_ensures(plain_env, (env,), before),
        call_ensures(plain_env, (more,), after),
    ensures
        env@.len() == 0 ==> before@.len() == 0,
        last.1 matches EnvValue::Plain(v) ==> strs(after@) == strs(before@).push(
            last.0@.push('=') + v@,
        ),
        last.1 is SecretRef ==> strs(after@) == strs(before@),
{
    assert(more@.drop_last() =~= env@);
    assert(strs(before@).len() == before@.len());
    reveal_strlit("=");
    if let EnvValue::Plain(v) = last.1 {
        assert(last.0@ + "="@ + v@ =~= last.0@.push('=') + v@);
    }
}

/// An entry that is put in is found under its name, in place of any with that name
/// before; every other entry stays.
pub proof fn law_put_entry_is_found(
    entries: &mut Vec<(String, String)>,
    key: &str,
    value: String,
    other: Seq<char>,
    r: (),
)
    requires
        distinct_names(old(entries)@),
        call_ensures(upsert::<String>, (entries, key, value), r),
    ensures
        entry_map(final(entries)@).dom().contains(key@),
        entry_map(final(entries)@)[key@] == value@,
        other != key@ ==> (entry_map(final(entries)@).dom().contains(other) <==> entry_map(
            old(entries)@,
        ).dom().contains(other)),
        other != key@ && entry_map(old(entries)@).dom().contains(other) ==> entry_map(
            final(entries)@,
        )[other] == entry_map(old(entries)@)[other],
        distinct_names(final(entries)@),
{
}

/// A text is in a list exactly where some entry is that text: one more entry adds
/// itself and no other.
pub proof fn law_text_is_in_a_list(
    list: &Vec<String>,
    more: &Vec<String>,
    last: String,
    text: &str,
    r: bool,
    after: bool,
)
    requires
        more@ == list@.push(last),
        call_ensures(contains_text, (list, text), r),
        call_ensures(contains_text, (more, text), after),
    ensures
        list@.len() == 0 ==> !r,
        after <==> r || last@ == text@,
{
    let a = strs(list@);
    let b = strs(more@);
    assert(b =~= a.push(last@));
    if a.contains(text@) {
        let i = choose|i: int| 0 <= i < a.len() && a[i] == text@;
        assert(b[i] == text@);
    }
    assert(b[a.len() as int] == last@);
    if b.contains(text@) && last@ != text@ {
        let i = choose|i: int| 0 <= i < b.len() && b[i] == text@;
        assert(a[i] == text@);
    }
}

} // verus!
