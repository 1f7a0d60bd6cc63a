//! Which of a deployment's containers a request is about.
use vstd::prelude::*;
use crate::text::{begins, contains, has, str_pairs};

verus! {

/// Whether a container is meant by a filter: its id begins with it, or its name
/// holds it.
pub open spec fn is_meant(instance: (Seq<char>, Seq<char>), filter: Seq<char>) -> bool {
    filter.is_prefix_of(instance.0) || contains(instance.1, filter)
}

/// The containers that a filter means, in their order.
pub open spec fn meant(instances: Seq<(Seq<char>, Seq<char>)>, filter: Seq<char>) -> Seq<
    (Seq<char>, Seq<char>),
>
    decreases instances.len(),
{
    if instances.len() == 0 {
        seq![]
    } else if is_meant(instances.last(), filter) {
        meant(instances.drop_last(), filter).push(instances.last())
    } else {
        meant(instances.drop_last(), filter)
    }
}

/// The containers that a filter means; all of them where there is none.
pub fn filter_instances(instances: Vec<(String, String)>, filter: Option<&str>) -> (r: Vec<
    (String, String),
>)
    ensures
        str_pairs(r@) == match filter {
            Some(f) => meant(str_pairs(instances@), f@),
            None => str_pairs(instances@),
        },
{
    let f = match filter {
        Some(f) => f,
        None => return instances,
    };
    let ghost all = str_pairs(instances@);
    let mut out: Vec<(String, String)> = Vec::new();
    let mut i: usize = 0;
    assert(str_pairs(out@) =~= meant(all.take(0), f@));
    while i < instances.len()
        invariant
            i <= instances.len(),
            all == str_pairs(instances@),
            str_pairs(out@) == meant(all.take(i as int), f@),
        decreases instances.len() - i,
    {
        assert(all.take(i + 1).drop_last() =~= all.take(i as int));
        assert(all.take(i + 1).last() == (instances@[i as int].0@, instances@[i as int].1@));
        let ghost before = out@;
        if begins(instances[i].0.as_str(), f) || has(instances[i].1.as_str(), f) {
            let entry = (instances[i].0.clone(), instances[i].1.clone());
            out.push(entry);
            assert(str_pairs(out@) =~= str_pairs(before).push((entry.0@, entry.1@)));
        }
        i += 1;
    }
    assert(all.take(all.len() as int) =~= all);
    out
}

/// A filter keeps a container exactly where its id begins with the filter or its
/// name holds it, in the order of the list; without one all are kept.
pub proof fn law_filter_keeps_what_it_names(
    instances: Vec<(String, String)>,
    more: Vec<(String, String)>,
    last: (String, String),
    filter: &str,
    kept: Vec<(String, String)>,
    kept_more: Vec<(String, String)>,
    unfiltered: Vec<(String, String)>,
)
    requires
        more@ == instances@.push(last),
        call_ensures(filter_instances, (instances, Some(filter)), kept),
        call_ensures(filter_instances, (more, Some(filter)), kept_more),
        call_ensures(filter_instances, (instances, None), unfiltered),
    ensures
        str_pairs(unfiltered@) == str_pairs(instances@),
        instances@.len() == 0 ==> kept@.len() == 0,
        ({
            let named = filter@.is_prefix_of(last.0@) || contains(last.1@, filter@);
            &&& named ==> str_pairs(kept_more@) == str_pairs(kept@).push((last.0@, last.1@))
            &&& !named ==> str_pairs(kept_more@) == str_pairs(kept@)
        }),
{
    assert(str_pairs(more@).drop_last() =~= str_pairs(instances@));
    assert(str_pairs(more@).last() == (last.0@, last.1@));
    assert(str_pairs(kept@).len() == kept@.len());
}

} // verus!
