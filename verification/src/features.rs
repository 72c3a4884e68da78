//! The features that the specialisations of one architecture name together.

use crate::specialisation::{distinct, spec_views, Specialisation, SpecialisationView};
use crate::text::texts;
use indexmap::IndexSet;
use vstd::prelude::*;

verus! {

/// `indexmap::IndexSet`, carried as a value that nothing is known of but
/// what the functions below say.
#[verifier::external_type_specification]
#[verifier::external_body]
#[verifier::reject_recursive_types(T)]
#[verifier::reject_recursive_types(S)]
pub struct ExIndexSet<T, S>(IndexSet<T, S>);

/// The items of the set in its order, which is the order in which it is
/// traversed.
pub uninterp spec fn ordered_items(set: IndexSet<String>) -> Seq<Seq<char>>;

/// `IndexSet::new`: a set without items.
#[verifier::external_body]
fn empty_set() -> (r: IndexSet<String>)
    ensures
        ordered_items(r) == Seq::<Seq<char>>::empty(),
{
    IndexSet::new()
}

/// `IndexSet::insert`: an item that the set holds already leaves the set and
/// its order as they are, and `false` is returned; a new item becomes the
/// last in order, and `true` is returned.
#[verifier::external_body]
fn insert_item(set: &mut IndexSet<String>, value: String) -> (added: bool)
    ensures
        added == !ordered_items(*old(set)).contains(value@),
        ordered_items(*final(set)) == if added {
            ordered_items(*old(set)).push(value@)
        } else {
            ordered_items(*old(set))
        },
{
    set.insert(value)
}

/// `IndexSet::into_iter`: hands the items out in the order of the set.
#[verifier::external_body]
fn into_items(set: IndexSet<String>) -> (r: Vec<String>)
    ensures
        texts(r@) == ordered_items(set),
{
    set.into_iter().collect()
}

/// The features of all the specialisations, one list behind the other.
pub open spec fn all_features(specs: Seq<SpecialisationView>) -> Seq<Seq<char>>
    decreases specs.len(),
{
    if specs.len() == 0 {
        Seq::empty()
    } else {
        all_features(specs.drop_last()) + specs.last().features
    }
}

/// Every feature that some specialisation names, once, in the order of first
/// mention.
pub open spec fn feature_union(specs: Seq<SpecialisationView>) -> Seq<Seq<char>> {
    distinct(all_features(specs))
}

/// Collects the features that the specialisations name.
pub fn collect_features(specs: &Vec<Specialisation>) -> (r: Vec<String>)
    ensures
        texts(r@) == feature_union(spec_views(specs@)),
{
    let mut set = empty_set();
    let mut i: usize = 0;
    assert(spec_views(specs@).take(0) =~= Seq::<SpecialisationView>::empty());
    while i < specs.len()
        invariant
            i <= specs@.len(),
            ordered_items(set) == distinct(all_features(spec_views(specs@).take(i as int))),
        decreases specs@.len() - i,
    {
        let features = &specs[i].features;
        let ghost seen = all_features(spec_views(specs@).take(i as int));
        let ghost own = texts(features@);
        let mut j: usize = 0;
        assert(seen + own.take(0) =~= seen);
        while j < features.len()
            invariant
                j <= features@.len(),
                own == texts(features@),
                ordered_items(set) == distinct(seen + own.take(j as int)),
            decreases features@.len() - j,
        {
            let ghost before = seen + own.take(j as int);
            let ghost after = seen + own.take(j + 1);
            assert(after.drop_last() =~= before);
            assert(after.last() == features@[j as int]@);
            insert_item(&mut set, features[j].clone());
            j += 1;
        }
        proof {
            let views = spec_views(specs@);
            assert(own.take(features@.len() as int) =~= own);
            assert(views.take(i + 1).drop_last() =~= views.take(i as int));
            assert(views.take(i + 1).last().features == own);
        }
        i += 1;
    }
    assert(spec_views(specs@).take(specs@.len() as int) =~= spec_views(specs@));
    into_items(set)
}

} // verus!
