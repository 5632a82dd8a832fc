//! Tags in their plain shape: lists of lists of strings.
use crate::event::{tags_view, Tag};
use vstd::prelude::*;

verus! {

/// Alias for a vector of a vector of strings. The first element of each
/// inner vector is the tag identifier:
///   - `p`: points to the public key of someone that is referred to in the
///     event
///   - `e`: points to the id of an event that this event is quoting,
///     replying to or referring to somehow
pub type Tags = Vec<Vec<String>>;

/// The strings of each list.
pub open spec fn lists_view(lists: Seq<Vec<String>>) -> Seq<Seq<Seq<char>>> {
    lists.map_values(|list: Vec<String>| Seq::new(list@.len(), |i: int| list@[i]@))
}

/// The strings of each list of string slices.
pub open spec fn slices_view(lists: Seq<&[&str]>) -> Seq<Seq<Seq<char>>> {
    lists.map_values(|list: &[&str]| Seq::new(list@.len(), |i: int| list@[i]@))
}

/// Converts lists of string slices to the shape of `Tags`.
pub fn tags_from_strs(tags: &[&[&str]]) -> (lists: Tags)
    ensures
        lists_view(lists@) == slices_view(tags@),
{
    let mut lists: Tags = Vec::new();
    let mut i: usize = 0;
    while i < tags.len()
        invariant
            i <= tags.len(),
            lists_view(lists@) == slices_view(tags@.take(i as int)),
        decreases tags.len() - i,
    {
        let strs: &[&str] = tags[i];
        let mut list: Vec<String> = Vec::new();
        let mut j: usize = 0;
        while j < strs.len()
            invariant
                j <= strs.len(),
                list@.len() == j,
                forall|k: int| 0 <= k < j ==> list@[k]@ == strs@[k]@,
            decreases strs.len() - j,
        {
            list.push(strs[j].to_owned());
            j += 1;
        }
        let ghost before = lists@;
        lists.push(list);
        proof {
            assert(Seq::new(list@.len(), |k: int| list@[k]@) =~= Seq::new(
                strs@.len(),
                |k: int| strs@[k]@,
            ));
            assert(tags@.take(i + 1) =~= tags@.take(i as int).push(strs));
            assert(lists_view(lists@) =~= lists_view(before).push(
                Seq::new(list@.len(), |k: int| list@[k]@),
            ));
            assert(slices_view(tags@.take(i + 1)) =~= slices_view(tags@.take(i as int)).push(
                Seq::new(strs@.len(), |k: int| strs@[k]@),
            ));
        }
        i += 1;
    }
    assert(tags@.take(tags.len() as int) =~= tags@);
    lists
}

/// Makes the tags of an event from lists of strings.
pub fn tags_from_lists(lists: Tags) -> (tags: Vec<Tag>)
    ensures
        tags_view(tags@) == lists_view(lists@),
{
    let mut lists = lists;
    let ghost all = lists@;
    let mut reversed: Vec<Tag> = Vec::new();
    while lists.len() > 0
        invariant
            lists@.len() + reversed@.len() == all.len(),
            lists@ == all.take(lists@.len() as int),
            forall|k: int|
                0 <= k < reversed@.len() ==> (#[trigger] reversed@[k])@ == lists_view(all)[all.len()
                    - 1 - k],
        decreases lists.len(),
    {
        let values = lists.pop().unwrap();
        reversed.push(Tag { values });
    }
    let mut tags: Vec<Tag> = Vec::new();
    while reversed.len() > 0
        invariant
            tags@.len() + reversed@.len() == all.len(),
            forall|k: int|
                0 <= k < reversed@.len() ==> (#[trigger] reversed@[k])@ == lists_view(all)[all.len()
                    - 1 - k],
            forall|k: int| 0 <= k < tags@.len() ==> (#[trigger] tags@[k])@ == lists_view(all)[k],
        decreases reversed.len(),
    {
        let tag = reversed.pop().unwrap();
        tags.push(tag);
    }
    assert(tags_view(tags@) =~= lists_view(all));
    tags
}

/// The lists of strings that the tags of an event hold.
pub fn lists_from_tags(tags: &Vec<Tag>) -> (lists: Tags)
    ensures
        lists_view(lists@) == tags_view(tags@),
{
    let mut lists: Tags = Vec::new();
    let mut i: usize = 0;
    while i < tags.len()
        invariant
            i <= tags.len(),
            lists@.len() == i,
            forall|k: int| 0 <= k < i ==> lists_view(lists@)[k] == (#[trigger] tags@[k])@,
        decreases tags.len() - i,
    {
        let tag = &tags[i];
        let mut list: Vec<String> = Vec::new();
        let mut j: usize = 0;
        while j < tag.values.len()
            invariant
                j <= tag.values.len(),
                list@.len() == j,
                forall|k: int| 0 <= k < j ==> list@[k]@ == tag.values@[k]@,
            decreases tag.values.len() - j,
        {
            list.push(tag.values[j].clone());
            j += 1;
        }
        let ghost before = lists@;
        lists.push(list);
        proof {
            assert(Seq::new(list@.len(), |k: int| list@[k]@) =~= tag@);
            assert forall|k: int| 0 <= k < i + 1 implies lists_view(lists@)[k] == (
            #[trigger] tags@[k])@ by {
                if k < i {
                    assert(lists@[k] == before[k]);
                    assert(lists_view(before)[k] == tags@[k]@);
                }
            }
        }
        i += 1;
    }
    assert(lists_view(lists@) =~= tags_view(tags@));
    lists
}

} // verus!
