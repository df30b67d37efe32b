//! Items under headings, each heading where it first occurs.

use vstd::prelude::*;

use crate::strs::same;

verus! {

/// Some items under a heading.
pub struct Group<T> {
    pub name: String,
    pub items: Vec<T>,
}

/// A [`Group`], over what it shows.
pub struct GroupModel<M> {
    pub name: Seq<char>,
    pub items: Seq<M>,
}

impl<T: DeepView> DeepView for Group<T> {
    type V = GroupModel<T::V>;

    open spec fn deep_view(&self) -> GroupModel<T::V> {
        GroupModel { name: self.name@, items: self.items.deep_view() }
    }
}

/// Where a heading stands among some groups; past the end where it does not.
pub open spec fn heading_at<M>(groups: Seq<GroupModel<M>>, name: Seq<char>) -> int
    decreases groups.len(),
{
    if groups.len() == 0 {
        0
    } else if groups[0].name == name {
        0
    } else {
        1 + heading_at(groups.drop_first(), name)
    }
}

/// Groups with one more item under a heading, which is added where it is new.
pub open spec fn with_item<M>(groups: Seq<GroupModel<M>>, name: Seq<char>, item: M) -> Seq<
    GroupModel<M>,
> {
    let at = heading_at(groups, name);
    if 0 <= at < groups.len() {
        groups.update(at, GroupModel { name, items: groups[at].items.push(item) })
    } else {
        groups.push(GroupModel { name, items: seq![item] })
    }
}

/// Items under their headings, headings and items in the order they come.
pub open spec fn grouped<M>(entries: Seq<(Seq<char>, M)>) -> Seq<GroupModel<M>>
    decreases entries.len(),
{
    if entries.len() == 0 {
        Seq::empty()
    } else {
        with_item(grouped(entries.drop_last()), entries.last().0, entries.last().1)
    }
}

/// A heading that stands among the groups stands where it is found, and the first
/// that matches is found.
pub proof fn lemma_heading_at<M>(groups: Seq<GroupModel<M>>, name: Seq<char>)
    ensures
        0 <= heading_at(groups, name) <= groups.len(),
        heading_at(groups, name) < groups.len() ==> groups[heading_at(groups, name)].name == name,
        forall|j: int| 0 <= j < heading_at(groups, name) ==> #[trigger] groups[j].name != name,
    decreases groups.len(),
{
    if groups.len() > 0 && groups[0].name != name {
        let rest = groups.drop_first();
        lemma_heading_at(rest, name);
        let k = heading_at(rest, name);
        assert forall|j: int| 0 <= j < k + 1 implies #[trigger] groups[j].name != name by {
            if j > 0 {
                assert(groups[j] == rest[j - 1]);
            }
        }
        if k < rest.len() {
            assert(groups[k + 1] == rest[k]);
        }
    }
}

/// The position that matches first is where a heading is found.
proof fn lemma_heading_is<M>(groups: Seq<GroupModel<M>>, name: Seq<char>, k: int)
    requires
        0 <= k <= groups.len(),
        forall|j: int| 0 <= j < k ==> #[trigger] groups[j].name != name,
        k < groups.len() ==> groups[k].name == name,
    ensures
        heading_at(groups, name) == k,
    decreases groups.len(),
{
    if k > 0 {
        assert(groups[0].name != name);
        let rest = groups.drop_first();
        assert forall|j: int| 0 <= j < k - 1 implies #[trigger] rest[j].name != name by {
            assert(rest[j] == groups[j + 1]);
        }
        lemma_heading_is(rest, name, k - 1);
    }
}

/// Puts an item under a heading.
pub fn add_item<T: DeepView>(groups: Vec<Group<T>>, name: String, item: T) -> (r: Vec<Group<T>>)
    ensures
        r.deep_view() == with_item(groups.deep_view(), name@, item.deep_view()),
{
    let mut r: Vec<Group<T>> = groups;
    let ghost all = r.deep_view();
    let mut k: usize = 0;
    while k < r.len() && !same(r[k].name.as_str(), name.as_str())
        invariant
            k <= r.len(),
            all == r.deep_view(),
            forall|j: int| 0 <= j < k ==> #[trigger] all[j].name != name@,
        decreases r.len() - k,
    {
        assert(all[k as int] == r@[k as int].deep_view());
        k = k + 1;
    }
    assert(k < r.len() ==> all[k as int] == r@[k as int].deep_view());
    proof {
        lemma_heading_is(all, name@, k as int);
    }
    let ghost heading = name@;
    let ghost m = item.deep_view();
    if k < r.len() {
        let mut group: Group<T> = r.remove(k);
        let ghost before = group.items.deep_view();
        group.items.push(item);
        assert(group.items.deep_view() =~= before.push(m));
        r.insert(k, group);
        assert(r.deep_view() =~= with_item(all, heading, m));
    } else {
        let mut items: Vec<T> = Vec::new();
        items.push(item);
        assert(items.deep_view() =~= seq![m]);
        r.push(Group { name, items });
        assert(r.deep_view() =~= with_item(all, heading, m));
    }
    r
}

/// The items under a heading.
pub open spec fn items_under<M>(groups: Seq<GroupModel<M>>, name: Seq<char>) -> Seq<M> {
    let at = heading_at(groups, name);
    if 0 <= at < groups.len() {
        groups[at].items
    } else {
        Seq::empty()
    }
}

/// The entries of a heading, in order.
pub open spec fn entries_of<M>(entries: Seq<(Seq<char>, M)>, name: Seq<char>) -> Seq<M>
    decreases entries.len(),
{
    if entries.len() == 0 {
        Seq::empty()
    } else if entries.last().0 == name {
        entries_of(entries.drop_last(), name).push(entries.last().1)
    } else {
        entries_of(entries.drop_last(), name)
    }
}

/// Grouping loses nothing, invents nothing and keeps the order: under each heading
/// stand exactly its own items, as they came.
pub proof fn law_grouping_keeps_every_item<M>(entries: Seq<(Seq<char>, M)>, name: Seq<char>)
    ensures
        items_under(grouped(entries), name) == entries_of(entries, name),
    decreases entries.len(),
{
    if entries.len() > 0 {
        let before = grouped(entries.drop_last());
        let h = entries.last().0;
        let item = entries.last().1;
        law_grouping_keeps_every_item(entries.drop_last(), name);
        lemma_heading_at(before, h);
        lemma_heading_at(before, name);
        let after = with_item(before, h, item);
        let at = heading_at(before, h);
        let k = heading_at(before, name);
        if h == name {
            if at < before.len() {
                assert forall|j: int| 0 <= j < at implies #[trigger] after[j].name != name by {
                    assert(after[j] == before[j]);
                }
                lemma_heading_is(after, name, at);
            } else {
                assert forall|j: int| 0 <= j < at implies #[trigger] after[j].name != name by {
                    assert(after[j] == before[j]);
                }
                lemma_heading_is(after, name, at);
                assert(after[at].items =~= Seq::<M>::empty().push(item));
            }
        } else {
            if k < before.len() {
                assert forall|j: int| 0 <= j < k implies #[trigger] after[j].name != name by {
                    assert(before[j].name != name);
                }
                assert(before[k].name == name);
                lemma_heading_is(after, name, k);
            } else {
                assert forall|j: int| 0 <= j < after.len() implies #[trigger] after[j].name
                    != name by {
                    if j < before.len() {
                        assert(before[j].name != name);
                    }
                }
                lemma_heading_is(after, name, after.len() as int);
            }
        }
    }
}

} // verus!
