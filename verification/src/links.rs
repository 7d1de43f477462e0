//! Links in the order in which they were first met, each kept once.

use vstd::hash_set::StringHashSet;
use vstd::prelude::*;

use crate::text::texts;

verus! {

/// A list of links without repetition.
pub struct LinkList {
    links: Vec<String>,
    seen: StringHashSet,
}

impl View for LinkList {
    type V = Seq<Seq<char>>;

    closed spec fn view(&self) -> Seq<Seq<char>> {
        texts(self.links@)
    }
}

impl LinkList {
    /// No link stands twice, and what was seen is what is listed.
    pub closed spec fn wf(&self) -> bool {
        &&& self@.no_duplicates()
        &&& forall|link: Seq<char>| self.seen@.contains(link) <==> self@.contains(link)
    }

    /// A list without links.
    pub fn new() -> (list: LinkList)
        ensures
            list.wf(),
            list@ == Seq::<Seq<char>>::empty(),
    {
        let list = LinkList { links: Vec::new(), seen: StringHashSet::new() };
        assert(list@ =~= Seq::<Seq<char>>::empty());
        list
    }

    /// Adds `link` at the end unless it is there already. Tells whether it was
    /// added.
    pub fn add_link(&mut self, link: String) -> (added: bool)
        requires
            old(self).wf(),
        ensures
            final(self).wf(),
            added == !old(self)@.contains(link@),
            final(self)@ == if old(self)@.contains(link@) {
                old(self)@
            } else {
                old(self)@.push(link@)
            },
    {
        let ghost before = self@;
        let ghost seen_before = self.seen@;
        let added = self.seen.insert(link.clone());
        if added {
            self.links.push(link);
            proof {
                assert(self@ =~= before.push(link@));
                assert forall|l: Seq<char>| self.seen@.contains(l) implies self@.contains(l) by {
                    if l == link@ {
                        assert(self@[before.len() as int] == l);
                    } else {
                        assert(seen_before.contains(l));
                        assert(before.contains(l));
                        let i = choose|i: int| 0 <= i < before.len() && before[i] == l;
                        assert(self@[i] == l);
                    }
                }
                assert forall|l: Seq<char>| self@.contains(l) implies self.seen@.contains(l) by {
                    let i = choose|i: int| 0 <= i < self@.len() && self@[i] == l;
                    if i < before.len() {
                        assert(before.contains(before[i]));
                    }
                }
                assert forall|i: int, j: int|
                    0 <= i < j < self@.len() implies self@[i] != self@[j] by {
                    assert(before.contains(before[i]));
                }
            }
        }
        added
    }

    /// The number of links.
    pub fn len(&self) -> (n: usize)
        ensures
            n == self@.len(),
    {
        self.links.len()
    }

    /// The links, in order.
    pub fn into_links(self) -> (links: Vec<String>)
        ensures
            texts(links@) == self@,
    {
        self.links
    }
}

/// Keeping each link once leaves what was there in place at the front, adds
/// nothing that was not given, and gives a list without repetition.
pub proof fn lemma_remove_duplicates(links: Seq<Seq<char>>, found: Seq<Seq<char>>)
    requires
        found.no_duplicates(),
    ensures
        links.remove_duplicates(found).no_duplicates(),
        found.is_prefix_of(links.remove_duplicates(found)),
        forall|link: Seq<char>|
            links.remove_duplicates(found).contains(link) <==> found.contains(link)
                || links.contains(link),
    decreases links.len(),
{
    let all = links.remove_duplicates(found);
    if links.len() > 0 {
        let rest = links.skip(1);
        let next = if found.contains(links[0]) {
            found
        } else {
            found + seq![links[0]]
        };
        assert(next.no_duplicates());
        lemma_remove_duplicates(rest, next);
        assert(found.is_prefix_of(all)) by {
            assert(found =~= next.take(found.len() as int));
            assert(found =~= all.subrange(0, found.len() as int));
        }
        assert forall|link: Seq<char>| all.contains(link) <==> found.contains(link)
            || links.contains(link) by {
            if next.contains(link) && !found.contains(link) {
                assert(links[0] == link);
            }
            if rest.contains(link) {
                let i = choose|i: int| 0 <= i < rest.len() && rest[i] == link;
                assert(links[i + 1] == link);
            }
            if links.contains(link) {
                let i = choose|i: int| 0 <= i < links.len() && links[i] == link;
                if i > 0 {
                    assert(rest[i - 1] == link);
                } else if !found.contains(link) {
                    assert(next[found.len() as int] == link);
                }
            }
            if found.contains(link) {
                let i = choose|i: int| 0 <= i < found.len() && found[i] == link;
                assert(next[i] == link);
            }
        }
    }
}

/// One link more at the end is added unless it is there.
pub proof fn lemma_add_one(links: Seq<Seq<char>>, link: Seq<char>, found: Seq<Seq<char>>)
    ensures
        (links + seq![link]).remove_duplicates(found) == if links.remove_duplicates(
            found,
        ).contains(link) {
            links.remove_duplicates(found)
        } else {
            links.remove_duplicates(found).push(link)
        },
{
    let kept = links.remove_duplicates(found);
    links.lemma_remove_duplicates_append(link, found);
    links.lemma_remove_duplicates_properties(found);
    assert(kept + seq![link] =~= kept.push(link));
}

/// What `f` makes of an item of the list stands in the filtered list.
pub proof fn lemma_filter_map_keeps<A, B>(items: Seq<A>, f: spec_fn(A) -> Option<B>, item: A)
    requires
        items.contains(item),
        f(item) is Some,
    ensures
        items.filter_map(f).contains(f(item)->0),
    decreases items.len(),
{
    let made = f(item)->0;
    let rest = items.drop_last();
    let all = items.filter_map(f);
    if items.last() == item {
        assert(all.last() == made);
    } else {
        let i = choose|i: int| 0 <= i < items.len() && items[i] == item;
        assert(rest[i] == item);
        lemma_filter_map_keeps(rest, f, item);
        let k = choose|k: int| 0 <= k < rest.filter_map(f).len() && rest.filter_map(f)[k] == made;
        assert(all[k] == made);
    }
}

} // verus!
