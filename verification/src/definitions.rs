//! A collection of definitions, each found by its name.
use vstd::prelude::*;

verus! {

/// Something that has a name and is charged for what it holds.
pub trait Definition: View + Sized {
    /// The name of a definition.
    spec fn name_of(definition: Self::V) -> Seq<char>;

    /// The bytes that a definition is charged for.
    spec fn size_of(definition: Self::V) -> nat;

    /// Its name.
    fn name(&self) -> (name: &String)
        ensures
            name@ == Self::name_of(self@),
    ;

    /// The bytes that it is charged for, if they can be counted in a `usize`.
    fn checked_bytes(&self) -> (bytes: Option<usize>)
        ensures
            bytes == crate::registry::fitting(Self::size_of(self@)),
    ;

    /// A copy.
    fn duplicate(&self) -> (copy: Self)
        ensures
            copy@ == self@,
    ;
}

/// Definitions, no two of which have the same name.
pub struct Definitions<D: Definition> {
    items: Vec<D>,
}

/// Some definitions by their names.
pub open spec fn by_name<D: Definition>(items: Seq<D>) -> Map<Seq<char>, D::V>
    decreases items.len(),
{
    if items.len() == 0 {
        Map::empty()
    } else {
        by_name(items.drop_last()).insert(D::name_of(items.last()@), items.last()@)
    }
}

/// Are these finitely many definitions, each under its own name?
pub open spec fn named<D: Definition>(definitions: Map<Seq<char>, D::V>) -> bool {
    &&& definitions.dom().finite()
    &&& forall|name: Seq<char>| #[trigger]
        definitions.dom().contains(name) ==> D::name_of(definitions[name]) == name
}

/// The bytes that some definitions are charged for.
pub open spec fn total_size<D: Definition>(definitions: Map<Seq<char>, D::V>) -> nat
    decreases definitions.dom().len(),
{
    if definitions.dom().finite() && definitions.dom().len() > 0 {
        let name = definitions.dom().choose();
        D::size_of(definitions[name]) + total_size::<D>(definitions.remove(name))
    } else {
        0
    }
}

/// Taking one definition out takes its size off the total.
pub proof fn lemma_total_size_remove<D: Definition>(
    definitions: Map<Seq<char>, D::V>,
    name: Seq<char>,
)
    requires
        definitions.dom().finite(),
        definitions.dom().contains(name),
    ensures
        total_size::<D>(definitions) == D::size_of(definitions[name]) + total_size::<D>(
            definitions.remove(name),
        ),
    decreases definitions.dom().len(),
{
    let first = definitions.dom().choose();
    assert(definitions.dom().contains(first));
    assert(definitions.dom().len() > 0) by {
        vstd::set_lib::lemma_set_empty_equivalency_len(definitions.dom());
    }
    if first != name {
        let rest = definitions.remove(first);
        let other = definitions.remove(name);
        lemma_total_size_remove::<D>(rest, name);
        lemma_total_size_remove::<D>(other, first);
        assert(rest.remove(name) =~= other.remove(first));
    }
}

/// Putting in a definition with a new name puts its size onto the total.
pub proof fn lemma_total_size_insert<D: Definition>(
    definitions: Map<Seq<char>, D::V>,
    name: Seq<char>,
    definition: D::V,
)
    requires
        definitions.dom().finite(),
        !definitions.dom().contains(name),
    ensures
        total_size::<D>(definitions.insert(name, definition)) == D::size_of(definition)
            + total_size::<D>(definitions),
{
    let more = definitions.insert(name, definition);
    lemma_total_size_remove::<D>(more, name);
    assert(more.remove(name) =~= definitions);
}

/// No two of some definitions have the same name.
spec fn distinct<D: Definition>(items: Seq<D>) -> bool {
    forall|i: int, j: int|
        0 <= i < j < items.len() ==> D::name_of((#[trigger] items[i])@) != D::name_of(
            (#[trigger] items[j])@,
        )
}

/// What the map of some definitions holds.
proof fn lemma_by_name<D: Definition>(items: Seq<D>)
    requires
        distinct(items),
    ensures
        by_name(items).dom().finite(),
        forall|i: int|
            0 <= i < items.len() ==> #[trigger] by_name(items).dom().contains(
                D::name_of(items[i]@),
            ) && by_name(items)[D::name_of(items[i]@)] == items[i]@,
        forall|name: Seq<char>| #[trigger]
            by_name(items).dom().contains(name) ==> exists|i: int|
                0 <= i < items.len() && D::name_of((#[trigger] items[i])@) == name,
    decreases items.len(),
{
    if items.len() > 0 {
        let rest = items.drop_last();
        lemma_by_name(rest);
        assert forall|i: int| 0 <= i < items.len() implies #[trigger] by_name(
            items,
        ).dom().contains(D::name_of(items[i]@)) && by_name(items)[D::name_of(items[i]@)]
            == items[i]@ by {
            if i < rest.len() {
                assert(rest[i] == items[i]);
                assert(by_name(rest).dom().contains(D::name_of(rest[i]@)));
            }
        }
        assert forall|name: Seq<char>| #[trigger] by_name(items).dom().contains(name) implies exists|
            i: int,
        |
            0 <= i < items.len() && D::name_of((#[trigger] items[i])@) == name by {
            if name == D::name_of(items.last()@) {
                assert(items[items.len() - 1] == items.last());
            } else {
                assert(by_name(rest).dom().contains(name));
                let i = choose|i: int|
                    0 <= i < rest.len() && D::name_of((#[trigger] rest[i])@) == name;
                assert(items[i] == rest[i]);
            }
        }
    }
}

/// There are finitely many definitions, and each stands under its own name.
pub proof fn definitions_stand_under_their_names<D: Definition>(definitions: Definitions<D>)
    requires
        definitions.well_formed(),
    ensures
        named::<D>(definitions.spec_map()),
{
    let items = definitions.items@;
    lemma_by_name(items);
    assert forall|name: Seq<char>| #[trigger]
        by_name(items).dom().contains(name) implies D::name_of(by_name(items)[name]) == name by {
        let i = choose|i: int| 0 <= i < items.len() && D::name_of((#[trigger] items[i])@) == name;
        assert(by_name(items).dom().contains(D::name_of(items[i]@)));
    }
}

impl<D: Definition> Definitions<D> {
    /// The definitions, by name.
    pub closed spec fn spec_map(self) -> Map<Seq<char>, D::V> {
        by_name(self.items@)
    }

    /// No two definitions have the same name.
    pub closed spec fn well_formed(self) -> bool {
        distinct(self.items@)
    }

    /// No definitions.
    pub fn new() -> (definitions: Self)
        ensures
            definitions.well_formed(),
            definitions.spec_map() == Map::<Seq<char>, D::V>::empty(),
    {
        Definitions { items: Vec::new() }
    }

    /// Take out the definition with a name, if there is one.
    pub fn take(&mut self, name: &String) -> (taken: Option<D>)
        requires
            old(self).well_formed(),
        ensures
            final(self).well_formed(),
            taken is Some <==> old(self).spec_map().dom().contains(name@),
            taken matches Some(definition) ==> definition@ == old(self).spec_map()[name@]
                && D::name_of(definition@) == name@,
            final(self).spec_map() == old(self).spec_map().remove(name@),
    {
        let ghost before = self.items@;
        proof {
            lemma_by_name(before);
        }
        let mut i: usize = 0;
        while i < self.items.len()
            invariant
                self.items@ == before,
                before == old(self).items@,
                distinct(before),
                by_name(before).dom().finite(),
                forall|i: int|
                    0 <= i < before.len() ==> #[trigger] by_name(before).dom().contains(
                        D::name_of(before[i]@),
                    ) && by_name(before)[D::name_of(before[i]@)] == before[i]@,
                forall|name: Seq<char>| #[trigger]
                    by_name(before).dom().contains(name) ==> exists|i: int|
                        0 <= i < before.len() && D::name_of((#[trigger] before[i])@) == name,
                i <= before.len(),
                forall|j: int| 0 <= j < i ==> D::name_of((#[trigger] before[j])@) != name@,
            decreases before.len() - i,
        {
            if *self.items[i].name() == *name {
                let taken = self.items.remove(i);
                proof {
                    let after = self.items@;
                    assert(after == before.remove(i as int));
                    assert forall|j: int, k: int| 0 <= j < k < after.len() implies D::name_of(
                        (#[trigger] after[j])@,
                    ) != D::name_of((#[trigger] after[k])@) by {
                        let p = if j < i { j } else { j + 1 };
                        let q = if k < i { k } else { k + 1 };
                        assert(after[j] == before[p] && after[k] == before[q]);
                    }
                    lemma_by_name(after);
                    assert(by_name(before).dom().contains(D::name_of(before[i as int]@)));
                    assert forall|n: Seq<char>|
                        by_name(after).dom().contains(n) <==> by_name(before).remove(
                            name@,
                        ).dom().contains(n) by {
                        if by_name(after).dom().contains(n) {
                            let j = choose|j: int|
                                0 <= j < after.len() && D::name_of((#[trigger] after[j])@) == n;
                            let p = if j < i { j } else { j + 1 };
                            assert(after[j] == before[p]);
                            assert(by_name(before).dom().contains(D::name_of(before[p]@)));
                            assert(before[p] != before[i as int] || p == i);
                        }
                        if by_name(before).dom().contains(n) && n != name@ {
                            let p = choose|p: int|
                                0 <= p < before.len() && D::name_of((#[trigger] before[p])@) == n;
                            assert(p != i);
                            let j = if p < i { p } else { p - 1 };
                            assert(after[j] == before[p]);
                            assert(by_name(after).dom().contains(D::name_of(after[j]@)));
                        }
                    }
                    assert forall|n: Seq<char>| by_name(after).dom().contains(n) implies by_name(
                        after,
                    )[n] == by_name(before)[n] by {
                        let j = choose|j: int|
                            0 <= j < after.len() && D::name_of((#[trigger] after[j])@) == n;
                        let p = if j < i { j } else { j + 1 };
                        assert(after[j] == before[p]);
                        assert(by_name(before).dom().contains(D::name_of(before[p]@)));
                        assert(by_name(after).dom().contains(D::name_of(after[j]@)));
                    }
                    assert(by_name(after) =~= by_name(before).remove(name@));
                }
                return Some(taken);
            }
            i = i + 1;
        }
        assert(by_name(before).remove(name@) =~= by_name(before));
        None
    }

    /// Put in a definition with a new name.
    pub fn put(&mut self, definition: D)
        requires
            old(self).well_formed(),
            !old(self).spec_map().dom().contains(D::name_of(definition@)),
        ensures
            final(self).well_formed(),
            final(self).spec_map() == old(self).spec_map().insert(
                D::name_of(definition@),
                definition@,
            ),
    {
        let ghost before = self.items@;
        proof {
            lemma_by_name(before);
        }
        self.items.push(definition);
        proof {
            let after = self.items@;
            assert(after.drop_last() =~= before);
            assert forall|j: int, k: int| 0 <= j < k < after.len() implies D::name_of(
                (#[trigger] after[j])@,
            ) != D::name_of((#[trigger] after[k])@) by {
                assert(after[j] == before[j]);
                assert(by_name(before).dom().contains(D::name_of(before[j]@)));
                if k < before.len() {
                    assert(after[k] == before[k]);
                }
            }
        }
    }

    /// The bytes that the definitions are charged for, if they can be counted in a `usize`.
    pub fn checked_bytes(&self) -> (bytes: Option<usize>)
        requires
            self.well_formed(),
        ensures
            bytes == crate::registry::fitting(total_size::<D>(self.spec_map())),
    {
        let ghost all = self.items@;
        let mut bytes: Option<usize> = Some(0);
        let mut i: usize = 0;
        assert(all.take(0) =~= Seq::empty());
        while i < self.items.len()
            invariant
                all == self.items@,
                distinct(all),
                i <= all.len(),
                bytes == crate::registry::fitting(total_size::<D>(by_name(all.take(i as int)))),
            decreases all.len() - i,
        {
            proof {
                let head = all.take(i as int);
                let more = all.take(i + 1);
                assert(more.drop_last() =~= head);
                assert(distinct(head)) by {
                    assert forall|j: int, k: int| 0 <= j < k < head.len() implies D::name_of(
                        (#[trigger] head[j])@,
                    ) != D::name_of((#[trigger] head[k])@) by {
                        assert(head[j] == all[j] && head[k] == all[k]);
                    }
                }
                lemma_by_name(head);
                let name = D::name_of(all[i as int]@);
                if by_name(head).dom().contains(name) {
                    let j = choose|j: int|
                        0 <= j < head.len() && D::name_of((#[trigger] head[j])@) == name;
                    assert(head[j] == all[j]);
                    assert(false);
                }
                lemma_total_size_insert::<D>(by_name(head), name, all[i as int]@);
            }
            bytes = crate::registry::plus(
                bytes,
                self.items[i].checked_bytes(),
                Ghost(total_size::<D>(by_name(all.take(i as int)))),
                Ghost(D::size_of(all[i as int]@)),
            );
            i = i + 1;
        }
        assert(all.take(i as int) =~= all);
        bytes
    }

    /// Copies of all the definitions.
    pub fn copies(&self) -> (copies: Vec<D>)
        requires
            self.well_formed(),
        ensures
            copies@.len() == self.spec_map().dom().len(),
            by_name(copies@) == self.spec_map(),
            forall|i: int|
                0 <= i < copies@.len() ==> self.spec_map().dom().contains(
                    D::name_of((#[trigger] copies@[i])@),
                ) && self.spec_map()[D::name_of(copies@[i]@)] == copies@[i]@,
            forall|name: Seq<char>| #[trigger]
                self.spec_map().dom().contains(name) ==> exists|i: int|
                    0 <= i < copies@.len() && D::name_of((#[trigger] copies@[i])@) == name,
            forall|i: int, j: int|
                0 <= i < j < copies@.len() ==> D::name_of((#[trigger] copies@[i])@) != D::name_of(
                    (#[trigger] copies@[j])@,
                ),
    {
        let mut copies: Vec<D> = Vec::new();
        let mut i: usize = 0;
        while i < self.items.len()
            invariant
                i == copies@.len(),
                i <= self.items@.len(),
                forall|j: int| 0 <= j < i ==> (#[trigger] copies@[j])@ == self.items@[j]@,
            decreases self.items@.len() - i,
        {
            copies.push(self.items[i].duplicate());
            i = i + 1;
        }
        proof {
            lemma_same_views(copies@, self.items@);
            assert forall|i: int, j: int| 0 <= i < j < copies@.len() implies D::name_of(
                (#[trigger] copies@[i])@,
            ) != D::name_of((#[trigger] copies@[j])@) by {
                assert(copies@[i]@ == self.items@[i]@ && copies@[j]@ == self.items@[j]@);
            }
            lemma_by_name(copies@);
            assert forall|i: int| 0 <= i < copies@.len() implies self.spec_map().dom().contains(
                D::name_of((#[trigger] copies@[i])@),
            ) && self.spec_map()[D::name_of(copies@[i]@)] == copies@[i]@ by {
                assert(by_name(copies@).dom().contains(D::name_of(copies@[i]@)));
            }
            lemma_count(self.items@);
        }
        copies
    }
}

/// The map depends only on the views.
proof fn lemma_same_views<D: Definition>(a: Seq<D>, b: Seq<D>)
    requires
        a.len() == b.len(),
        forall|i: int| 0 <= i < a.len() ==> (#[trigger] a[i])@ == b[i]@,
    ensures
        by_name(a) == by_name(b),
    decreases a.len(),
{
    if a.len() > 0 {
        assert forall|i: int| 0 <= i < a.drop_last().len() implies (#[trigger] a.drop_last()[i])@
            == b.drop_last()[i]@ by {
            assert(a.drop_last()[i] == a[i] && b.drop_last()[i] == b[i]);
        }
        lemma_same_views(a.drop_last(), b.drop_last());
        assert(a.last() == a[a.len() - 1] && b.last() == b[b.len() - 1]);
    }
}

/// The map has one name for each definition.
proof fn lemma_count<D: Definition>(items: Seq<D>)
    requires
        distinct(items),
    ensures
        by_name(items).dom().len() == items.len(),
    decreases items.len(),
{
    if items.len() > 0 {
        let rest = items.drop_last();
        lemma_count(rest);
        lemma_by_name(rest);
        let name = D::name_of(items.last()@);
        if by_name(rest).dom().contains(name) {
            let i = choose|i: int| 0 <= i < rest.len() && D::name_of((#[trigger] rest[i])@) == name;
            assert(rest[i] == items[i]);
            assert(items.last() == items[items.len() - 1]);
            assert(false);
        }
    }
}

} // verus!
