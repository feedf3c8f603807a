//! A routing table keyed by destination.

use vstd::prelude::*;

verus! {

/// One routing table entry.
#[derive(Debug)]
pub struct RoutingEntry {
    /// The destination network this entry routes.
    pub destination: String,
    /// The gateway traffic is sent through.
    pub gateway: String,
    /// The local interface the gateway is reached on.
    pub interface: String,
}

/// The first entry carrying a destination, scanning from the front.
pub open spec fn route_lookup(entries: Seq<RoutingEntry>, destination: Seq<char>) -> Option<
    RoutingEntry,
>
    decreases entries.len(),
{
    if entries.len() == 0 {
        None
    } else if entries[0].destination@ == destination {
        Some(entries[0])
    } else {
        route_lookup(entries.drop_first(), destination)
    }
}

/// A routing table: entries in insertion order, one per destination.
pub struct RoutingTable {
    entries: Vec<RoutingEntry>,
}

impl RoutingTable {
    /// The entries in insertion order.
    pub closed spec fn entries(&self) -> Seq<RoutingEntry> {
        self.entries@
    }

    /// Well-formedness: destinations are unique.
    pub open spec fn inv(&self) -> bool {
        forall|i: int, j: int|
            0 <= i < j < self.entries().len() ==> (#[trigger] self.entries()[i]).destination@ != (
            #[trigger] self.entries()[j]).destination@
    }

    /// Creates a new, empty routing table.
    pub fn new() -> (r: RoutingTable)
        ensures
            r.entries().len() == 0,
            r.inv(),
    {
        RoutingTable { entries: Vec::new() }
    }

    /// The position of the entry for a destination, if one exists.
    fn find_index(&self, destination: &String) -> (r: Option<usize>)
        ensures
            match r {
                Some(i) => i < self.entries().len() && route_lookup(
                    self.entries(),
                    destination@,
                ) == Some(self.entries()[i as int]) && self.entries()[i as int].destination@
                    == destination@,
                None => route_lookup(self.entries(), destination@) is None,
            },
    {
        let n = self.entries.len();
        let mut i: usize = 0;
        proof {
            assert(self.entries().skip(0) =~= self.entries());
        }
        while i < n
            invariant
                n == self.entries().len(),
                0 <= i <= n,
                route_lookup(self.entries(), destination@) == route_lookup(
                    self.entries().skip(i as int),
                    destination@,
                ),
            decreases n - i,
        {
            if self.entries[i].destination.eq(destination) {
                proof {
                    assert(self.entries().skip(i as int)[0] == self.entries()[i as int]);
                }
                return Some(i);
            }
            proof {
                assert(self.entries().skip(i as int).drop_first() =~= self.entries().skip(i + 1));
            }
            i = i + 1;
        }
        proof {
            assert(self.entries().skip(n as int) =~= Seq::<RoutingEntry>::empty());
        }
        None
    }

    /// Adds a routing table entry, replacing any entry the destination
    /// already has.
    pub fn add_entry(&mut self, destination: &str, gateway: &str, interface: &str)
        requires
            old(self).inv(),
        ensures
            final(self).inv(),
            route_lookup(final(self).entries(), destination@) matches Some(e)
                && e.destination@ == destination@ && e.gateway@ == gateway@ && e.interface@
                == interface@,
            final(self).entries().len() == (if route_lookup(old(self).entries(), destination@)
                is Some {
                old(self).entries().len()
            } else {
                old(self).entries().len() + 1
            }),
            forall|d: Seq<char>|
                d != destination@ ==> #[trigger] route_lookup(final(self).entries(), d)
                    == route_lookup(old(self).entries(), d),
    {
        let dest = destination.to_owned();
        let entry = RoutingEntry {
            destination: destination.to_owned(),
            gateway: gateway.to_owned(),
            interface: interface.to_owned(),
        };
        match self.find_index(&dest) {
            Some(i) => {
                self.entries.remove(i);
                self.entries.insert(i, entry);
                proof {
                    lemma_route_lookup_found(self.entries(), i as int);
                    assert forall|d: Seq<char>| d != destination@ implies #[trigger] route_lookup(
                        self.entries(),
                        d,
                    ) == route_lookup(old(self).entries(), d) by {
                        lemma_route_lookup_replace(
                            old(self).entries(),
                            self.entries(),
                            i as int,
                            d,
                        );
                    }
                    assert forall|a: int, b: int|
                        0 <= a < b < self.entries().len() implies (#[trigger] self.entries()[a]).destination@
                        != (#[trigger] self.entries()[b]).destination@ by {
                        if a != i && b != i {
                            assert(self.entries()[a] == old(self).entries()[a]);
                            assert(self.entries()[b] == old(self).entries()[b]);
                        } else if a == i {
                            assert(self.entries()[b] == old(self).entries()[b]);
                            assert(old(self).entries()[i as int].destination@ == destination@);
                        } else {
                            assert(self.entries()[a] == old(self).entries()[a]);
                            assert(old(self).entries()[i as int].destination@ == destination@);
                        }
                    }
                }
            },
            None => {
                proof {
                    lemma_route_lookup_none(self.entries(), dest@);
                }
                self.entries.push(entry);
                proof {
                    lemma_route_lookup_found(self.entries(), self.entries().len() - 1);
                    assert forall|d: Seq<char>| d != destination@ implies #[trigger] route_lookup(
                        self.entries(),
                        d,
                    ) == route_lookup(old(self).entries(), d) by {
                        assert(self.entries() =~= old(self).entries().push(
                            self.entries().last(),
                        ));
                        lemma_route_lookup_push(
                            old(self).entries(),
                            self.entries().last(),
                            d,
                        );
                    }
                    assert forall|a: int, b: int|
                        0 <= a < b < self.entries().len() implies (#[trigger] self.entries()[a]).destination@
                        != (#[trigger] self.entries()[b]).destination@ by {
                        if b < self.entries().len() - 1 {
                            assert(self.entries()[a] == old(self).entries()[a]);
                            assert(self.entries()[b] == old(self).entries()[b]);
                        } else {
                            assert(self.entries()[a] == old(self).entries()[a]);
                        }
                    }
                }
            },
        }
    }

    /// Removes the routing table entry for a destination, if one exists.
    pub fn remove_entry(&mut self, destination: &str)
        requires
            old(self).inv(),
        ensures
            final(self).inv(),
            route_lookup(final(self).entries(), destination@) is None,
            final(self).entries().len() as int == (if route_lookup(
                old(self).entries(),
                destination@,
            ) is Some {
                old(self).entries().len() as int - 1
            } else {
                old(self).entries().len() as int
            }),
            forall|d: Seq<char>|
                d != destination@ ==> #[trigger] route_lookup(final(self).entries(), d)
                    == route_lookup(old(self).entries(), d),
    {
        let dest = destination.to_owned();
        match self.find_index(&dest) {
            Some(i) => {
                self.entries.remove(i);
                proof {
                    assert forall|a: int, b: int|
                        0 <= a < b < self.entries().len() implies (#[trigger] self.entries()[a]).destination@
                        != (#[trigger] self.entries()[b]).destination@ by {
                        let a0 = if a < i { a } else { a + 1 };
                        let b0 = if b < i { b } else { b + 1 };
                        assert(self.entries()[a] == old(self).entries()[a0]);
                        assert(self.entries()[b] == old(self).entries()[b0]);
                    }
                    assert forall|j: int|
                        0 <= j < self.entries().len() implies (#[trigger] self.entries()[j]).destination@
                        != dest@ by {
                        let j0 = if j < i { j } else { j + 1 };
                        assert(self.entries()[j] == old(self).entries()[j0]);
                        assert(old(self).entries()[i as int].destination@ == dest@);
                    }
                    lemma_route_lookup_missing(self.entries(), dest@);
                    assert forall|d: Seq<char>| d != destination@ implies #[trigger] route_lookup(
                        self.entries(),
                        d,
                    ) == route_lookup(old(self).entries(), d) by {
                        assert(self.entries() =~= old(self).entries().remove(i as int));
                        lemma_route_lookup_remove(old(self).entries(), i as int, d);
                    }
                }
            },
            None => {
                proof {
                    lemma_route_lookup_none(self.entries(), dest@);
                    lemma_route_lookup_missing(self.entries(), dest@);
                }
            },
        }
    }

    /// Clears all entries from the routing table.
    pub fn clear_entries(&mut self)
        ensures
            final(self).entries().len() == 0,
            final(self).inv(),
    {
        self.entries.clear();
    }

    /// Gets the routing table entry for a destination.
    pub fn get_entry(&self, destination: &str) -> (r: Option<&RoutingEntry>)
        ensures
            match r {
                Some(e) => route_lookup(self.entries(), destination@) == Some(*e),
                None => route_lookup(self.entries(), destination@) is None,
            },
    {
        let dest = destination.to_owned();
        match self.find_index(&dest) {
            Some(i) => Some(&self.entries[i]),
            None => None,
        }
    }

    /// Gets all entries in the routing table, in insertion order.
    pub fn get_entries(&self) -> (r: Vec<&RoutingEntry>)
        ensures
            r@.len() == self.entries().len(),
            forall|i: int| 0 <= i < r@.len() ==> *(#[trigger] r@[i]) == self.entries()[i],
    {
        let n = self.entries.len();
        let mut out: Vec<&RoutingEntry> = Vec::new();
        let mut i: usize = 0;
        while i < n
            invariant
                n == self.entries().len(),
                0 <= i <= n,
                out@.len() == i,
                forall|j: int| 0 <= j < i ==> *(#[trigger] out@[j]) == self.entries()[j],
            decreases n - i,
        {
            out.push(&self.entries[i]);
            i = i + 1;
        }
        out
    }
}

/// Looking a destination up in an extended table: an entry appended at the
/// end is seen only where no earlier entry carries the destination.
proof fn lemma_route_lookup_push(entries: Seq<RoutingEntry>, entry: RoutingEntry, probe: Seq<char>)
    ensures
        route_lookup(entries.push(entry), probe) == (match route_lookup(entries, probe) {
            Some(e) => Some(e),
            None => if entry.destination@ == probe {
                Some(entry)
            } else {
                None
            },
        }),
    decreases entries.len(),
{
    if entries.len() == 0 {
        assert(entries.push(entry)[0] == entry);
        assert(entries.push(entry).drop_first() =~= Seq::<RoutingEntry>::empty());
    } else {
        assert(entries.push(entry)[0] == entries[0]);
        assert(entries.push(entry).drop_first() =~= entries.drop_first().push(entry));
        lemma_route_lookup_push(entries.drop_first(), entry, probe);
    }
}

/// Replacing the entry at `i` with one carrying the same destination
/// changes the scan only on that destination.
proof fn lemma_route_lookup_replace(
    before: Seq<RoutingEntry>,
    after: Seq<RoutingEntry>,
    i: int,
    probe: Seq<char>,
)
    requires
        0 <= i < before.len(),
        after.len() == before.len(),
        after[i].destination@ == before[i].destination@,
        forall|j: int| 0 <= j < before.len() && j != i ==> #[trigger] after[j] == before[j],
        forall|a: int, b: int|
            0 <= a < b < before.len() ==> (#[trigger] before[a]).destination@ != (
            #[trigger] before[b]).destination@,
        probe != before[i].destination@,
    ensures
        route_lookup(after, probe) == route_lookup(before, probe),
    decreases i,
{
    if before.len() > 0 {
        if i == 0 {
            assert(after.drop_first() =~= before.drop_first());
        } else {
            assert(after[0] == before[0]);
            if probe == before[0].destination@ {
            } else {
                assert forall|j: int|
                    0 <= j < before.drop_first().len() && j != i - 1 implies #[trigger] after.drop_first()[j]
                    == before.drop_first()[j] by {
                    assert(after.drop_first()[j] == after[j + 1]);
                    assert(before.drop_first()[j] == before[j + 1]);
                }
                assert forall|a: int, b: int|
                    0 <= a < b < before.drop_first().len() implies (#[trigger] before.drop_first()[a]).destination@
                    != (#[trigger] before.drop_first()[b]).destination@ by {
                    assert(before.drop_first()[a] == before[a + 1]);
                    assert(before.drop_first()[b] == before[b + 1]);
                }
                assert(after.drop_first()[i - 1].destination@ == before.drop_first()[
                    i - 1
                ].destination@);
                assert(before.drop_first()[i - 1] == before[i]);
                lemma_route_lookup_replace(before.drop_first(), after.drop_first(), i - 1, probe);
            }
        }
    }
}

/// Removing the entry at `i` changes the scan only on that entry's
/// destination.
proof fn lemma_route_lookup_remove(before: Seq<RoutingEntry>, i: int, probe: Seq<char>)
    requires
        0 <= i < before.len(),
        forall|a: int, b: int|
            0 <= a < b < before.len() ==> (#[trigger] before[a]).destination@ != (
            #[trigger] before[b]).destination@,
        probe != before[i].destination@,
    ensures
        route_lookup(before.remove(i), probe) == route_lookup(before, probe),
    decreases before.len(),
{
    let after = before.remove(i);
    if i == 0 {
        assert(after =~= before.drop_first());
    } else {
        assert(after[0] == before[0]);
        if probe == before[0].destination@ {
            assert(after.len() > 0);
        } else {
            assert(after.drop_first() =~= before.drop_first().remove(i - 1));
            assert forall|a: int, b: int|
                0 <= a < b < before.drop_first().len() implies (#[trigger] before.drop_first()[a]).destination@
                != (#[trigger] before.drop_first()[b]).destination@ by {
                assert(before.drop_first()[a] == before[a + 1]);
                assert(before.drop_first()[b] == before[b + 1]);
            }
            assert(before.drop_first()[i - 1] == before[i]);
            lemma_route_lookup_remove(before.drop_first(), i - 1, probe);
        }
    }
}

/// If every destination differs from the probed one, the scan finds
/// nothing.
proof fn lemma_route_lookup_missing(entries: Seq<RoutingEntry>, destination: Seq<char>)
    requires
        forall|j: int|
            0 <= j < entries.len() ==> (#[trigger] entries[j]).destination@ != destination,
    ensures
        route_lookup(entries, destination) is None,
    decreases entries.len(),
{
    if entries.len() > 0 {
        assert forall|j: int|
            0 <= j < entries.drop_first().len() implies (#[trigger] entries.drop_first()[j]).destination@
            != destination by {
            assert(entries.drop_first()[j] == entries[j + 1]);
        }
        lemma_route_lookup_missing(entries.drop_first(), destination);
    }
}

/// If the scan finds nothing, no entry carries the destination.
proof fn lemma_route_lookup_none(entries: Seq<RoutingEntry>, destination: Seq<char>)
    requires
        route_lookup(entries, destination) is None,
    ensures
        forall|j: int|
            0 <= j < entries.len() ==> (#[trigger] entries[j]).destination@ != destination,
    decreases entries.len(),
{
    if entries.len() > 0 {
        lemma_route_lookup_none(entries.drop_first(), destination);
        assert forall|j: int|
            0 <= j < entries.len() implies (#[trigger] entries[j]).destination@ != destination by {
            if j > 0 {
                assert(entries[j] == entries.drop_first()[j - 1]);
            }
        }
    }
}

/// In a table with unique destinations, the scan for the destination of
/// position `i` returns exactly that entry.
proof fn lemma_route_lookup_found(entries: Seq<RoutingEntry>, i: int)
    requires
        0 <= i < entries.len(),
        forall|a: int, b: int|
            0 <= a < b < entries.len() ==> (#[trigger] entries[a]).destination@ != (
            #[trigger] entries[b]).destination@,
    ensures
        route_lookup(entries, entries[i].destination@) == Some(entries[i]),
    decreases entries.len(),
{
    if i == 0 {
    } else {
        assert(entries[0].destination@ != entries[i].destination@);
        assert forall|a: int, b: int|
            0 <= a < b < entries.drop_first().len() implies (#[trigger] entries.drop_first()[a]).destination@
            != (#[trigger] entries.drop_first()[b]).destination@ by {
            assert(entries.drop_first()[a] == entries[a + 1]);
            assert(entries.drop_first()[b] == entries[b + 1]);
        }
        assert(entries.drop_first()[i - 1] == entries[i]);
        lemma_route_lookup_found(entries.drop_first(), i - 1);
    }
}

} // verus!
