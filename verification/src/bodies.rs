//! The body registry: a structure of arrays keyed by stable, unique names.

use vstd::prelude::*;
use crate::names::{
    name_map_entries, name_map_get, name_map_insert, name_map_new, name_map_remove, NameMap,
};

verus! {

/// A point mass with its display attributes. `V` is the vector type of
/// positions and velocities, `S` the scalar type of masses and radii and `R`
/// the rotation record; the registry stores them without looking inside.
#[derive(Clone, Debug)]
pub struct SpaceBody<V, S, R> {
    pub position: V,
    pub velocity: V,
    pub mass: S,
    pub radius: S,
    pub rotation: R,
}

/// Returned by `insert` when the name is already taken; `index` is the slot
/// of the body that holds the name.
#[derive(Clone, Copy, Debug, PartialEq, Eq, Structural)]
pub struct DuplicateNameError {
    pub index: usize,
}

/// Returned by a lookup of a name that no body carries.
#[derive(Clone, Copy, Debug, PartialEq, Eq, Structural)]
pub struct UnknownBodyError {}

/// What is left of a sequence after a swap-remove at `i`: the last element
/// takes the freed slot and the sequence loses its tail.
pub open spec fn swap_removed<T>(s: Seq<T>, i: int) -> Seq<T> {
    s.update(i, s.last()).drop_last()
}

/// No two positions of `names` hold the same name.
pub open spec fn distinct_names(names: Seq<Seq<char>>) -> bool {
    forall|i: int, j: int| 0 <= i < j < names.len() ==> names[i] != names[j]
}

/// The slot at which `name` stands in `names`, if any.
pub open spec fn name_index(names: Seq<Seq<char>>, name: Seq<char>) -> Option<int> {
    if exists|i: int| 0 <= i < names.len() && names[i] == name {
        Some(choose|i: int| 0 <= i < names.len() && names[i] == name)
    } else {
        None
    }
}

/// The index files every name under its slot and holds nothing else.
pub open spec fn index_matches(index: Map<Seq<char>, usize>, names: Seq<Seq<char>>) -> bool {
    &&& forall|i: int|
        0 <= i < names.len() ==> index.contains_key(#[trigger] names[i]) && index[names[i]] == i
    &&& forall|name: Seq<char>| #[trigger]
        index.contains_key(name) ==> 0 <= index[name] < names.len() && names[index[name] as int]
            == name
}

/// In a sequence of distinct names, the slot of a name is the one place where
/// it stands.
pub proof fn lemma_name_index_unique(names: Seq<Seq<char>>, i: int)
    requires
        distinct_names(names),
        0 <= i < names.len(),
    ensures
        name_index(names, names[i]) == Some(i),
{
    let k = choose|k: int| 0 <= k < names.len() && names[k] == names[i];
    if k < i {
        assert(names[k] != names[i]);
    } else if i < k {
        assert(names[i] != names[k]);
    }
}

/// Removing the body at slot `i` keeps every other body reachable by its
/// name: the body that stood last moves to slot `i`, all others keep their
/// slot, the names stay distinct and exactly one slot is lost.
pub proof fn lemma_removal_keeps_others(names: Seq<Seq<char>>, i: int, k: int)
    requires
        distinct_names(names),
        0 <= i < names.len(),
        0 <= k < names.len(),
        k != i,
    ensures
        swap_removed(names, i).len() == names.len() - 1,
        distinct_names(swap_removed(names, i)),
        name_index(swap_removed(names, i), names[i]).is_none(),
        name_index(swap_removed(names, i), names[k]) == Some(
            if k == names.len() - 1 {
                i
            } else {
                k
            },
        ),
{
    let after = swap_removed(names, i);
    let last = names.len() - 1;
    assert forall|a: int, b: int| 0 <= a < b < after.len() implies after[a] != after[b] by {
        let sa = if a == i { last } else { a };
        let sb = if b == i { last } else { b };
        assert(after[a] == names[sa]);
        assert(after[b] == names[sb]);
        if sa < sb {
            assert(names[sa] != names[sb]);
        } else {
            assert(names[sb] != names[sa]);
        }
    }
    assert forall|a: int| 0 <= a < after.len() implies after[a] != names[i] by {
        let sa = if a == i { last } else { a };
        assert(after[a] == names[sa]);
        if sa < i {
            assert(names[sa] != names[i]);
        } else {
            assert(names[i] != names[sa]);
        }
    }
    let moved = if k == last { i } else { k };
    assert(after[moved] == names[k]);
    lemma_name_index_unique(after, moved);
}

/// The registry as a mathematical value: the index from names to slots, and
/// one sequence per array, all of one length, slot by slot.
pub struct BodiesView<V, S, R> {
    /// The slot filed under each name; it mirrors `names`.
    pub index: Map<Seq<char>, usize>,
    pub names: Seq<Seq<char>>,
    pub positions: Seq<V>,
    pub velocities: Seq<V>,
    pub masses: Seq<S>,
    pub radiuses: Seq<S>,
    pub rotations: Seq<R>,
}

impl<V, S, R> BodiesView<V, S, R> {
    /// The registry with `body` appended under `name`, or unchanged if the
    /// name is taken.
    pub open spec fn inserted(self, name: Seq<char>, body: SpaceBody<V, S, R>) -> Self {
        if name_index(self.names, name).is_some() {
            self
        } else {
            BodiesView {
                index: self.index.insert(name, self.names.len() as usize),
                names: self.names.push(name),
                positions: self.positions.push(body.position),
                velocities: self.velocities.push(body.velocity),
                masses: self.masses.push(body.mass),
                radiuses: self.radiuses.push(body.radius),
                rotations: self.rotations.push(body.rotation),
            }
        }
    }

    /// The registry after a swap-remove of slot `index`.
    pub open spec fn removed(self, index: int) -> Self {
        BodiesView {
            index: if index == self.names.len() - 1 {
                self.index.remove(self.names[index])
            } else {
                self.index.remove(self.names[index]).insert(self.names.last(), index as usize)
            },
            names: swap_removed(self.names, index),
            positions: swap_removed(self.positions, index),
            velocities: swap_removed(self.velocities, index),
            masses: swap_removed(self.masses, index),
            radiuses: swap_removed(self.radiuses, index),
            rotations: swap_removed(self.rotations, index),
        }
    }
}

/// The registry of simulated bodies. Slot `i` of every array belongs to the
/// body whose name stands at slot `i` of the names; the index leads from
/// each name back to its slot.
#[derive(Debug)]
pub struct SpaceBodies<V, S, R> {
    index: NameMap,
    names: Vec<String>,
    positions: Vec<V>,
    velocities: Vec<V>,
    masses: Vec<S>,
    radiuses: Vec<S>,
    rotations: Vec<R>,
}

impl<V, S, R> View for SpaceBodies<V, S, R> {
    type V = BodiesView<V, S, R>;

    open spec fn view(&self) -> BodiesView<V, S, R> {
        BodiesView {
            index: self.spec_index(),
            names: self.spec_names(),
            positions: self.spec_positions(),
            velocities: self.spec_velocities(),
            masses: self.spec_masses(),
            radiuses: self.spec_radiuses(),
            rotations: self.spec_rotations(),
        }
    }
}

impl<V, S, R> SpaceBodies<V, S, R> {
    /// The names of the bodies, by slot.
    pub closed spec fn spec_names(&self) -> Seq<Seq<char>> {
        Seq::new(self.names@.len(), |i: int| self.names@[i]@)
    }

    /// The slot that the index gives for each name.
    pub closed spec fn spec_index(&self) -> Map<Seq<char>, usize> {
        name_map_entries(self.index)
    }

    pub closed spec fn spec_positions(&self) -> Seq<V> {
        self.positions@
    }

    pub closed spec fn spec_velocities(&self) -> Seq<V> {
        self.velocities@
    }

    pub closed spec fn spec_masses(&self) -> Seq<S> {
        self.masses@
    }

    pub closed spec fn spec_radiuses(&self) -> Seq<S> {
        self.radiuses@
    }

    pub closed spec fn spec_rotations(&self) -> Seq<R> {
        self.rotations@
    }

    /// The number of bodies.
    pub open spec fn spec_len(&self) -> nat {
        self.spec_names().len()
    }

    /// All arrays have one length, no name occurs twice, and the index
    /// agrees with the names.
    pub open spec fn wf(&self) -> bool {
        &&& index_matches(self.spec_index(), self.spec_names())
        &&& self.spec_positions().len() == self.spec_len()
        &&& self.spec_velocities().len() == self.spec_len()
        &&& self.spec_masses().len() == self.spec_len()
        &&& self.spec_radiuses().len() == self.spec_len()
        &&& self.spec_rotations().len() == self.spec_len()
        &&& distinct_names(self.spec_names())
    }

    /// An empty registry.
    pub fn new() -> (bodies: Self)
        ensures
            bodies.wf(),
            bodies.spec_len() == 0,
    {
        SpaceBodies {
            index: name_map_new(),
            names: Vec::new(),
            positions: Vec::new(),
            velocities: Vec::new(),
            masses: Vec::new(),
            radiuses: Vec::new(),
            rotations: Vec::new(),
        }
    }

    /// The number of bodies.
    pub fn len(&self) -> (n: usize)
        requires
            self.wf(),
        ensures
            n == self.spec_len(),
    {
        self.names.len()
    }

    /// The slot of the body called `name`.
    pub fn get_index(&self, name: &str) -> (found: Result<usize, UnknownBodyError>)
        requires
            self.wf(),
        ensures
            match found {
                Ok(index) => name_index(self.spec_names(), name@) == Some(index as int),
                Err(_) => name_index(self.spec_names(), name@).is_none(),
            },
    {
        match name_map_get(&self.index, name) {
            Some(index) => {
                proof {
                    lemma_name_index_unique(self.spec_names(), index as int);
                }
                Ok(index)
            },
            None => Err(UnknownBodyError {}),
        }
    }

    /// Appends `body` under `name` and returns its slot. A name that is
    /// already taken is refused and the registry stays as it was.
    pub fn insert(&mut self, name: String, body: SpaceBody<V, S, R>) -> (placed: Result<
        usize,
        DuplicateNameError,
    >)
        requires
            old(self).wf(),
        ensures
            final(self).wf(),
            final(self)@ == old(self)@.inserted(name@, body),
            placed == match name_index(old(self).spec_names(), name@) {
                Some(index) => Err::<usize, DuplicateNameError>(
                    DuplicateNameError { index: index as usize },
                ),
                None => Ok(old(self).spec_len() as usize),
            },
    {
        match self.get_index(name.as_str()) {
            Ok(index) => Err(DuplicateNameError { index }),
            Err(_) => {
                let index = self.names.len();
                name_map_insert(&mut self.index, name.clone(), index);
                self.names.push(name);
                self.positions.push(body.position);
                self.velocities.push(body.velocity);
                self.masses.push(body.mass);
                self.radiuses.push(body.radius);
                self.rotations.push(body.rotation);
                proof {
                    let before = old(self).spec_names();
                    let after = self.spec_names();
                    assert(after =~= before.push(name@));
                    assert forall|a: int, b: int| 0 <= a < b < after.len() implies after[a]
                        != after[b] by {
                        if b < before.len() {
                            assert(before[a] != before[b]);
                        } else {
                            assert(before[a] != name@);
                        }
                    }
                    assert forall|i: int| 0 <= i < after.len() implies self.spec_index().contains_key(
                        #[trigger] after[i],
                    ) && self.spec_index()[after[i]] == i by {
                        if i < before.len() {
                            assert(before[i] != name@);
                        }
                    }
                }
                Ok(index)
            },
        }
    }

    /// Removes the body called `name` by swap-remove and returns the slot it
    /// held: the body that stood last, name and all, now stands there. An
    /// unknown name changes nothing.
    pub fn remove(&mut self, name: &str) -> (removed: Option<usize>)
        requires
            old(self).wf(),
        ensures
            final(self).wf(),
            removed == match name_index(old(self).spec_names(), name@) {
                Some(index) => Some(index as usize),
                None => None::<usize>,
            },
            final(self)@ == match name_index(old(self).spec_names(), name@) {
                Some(index) => old(self)@.removed(index),
                None => old(self)@,
            },
    {
        match self.get_index(name) {
            Err(_) => None,
            Ok(index) => {
                let last = self.names.len() - 1;
                name_map_remove(&mut self.index, name);
                self.names.swap_remove(index);
                self.positions.swap_remove(index);
                self.velocities.swap_remove(index);
                self.masses.swap_remove(index);
                self.radiuses.swap_remove(index);
                self.rotations.swap_remove(index);
                if index != last {
                    let moved = self.names[index].clone();
                    name_map_insert(&mut self.index, moved, index);
                }
                proof {
                    let before = old(self).spec_names();
                    let after = self.spec_names();
                    assert(after =~= swap_removed(before, index as int));
                    assert(before[index as int] == name@);
                    if before.len() > 1 {
                        let other: int = if index == 0 { 1 } else { 0 };
                        lemma_removal_keeps_others(before, index as int, other);
                    }
                    assert forall|i: int| 0 <= i < after.len() implies self.spec_index().contains_key(
                        #[trigger] after[i],
                    ) && self.spec_index()[after[i]] == i by {
                        let from = if i == index { last as int } else { i };
                        assert(after[i] == before[from]);
                        lemma_removal_keeps_others(before, index as int, from);
                        assert(old(self).spec_index().contains_key(before[from]));
                    }
                    assert forall|n: Seq<char>| #[trigger]
                        self.spec_index().contains_key(n) implies 0 <= self.spec_index()[n]
                        < after.len() && after[self.spec_index()[n] as int] == n by {
                        if index != last && n == before[last as int] {
                            assert(after[index as int] == n);
                        } else {
                            assert(old(self).spec_index().contains_key(n));
                            let at = old(self).spec_index()[n] as int;
                            assert(before[at] == n);
                            assert(at != index);
                            assert(at != last);
                            assert(after[at] == before[at]);
                        }
                    }
                }
                Some(index)
            },
        }
    }

    /// The positions, by slot.
    pub fn positions(&self) -> (all: &Vec<V>)
        ensures
            all@ == self.spec_positions(),
    {
        &self.positions
    }

    /// Write access to the position at slot `index`; nothing else changes.
    pub fn positions_mut(&mut self, index: usize) -> (slot: &mut V)
        requires
            old(self).wf(),
            index < old(self).spec_len(),
        ensures
            *slot == old(self).spec_positions()[index as int],
            final(self).spec_positions() == old(self).spec_positions().update(
                index as int,
                *final(slot),
            ),
            final(self).spec_index() == old(self).spec_index(),
            final(self).spec_names() == old(self).spec_names(),
            final(self).spec_velocities() == old(self).spec_velocities(),
            final(self).spec_masses() == old(self).spec_masses(),
            final(self).spec_radiuses() == old(self).spec_radiuses(),
            final(self).spec_rotations() == old(self).spec_rotations(),
    {
        &mut self.positions[index]
    }

    /// The velocities, by slot.
    pub fn velocities(&self) -> (all: &Vec<V>)
        ensures
            all@ == self.spec_velocities(),
    {
        &self.velocities
    }

    /// Write access to the velocity at slot `index`; nothing else changes.
    pub fn velocities_mut(&mut self, index: usize) -> (slot: &mut V)
        requires
            old(self).wf(),
            index < old(self).spec_len(),
        ensures
            *slot == old(self).spec_velocities()[index as int],
            final(self).spec_velocities() == old(self).spec_velocities().update(
                index as int,
                *final(slot),
            ),
            final(self).spec_index() == old(self).spec_index(),
            final(self).spec_names() == old(self).spec_names(),
            final(self).spec_positions() == old(self).spec_positions(),
            final(self).spec_masses() == old(self).spec_masses(),
            final(self).spec_radiuses() == old(self).spec_radiuses(),
            final(self).spec_rotations() == old(self).spec_rotations(),
    {
        &mut self.velocities[index]
    }

    /// The masses, by slot.
    pub fn masses(&self) -> (all: &Vec<S>)
        ensures
            all@ == self.spec_masses(),
    {
        &self.masses
    }

    /// Write access to the mass at slot `index`; nothing else changes.
    pub fn masses_mut(&mut self, index: usize) -> (slot: &mut S)
        requires
            old(self).wf(),
            index < old(self).spec_len(),
        ensures
            *slot == old(self).spec_masses()[index as int],
            final(self).spec_masses() == old(self).spec_masses().update(
                index as int,
                *final(slot),
            ),
            final(self).spec_index() == old(self).spec_index(),
            final(self).spec_names() == old(self).spec_names(),
            final(self).spec_positions() == old(self).spec_positions(),
            final(self).spec_velocities() == old(self).spec_velocities(),
            final(self).spec_radiuses() == old(self).spec_radiuses(),
            final(self).spec_rotations() == old(self).spec_rotations(),
    {
        &mut self.masses[index]
    }

    /// The radii, by slot.
    pub fn radiuses(&self) -> (all: &Vec<S>)
        ensures
            all@ == self.spec_radiuses(),
    {
        &self.radiuses
    }

    /// Write access to the radius at slot `index`; nothing else changes.
    pub fn radiuses_mut(&mut self, index: usize) -> (slot: &mut S)
        requires
            old(self).wf(),
            index < old(self).spec_len(),
        ensures
            *slot == old(self).spec_radiuses()[index as int],
            final(self).spec_radiuses() == old(self).spec_radiuses().update(
                index as int,
                *final(slot),
            ),
            final(self).spec_index() == old(self).spec_index(),
            final(self).spec_names() == old(self).spec_names(),
            final(self).spec_positions() == old(self).spec_positions(),
            final(self).spec_velocities() == old(self).spec_velocities(),
            final(self).spec_masses() == old(self).spec_masses(),
            final(self).spec_rotations() == old(self).spec_rotations(),
    {
        &mut self.radiuses[index]
    }

    /// The rotation records, by slot.
    pub fn rotations(&self) -> (all: &Vec<R>)
        ensures
            all@ == self.spec_rotations(),
    {
        &self.rotations
    }

    /// Write access to the rotation record at slot `index`; nothing else changes.
    pub fn rotations_mut(&mut self, index: usize) -> (slot: &mut R)
        requires
            old(self).wf(),
            index < old(self).spec_len(),
        ensures
            *slot == old(self).spec_rotations()[index as int],
            final(self).spec_rotations() == old(self).spec_rotations().update(
                index as int,
                *final(slot),
            ),
            final(self).spec_index() == old(self).spec_index(),
            final(self).spec_names() == old(self).spec_names(),
            final(self).spec_positions() == old(self).spec_positions(),
            final(self).spec_velocities() == old(self).spec_velocities(),
            final(self).spec_masses() == old(self).spec_masses(),
            final(self).spec_radiuses() == old(self).spec_radiuses(),
    {
        &mut self.rotations[index]
    }

    /// The position of the body called `name`.
    pub fn position(&self, name: &str) -> (found: Result<&V, UnknownBodyError>)
        requires
            self.wf(),
        ensures
            match name_index(self.spec_names(), name@) {
                Some(index) => found == Ok::<&V, UnknownBodyError>(&self.spec_positions()[index]),
                None => found.is_err(),
            },
    {
        match self.get_index(name) {
            Ok(index) => Ok(&self.positions[index]),
            Err(e) => Err(e),
        }
    }

    /// The velocity of the body called `name`.
    pub fn velocity(&self, name: &str) -> (found: Result<&V, UnknownBodyError>)
        requires
            self.wf(),
        ensures
            match name_index(self.spec_names(), name@) {
                Some(index) => found == Ok::<&V, UnknownBodyError>(&self.spec_velocities()[index]),
                None => found.is_err(),
            },
    {
        match self.get_index(name) {
            Ok(index) => Ok(&self.velocities[index]),
            Err(e) => Err(e),
        }
    }

    /// The mass of the body called `name`.
    pub fn mass(&self, name: &str) -> (found: Result<&S, UnknownBodyError>)
        requires
            self.wf(),
        ensures
            match name_index(self.spec_names(), name@) {
                Some(index) => found == Ok::<&S, UnknownBodyError>(&self.spec_masses()[index]),
                None => found.is_err(),
            },
    {
        match self.get_index(name) {
            Ok(index) => Ok(&self.masses[index]),
            Err(e) => Err(e),
        }
    }

    /// The radius of the body called `name`.
    pub fn radius(&self, name: &str) -> (found: Result<&S, UnknownBodyError>)
        requires
            self.wf(),
        ensures
            match name_index(self.spec_names(), name@) {
                Some(index) => found == Ok::<&S, UnknownBodyError>(&self.spec_radiuses()[index]),
                None => found.is_err(),
            },
    {
        match self.get_index(name) {
            Ok(index) => Ok(&self.radiuses[index]),
            Err(e) => Err(e),
        }
    }

    /// Puts back positions and velocities that were copied out earlier, for
    /// the same bodies; names, masses, radii and rotations stay.
    pub fn restore(&mut self, positions: &Vec<V>, velocities: &Vec<V>) where V: Copy
        requires
            old(self).wf(),
            positions@.len() == old(self).spec_len(),
            velocities@.len() == old(self).spec_len(),
        ensures
            final(self).wf(),
            final(self).spec_positions() == positions@,
            final(self).spec_velocities() == velocities@,
            final(self).spec_index() == old(self).spec_index(),
            final(self).spec_names() == old(self).spec_names(),
            final(self).spec_masses() == old(self).spec_masses(),
            final(self).spec_radiuses() == old(self).spec_radiuses(),
            final(self).spec_rotations() == old(self).spec_rotations(),
    {
        self.positions = copy_of(positions);
        self.velocities = copy_of(velocities);
    }
}

/// A body on its way into the registry, with the name to file it under.
#[derive(Clone, Debug)]
pub struct NasaBodyAddition<V, S, R> {
    pub name: String,
    pub body: SpaceBody<V, S, R>,
}

/// The registry after the additions have been inserted one after the other,
/// first to last; an addition whose name is taken by then is left out.
pub open spec fn inserted_all<V, S, R>(
    start: BodiesView<V, S, R>,
    additions: Seq<NasaBodyAddition<V, S, R>>,
) -> BodiesView<V, S, R>
    decreases additions.len(),
{
    if additions.len() == 0 {
        start
    } else {
        inserted_all(start, additions.drop_last()).inserted(
            additions.last().name@,
            additions.last().body,
        )
    }
}

/// Inserts the additions in their order and returns how many went in; those
/// whose name was taken are dropped.
pub fn insert_nasa_bodies<V, S, R>(
    bodies: &mut SpaceBodies<V, S, R>,
    additions: Vec<NasaBodyAddition<V, S, R>>,
) -> (inserted: usize)
    requires
        old(bodies).wf(),
    ensures
        final(bodies).wf(),
        final(bodies)@ == inserted_all(old(bodies)@, additions@),
        inserted == final(bodies).spec_len() - old(bodies).spec_len(),
{
    let ghost all = additions@;
    assert(all.len() == additions.len());
    let mut waiting = additions;
    let mut stack: Vec<NasaBodyAddition<V, S, R>> = Vec::new();
    while waiting.len() > 0
        invariant
            waiting@.len() + stack@.len() == all.len() <= usize::MAX,
            waiting@ == all.take(waiting@.len() as int),
            forall|k: int| 0 <= k < stack@.len() ==> stack@[k] == all[all.len() - 1 - k],
        decreases waiting@.len(),
    {
        let addition = waiting.pop().unwrap();
        stack.push(addition);
    }
    let mut inserted: usize = 0;
    while stack.len() > 0
        invariant
            bodies.wf(),
            stack@.len() <= all.len() <= usize::MAX,
            forall|k: int| 0 <= k < stack@.len() ==> stack@[k] == all[all.len() - 1 - k],
            bodies@ == inserted_all(old(bodies)@, all.take(all.len() - stack@.len())),
            inserted == bodies.spec_len() - old(bodies).spec_len(),
            inserted <= all.len() - stack@.len(),
        decreases stack@.len(),
    {
        let ghost done = all.len() - stack@.len();
        let addition = stack.pop().unwrap();
        proof {
            assert(addition == all[done]);
            assert(all.take(done + 1).drop_last() =~= all.take(done));
            assert(all.take(done + 1).last() == all[done]);
        }
        match bodies.insert(addition.name, addition.body) {
            Ok(_) => {
                inserted += 1;
            },
            Err(_) => {},
        }
    }
    proof {
        assert(all.take(all.len() as int) =~= all);
    }
    inserted
}

/// An element-by-element copy of `source`.
pub fn copy_of<T: Copy>(source: &Vec<T>) -> (copy: Vec<T>)
    ensures
        copy@ == source@,
{
    let mut copy: Vec<T> = Vec::new();
    let mut i: usize = 0;
    while i < source.len()
        invariant
            i <= source.len(),
            copy@ == source@.subrange(0, i as int),
        decreases source.len() - i,
    {
        copy.push(source[i]);
        assert(copy@ =~= source@.subrange(0, i + 1));
        i += 1;
    }
    assert(source@.subrange(0, i as int) =~= source@);
    copy
}

} // verus!
