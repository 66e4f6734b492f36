//! An entity as a behaviour sees it.

use vstd::prelude::*;
use crate::desktop_notification_properties::DesktopNotificationProperties;
use crate::property_value::PropertyValue;
use crate::property_value::PropertyValueView;
use crate::text::str_eq;

verus! {

/// One property cell of an entity: its name, the identifier that the host gave
/// the cell, and the value it holds.
#[derive(Clone, Debug, PartialEq, Eq)]
pub struct PropertyInstance {
    pub name: String,
    pub id: u128,
    pub value: PropertyValue,
}

/// An entity at one moment: its identifier, the name of its type and its
/// property cells by name. No two cells share a name.
#[derive(Debug, PartialEq, Eq)]
pub struct EntityInstance {
    id: u128,
    entity_type: String,
    properties: Vec<PropertyInstance>,
}

/// A property cell with its text as sequences of characters.
pub struct PropertyInstanceView {
    pub name: Seq<char>,
    pub id: u128,
    pub value: PropertyValueView,
}

/// An entity with its text as sequences of characters and its cells as a map
/// from their names.
pub struct EntityInstanceView {
    pub id: u128,
    pub entity_type: Seq<char>,
    pub properties: Map<Seq<char>, PropertyInstanceView>,
}

/// Whether no two cells of a list share a name.
pub open spec fn unique_names(cells: Seq<PropertyInstanceView>) -> bool {
    forall|i: int, j: int| 0 <= i < j < cells.len() ==> (#[trigger] cells[i]).name != (#[trigger] cells[j]).name
}

/// Whether a list holds a cell of this name at this place.
pub open spec fn named_at(cells: Seq<PropertyInstanceView>, name: Seq<char>, i: int) -> bool {
    0 <= i < cells.len() && cells[i].name == name
}

/// The cells of a list by their names.
pub open spec fn by_name(cells: Seq<PropertyInstanceView>) -> Map<Seq<char>, PropertyInstanceView> {
    Map::new(
        |name: Seq<char>| exists|i: int| named_at(cells, name, i),
        |name: Seq<char>| cells[choose|i: int| named_at(cells, name, i)],
    )
}

/// In a list without shared names, each cell is the one found under its name.
pub proof fn lemma_by_name(cells: Seq<PropertyInstanceView>, i: int)
    requires
        unique_names(cells),
        0 <= i < cells.len(),
    ensures
        by_name(cells).contains_key(cells[i].name),
        by_name(cells)[cells[i].name] == cells[i],
{
    let name = cells[i].name;
    assert(named_at(cells, name, i));
    let k = choose|k: int| named_at(cells, name, k);
    if k < i {
        assert(cells[k].name != cells[i].name);
    } else if i < k {
        assert(cells[i].name != cells[k].name);
    }
}

impl View for PropertyInstance {
    type V = PropertyInstanceView;

    open spec fn view(&self) -> PropertyInstanceView {
        PropertyInstanceView { name: self.name@, id: self.id, value: self.value@ }
    }
}

impl View for EntityInstance {
    type V = EntityInstanceView;

    closed spec fn view(&self) -> EntityInstanceView {
        EntityInstanceView {
            id: self.id,
            entity_type: self.entity_type@,
            properties: by_name(self.cells()),
        }
    }
}

impl EntityInstanceView {
    /// What every entity satisfies: each cell is kept under its own name.
    pub open spec fn wf(self) -> bool {
        forall|name: Seq<char>| #[trigger]
            self.properties.contains_key(name) ==> self.properties[name].name == name
    }

    /// The cell that the entity holds under a name.
    pub open spec fn property(self, name: Seq<char>) -> Option<PropertyInstanceView> {
        if self.properties.contains_key(name) {
            Some(self.properties[name])
        } else {
            None
        }
    }

    /// Whether the entity holds a cell under a name.
    pub open spec fn has(self, name: Seq<char>) -> bool {
        self.properties.contains_key(name)
    }

    /// The entity's value for a watched property, or the property's default
    /// where the entity has no cell for it.
    pub open spec fn value_or_default(self, property: DesktopNotificationProperties) -> PropertyValueView {
        match self.property(property.name()) {
            Some(cell) => cell.value,
            None => property.default_of(),
        }
    }

    /// The entity with a cell put under the cell's name, in place of a cell
    /// that was there.
    pub open spec fn with(self, cell: PropertyInstanceView) -> EntityInstanceView {
        EntityInstanceView { properties: self.properties.insert(cell.name, cell), ..self }
    }
}

/// The place of the cell of this name in a list, or the list's length where no
/// cell has the name.
fn place_of(cells: &Vec<PropertyInstance>, name: &str) -> (i: usize)
    ensures
        i <= cells.len(),
        i < cells.len() ==> cells[i as int]@.name == name@,
        forall|j: int| 0 <= j < i ==> (#[trigger] cells[j])@.name != name@,
{
    let mut i: usize = 0;
    while i < cells.len()
        invariant
            i <= cells.len(),
            forall|j: int| 0 <= j < i ==> (#[trigger] cells[j])@.name != name@,
        decreases cells.len() - i,
    {
        if str_eq(cells[i].name.as_str(), name) {
            return i;
        }
        i = i + 1;
    }
    i
}

impl EntityInstance {
    /// The views of the cells, in the order in which they are kept.
    closed spec fn cells(self) -> Seq<PropertyInstanceView> {
        self.properties@.map_values(|cell: PropertyInstance| cell@)
    }

    #[verifier::type_invariant]
    spec fn inv(self) -> bool {
        unique_names(self.cells())
    }

    /// An entity without cells.
    pub fn new(id: u128, entity_type: String) -> (entity: EntityInstance)
        ensures
            entity@ == (EntityInstanceView { id, entity_type: entity_type@, properties: Map::empty() }),
            entity@.wf(),
    {
        let entity = EntityInstance { id, entity_type, properties: Vec::new() };
        assert(entity@.properties =~= Map::empty());
        entity
    }

    /// Puts a cell under its name, in place of a cell that was there.
    pub fn insert(&mut self, cell: PropertyInstance)
        ensures
            final(self)@ == old(self)@.with(cell@),
            old(self)@.wf() ==> final(self)@.wf(),
    {
        proof {
            use_type_invariant(&*self);
        }
        let ghost before = self.cells();
        let ghost added = cell@;
        let mut cells: Vec<PropertyInstance> = Vec::new();
        core::mem::swap(&mut self.properties, &mut cells);
        let ghost kept = cells@;
        assert(before == kept.map_values(|cell: PropertyInstance| cell@));
        let i = place_of(&cells, cell.name.as_str());
        if i < cells.len() {
            cells.set(i, cell);
        } else {
            cells.push(cell);
        }
        let ghost after = cells@.map_values(|cell: PropertyInstance| cell@);
        proof {
            assert(cells@.len() == after.len());
            if i < before.len() {
                assert(after == before.update(i as int, added));
            } else {
                assert(after == before.push(added));
            }
            assert forall|a: int, b: int| 0 <= a < b < after.len() implies (#[trigger] after[a]).name != (
            #[trigger] after[b]).name by {
                if i < before.len() {
                    assert(before[i as int] == kept[i as int]@);
                    assert(after[a].name == before[a].name);
                    assert(after[b].name == before[b].name);
                    assert(before[a].name != before[b].name);
                } else if b < before.len() {
                    assert(before[a].name != before[b].name);
                } else {
                    assert(before[a] == kept[a]@);
                }
            }
            assert(unique_names(after));
            assert forall|name: Seq<char>| #[trigger]
                by_name(after).contains_key(name) <==> by_name(before).insert(
                    added.name,
                    added,
                ).contains_key(name) by {
                if by_name(after).contains_key(name) {
                    let k = choose|k: int| named_at(after, name, k);
                    if name != added.name {
                        assert(named_at(before, name, k));
                    }
                }
                if by_name(before).contains_key(name) {
                    let k = choose|k: int| named_at(before, name, k);
                    assert(named_at(after, name, k));
                }
                if name == added.name {
                    let place = if i < before.len() {
                        i as int
                    } else {
                        before.len() as int
                    };
                    assert(named_at(after, name, place));
                }
            }
            assert forall|name: Seq<char>| #[trigger]
                by_name(after).contains_key(name) implies by_name(after)[name] == by_name(before).insert(
                added.name,
                added,
            )[name] by {
                let k = choose|k: int| named_at(after, name, k);
                lemma_by_name(after, k);
                if name != added.name {
                    assert(named_at(before, name, k));
                    lemma_by_name(before, k);
                }
            }
            assert(by_name(after) =~= by_name(before).insert(added.name, added));
        }
        self.properties = cells;
        proof {
            if old(self)@.wf() {
                assert forall|name: Seq<char>| #[trigger]
                    self@.properties.contains_key(name) implies self@.properties[name].name == name by {
                    if name != added.name {
                        assert(old(self)@.properties.contains_key(name));
                    }
                }
            }
        }
    }

    /// The entity's identifier.
    pub fn id(&self) -> (id: u128)
        ensures
            id == self@.id,
    {
        self.id
    }

    /// The name of the entity's type.
    pub fn entity_type(&self) -> (name: &str)
        ensures
            name@ == self@.entity_type,
    {
        self.entity_type.as_str()
    }

    /// The cell that the entity holds under a name.
    pub fn property(&self, name: &str) -> (found: Option<&PropertyInstance>)
        ensures
            match found {
                Some(cell) => self@.property(name@) == Some(cell@),
                None => self@.property(name@).is_none(),
            },
            self@.wf(),
    {
        proof {
            use_type_invariant(self);
            let cells = self.cells();
            assert forall|n: Seq<char>| #[trigger] by_name(cells).contains_key(n) implies by_name(
                cells,
            )[n].name == n by {
                let k = choose|k: int| named_at(cells, n, k);
                lemma_by_name(cells, k);
            }
        }
        let i = place_of(&self.properties, name);
        if i < self.properties.len() {
            proof {
                assert(self.cells()[i as int] == self.properties[i as int]@);
                lemma_by_name(self.cells(), i as int);
            }
            Some(&self.properties[i])
        } else {
            proof {
                if by_name(self.cells()).contains_key(name@) {
                    let k = choose|k: int| named_at(self.cells(), name@, k);
                    assert(self.cells()[k] == self.properties[k]@);
                }
            }
            None
        }
    }

    /// Whether the entity holds a cell under a name.
    pub fn has_property(&self, name: &str) -> (found: bool)
        ensures
            found == self@.has(name@),
    {
        self.property(name).is_some()
    }

    /// A copy of the value that the entity holds under a name.
    pub fn get(&self, name: &str) -> (value: Option<PropertyValue>)
        ensures
            match value {
                Some(v) => self@.property(name@).is_some() && v@ == self@.property(name@).unwrap().value,
                None => self@.property(name@).is_none(),
            },
    {
        match self.property(name) {
            Some(cell) => Some(cell.value.duplicate()),
            None => None,
        }
    }
}

} // verus!
