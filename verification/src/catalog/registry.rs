//! Which schemas each database registered.
use super::row::copy_texts;
use crate::text::{contains, same, views};
use vstd::prelude::*;

verus! {

/// A database, and the schemas that it registered.
pub struct RegistryEntry {
    pub database: String,
    pub schemas: Vec<String>,
}

/// Which schemas each database registered. Schemas are kept flat across databases, so a
/// schema alone does not say which database it belongs to; to drop a database is to drop the
/// schemas that it registered, and no others.
pub struct SchemaRegistry {
    pub entries: Vec<RegistryEntry>,
}

/// What a registry says: the schemas of each database, in the order in which they were
/// registered.
pub type RegistryView = Map<Seq<char>, Seq<Seq<char>>>;

/// What the entries of a registry say; the last entry of a database counts.
pub open spec fn entries_view(entries: Seq<RegistryEntry>) -> RegistryView
    decreases entries.len(),
{
    if entries.len() == 0 {
        Map::empty()
    } else {
        entries_view(entries.drop_last()).insert(
            entries.last().database@,
            views(entries.last().schemas@),
        )
    }
}

impl View for SchemaRegistry {
    type V = RegistryView;

    open spec fn view(&self) -> RegistryView {
        entries_view(self.entries@)
    }
}

/// The schemas of a database; none for a database that is not known.
pub open spec fn schemas_of(r: RegistryView, database: Seq<char>) -> Seq<Seq<char>> {
    if r.dom().contains(database) {
        r[database]
    } else {
        Seq::empty()
    }
}

/// Whether some database has a schema.
pub open spec fn registered(r: RegistryView, schema: Seq<char>) -> bool {
    exists|d: Seq<char>| r.dom().contains(d) && (#[trigger] r[d]).contains(schema)
}

proof fn known_has_entry(entries: Seq<RegistryEntry>, database: Seq<char>)
    requires
        entries_view(entries).dom().contains(database),
    ensures
        exists|i: int| 0 <= i < entries.len() && (#[trigger] entries[i]).database@ == database,
    decreases entries.len(),
{
    if entries.last().database@ == database {
        assert(entries[entries.len() - 1].database@ == database);
    } else {
        known_has_entry(entries.drop_last(), database);
        let i = choose|i: int|
            0 <= i < entries.len() - 1 && (#[trigger] entries.drop_last()[i]).database@ == database;
        assert(entries[i].database@ == database);
    }
}

/// The texts other than `s`.
pub open spec fn texts_other_than(s: Seq<char>) -> spec_fn(Seq<char>) -> bool {
    |x: Seq<char>| x != s
}

/// The registry in which a database is known.
pub open spec fn with_database(r: RegistryView, database: Seq<char>) -> RegistryView {
    r.insert(database, schemas_of(r, database))
}

/// The registry in which a database has a schema.
pub open spec fn with_schema(
    r: RegistryView,
    database: Seq<char>,
    schema: Seq<char>,
) -> RegistryView {
    let old = schemas_of(r, database);
    r.insert(
        database,
        if old.contains(schema) {
            old
        } else {
            old.push(schema)
        },
    )
}

/// The registry in which a database does not have a schema any more; a database whose last
/// schema goes is not known any more. Names that are not known change nothing.
pub open spec fn without_schema(
    r: RegistryView,
    database: Seq<char>,
    schema: Seq<char>,
) -> RegistryView {
    let rest = schemas_of(r, database).filter(texts_other_than(schema));
    if !schemas_of(r, database).contains(schema) {
        r
    } else if rest.len() == 0 {
        r.remove(database)
    } else {
        r.insert(database, rest)
    }
}

/// Whether no database has a schema twice.
pub open spec fn registered_once(r: RegistryView) -> bool {
    forall|d: Seq<char>| #[trigger] r.dom().contains(d) ==> r[d].no_duplicates()
}

proof fn filter_keeps_distinct(s: Seq<Seq<char>>, keep: spec_fn(Seq<char>) -> bool)
    requires
        s.no_duplicates(),
    ensures
        s.filter(keep).no_duplicates(),
        forall|x: Seq<char>| #[trigger] s.filter(keep).contains(x) ==> s.contains(x),
    decreases s.len(),
{
    reveal(Seq::filter);
    if s.len() > 0 {
        let init = s.drop_last();
        let done = init.filter(keep);
        filter_keeps_distinct(init, keep);
        let all = s.filter(keep);
        assert forall|x: Seq<char>| #[trigger] init.contains(x) implies s.contains(x) by {
            let i = choose|i: int| 0 <= i < init.len() && init[i] == x;
            assert(s[i] == x);
        }
        assert(!done.contains(s.last())) by {
            if done.contains(s.last()) {
                let i = choose|i: int| 0 <= i < init.len() && init[i] == s.last();
                assert(s[i] == s[s.len() - 1]);
            }
        }
        if keep(s.last()) {
            assert(all =~= done.push(s.last()));
            assert forall|a: int, b: int| 0 <= a < all.len() && 0 <= b < all.len() && a
                != b implies all[a] != all[b] by {
                if a < done.len() && b < done.len() {
                    assert(done[a] != done[b]);
                } else if a < done.len() {
                    assert(done.contains(done[a]));
                } else {
                    assert(done.contains(done[b]));
                }
            }
            assert forall|x: Seq<char>| #[trigger] all.contains(x) implies s.contains(x) by {
                let i = choose|i: int| 0 <= i < all.len() && all[i] == x;
                if i < done.len() {
                    assert(done.contains(done[i]));
                } else {
                    assert(s[s.len() - 1] == x);
                }
            }
        }
    }
}

impl SchemaRegistry {
    /// The registry without databases.
    pub fn new() -> (r: SchemaRegistry)
        ensures
            r@ == Map::<Seq<char>, Seq<Seq<char>>>::empty(),
            registered_once(r@),
    {
        SchemaRegistry { entries: Vec::new() }
    }

    /// The schemas of a database; none for a database that is not known.
    pub fn schemas(&self, database: &str) -> (r: Option<Vec<String>>)
        ensures
            match r {
                Some(v) => self@.dom().contains(database@) && views(v@) == self@[database@],
                None => !self@.dom().contains(database@),
            },
    {
        let ghost all = self.entries@;
        let mut n: usize = self.entries.len();
        assert(all.take(n as int) =~= all);
        while n > 0
            invariant
                n <= all.len(),
                all == self.entries@,
                self@.dom().contains(database@) == entries_view(all.take(n as int)).dom().contains(
                    database@,
                ),
                self@.dom().contains(database@) ==> self@[database@] == entries_view(
                    all.take(n as int),
                )[database@],
            decreases n,
        {
            assert(all.take(n as int).drop_last() =~= all.take(n - 1));
            assert(all.take(n as int).last() == all[n - 1]);
            if same(self.entries[n - 1].database.as_str(), database) {
                return Some(copy_texts(&self.entries[n - 1].schemas));
            }
            n = n - 1;
        }
        None
    }

    /// Whether some database has a schema.
    pub fn has_schema(&self, schema: &str) -> (r: bool)
        ensures
            r == registered(self@, schema@),
    {
        let mut i: usize = 0;
        while i < self.entries.len()
            invariant
                i <= self.entries@.len(),
                forall|j: int|
                    #![trigger self.entries@[j]]
                    0 <= j < i && self@.dom().contains(self.entries@[j].database@)
                        ==> !self@[self.entries@[j].database@].contains(schema@),
            decreases self.entries@.len() - i,
        {
            if let Some(v) = self.schemas(self.entries[i].database.as_str()) {
                if contains(&v, schema) {
                    return true;
                }
            }
            i = i + 1;
        }
        assert(!registered(self@, schema@)) by {
            if registered(self@, schema@) {
                let d = choose|d: Seq<char>|
                    self@.dom().contains(d) && (#[trigger] self@[d]).contains(schema@);
                known_has_entry(self.entries@, d);
            }
        }
        false
    }

    fn drop_database(&mut self, database: &str)
        ensures
            final(self)@ == old(self)@.remove(database@),
    {
        let ghost all = self.entries@;
        let mut entries: Vec<RegistryEntry> = Vec::new();
        std::mem::swap(&mut entries, &mut self.entries);
        let mut out: Vec<RegistryEntry> = Vec::new();
        assert(entries_view(all.take(0)).remove(database@) =~= Map::empty());
        for entry in it: entries
            invariant
                it.seq() == all,
                entries_view(out@) == entries_view(all.take(it.index() as int)).remove(database@),
        {
            let ghost i = it.index() as int;
            let ghost before = out@;
            assert(all.take(i + 1).drop_last() =~= all.take(i));
            assert(all.take(i + 1).last() == entry);
            if !same(entry.database.as_str(), database) {
                out.push(entry);
                assert(out@.drop_last() =~= before);
            }
            assert(entries_view(out@) =~= entries_view(all.take(i + 1)).remove(database@));
        }
        assert(all.take(all.len() as int) =~= all);
        self.entries = out;
    }

    fn set_database(&mut self, database: &str, schemas: Vec<String>)
        ensures
            final(self)@ == old(self)@.insert(database@, views(schemas@)),
    {
        let ghost before = self.entries@;
        self.entries.push(RegistryEntry { database: database.to_owned(), schemas });
        assert(self.entries@.drop_last() =~= before);
    }
}

/// Makes a database known.
pub fn ensure_database_registry(registry: &mut SchemaRegistry, database_name: &str)
    ensures
        final(registry)@ == with_database(old(registry)@, database_name@),
        registered_once(old(registry)@) ==> registered_once(final(registry)@),
{
    match registry.schemas(database_name) {
        Some(_) => {
            assert(with_database(registry@, database_name@) =~= registry@);
        },
        None => {
            let none: Vec<String> = Vec::new();
            assert(views(none@) =~= Seq::empty());
            registry.set_database(database_name, none);
        },
    }
}

/// Notes that a database has a schema.
pub fn add_schema_to_registry(registry: &mut SchemaRegistry, database_name: &str, schema_name: &str)
    ensures
        final(registry)@ == with_schema(old(registry)@, database_name@, schema_name@),
        registered_once(old(registry)@) ==> registered_once(final(registry)@),
{
    let mut schemas = match registry.schemas(database_name) {
        Some(v) => v,
        None => Vec::new(),
    };
    let ghost old_schemas = schemas_of(registry@, database_name@);
    assert(views(schemas@) =~= old_schemas);
    if !contains(&schemas, schema_name) {
        schemas.push(schema_name.to_owned());
        assert(views(schemas@) =~= old_schemas.push(schema_name@));
        assert(old_schemas.no_duplicates() ==> views(schemas@).no_duplicates()) by {
            let now = views(schemas@);
            if old_schemas.no_duplicates() {
                assert forall|a: int, b: int| 0 <= a < now.len() && 0 <= b < now.len() && a
                    != b implies now[a] != now[b] by {
                    if a < old_schemas.len() && b < old_schemas.len() {
                        assert(now[a] == old_schemas[a] && now[b] == old_schemas[b]);
                    } else if a < old_schemas.len() {
                        assert(old_schemas.contains(old_schemas[a]));
                    } else {
                        assert(old_schemas.contains(old_schemas[b]));
                    }
                }
            }
        }
    }
    registry.set_database(database_name, schemas);
}

/// Notes that a database does not have a schema; names that are not known are ignored.
pub fn remove_schema_from_registry(
    registry: &mut SchemaRegistry,
    database_name: &str,
    schema_name: &str,
)
    ensures
        final(registry)@ == without_schema(old(registry)@, database_name@, schema_name@),
        registered_once(old(registry)@) ==> registered_once(final(registry)@),
{
    let schemas = match registry.schemas(database_name) {
        Some(v) => v,
        None => Vec::new(),
    };
    let ghost all = schemas_of(registry@, database_name@);
    let ghost keep = texts_other_than(schema_name@);
    assert(views(schemas@) =~= all);
    if !contains(&schemas, schema_name) {
        return;
    }
    let mut rest: Vec<String> = Vec::new();
    let mut i: usize = 0;
    proof {
        reveal(Seq::filter);
    }
    assert(all.take(0) =~= Seq::empty());
    assert(views(rest@) =~= Seq::empty());
    while i < schemas.len()
        invariant
            i <= schemas@.len(),
            all == views(schemas@),
            keep == texts_other_than(schema_name@),
            views(rest@) == all.take(i as int).filter(keep),
        decreases schemas@.len() - i,
    {
        proof {
            reveal(Seq::filter);
        }
        assert(all.take(i + 1).drop_last() =~= all.take(i as int));
        assert(all.take(i + 1).last() == schemas@[i as int]@);
        let ghost before = views(rest@);
        if !same(schemas[i].as_str(), schema_name) {
            rest.push(schemas[i].clone());
            assert(views(rest@) =~= before.push(schemas@[i as int]@));
        }
        i = i + 1;
    }
    assert(all.take(i as int) =~= all);
    proof {
        if all.no_duplicates() {
            filter_keeps_distinct(all, keep);
        }
    }
    assert(views(rest@).len() == rest@.len());
    if rest.len() == 0 {
        registry.drop_database(database_name);
    } else {
        registry.set_database(database_name, rest);
    }
}

/// Forgets a database, and hands back the schemas that it had.
pub fn take_schemas_from_registry(registry: &mut SchemaRegistry, database_name: &str) -> (r: Vec<
    String,
>)
    ensures
        views(r@) == schemas_of(old(registry)@, database_name@),
        final(registry)@ == old(registry)@.remove(database_name@),
        registered_once(old(registry)@) ==> registered_once(final(registry)@),
{
    let schemas = match registry.schemas(database_name) {
        Some(v) => v,
        None => Vec::new(),
    };
    assert(views(schemas@) =~= schemas_of(registry@, database_name@));
    registry.drop_database(database_name);
    schemas
}

/// A schema that was added is handed back when the database is taken, and only by its own
/// database.
pub proof fn added_schema_is_taken(r: RegistryView, database: Seq<char>, schema: Seq<char>)
    ensures
        schemas_of(with_schema(r, database, schema), database).contains(schema),
        forall|other: Seq<char>|
            other != database ==> schemas_of(
                with_schema(r, database, schema),
                other,
            ) == #[trigger] schemas_of(r, other),
{
    let old = schemas_of(r, database);
    if !old.contains(schema) {
        assert(old.push(schema)[old.len() as int] == schema);
    }
}

} // verus!
