//! The plugin's set-up: the migrations that were given for each database,
//! each list held until its database is first opened.

use vstd::prelude::*;
use crate::migration::{Migration, MigrationList};
use crate::name_map::{
    distinct_keys, inserted, lemma_mapped, lemma_removed, lookup, mapped, removed, NameMap,
};

verus! {

/// The model of the migration store: for each database name its list.
pub type StoreView = Seq<(Seq<char>, Seq<Migration>)>;

/// The SQL plugin: holds, per database name, the migrations to apply when
/// that database is first opened.
#[derive(Debug)]
pub struct TauriSql {
    migrations: NameMap<MigrationList>,
}

impl View for TauriSql {
    type V = StoreView;

    closed spec fn view(&self) -> StoreView {
        mapped(self.migrations@, |list: MigrationList| list@)
    }
}

impl Default for TauriSql {
    fn default() -> (plugin: TauriSql)
        ensures
            plugin@ == Seq::<(Seq<char>, Seq<Migration>)>::empty(),
    {
        let plugin = TauriSql { migrations: NameMap::new() };
        assert(plugin@ =~= Seq::<(Seq<char>, Seq<Migration>)>::empty());
        plugin
    }
}

impl TauriSql {
    /// The name under which the host knows the plugin.
    pub fn name(&self) -> (name: &'static str)
        ensures
            name@ == "sql"@,
    {
        "sql"
    }

    /// Add migrations to a database. A list given earlier for the same
    /// database is replaced.
    #[must_use]
    pub fn add_migrations(self, db_url: &str, migrations: Vec<Migration>) -> (plugin: TauriSql)
        ensures
            plugin@ == inserted(self@, db_url@, migrations@),
            distinct_keys(self@),
            distinct_keys(plugin@),
    {
        let mut plugin = self;
        let ghost before = plugin.migrations@;
        plugin.migrations.insert(db_url.to_owned(), MigrationList(migrations));
        proof {
            lemma_mapped(before, |list: MigrationList| list@, db_url@);
            lemma_mapped(plugin.migrations@, |list: MigrationList| list@, db_url@);
        }
        plugin
    }

    /// Whether migrations are held for a database.
    pub fn has_migrations(&self, db_url: &str) -> (held: bool)
        ensures
            held == lookup(self@, db_url@).is_some(),
            distinct_keys(self@),
    {
        let held = self.migrations.contains_key(db_url);
        proof {
            lemma_mapped(self.migrations@, |list: MigrationList| list@, db_url@);
        }
        held
    }

    /// Takes out the migrations held for a database. They are handed out
    /// once: after this call none are held for it.
    pub fn take_migrations(&mut self, db_url: &str) -> (taken: Option<MigrationList>)
        ensures
            final(self)@ == removed(old(self)@, db_url@),
            match taken {
                Some(list) => lookup(old(self)@, db_url@) == Some(list@),
                None => lookup(old(self)@, db_url@) is None,
            },
            lookup(final(self)@, db_url@) is None,
            distinct_keys(old(self)@),
            distinct_keys(final(self)@),
    {
        let ghost before = self.migrations@;
        let taken = self.migrations.remove(db_url);
        proof {
            lemma_mapped(before, |list: MigrationList| list@, db_url@);
            lemma_mapped(self.migrations@, |list: MigrationList| list@, db_url@);
            lemma_removed(old(self)@, db_url@);
        }
        taken
    }
}

} // verus!
