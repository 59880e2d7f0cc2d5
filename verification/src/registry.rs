//! The registry of open databases: for each a handle with its pool, kept
//! under the database's canonical name and found again under that name or
//! under the name by which it was opened.

use vstd::prelude::*;
use crate::dialect::Backend;
use crate::error::{Error, ErrorView};
use crate::name_map::{
    distinct_keys, has_key, inserted, lemma_inserted, lemma_mapped, lemma_position_unique, lookup,
    mapped, position, NameMap,
};

verus! {

/// An open database. `P` is the pool of connections, which the registry
/// keeps and hands out but never looks into.
#[derive(Debug)]
pub struct DatabaseHandle<P> {
    /// The canonical name.
    pub name: String,
    pub backend: Backend,
    pub pool: P,
}

/// Mathematical model of a [`DatabaseHandle`].
pub ghost struct HandleView<P> {
    pub name: Seq<char>,
    pub backend: Backend,
    pub pool: P,
}

impl<P> View for DatabaseHandle<P> {
    type V = HandleView<P>;

    open spec fn view(&self) -> HandleView<P> {
        HandleView { name: self.name@, backend: self.backend, pool: self.pool }
    }
}

/// Mathematical model of a [`ConnectionRegistry`].
pub ghost struct RegistryView<P> {
    /// For each name by which a database was opened, its canonical name.
    pub aliases: Seq<(Seq<char>, Seq<char>)>,
    /// For each canonical name, the handle.
    pub handles: Seq<(Seq<char>, HandleView<P>)>,
}

impl<P> RegistryView<P> {
    /// Whether no name occurs twice on either side, and every recorded
    /// canonical name has its handle.
    pub open spec fn wf(self) -> bool {
        &&& distinct_keys(self.aliases)
        &&& distinct_keys(self.handles)
        &&& forall|i: int|
            0 <= i < self.aliases.len() ==> has_key(self.handles, (#[trigger] self.aliases[i]).1)
    }

    /// The canonical name for `name`: the one recorded when a database was
    /// opened by that name, else `name` itself.
    pub open spec fn canonical_of(self, name: Seq<char>) -> Seq<char> {
        match lookup(self.aliases, name) {
            Some(key) => key,
            None => name,
        }
    }

    /// The handle that operations on `name` use.
    pub open spec fn handle_of(self, name: Seq<char>) -> Option<HandleView<P>> {
        lookup(self.handles, self.canonical_of(name))
    }

    /// The registry after a database opened by the name `requested` was
    /// registered with `handle`.
    pub open spec fn registered(
        self,
        requested: Seq<char>,
        handle: HandleView<P>,
    ) -> RegistryView<P> {
        RegistryView {
            aliases: inserted(self.aliases, requested, handle.name),
            handles: inserted(self.handles, handle.name, handle),
        }
    }
}

/// The live pools by database name.
#[derive(Debug)]
pub struct ConnectionRegistry<P> {
    aliases: NameMap<String>,
    handles: NameMap<DatabaseHandle<P>>,
}

impl<P> View for ConnectionRegistry<P> {
    type V = RegistryView<P>;

    closed spec fn view(&self) -> RegistryView<P> {
        RegistryView {
            aliases: alias_views(self.aliases@),
            handles: handle_views(self.handles@),
        }
    }
}

/// The model of the recorded names.
spec fn alias_views(aliases: Seq<(Seq<char>, String)>) -> Seq<(Seq<char>, Seq<char>)> {
    mapped(aliases, |s: String| s@)
}

/// The model of the kept handles.
spec fn handle_views<P>(handles: Seq<(Seq<char>, DatabaseHandle<P>)>) -> Seq<
    (Seq<char>, HandleView<P>),
> {
    mapped(handles, |h: DatabaseHandle<P>| h@)
}

/// Whether every recorded canonical name has its handle.
spec fn aliases_lead_to_handles<P>(
    aliases: Seq<(Seq<char>, String)>,
    handles: Seq<(Seq<char>, DatabaseHandle<P>)>,
) -> bool {
    forall|i: int| 0 <= i < aliases.len() ==> has_key(handles, (#[trigger] aliases[i]).1@)
}

/// Two maps that are well formed have a well-formed model.
proof fn lemma_view_wf<P>(
    aliases: Seq<(Seq<char>, String)>,
    handles: Seq<(Seq<char>, DatabaseHandle<P>)>,
)
    requires
        distinct_keys(aliases),
        distinct_keys(handles),
        aliases_lead_to_handles(aliases, handles),
    ensures
        (RegistryView { aliases: alias_views(aliases), handles: handle_views(handles) }).wf(),
{
    lemma_mapped(aliases, |s: String| s@, Seq::empty());
    lemma_mapped(handles, |h: DatabaseHandle<P>| h@, Seq::empty());
    let a = alias_views(aliases);
    let h = handle_views(handles);
    assert forall|i: int| 0 <= i < a.len() implies has_key(h, (#[trigger] a[i]).1) by {
        assert(has_key(handles, aliases[i].1@));
        lemma_mapped(handles, |h: DatabaseHandle<P>| h@, aliases[i].1@);
    }
}

impl<P> ConnectionRegistry<P> {
    #[verifier::type_invariant]
    spec fn well_formed(&self) -> bool {
        aliases_lead_to_handles(self.aliases@, self.handles@)
    }

    /// A registry without databases.
    pub fn new() -> (registry: ConnectionRegistry<P>)
        ensures
            registry@.aliases == Seq::<(Seq<char>, Seq<char>)>::empty(),
            registry@.handles == Seq::<(Seq<char>, HandleView<P>)>::empty(),
            registry@.wf(),
    {
        let registry = ConnectionRegistry { aliases: NameMap::new(), handles: NameMap::new() };
        assert(registry@.aliases =~= Seq::<(Seq<char>, Seq<char>)>::empty());
        assert(registry@.handles =~= Seq::<(Seq<char>, HandleView<P>)>::empty());
        registry
    }

    /// The number of open databases.
    pub fn len(&self) -> (n: usize)
        ensures
            n == self@.handles.len(),
            self@.wf(),
    {
        let _ = self.aliases.len();
        let n = self.handles.len();
        proof {
            use_type_invariant(self);
            lemma_view_wf(self.aliases@, self.handles@);
        }
        n
    }

    /// Registers a database that was opened by the name `requested`, under
    /// its handle's canonical name, and returns that name. A handle that was
    /// kept under the same canonical name is replaced. From then on both
    /// names find a database.
    pub fn register(&mut self, requested: &str, handle: DatabaseHandle<P>) -> (key: String)
        ensures
            key@ == handle.name@,
            final(self)@ == old(self)@.registered(requested@, handle@),
            final(self)@.handle_of(requested@) == Some(handle@),
            final(self)@.handle_of(key@) is Some,
            forall|other: Seq<char>|
                other != handle.name@ ==> #[trigger] lookup(final(self)@.handles, other) == lookup(
                    old(self)@.handles,
                    other,
                ),
            old(self)@.wf(),
            final(self)@.wf(),
    {
        let key = handle.name.clone();
        proof {
            use_type_invariant(&*self);
        }
        let mut aliases: NameMap<String> = NameMap::new();
        core::mem::swap(&mut self.aliases, &mut aliases);
        let mut handles: NameMap<DatabaseHandle<P>> = NameMap::new();
        core::mem::swap(&mut self.handles, &mut handles);
        let ghost old_aliases = aliases@;
        let ghost old_handles = handles@;
        let ghost stored = key;
        aliases.insert(requested.to_owned(), key.clone());
        handles.insert(handle.name.clone(), handle);
        proof {
            lemma_view_wf(old_aliases, old_handles);
            lemma_inserted(old_aliases, requested@, stored);
            lemma_inserted(old_handles, handle.name@, handle);
            assert forall|i: int| 0 <= i < aliases@.len() implies has_key(
                handles@,
                (#[trigger] aliases@[i]).1@,
            ) by {
                if aliases@[i].0 != requested@ {
                    lemma_position_unique(aliases@, aliases@[i].0, i);
                    assert(lookup(old_aliases, aliases@[i].0) == Some(aliases@[i].1));
                    let j = position(old_aliases, aliases@[i].0);
                    assert(has_key(old_handles, old_aliases[j].1@));
                } else {
                    lemma_position_unique(aliases@, requested@, i);
                }
            }
            lemma_mapped(old_aliases, |s: String| s@, requested@);
            lemma_mapped(old_handles, |h: DatabaseHandle<P>| h@, handle.name@);
            lemma_view_wf(aliases@, handles@);
            lemma_registered_is_found(old(self)@, requested@, handle@);
            lemma_inserted(old(self)@.handles, handle.name@, handle@);
        }
        self.handles = handles;
        self.aliases = aliases;
        key
    }

    /// Whether operations on `name` find a database.
    pub fn is_loaded(&self, name: &str) -> (loaded: bool)
        ensures
            loaded == self@.handle_of(name@).is_some(),
    {
        self.get(name).is_ok()
    }

    /// The handle for operations on `name`; `NotLoaded` where no database
    /// was opened by that name or is kept under it.
    pub fn get(&self, name: &str) -> (found: Result<&DatabaseHandle<P>, Error>)
        ensures
            match found {
                Ok(handle) => self@.handle_of(name@) == Some(handle@),
                Err(e) => self@.handle_of(name@) is None && e@ == ErrorView::NotLoaded(name@),
            },
            self@.wf(),
    {
        let alias = self.aliases.get(name);
        proof {
            use_type_invariant(self);
            lemma_mapped(self.aliases@, |s: String| s@, name@);
        }
        let key = match alias {
            Some(key) => key.as_str(),
            None => name,
        };
        let found = self.handles.get(key);
        proof {
            lemma_mapped(self.handles@, |h: DatabaseHandle<P>| h@, key@);
            lemma_view_wf(self.aliases@, self.handles@);
        }
        match found {
            Some(handle) => Ok(handle),
            None => Err(Error::NotLoaded(name.to_owned())),
        }
    }
}

/// No database is found in a registry without databases.
pub proof fn lemma_nothing_loaded_at_first<P>(registry: RegistryView<P>, name: Seq<char>)
    requires
        registry.handles.len() == 0,
    ensures
        registry.handle_of(name) is None,
{
}

/// After a database was registered, it is found under the name by which
/// it was opened; a database is found under the canonical name that the
/// registration returns, and it is this one where no other database was
/// opened by that name.
pub proof fn lemma_registered_is_found<P>(
    registry: RegistryView<P>,
    requested: Seq<char>,
    handle: HandleView<P>,
)
    requires
        registry.wf(),
    ensures
        registry.registered(requested, handle).wf(),
        registry.registered(requested, handle).handle_of(requested) == Some(handle),
        registry.registered(requested, handle).handle_of(handle.name) is Some,
        lookup(registry.aliases, handle.name) is None ==> registry.registered(
            requested,
            handle,
        ).handle_of(handle.name) == Some(handle),
{
    let after = registry.registered(requested, handle);
    lemma_inserted(registry.aliases, requested, handle.name);
    lemma_inserted(registry.handles, handle.name, handle);
    assert forall|i: int| 0 <= i < after.aliases.len() implies has_key(
        after.handles,
        (#[trigger] after.aliases[i]).1,
    ) by {
        if after.aliases[i].0 != requested {
            lemma_position_unique(after.aliases, after.aliases[i].0, i);
            let j = position(registry.aliases, after.aliases[i].0);
            assert(has_key(registry.handles, registry.aliases[j].1));
        } else {
            lemma_position_unique(after.aliases, requested, i);
        }
    }
    lemma_alias_is_loaded(after, handle.name);
}

/// A name by which a database was opened finds a database.
pub proof fn lemma_alias_is_loaded<P>(registry: RegistryView<P>, name: Seq<char>)
    requires
        registry.wf(),
        has_key(registry.aliases, name) || has_key(registry.handles, name),
    ensures
        registry.handle_of(name) is Some,
{
    if has_key(registry.aliases, name) {
        let i = position(registry.aliases, name);
        assert(has_key(registry.handles, registry.aliases[i].1));
    }
}

/// Registering a database keeps every handle that is kept under another
/// canonical name.
pub proof fn lemma_registering_keeps_other_handles<P>(
    registry: RegistryView<P>,
    requested: Seq<char>,
    handle: HandleView<P>,
    key: Seq<char>,
)
    requires
        registry.wf(),
        key != handle.name,
    ensures
        lookup(registry.registered(requested, handle).handles, key) == lookup(
            registry.handles,
            key,
        ),
{
    lemma_inserted(registry.handles, handle.name, handle);
}

/// Registering a database leaves every other name where it was: a name
/// other than the one it was opened by, and not resolved to its canonical
/// name, finds what it found before.
pub proof fn lemma_registering_keeps_others<P>(
    registry: RegistryView<P>,
    requested: Seq<char>,
    handle: HandleView<P>,
    other: Seq<char>,
)
    requires
        registry.wf(),
        other != requested,
        registry.canonical_of(other) != handle.name,
    ensures
        registry.registered(requested, handle).handle_of(other) == registry.handle_of(other),
{
    lemma_inserted(registry.aliases, requested, handle.name);
    lemma_inserted(registry.handles, handle.name, handle);
}

} // verus!
