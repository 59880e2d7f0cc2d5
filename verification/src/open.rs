//! Opening a database, step by step: the storage is made sure of, a pool is
//! opened, the migrations held for the database are applied, and the pool
//! is registered. The flow decides; its caller does the work on disk and
//! network and reports what came of it.

use vstd::prelude::*;
use crate::connection::{canonical, joined_path, resolve, target_of};
use crate::dialect::Backend;
use crate::error::{Error, ErrorView};
use crate::migration::{Migration, MigrationList};
use crate::name_map::{distinct_keys, lemma_removed, lookup, removed};
use crate::plugin::{StoreView, TauriSql};
use crate::registry::{ConnectionRegistry, DatabaseHandle, HandleView};

verus! {

/// Where the opening of a database stands.
#[derive(Debug, Clone, Copy, PartialEq, Eq, Structural)]
pub enum OpenPhase {
    /// The directories above the database file are being created.
    Preparing,
    /// It is being checked whether the database exists.
    Checking,
    /// The database is being created.
    Creating,
    /// The pool is being opened.
    Connecting,
    /// The migrations are being applied.
    Migrating,
    /// The pool is open and the database migrated.
    Opened,
    /// The opening was given up.
    Failed,
}

/// What came of the flow's last action. A failure holds the backend's
/// message.
#[derive(Debug)]
pub enum OpenEvent {
    Directories(Result<(), String>),
    /// Whether the database exists. A check that fails counts as absence.
    Existence(Result<bool, String>),
    Created(Result<(), String>),
    Connected(Result<(), String>),
    Migrated(Result<(), String>),
}

/// What the flow wants done next.
#[derive(Debug)]
pub enum OpenAction {
    /// Create the missing directories above the database file.
    CreateDirectories,
    /// Check whether the database exists.
    CheckExistence,
    /// Create the database.
    Create,
    /// Open a pool.
    Connect,
    /// Apply these migrations to the pool.
    Migrate(MigrationList),
    /// Register the pool.
    Register,
    /// Give up with this error.
    Fail(Error),
    /// The event does not belong to the phase; nothing has changed.
    Reject,
}

/// Mathematical model of an [`OpenEvent`].
pub ghost enum OpenEventView {
    Directories(Result<(), Seq<char>>),
    Existence(Result<bool, Seq<char>>),
    Created(Result<(), Seq<char>>),
    Connected(Result<(), Seq<char>>),
    Migrated(Result<(), Seq<char>>),
}

/// Mathematical model of an [`OpenAction`].
pub ghost enum OpenActionView {
    CreateDirectories,
    CheckExistence,
    Create,
    Connect,
    Migrate(Seq<Migration>),
    Register,
    Fail(ErrorView),
    Reject,
}

/// The model of an outcome that holds nothing on success.
pub open spec fn done_view(outcome: Result<(), String>) -> Result<(), Seq<char>> {
    match outcome {
        Ok(_) => Ok(()),
        Err(m) => Err(m@),
    }
}

impl View for OpenEvent {
    type V = OpenEventView;

    open spec fn view(&self) -> OpenEventView {
        match self {
            OpenEvent::Directories(r) => OpenEventView::Directories(done_view(*r)),
            OpenEvent::Existence(Ok(b)) => OpenEventView::Existence(Ok(*b)),
            OpenEvent::Existence(Err(m)) => OpenEventView::Existence(Err(m@)),
            OpenEvent::Created(r) => OpenEventView::Created(done_view(*r)),
            OpenEvent::Connected(r) => OpenEventView::Connected(done_view(*r)),
            OpenEvent::Migrated(r) => OpenEventView::Migrated(done_view(*r)),
        }
    }
}

impl View for OpenAction {
    type V = OpenActionView;

    open spec fn view(&self) -> OpenActionView {
        match self {
            OpenAction::CreateDirectories => OpenActionView::CreateDirectories,
            OpenAction::CheckExistence => OpenActionView::CheckExistence,
            OpenAction::Create => OpenActionView::Create,
            OpenAction::Connect => OpenActionView::Connect,
            OpenAction::Migrate(list) => OpenActionView::Migrate(list@),
            OpenAction::Register => OpenActionView::Register,
            OpenAction::Fail(e) => OpenActionView::Fail(e@),
            OpenAction::Reject => OpenActionView::Reject,
        }
    }
}

/// Mathematical model of an [`OpenFlow`].
pub ghost struct OpenView {
    /// The name by which the database is opened.
    pub requested: Seq<char>,
    pub backend: Backend,
    /// The name under which the database will be kept.
    pub key: Seq<char>,
    pub phase: OpenPhase,
}

impl OpenView {
    /// The state in which the opening begins, and its first action: for the
    /// file store the directories, for a server the check for existence.
    pub open spec fn initial(requested: Seq<char>, backend: Backend, key: Seq<char>) -> (
        OpenView,
        OpenActionView,
    ) {
        match backend {
            Backend::Sqlite => (
                OpenView { requested, backend, key, phase: OpenPhase::Preparing },
                OpenActionView::CreateDirectories,
            ),
            _ => (
                OpenView { requested, backend, key, phase: OpenPhase::Checking },
                OpenActionView::CheckExistence,
            ),
        }
    }

    /// Whether the event reports, to a flow that waits for it, that the
    /// pool is open.
    pub open spec fn connects(self, event: OpenEventView) -> bool {
        self.phase == OpenPhase::Connecting && (event matches OpenEventView::Connected(Ok(_)))
    }

    /// The state after an event, the action that answers it, and the
    /// migration store after it.
    ///
    /// A database that is absent, or whose existence could not be checked,
    /// is created. Once the pool is open, the migrations held for the
    /// requested name are taken out of the store, whether or not they will
    /// succeed, and applied. Each failure ends the flow with the error of
    /// its step; an event that the phase does not wait for changes nothing.
    pub open spec fn stepped(self, event: OpenEventView, store: StoreView) -> (
        OpenView,
        OpenActionView,
        StoreView,
    ) {
        match (self.phase, event) {
            (OpenPhase::Preparing, OpenEventView::Directories(Ok(_))) => (
                OpenView { phase: OpenPhase::Checking, ..self },
                OpenActionView::CheckExistence,
                store,
            ),
            (OpenPhase::Preparing, OpenEventView::Directories(Err(message))) => (
                OpenView { phase: OpenPhase::Failed, ..self },
                OpenActionView::Fail(ErrorView::CreateFailed(message)),
                store,
            ),
            (OpenPhase::Checking, OpenEventView::Existence(Ok(true))) => (
                OpenView { phase: OpenPhase::Connecting, ..self },
                OpenActionView::Connect,
                store,
            ),
            (OpenPhase::Checking, OpenEventView::Existence(_)) => (
                OpenView { phase: OpenPhase::Creating, ..self },
                OpenActionView::Create,
                store,
            ),
            (OpenPhase::Creating, OpenEventView::Created(Ok(_))) => (
                OpenView { phase: OpenPhase::Connecting, ..self },
                OpenActionView::Connect,
                store,
            ),
            (OpenPhase::Creating, OpenEventView::Created(Err(message))) => (
                OpenView { phase: OpenPhase::Failed, ..self },
                OpenActionView::Fail(ErrorView::CreateFailed(message)),
                store,
            ),
            (OpenPhase::Connecting, OpenEventView::Connected(Ok(_))) => match lookup(
                store,
                self.requested,
            ) {
                Some(list) => (
                    OpenView { phase: OpenPhase::Migrating, ..self },
                    OpenActionView::Migrate(list),
                    removed(store, self.requested),
                ),
                None => (
                    OpenView { phase: OpenPhase::Opened, ..self },
                    OpenActionView::Register,
                    store,
                ),
            },
            (OpenPhase::Connecting, OpenEventView::Connected(Err(message))) => (
                OpenView { phase: OpenPhase::Failed, ..self },
                OpenActionView::Fail(ErrorView::ConnectFailed(message)),
                store,
            ),
            (OpenPhase::Migrating, OpenEventView::Migrated(Ok(_))) => (
                OpenView { phase: OpenPhase::Opened, ..self },
                OpenActionView::Register,
                store,
            ),
            (OpenPhase::Migrating, OpenEventView::Migrated(Err(message))) => (
                OpenView { phase: OpenPhase::Failed, ..self },
                OpenActionView::Fail(ErrorView::MigrationFailed(message)),
                store,
            ),
            _ => (self, OpenActionView::Reject, store),
        }
    }
}

/// The opening of one database.
#[derive(Debug)]
pub struct OpenFlow {
    requested: String,
    backend: Backend,
    key: String,
    phase: OpenPhase,
}

impl View for OpenFlow {
    type V = OpenView;

    closed spec fn view(&self) -> OpenView {
        OpenView {
            requested: self.requested@,
            backend: self.backend,
            key: self.key@,
            phase: self.phase,
        }
    }
}

impl OpenFlow {
    /// Begins the opening of the database that was asked for by the name
    /// `requested` and will be kept under `key`.
    pub fn with_target(requested: &str, backend: Backend, key: String) -> (begun: (
        OpenFlow,
        OpenAction,
    ))
        ensures
            begun.0@ == OpenView::initial(requested@, backend, key@).0,
            begun.1@ == OpenView::initial(requested@, backend, key@).1,
    {
        match backend {
            Backend::Sqlite => (
                OpenFlow {
                    requested: requested.to_owned(),
                    backend,
                    key,
                    phase: OpenPhase::Preparing,
                },
                OpenAction::CreateDirectories,
            ),
            _ => (
                OpenFlow {
                    requested: requested.to_owned(),
                    backend,
                    key,
                    phase: OpenPhase::Checking,
                },
                OpenAction::CheckExistence,
            ),
        }
    }

    /// Begins the opening of the database that a connection string names.
    /// For the file store the file is looked for below `app_directory`.
    pub fn begin(name: &str, app_directory: &str) -> (begun: Result<(OpenFlow, OpenAction), Error>)
        ensures
            match begun {
                Ok((flow, action)) => match target_of(name@) {
                    Some((backend, details)) => {
                        let start = OpenView::initial(
                            name@,
                            backend,
                            canonical(backend, name@, joined_path(app_directory@, details)),
                        );
                        flow@ == start.0 && action@ == start.1
                    },
                    None => false,
                },
                Err(e) => target_of(name@) is None && e@
                    == ErrorView::UnrecognizedConnectionScheme(name@),
            },
    {
        match resolve(name, app_directory) {
            Ok((backend, key)) => Ok(OpenFlow::with_target(name, backend, key)),
            Err(e) => Err(e),
        }
    }

    /// Where the opening stands.
    pub fn phase(&self) -> (phase: OpenPhase)
        ensures
            phase == self@.phase,
    {
        self.phase
    }

    /// The backend of the database.
    pub fn backend(&self) -> (backend: Backend)
        ensures
            backend == self@.backend,
    {
        self.backend
    }

    /// The name under which the database will be kept.
    pub fn key(&self) -> (key: &str)
        ensures
            key@ == self@.key,
    {
        self.key.as_str()
    }

    /// Takes in what came of the last action and says what to do next.
    /// `plugin` holds the migrations; those of this database leave it when
    /// the pool is open.
    pub fn step(&mut self, event: OpenEvent, plugin: &mut TauriSql) -> (action: OpenAction)
        ensures
            final(self)@ == old(self)@.stepped(event@, old(plugin)@).0,
            action@ == old(self)@.stepped(event@, old(plugin)@).1,
            final(plugin)@ == old(self)@.stepped(event@, old(plugin)@).2,
    {
        let phase = self.phase;
        match event {
            OpenEvent::Directories(outcome) => match phase {
                OpenPhase::Preparing => match outcome {
                    Ok(_) => {
                        self.phase = OpenPhase::Checking;
                        OpenAction::CheckExistence
                    },
                    Err(message) => {
                        self.phase = OpenPhase::Failed;
                        OpenAction::Fail(Error::CreateFailed(message))
                    },
                },
                _ => OpenAction::Reject,
            },
            OpenEvent::Existence(outcome) => match phase {
                OpenPhase::Checking => match outcome {
                    Ok(true) => {
                        self.phase = OpenPhase::Connecting;
                        OpenAction::Connect
                    },
                    _ => {
                        self.phase = OpenPhase::Creating;
                        OpenAction::Create
                    },
                },
                _ => OpenAction::Reject,
            },
            OpenEvent::Created(outcome) => match phase {
                OpenPhase::Creating => match outcome {
                    Ok(_) => {
                        self.phase = OpenPhase::Connecting;
                        OpenAction::Connect
                    },
                    Err(message) => {
                        self.phase = OpenPhase::Failed;
                        OpenAction::Fail(Error::CreateFailed(message))
                    },
                },
                _ => OpenAction::Reject,
            },
            OpenEvent::Connected(outcome) => match phase {
                OpenPhase::Connecting => match outcome {
                    Ok(_) => match plugin.take_migrations(self.requested.as_str()) {
                        Some(list) => {
                            self.phase = OpenPhase::Migrating;
                            OpenAction::Migrate(list)
                        },
                        None => {
                            self.phase = OpenPhase::Opened;
                            OpenAction::Register
                        },
                    },
                    Err(message) => {
                        self.phase = OpenPhase::Failed;
                        OpenAction::Fail(Error::ConnectFailed(message))
                    },
                },
                _ => OpenAction::Reject,
            },
            OpenEvent::Migrated(outcome) => match phase {
                OpenPhase::Migrating => match outcome {
                    Ok(_) => {
                        self.phase = OpenPhase::Opened;
                        OpenAction::Register
                    },
                    Err(message) => {
                        self.phase = OpenPhase::Failed;
                        OpenAction::Fail(Error::MigrationFailed(message))
                    },
                },
                _ => OpenAction::Reject,
            },
        }
    }

    /// Ends an opening that has reached `Opened`: the pool is registered
    /// under the database's key, which is returned. An opening in another
    /// phase registers nothing.
    pub fn register<P>(self, pool: P, registry: &mut ConnectionRegistry<P>) -> (key: Option<String>)
        ensures
            match key {
                Some(k) => {
                    &&& self@.phase == OpenPhase::Opened
                    &&& k@ == self@.key
                    &&& final(registry)@ == old(registry)@.registered(
                        self@.requested,
                        HandleView { name: self@.key, backend: self@.backend, pool },
                    )
                    &&& final(registry)@.handle_of(self@.requested) == Some(
                        HandleView { name: self@.key, backend: self@.backend, pool },
                    )
                    &&& final(registry)@.handle_of(k@) is Some
                },
                None => self@.phase != OpenPhase::Opened && final(registry)@ == old(registry)@,
            },
    {
        match self.phase {
            OpenPhase::Opened => {
                let handle = DatabaseHandle { name: self.key, backend: self.backend, pool };
                Some(registry.register(self.requested.as_str(), handle))
            },
            _ => None,
        }
    }
}

/// The migrations of a database leave the store when its pool is open, and
/// at no other step; from then on none are held for it.
pub proof fn lemma_migrations_leave_the_store_once(
    flow: OpenView,
    event: OpenEventView,
    store: StoreView,
)
    requires
        distinct_keys(store),
    ensures
        distinct_keys(flow.stepped(event, store).2),
        flow.connects(event) ==> lookup(flow.stepped(event, store).2, flow.requested) is None,
        !flow.connects(event) ==> flow.stepped(event, store).2 == store,
        forall|other: Seq<char>|
            other != flow.requested ==> #[trigger] lookup(flow.stepped(event, store).2, other)
                == lookup(store, other),
{
    lemma_removed(store, flow.requested);
}

} // verus!
