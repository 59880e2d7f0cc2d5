//! The failures that the bridge reports to its caller.

use vstd::prelude::*;

verus! {

/// What a boolean column held when it could not be read as a boolean.
#[derive(Debug, PartialEq, Eq)]
pub enum BooleanSource {
    /// An integer other than 0 and 1.
    Integer(i8),
    /// A text that is neither "true" nor "false", whatever its case.
    Text(String),
    /// Neither an integer nor a text could be read.
    Unreadable,
}

/// Mathematical model of a [`BooleanSource`].
pub ghost enum BooleanSourceView {
    Integer(int),
    Text(Seq<char>),
    Unreadable,
}

impl View for BooleanSource {
    type V = BooleanSourceView;

    open spec fn view(&self) -> BooleanSourceView {
        match self {
            BooleanSource::Integer(i) => BooleanSourceView::Integer(*i as int),
            BooleanSource::Text(s) => BooleanSourceView::Text(s@),
            BooleanSource::Unreadable => BooleanSourceView::Unreadable,
        }
    }
}

/// A failure of one of the bridge's operations. Every failure is returned as
/// a value; none aborts the process.
#[derive(Debug, PartialEq, Eq)]
pub enum Error {
    /// No pool could be opened; holds the backend's message.
    ConnectFailed(String),
    /// The database or its file could not be created; holds the backend's
    /// message.
    CreateFailed(String),
    /// A migration failed; those committed before it stay applied. Holds the
    /// backend's message.
    MigrationFailed(String),
    /// The named database was never opened.
    NotLoaded(String),
    /// No integer width could read the column; holds the column's type name
    /// and the backend's name.
    NumericDecoding(String, String),
    /// The column's value is no boolean; holds what was found and the
    /// column's type name.
    BooleanDecoding(BooleanSource, String),
    /// The connection string names no known backend; holds that string.
    UnrecognizedConnectionScheme(String),
    /// The backend failed to read a column or to run a statement; holds its
    /// message.
    Sql(String),
}

/// Mathematical model of an [`Error`].
pub ghost enum ErrorView {
    ConnectFailed(Seq<char>),
    CreateFailed(Seq<char>),
    MigrationFailed(Seq<char>),
    NotLoaded(Seq<char>),
    NumericDecoding(Seq<char>, Seq<char>),
    BooleanDecoding(BooleanSourceView, Seq<char>),
    UnrecognizedConnectionScheme(Seq<char>),
    Sql(Seq<char>),
}

impl View for Error {
    type V = ErrorView;

    open spec fn view(&self) -> ErrorView {
        match self {
            Error::ConnectFailed(m) => ErrorView::ConnectFailed(m@),
            Error::CreateFailed(m) => ErrorView::CreateFailed(m@),
            Error::MigrationFailed(m) => ErrorView::MigrationFailed(m@),
            Error::NotLoaded(n) => ErrorView::NotLoaded(n@),
            Error::NumericDecoding(t, b) => ErrorView::NumericDecoding(t@, b@),
            Error::BooleanDecoding(s, t) => ErrorView::BooleanDecoding(s@, t@),
            Error::UnrecognizedConnectionScheme(c) => ErrorView::UnrecognizedConnectionScheme(c@),
            Error::Sql(m) => ErrorView::Sql(m@),
        }
    }
}

} // verus!
