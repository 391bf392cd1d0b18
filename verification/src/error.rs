//! What can go wrong.

use rustbus::connection::Error as ConnectionError;
use rustbus::wire::errors::{MarshalError, UnmarshalError};
use vstd::prelude::*;

use crate::item::ItemId;

verus! {

/// The outside error of the connection to the bus.
#[verifier::external_type_specification]
#[verifier::external_body]
pub struct ExConnectionError(ConnectionError);

/// The errors of the library.
#[derive(Debug)]
pub enum Error {
    /// The connection to the bus failed.
    Bus(ConnectionError),
    /// A message could not be written.
    Marshal(MarshalError),
    /// A message could not be read.
    Unmarshal(UnmarshalError),
    /// Another StatusNotifierWatcher is already running.
    WatcherAlreadyRunning,
    /// There is no such item.
    ItemNotFound(ItemId),
    /// A D-Bus method call was answered with an error.
    MethodCall(String),
}

/// What an [`Error`] says.
pub enum ErrorView {
    Bus,
    Marshal,
    Unmarshal,
    WatcherAlreadyRunning,
    ItemNotFound(Seq<char>),
    MethodCall(Seq<char>),
}

impl View for Error {
    type V = ErrorView;

    open spec fn view(&self) -> ErrorView {
        match self {
            Error::Bus(_) => ErrorView::Bus,
            Error::Marshal(_) => ErrorView::Marshal,
            Error::Unmarshal(_) => ErrorView::Unmarshal,
            Error::WatcherAlreadyRunning => ErrorView::WatcherAlreadyRunning,
            Error::ItemNotFound(id) => ErrorView::ItemNotFound(id@),
            Error::MethodCall(name) => ErrorView::MethodCall(name@),
        }
    }
}

/// What is stated of an error is stated of what it says.
pub proof fn law_error_view_shows_the_error(
    bus: ConnectionError,
    write: MarshalError,
    read: UnmarshalError,
    id: ItemId,
    name: String,
)
    ensures
        Error::Bus(bus)@ == ErrorView::Bus,
        Error::Marshal(write)@ == ErrorView::Marshal,
        Error::Unmarshal(read)@ == ErrorView::Unmarshal,
        Error::WatcherAlreadyRunning@ == ErrorView::WatcherAlreadyRunning,
        Error::ItemNotFound(id)@ == ErrorView::ItemNotFound(id@),
        Error::MethodCall(name)@ == ErrorView::MethodCall(name@),
{
}

} // verus!
