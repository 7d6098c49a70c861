//! definition of the general ethercat error type
use vstd::prelude::*;
use std::sync::Arc;
use vstd::std_specs::convert::FromSpec;
use vstd::std_specs::convert::FromSpecImpl;
use crate::data::PackingError;

verus! {

/// the error type of std's I/O operations, carried opaque in [EthercatError::Io]
#[verifier::external_type_specification]
#[verifier::external_body]
pub struct ExIoError(std::io::Error);

/**
    general object reporting an unexpected result regarding ethercat communication

    Its variant are meant to help finding the cause responsible for the problem and how to deal with it.

    [Self::Slave] variant should not be used without an appropriate type for `T`, `T` depend on the operation the slave reports for, and is usually an error code, or an enum.
*/
#[derive(Clone, Debug)]
pub enum EthercatError<T = ()> {
    /// error caused by communication support
    ///
    /// these errors are exterior to this library
    Io(Arc<std::io::Error>),
    /// error reported by a slave, its type depend on the operation returning this error
    ///
    /// these errors can generally be handled and fixed by retrying the operation or reconfiguring the slave
    Slave(T),
    /// error reported by the master
    ///
    /// these errors can generally be handled and fixed by retrying the operation or using the master differently when the issue is in the user code
    Master(&'static str),
    /// error detected by the master in the ethercat communication
    ///
    /// these errors can generally not be fixed and the whole communication has to be restarted
    Protocol(&'static str),
    /// error is due to too much time elapsed, but does not compromise the communication
    ///
    /// these errors are generally contextual and the operation can be retried.
    Timeout(&'static str),
}

/// convenient alias to simplify return annotations
pub type EthercatResult<T = (), E = ()> = core::result::Result<T, EthercatError<E>>;

/// the same error with its slave-specific part replaced, the other variants being carried unchanged
pub open spec fn same_kind<E, T>(src: EthercatError<E>, dst: EthercatError<T>) -> bool {
    match src {
        EthercatError::Slave(_) => dst is Slave,
        EthercatError::Io(e) => dst == EthercatError::<T>::Io(e),
        EthercatError::Master(m) => dst == EthercatError::<T>::Master(m),
        EthercatError::Protocol(m) => dst == EthercatError::<T>::Protocol(m),
        EthercatError::Timeout(m) => dst == EthercatError::<T>::Timeout(m),
    }
}

/// the error with its slave-specific part transformed by `f`, the other variants carried unchanged
pub open spec fn mapped<E, T>(src: EthercatError<E>, f: spec_fn(E) -> T) -> EthercatError<T> {
    match src {
        EthercatError::Slave(v) => EthercatError::<T>::Slave(f(v)),
        EthercatError::Io(e) => EthercatError::<T>::Io(e),
        EthercatError::Master(m) => EthercatError::<T>::Master(m),
        EthercatError::Protocol(m) => EthercatError::<T>::Protocol(m),
        EthercatError::Timeout(m) => EthercatError::<T>::Timeout(m),
    }
}

/**
    mapping an error acts on its slave-specific part only: mapping with `f` then with `g` is mapping with `g`
    after `f`, and mapping with the identity gives the error back
*/
pub proof fn law_map_composes<E, T, U>(e: EthercatError<E>, f: spec_fn(E) -> T, g: spec_fn(T) -> U)
    ensures
        mapped(mapped(e, f), g) == mapped(e, |v: E| g(f(v))),
        mapped(e, |v: E| v) == e,
{
}

/// message of the protocol error reporting a packing failure
pub open spec fn packing_message(src: PackingError) -> &'static str {
    match src {
        PackingError::BadSize(_, text) => text,
        PackingError::BadAlignment(_, text) => text,
        PackingError::BadOrdering(_, text) => text,
        PackingError::InvalidValue(text) => text,
    }
}

impl<T> From<std::io::Error> for EthercatError<T> {
    fn from(src: std::io::Error) -> (r: Self) {
        EthercatError::Io(Arc::new(src))
    }
}

impl<T> FromSpecImpl<std::io::Error> for EthercatError<T> {
    open spec fn obeys_from_spec() -> bool {
        true
    }

    open spec fn from_spec(src: std::io::Error) -> Self {
        EthercatError::Io(Arc::new(src))
    }
}

impl<T> From<PackingError> for EthercatError<T> {
    fn from(src: PackingError) -> (r: Self) {
        EthercatError::Protocol(
            match src {
                PackingError::BadSize(_, text) => text,
                PackingError::BadAlignment(_, text) => text,
                PackingError::BadOrdering(_, text) => text,
                PackingError::InvalidValue(text) => text,
            },
        )
    }
}

impl<T> FromSpecImpl<PackingError> for EthercatError<T> {
    open spec fn obeys_from_spec() -> bool {
        true
    }

    open spec fn from_spec(src: PackingError) -> Self {
        EthercatError::Protocol(packing_message(src))
    }
}

// because rust doesn't allow specialization and already implements `From<T> for T`, we cannot write smart conversions for generic EthercatError<T>, so these are manual conversion methods
impl<E> EthercatError<E> {
    /// convert the error if the slave specific error type allows it
    pub fn into<F>(self) -> (r: EthercatError<F>) where F: From<E>
        ensures
            same_kind(self, r),
            self matches EthercatError::Slave(v) ==> (r matches EthercatError::Slave(w) && (
            F::obeys_from_spec() ==> w == F::from_spec(v))),
    {
        self.map(|e: E| -> (f: F)
            ensures
                F::obeys_from_spec() ==> f == F::from_spec(e),
            { F::from(e) })
    }

    /// convert the error with a callback handling the case of slave-specific error
    pub fn map<F, T>(self, callback: F) -> (r: EthercatError<T>) where F: Fn(E) -> T
        requires
            self matches EthercatError::Slave(v) ==> callback.requires((v,)),
        ensures
            same_kind(self, r),
            self matches EthercatError::Slave(v) ==> (r matches EthercatError::Slave(w)
                && callback.ensures((v,), w)),
            forall|f: spec_fn(E) -> T| (forall|v: E, w: T| #[trigger] callback.ensures((v,), w) ==> w == f(v))
                ==> r == #[trigger] mapped(self, f),
    {
        match self {
            EthercatError::Slave(value) => EthercatError::Slave(callback(value)),
            EthercatError::Io(e) => EthercatError::Io(e),
            EthercatError::Master(message) => EthercatError::Master(message),
            EthercatError::Protocol(message) => EthercatError::Protocol(message),
            EthercatError::Timeout(message) => EthercatError::Timeout(message),
        }
    }
}

impl EthercatError<()> {
    /// convert an error with no slave-specific type into an error with any slave-specific type
    ///
    /// an error with no slave-specific type is not expected to report a slave error
    pub fn upgrade<F>(self) -> (r: EthercatError<F>)
        requires
            !(self is Slave),
        ensures
            same_kind(self, r),
    {
        match self {
            EthercatError::Slave(_) => vstd::pervasive::unreached(),
            EthercatError::Io(e) => EthercatError::Io(e),
            EthercatError::Master(message) => EthercatError::Master(message),
            EthercatError::Protocol(message) => EthercatError::Protocol(message),
            EthercatError::Timeout(message) => EthercatError::Timeout(message),
        }
    }
}

} // verus!
