//! Socket names and their resolution to addresses.
//!
//! A local socket name is a string of bytes with a flag that says in which of two domains it
//! lives: the file system, where the name is a path, or the kernel's own namespace, where no
//! file stands for the socket. Which domains a platform has is a fixed fact about it, the
//! [`NameTypeSupport`]. This build is for platforms that have both.

use crate::error::IoError;
use crate::error::IoErrorKind;
use vstd::prelude::*;

verus! {

/// The kinds of socket names that a platform accepts.
#[derive(Copy, Clone, Debug, PartialEq, Eq, Hash, Structural)]
pub enum NameTypeSupport {
    /// Only names that are file paths.
    OnlyPaths,
    /// Only names in the kernel's namespace.
    OnlyNamespaced,
    /// Both kinds of names.
    Both,
}

impl NameTypeSupport {
    /// Whether names that are file paths are accepted.
    pub open spec fn spec_paths_supported(self) -> bool {
        self != NameTypeSupport::OnlyNamespaced
    }

    /// Whether names that are file paths are accepted.
    #[verifier::when_used_as_spec(spec_paths_supported)]
    pub fn paths_supported(self) -> (b: bool)
        ensures
            b == self.spec_paths_supported(),
    {
        match self {
            NameTypeSupport::OnlyNamespaced => false,
            _ => true,
        }
    }

    /// Whether names in the kernel's namespace are accepted.
    pub open spec fn spec_namespace_supported(self) -> bool {
        self != NameTypeSupport::OnlyPaths
    }

    /// Whether names in the kernel's namespace are accepted.
    #[verifier::when_used_as_spec(spec_namespace_supported)]
    pub fn namespace_supported(self) -> (b: bool)
        ensures
            b == self.spec_namespace_supported(),
    {
        match self {
            NameTypeSupport::OnlyPaths => false,
            _ => true,
        }
    }
}

/// The kinds of names that this build accepts on every system it runs on.
pub const NAME_TYPE_ALWAYS_SUPPORTED: NameTypeSupport = NameTypeSupport::Both;

/// The kinds of names that this build accepts.
pub fn name_type_support_query() -> (support: NameTypeSupport)
    ensures
        support == NAME_TYPE_ALWAYS_SUPPORTED,
{
    NAME_TYPE_ALWAYS_SUPPORTED
}

/// The size of the field that holds the name in a socket address. A path must leave room for
/// its terminator there, and a namespaced name for the zero byte that marks it.
pub const SUN_PATH_LEN: usize = 108;

/// A local socket name: its bytes, and whether it lives in the kernel's namespace rather than
/// in the file system.
#[derive(Clone, Debug, PartialEq, Eq)]
pub struct LocalSocketName {
    inner: Vec<u8>,
    namespaced: bool,
}

impl LocalSocketName {
    /// The bytes of the name.
    pub closed spec fn bytes(&self) -> Seq<u8> {
        self.inner@
    }

    /// Whether the name lives in the kernel's namespace.
    pub closed spec fn spec_is_namespaced(&self) -> bool {
        self.namespaced
    }

    /// The name made of `inner`, in the namespace if `namespaced` and in the file system
    /// otherwise.
    pub fn from_raw_parts(inner: Vec<u8>, namespaced: bool) -> (name: LocalSocketName)
        ensures
            name.bytes() == inner@,
            name.spec_is_namespaced() == namespaced,
    {
        LocalSocketName { inner, namespaced }
    }

    /// Whether the name lives in the kernel's namespace.
    #[verifier::when_used_as_spec(spec_is_namespaced)]
    pub fn is_namespaced(&self) -> (b: bool)
        ensures
            b == self.spec_is_namespaced(),
    {
        self.namespaced
    }

    /// Whether the name is a file path.
    pub fn is_path(&self) -> (b: bool)
        ensures
            b == !self.spec_is_namespaced(),
    {
        !self.namespaced
    }

    /// The bytes of the name.
    pub fn inner(&self) -> (bytes: &[u8])
        ensures
            bytes@ == self.bytes(),
    {
        self.inner.as_slice()
    }

    /// The bytes of the name, by value.
    pub fn into_inner(self) -> (bytes: Vec<u8>)
        ensures
            bytes@ == self.bytes(),
    {
        self.inner
    }
}

/// The domain of a socket address.
#[derive(Copy, Clone, Debug, PartialEq, Eq, Hash, Structural)]
pub enum AddressKind {
    /// The address is a path in the file system.
    Pathname,
    /// The address is a name in the kernel's namespace.
    Abstract,
}

/// A low-level socket address: a domain and the bytes of the name in it, taken over as they
/// were given.
#[derive(Clone, Debug, PartialEq, Eq)]
pub struct SocketAddress {
    /// The domain of the address.
    pub kind: AddressKind,
    /// The bytes of the name.
    pub name: Vec<u8>,
}

/// Whether `name` fits into a socket address of the given domain. A path is shorter than
/// [`SUN_PATH_LEN`] and holds no zero byte. A namespaced name is shorter than
/// [`SUN_PATH_LEN`]; it may hold any bytes.
pub open spec fn is_well_formed(name: Seq<u8>, namespaced: bool) -> bool {
    &&& name.len() < SUN_PATH_LEN
    &&& !namespaced ==> forall|i: int| 0 <= i < name.len() ==> name[i] != 0
}

/// The error for a name of a kind that the platform does not have.
pub open spec fn unsupported_name_kind() -> IoError {
    IoError { kind: IoErrorKind::Unsupported, raw_os_error: None }
}

/// The error for a name that does not fit into a socket address.
pub open spec fn malformed_name() -> IoError {
    IoError { kind: IoErrorKind::InvalidInput, raw_os_error: None }
}

/// The address that a name resolves to on a platform with the given support, as a pair of
/// domain and bytes, or the error of the resolution.
///
/// A namespaced name is refused on a platform without namespace. Otherwise the name must fit
/// into an address, and the address holds its very bytes: a namespaced name gives an address
/// in the namespace, and any other name a path.
pub open spec fn resolution(name: Seq<u8>, namespaced: bool, support: NameTypeSupport) -> Result<
    (AddressKind, Seq<u8>),
    IoError,
> {
    if namespaced && !support.spec_namespace_supported() {
        Err(unsupported_name_kind())
    } else if !is_well_formed(name, namespaced) {
        Err(malformed_name())
    } else if namespaced {
        Ok((AddressKind::Abstract, name))
    } else {
        Ok((AddressKind::Pathname, name))
    }
}

/// Whether `name` holds no zero byte.
fn has_no_zero_byte(name: &[u8]) -> (b: bool)
    ensures
        b == (forall|i: int| 0 <= i < name@.len() ==> name@[i] != 0),
{
    let mut i: usize = 0;
    while i < name.len()
        invariant
            i <= name@.len(),
            forall|j: int| 0 <= j < i ==> name@[j] != 0,
        decreases name@.len() - i,
    {
        if name[i] == 0 {
            return false;
        }
        i += 1;
    }
    true
}

/// Resolves `name` to an address on a platform with the given support.
pub fn resolve(name: LocalSocketName, support: NameTypeSupport) -> (r: Result<
    SocketAddress,
    IoError,
>)
    ensures
        match r {
            Ok(addr) => resolution(name.bytes(), name.spec_is_namespaced(), support) == Ok::<
                (AddressKind, Seq<u8>),
                IoError,
            >((addr.kind, addr.name@)),
            Err(e) => resolution(name.bytes(), name.spec_is_namespaced(), support) == Err::<
                (AddressKind, Seq<u8>),
                IoError,
            >(e),
        },
{
    let namespaced = name.is_namespaced();
    if namespaced && !support.namespace_supported() {
        return Err(IoError::new(IoErrorKind::Unsupported));
    }
    let bytes = name.into_inner();
    if bytes.len() >= SUN_PATH_LEN {
        return Err(IoError::new(IoErrorKind::InvalidInput));
    }
    if namespaced {
        Ok(SocketAddress { kind: AddressKind::Abstract, name: bytes })
    } else if has_no_zero_byte(bytes.as_slice()) {
        Ok(SocketAddress { kind: AddressKind::Pathname, name: bytes })
    } else {
        Err(IoError::new(IoErrorKind::InvalidInput))
    }
}

/// Resolves `name` to an address on this build's platform.
pub fn name_to_addr(name: LocalSocketName) -> (r: Result<SocketAddress, IoError>)
    ensures
        match r {
            Ok(addr) => resolution(
                name.bytes(),
                name.spec_is_namespaced(),
                NAME_TYPE_ALWAYS_SUPPORTED,
            ) == Ok::<(AddressKind, Seq<u8>), IoError>((addr.kind, addr.name@)),
            Err(e) => resolution(
                name.bytes(),
                name.spec_is_namespaced(),
                NAME_TYPE_ALWAYS_SUPPORTED,
            ) == Err::<(AddressKind, Seq<u8>), IoError>(e),
        },
{
    resolve(name, name_type_support_query())
}

/// The capability of a platform agrees with what resolution accepts on it: a well-formed
/// namespaced name resolves exactly where the platform has namespace, and a well-formed path
/// resolves on every platform.
pub proof fn lemma_support_agrees_with_resolution(name: Seq<u8>, support: NameTypeSupport)
    ensures
        is_well_formed(name, true) ==> (resolution(name, true, support) is Ok
            <==> support.spec_namespace_supported()),
        is_well_formed(name, false) ==> resolution(name, false, support) is Ok,
{
}

/// On this build's platform every well-formed name resolves, which is what
/// [`name_type_support_query`] reports.
pub proof fn lemma_this_build_resolves_both(name: Seq<u8>, namespaced: bool)
    requires
        is_well_formed(name, namespaced),
    ensures
        NAME_TYPE_ALWAYS_SUPPORTED.spec_namespace_supported(),
        NAME_TYPE_ALWAYS_SUPPORTED.spec_paths_supported(),
        resolution(name, namespaced, NAME_TYPE_ALWAYS_SUPPORTED) is Ok,
{
}

} // verus!
