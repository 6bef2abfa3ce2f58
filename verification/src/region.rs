use vstd::prelude::*;
use vstd::layout::size_of;
use vstd::utf8::encode_utf8;
use crate::errors::Error;
use crate::ident::identifier_fits;
use crate::ident::IDENTIFIER_LIMIT;

verus! {

/// Declares shared_memory::Shmem, the OS mapping handle, as an opaque
/// outside type so region handles can hold and hand it through.
#[verifier::external_type_specification]
#[verifier::external_body]
pub struct ExShmem(shared_memory::Shmem);

/// Why a mapping could not be created: the OS name was already taken, or
/// anything else.
enum CreateFault {
    Exists,
    Other,
}

/// Relies on shared_memory::ShmemConf: `create` maps a fresh region of
/// `size` zero-filled bytes under the OS name `identifier`, and fails with
/// `ShmemError::MappingIdExists` when the name is already taken.
#[verifier::external_body]
fn shmem_create(identifier: &str, size: usize) -> (r: Result<shared_memory::Shmem, CreateFault>) {
    match shared_memory::ShmemConf::new().size(size).os_id(identifier).create() {
        Ok(m) => Ok(m),
        Err(shared_memory::ShmemError::MappingIdExists) => Err(CreateFault::Exists),
        Err(_) => Err(CreateFault::Other),
    }
}

/// Relies on shared_memory::ShmemConf: `open` attaches to the region that
/// already exists under the OS name `identifier`.
#[verifier::external_body]
fn shmem_open(identifier: &str) -> (r: Result<shared_memory::Shmem, ()>) {
    match shared_memory::ShmemConf::new().os_id(identifier).open() {
        Ok(m) => Ok(m),
        Err(_) => Err(()),
    }
}

/// Relies on shared_memory::Shmem::set_owner: a handle marked as owner
/// unlinks the OS name when it drops, which clears a stale region here.
#[verifier::external_body]
fn shmem_unlink(stale: shared_memory::Shmem) {
    let mut stale = stale;
    let _ = stale.set_owner(true);
}

/// Relies on shared_memory::Shmem::len: the byte length of the mapping.
#[verifier::external_body]
fn shmem_len(handle: &shared_memory::Shmem) -> (r: usize) {
    handle.len()
}

/// A contiguous byte range mapped by OS name into this process's address
/// space. Exactly one process creates a given name; all others open it.
/// The owning handle unlinks the name when it drops.
pub struct NamedRegion {
    handle: shared_memory::Shmem,
    identifier: String,
    size: usize,
    owner: bool,
}

impl NamedRegion {
    /// Every region handle the framework hands out carries an OS name
    /// strictly under the 32-byte limit.
    #[verifier::type_invariant]
    pub closed spec fn wf(&self) -> bool {
        encode_utf8(self.identifier@).len() < IDENTIFIER_LIMIT as nat
    }

    /// The OS name backing this region.
    pub closed spec fn id(&self) -> Seq<char> {
        self.identifier@
    }

    /// The byte size this handle accounts for: the requested size on the
    /// creating side, the OS-reported mapping size on the opening side.
    pub closed spec fn spec_size(&self) -> usize {
        self.size
    }

    /// Whether this handle created (rather than opened) the region.
    pub closed spec fn spec_owner(&self) -> bool {
        self.owner
    }

    /// Creates the region `identifier` of `size` bytes, clearing any stale
    /// OS name a previous unclean owner exit left behind.
    pub fn create(identifier: String, size: usize) -> (r: Result<NamedRegion, Error>)
        ensures
            r matches Ok(m) ==> m.id() == identifier@ && m.spec_size() == size && m.spec_owner(),
            encode_utf8(identifier@).len() >= IDENTIFIER_LIMIT as nat <==> r == Err::<
                NamedRegion,
                Error,
            >(Error::IdentifierTooLong),
            r matches Err(e) ==> (e == Error::IdentifierTooLong || e == Error::AllocationFailed),
    {
        if !identifier_fits(identifier.as_str()) {
            return Err(Error::IdentifierTooLong);
        }
        match shmem_create(identifier.as_str(), size) {
            Ok(handle) => Ok(NamedRegion { handle, identifier, size, owner: true }),
            Err(CreateFault::Exists) => {
                // a previous owner exited uncleanly; unlink the stale name
                // and create anew
                match shmem_open(identifier.as_str()) {
                    Ok(stale) => shmem_unlink(stale),
                    Err(_) => (),
                }
                match shmem_create(identifier.as_str(), size) {
                    Ok(handle) => Ok(NamedRegion { handle, identifier, size, owner: true }),
                    Err(_) => Err(Error::AllocationFailed),
                }
            },
            Err(CreateFault::Other) => Err(Error::AllocationFailed),
        }
    }

    /// Opens the existing region `identifier`; its size is whatever the OS
    /// reports for the mapping.
    pub fn open(identifier: String) -> (r: Result<NamedRegion, Error>)
        ensures
            r matches Ok(m) ==> m.id() == identifier@ && !m.spec_owner(),
            encode_utf8(identifier@).len() >= IDENTIFIER_LIMIT as nat <==> r == Err::<
                NamedRegion,
                Error,
            >(Error::IdentifierTooLong),
            r matches Err(e) ==> (e == Error::IdentifierTooLong || e == Error::NotFound),
    {
        if !identifier_fits(identifier.as_str()) {
            return Err(Error::IdentifierTooLong);
        }
        match shmem_open(identifier.as_str()) {
            Ok(handle) => {
                let size = shmem_len(&handle);
                Ok(NamedRegion { handle, identifier, size, owner: false })
            },
            Err(_) => Err(Error::NotFound),
        }
    }

    /// The OS name backing this region. Every identifier the framework
    /// produced fits strictly under the OS name limit.
    pub fn identifier(&self) -> (r: &str)
        ensures
            r@ == self.id(),
            encode_utf8(r@).len() < IDENTIFIER_LIMIT as nat,
    {
        proof {
            use_type_invariant(self);
        }
        self.identifier.as_str()
    }

    /// The byte size this handle accounts for.
    pub fn size(&self) -> (r: usize)
        ensures
            r == self.spec_size(),
    {
        self.size
    }

    /// Whether this handle created the region.
    pub fn is_owner(&self) -> (r: bool)
        ensures
            r == self.spec_owner(),
    {
        self.owner
    }

    /// The raw OS mapping handle, for the process glue that does the actual
    /// byte access outside this crate.
    pub fn os_handle(&self) -> &shared_memory::Shmem {
        &self.handle
    }
}

/// A named region reinterpreted as a single value of type `T`. `T` must be
/// a self-contained plain value: no interior ownership pointers may cross
/// the process boundary.
pub struct TypedRegion<T> {
    region: NamedRegion,
    elem: core::marker::PhantomData<T>,
}

impl<T> TypedRegion<T> {
    /// A value of `T` always fits inside the backing region.
    #[verifier::type_invariant]
    pub closed spec fn wf(&self) -> bool {
        size_of::<T>() <= self.region.spec_size() as nat
    }

    /// The OS name backing this value.
    pub closed spec fn id(&self) -> Seq<char> {
        self.region.id()
    }

    /// Whether this side created the region.
    pub closed spec fn owner(&self) -> bool {
        self.region.spec_owner()
    }

    /// The byte size of the backing region.
    pub closed spec fn spec_region_size(&self) -> usize {
        self.region.spec_size()
    }

    /// Creates (owner) or opens (reloadable) the region for one `T` under
    /// `identifier`.
    pub fn new(is_owner: bool, identifier: String) -> (r: Result<TypedRegion<T>, Error>)
        ensures
            r matches Ok(t) ==> t.id() == identifier@ && t.owner() == is_owner,
            r matches Ok(t) ==> is_owner ==> t.spec_region_size() as nat == size_of::<T>(),
            encode_utf8(identifier@).len() >= IDENTIFIER_LIMIT as nat <==> r == Err::<
                TypedRegion<T>,
                Error,
            >(Error::IdentifierTooLong),
            r matches Err(e) ==> (e == Error::IdentifierTooLong || e == Error::AllocationFailed
                || (!is_owner && e == Error::NotFound)),
    {
        let bytes = core::mem::size_of::<T>();
        if is_owner {
            match NamedRegion::create(identifier, bytes) {
                Ok(region) => Ok(TypedRegion { region, elem: core::marker::PhantomData }),
                Err(e) => Err(e),
            }
        } else {
            match NamedRegion::open(identifier) {
                Ok(region) => {
                    if bytes <= region.size() {
                        Ok(TypedRegion { region, elem: core::marker::PhantomData })
                    } else {
                        Err(Error::AllocationFailed)
                    }
                },
                Err(e) => Err(e),
            }
        }
    }

    /// The backing region.
    pub fn region(&self) -> (r: &NamedRegion)
        ensures
            r.id() == self.id(),
            r.spec_owner() == self.owner(),
            r.spec_size() == self.spec_region_size(),
            size_of::<T>() <= r.spec_size() as nat,
    {
        proof {
            use_type_invariant(self);
        }
        &self.region
    }
}

/// Shared memory between two processes holding a single `T`, without
/// synchronization and with a size known at compile time.
pub fn shared_memory<T>(is_owner: bool, identifier: String) -> (r: Result<TypedRegion<T>, Error>)
    ensures
        r matches Ok(t) ==> t.id() == identifier@ && t.owner() == is_owner,
        r matches Ok(t) ==> is_owner ==> t.spec_region_size() as nat == size_of::<T>(),
        encode_utf8(identifier@).len() >= IDENTIFIER_LIMIT as nat <==> r == Err::<
            TypedRegion<T>,
            Error,
        >(Error::IdentifierTooLong),
        r matches Err(e) ==> (e == Error::IdentifierTooLong || e == Error::AllocationFailed || (
        !is_owner && e == Error::NotFound)),
{
    TypedRegion::new(is_owner, identifier)
}

/// Shared memory between two processes holding `length` values of `T`,
/// without synchronization and with a dynamic length.
pub fn shared_memory_with_slice<T>(is_owner: bool, identifier: String, length: usize) -> (r: Result<
    TypedSlice<T>,
    Error,
>)
    ensures
        r matches Ok(t) ==> t.id() == identifier@ && t.owner() == is_owner && t.spec_len()
            == length,
        r matches Ok(t) ==> is_owner ==> t.spec_region_size() as nat == length as nat * size_of::<
            T,
        >(),
        length as nat * size_of::<T>() > usize::MAX as nat ==> r == Err::<TypedSlice<T>, Error>(
            Error::AllocationFailed,
        ),
        (encode_utf8(identifier@).len() >= IDENTIFIER_LIMIT as nat && length as nat * size_of::<
            T,
        >() <= usize::MAX as nat) <==> r == Err::<TypedSlice<T>, Error>(Error::IdentifierTooLong),
        r matches Err(e) ==> (e == Error::IdentifierTooLong || e == Error::AllocationFailed || (
        !is_owner && e == Error::NotFound)),
{
    TypedSlice::new(is_owner, identifier, length)
}

/// A named region reinterpreted as `length` consecutive values of type `T`.
/// Both processes must declare the same element type and length; the schema
/// layer guarantees that by construction.
pub struct TypedSlice<T> {
    region: NamedRegion,
    length: usize,
    elem: core::marker::PhantomData<T>,
}

impl<T> TypedSlice<T> {
    /// All `length` elements fit inside the backing region.
    #[verifier::type_invariant]
    pub closed spec fn wf(&self) -> bool {
        self.length as nat * size_of::<T>() <= self.region.spec_size() as nat
    }

    /// The OS name backing this slice.
    pub closed spec fn id(&self) -> Seq<char> {
        self.region.id()
    }

    /// Whether this side created the region.
    pub closed spec fn owner(&self) -> bool {
        self.region.spec_owner()
    }

    /// The agreed element count.
    pub closed spec fn spec_len(&self) -> usize {
        self.length
    }

    /// The byte size of the backing region.
    pub closed spec fn spec_region_size(&self) -> usize {
        self.region.spec_size()
    }

    /// Creates (owner) or opens (reloadable) the region for `length`
    /// elements of `T` under `identifier`.
    pub fn new(is_owner: bool, identifier: String, length: usize) -> (r: Result<
        TypedSlice<T>,
        Error,
    >)
        ensures
            r matches Ok(t) ==> t.id() == identifier@ && t.owner() == is_owner && t.spec_len()
                == length,
            r matches Ok(t) ==> is_owner ==> t.spec_region_size() as nat == length as nat
                * size_of::<T>(),
            length as nat * size_of::<T>() > usize::MAX as nat ==> r == Err::<TypedSlice<T>, Error>(
                Error::AllocationFailed,
            ),
            (encode_utf8(identifier@).len() >= IDENTIFIER_LIMIT as nat && length as nat * size_of::<
                T,
            >() <= usize::MAX as nat) <==> r == Err::<TypedSlice<T>, Error>(
                Error::IdentifierTooLong,
            ),
            r matches Err(e) ==> (e == Error::IdentifierTooLong || e == Error::AllocationFailed
                || (!is_owner && e == Error::NotFound)),
    {
        let bytes = match length.checked_mul(core::mem::size_of::<T>()) {
            Some(b) => b,
            None => {
                return Err(Error::AllocationFailed);
            },
        };
        if is_owner {
            match NamedRegion::create(identifier, bytes) {
                Ok(region) => Ok(
                    TypedSlice { region, length, elem: core::marker::PhantomData },
                ),
                Err(e) => Err(e),
            }
        } else {
            match NamedRegion::open(identifier) {
                Ok(region) => {
                    if bytes <= region.size() {
                        Ok(TypedSlice { region, length, elem: core::marker::PhantomData })
                    } else {
                        Err(Error::AllocationFailed)
                    }
                },
                Err(e) => Err(e),
            }
        }
    }

    /// The agreed element count.
    pub fn length(&self) -> (r: usize)
        ensures
            r == self.spec_len(),
    {
        self.length
    }

    /// The backing region.
    pub fn region(&self) -> (r: &NamedRegion)
        ensures
            r.id() == self.id(),
            r.spec_owner() == self.owner(),
            r.spec_size() == self.spec_region_size(),
            self.spec_len() as nat * size_of::<T>() <= r.spec_size() as nat,
    {
        proof {
            use_type_invariant(self);
        }
        &self.region
    }
}

} // verus!
