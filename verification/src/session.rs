use vstd::prelude::*;
use vstd::layout::size_of;
use vstd::utf8::encode_utf8;
use vstd::utf8::is_ascii_chars;
use crate::channel::ChannelRegion;
use crate::errors::Error;
use crate::ident::make_prefix;
use crate::ident::memory_id;
use crate::ident::spec_memory_id;
use crate::ident::spec_prefix;
use crate::region::TypedRegion;
use crate::region::TypedSlice;

verus! {

/// The role of this process in a session: the owner creates every shared
/// region and supervises the child; the reloadable side opens them.
#[derive(Clone, Copy, Debug, PartialEq, Eq, Structural)]
pub enum Process {
    Owner,
    Reloadable,
}

/// Relies on rand::random: an arbitrary value of the standard distribution;
/// nothing is assumed of which value comes out.
pub assume_specification<T>[ rand::random::<T> ]() -> (r: T)
    where
        rand::distributions::Standard: rand::distributions::Distribution<T>,
;

/// A role-aware session: the role, and the shared id prefix under which
/// every field of the schema names its backing region.
pub struct HotReload {
    process: Process,
    shared_memory_id_prefix: String,
}

impl HotReload {
    /// The session's role.
    pub closed spec fn role(&self) -> Process {
        self.process
    }

    /// The session's id prefix, shared by both processes.
    pub closed spec fn prefix(&self) -> Seq<char> {
        self.shared_memory_id_prefix@
    }

    /// Prefixes of owner sessions: a slash and a random 32-bit hex literal,
    /// at most 9 bytes of ASCII.
    pub open spec fn owner_prefix(&self) -> bool {
        &&& exists|n: u32| self.prefix() == spec_prefix(n as nat)
        &&& is_ascii_chars(self.prefix())
        &&& encode_utf8(self.prefix()).len() <= 9
    }

    /// Starts a session. An owner draws a fresh random prefix; the
    /// reloadable side must be handed the owner's prefix, which reached it
    /// as its first CLI argument, and fails without one.
    pub fn new(process: Process, cli_prefix: Option<String>) -> (r: Result<HotReload, Error>)
        ensures
            process is Owner ==> (r matches Ok(h) && h.role() == process && h.owner_prefix()),
            process is Reloadable ==> (cli_prefix matches Some(p) ==> (r matches Ok(h) && h.role()
                == process && h.prefix() == p@)),
            process is Reloadable && cli_prefix is None <==> r == Err::<HotReload, Error>(
                Error::ArgumentMissing,
            ),
            r matches Ok(h) ==> h.role() == process,
    {
        match process {
            Process::Owner => {
                let n: u32 = rand::random();
                let shared_memory_id_prefix = make_prefix(n);
                Ok(HotReload { process, shared_memory_id_prefix })
            },
            Process::Reloadable => {
                match cli_prefix {
                    Some(shared_memory_id_prefix) => Ok(
                        HotReload { process, shared_memory_id_prefix },
                    ),
                    None => Err(Error::ArgumentMissing),
                }
            },
        }
    }

    /// Whether this session creates the shared regions.
    pub fn is_owner(&self) -> (r: bool)
        ensures
            r == (self.role() is Owner),
    {
        matches!(self.process, Process::Owner)
    }

    /// The session prefix as text.
    pub fn prefix_str(&self) -> (r: &str)
        ensures
            r@ == self.prefix(),
    {
        self.shared_memory_id_prefix.as_str()
    }

    /// The OS name of the field `name`: the session prefix followed by the
    /// field name.
    pub fn memory_id(&self, name: &str) -> (r: String)
        ensures
            r@ == spec_memory_id(self.prefix(), name@),
    {
        memory_id(self.shared_memory_id_prefix.as_str(), name)
    }

    /// A shared region holding one value of `T`, named after `name`,
    /// created by the owner and opened by the reloadable side.
    pub fn value<T>(&self, name: &str) -> (r: Result<TypedRegion<T>, Error>)
        ensures
            r matches Ok(t) ==> t.id() == spec_memory_id(self.prefix(), name@) && t.owner() == (
            self.role() is Owner),
            r matches Ok(t) ==> self.role() is Owner ==> t.spec_region_size() as nat == size_of::<
                T,
            >(),
            encode_utf8(spec_memory_id(self.prefix(), name@)).len() >= 32 <==> r == Err::<
                TypedRegion<T>,
                Error,
            >(Error::IdentifierTooLong),
            r matches Err(e) ==> (e == Error::IdentifierTooLong || e == Error::AllocationFailed
                || (self.role() is Reloadable && e == Error::NotFound)),
    {
        TypedRegion::new(self.is_owner(), self.memory_id(name))
    }

    /// A shared region holding `length` values of `T`, named after `name`.
    pub fn slice<T>(&self, name: &str, length: usize) -> (r: Result<TypedSlice<T>, Error>)
        ensures
            r matches Ok(t) ==> t.id() == spec_memory_id(self.prefix(), name@) && t.owner() == (
            self.role() is Owner) && t.spec_len() == length,
            r matches Ok(t) ==> self.role() is Owner ==> t.spec_region_size() as nat == length as nat
                * size_of::<T>(),
            length as nat * size_of::<T>() > usize::MAX as nat ==> r == Err::<
                TypedSlice<T>,
                Error,
            >(Error::AllocationFailed),
            (encode_utf8(spec_memory_id(self.prefix(), name@)).len() >= 32 && length as nat
                * size_of::<T>() <= usize::MAX as nat) <==> r == Err::<TypedSlice<T>, Error>(
                Error::IdentifierTooLong,
            ),
            r matches Err(e) ==> (e == Error::IdentifierTooLong || e == Error::AllocationFailed
                || (self.role() is Reloadable && e == Error::NotFound)),
    {
        TypedSlice::new(self.is_owner(), self.memory_id(name), length)
    }

    /// A one-slot signalling channel of `T`, named after `name`.
    pub fn channel<T: Copy>(&self, name: &str) -> (r: Result<ChannelRegion<T>, Error>)
        ensures
            r matches Ok(c) ==> c.id() == spec_memory_id(self.prefix(), name@) && c.owner() == (
            self.role() is Owner),
            r matches Ok(c) ==> c.spec_event_bytes() as nat + c.spec_mutex_bytes() as nat
                + size_of::<Option<T>>() <= c.spec_region_size() as nat,
            r matches Ok(c) ==> self.role() is Owner ==> c.spec_region_size() as nat
                == c.spec_event_bytes() as nat + c.spec_mutex_bytes() as nat + size_of::<
                Option<T>,
            >(),
            encode_utf8(spec_memory_id(self.prefix(), name@)).len() >= 32 <==> r == Err::<
                ChannelRegion<T>,
                Error,
            >(Error::IdentifierTooLong),
            r matches Err(e) ==> (e == Error::IdentifierTooLong || e == Error::AllocationFailed
                || (self.role() is Reloadable && e == Error::NotFound)),
    {
        ChannelRegion::new(self.is_owner(), self.memory_id(name))
    }

    /// The build-and-run command line the owner hands the external watcher:
    /// run the reloadable project, passing the id prefix and the serialized
    /// init arguments as its two positional arguments.
    pub fn watch_command(&self, project_name: &str, serialized_args: &str) -> (r: String)
        ensures
            r@ == "run -p "@ + project_name@ + " -- "@ + self.prefix() + " "@ + serialized_args@,
    {
        let mut s = String::from_str("run -p ");
        s.append(project_name);
        s.append(" -- ");
        s.append(self.shared_memory_id_prefix.as_str());
        s.append(" ");
        s.append(serialized_args);
        s
    }
}

} // verus!
