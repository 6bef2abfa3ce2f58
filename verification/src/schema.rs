use vstd::prelude::*;
use vstd::layout::size_of;
use vstd::utf8::encode_utf8;
use vstd::utf8::is_ascii_chars;
use vstd::utf8::is_ascii_chars_concat;
use vstd::utf8::is_ascii_chars_encode_utf8;
use crate::args::serialize_arguments;
use crate::args::serialized_arguments;
use crate::args::Arguments;
use crate::channel::ChannelRegion;
use crate::errors::Error;
use crate::ident::spec_memory_id;
use crate::region::TypedRegion;
use crate::region::TypedSlice;
use crate::session::HotReload;
use crate::session::Process;

verus! {

/// The package whose binary the watcher rebuilds and reruns.
pub const PROJECT_NAME: &'static str = "example-impl";

/// The schema's slice length function: the buffer holds one element per
/// window pixel. Both sides evaluate it over the same arguments, so the
/// two processes cannot disagree on the slice length.
pub open spec fn spec_buffer_len(a: Arguments) -> nat {
    a.window_width as nat * a.window_height as nat
}

/// The shared state both processes declare: the pixel count, the pixel
/// buffer, and a signalling channel, each backed by a named region under
/// the session prefix.
pub struct HotReloaded {
    pub hot_reload: HotReload,
    pub window_len: TypedRegion<usize>,
    pub buffer: TypedSlice<u32>,
    pub signals: ChannelRegion<u32>,
}

/// How a correctly built state resolves the schema for a prefix, a set of
/// arguments and a role: field identifiers are prefix plus field name, the
/// buffer length comes from the length function, and the owner side is the
/// creating side everywhere.
pub open spec fn resolves(h: HotReloaded, prefix: Seq<char>, a: Arguments, role: Process) -> bool {
    &&& h.hot_reload.prefix() == prefix
    &&& h.hot_reload.role() == role
    &&& h.window_len.id() == spec_memory_id(prefix, "window_len"@)
    &&& h.buffer.id() == spec_memory_id(prefix, "buffer"@)
    &&& h.signals.id() == spec_memory_id(prefix, "signals"@)
    &&& h.buffer.spec_len() as nat == spec_buffer_len(a)
    &&& h.window_len.owner() == (role is Owner)
    &&& h.buffer.owner() == (role is Owner)
    &&& h.signals.owner() == (role is Owner)
    &&& (role is Owner ==> h.window_len.spec_region_size() as nat == size_of::<usize>())
    &&& (role is Owner ==> h.buffer.spec_region_size() as nat == spec_buffer_len(a) * size_of::<
        u32,
    >())
    &&& h.signals.spec_event_bytes() as nat + h.signals.spec_mutex_bytes() as nat + size_of::<
        Option<u32>,
    >() <= h.signals.spec_region_size() as nat
    &&& (role is Owner ==> h.signals.spec_region_size() as nat
        == h.signals.spec_event_bytes() as nat + h.signals.spec_mutex_bytes() as nat + size_of::<
        Option<u32>,
    >())
}

/// Evaluates the schema over `arguments` within `session`: the owner side
/// creates each backing region, the reloadable side opens it.
pub fn setup(session: HotReload, arguments: &Arguments) -> (r: Result<HotReloaded, Error>)
    ensures
        r matches Ok(h) ==> resolves(h, session.prefix(), *arguments, session.role()),
        session.role() is Owner && session.owner_prefix() ==> (r matches Err(e) ==> e
            == Error::AllocationFailed),
        spec_buffer_len(*arguments) > usize::MAX as nat ==> r == Err::<HotReloaded, Error>(
            Error::AllocationFailed,
        ),
        r matches Err(e) ==> (e == Error::IdentifierTooLong || e == Error::AllocationFailed || e
            == Error::NotFound),
{
    proof {
        if session.owner_prefix() {
            lemma_field_names_ascii();
            lemma_owner_id_fits(session.prefix(), "window_len"@);
            lemma_owner_id_fits(session.prefix(), "buffer"@);
            lemma_owner_id_fits(session.prefix(), "signals"@);
        }
    }
    let len = match arguments.window_width.checked_mul(arguments.window_height) {
        Some(l) => l,
        None => {
            return Err(Error::AllocationFailed);
        },
    };
    let window_len = match session.value::<usize>("window_len") {
        Ok(v) => v,
        Err(e) => {
            return Err(e);
        },
    };
    let buffer = match session.slice::<u32>("buffer", len) {
        Ok(b) => b,
        Err(e) => {
            return Err(e);
        },
    };
    let signals = match session.channel::<u32>("signals") {
        Ok(c) => c,
        Err(e) => {
            return Err(e);
        },
    };
    Ok(HotReloaded { hot_reload: session, window_len, buffer, signals })
}

/// Builds the owner side: a fresh session with a random prefix, and every
/// region of the schema created under it. Spawning the watcher (or the
/// in-process fallback) is the caller's step, with [`spawn_command`].
pub fn owner(arguments: Arguments) -> (r: Result<HotReloaded, Error>)
    ensures
        r matches Ok(h) ==> resolves(h, h.hot_reload.prefix(), arguments, Process::Owner)
            && h.hot_reload.owner_prefix(),
        r matches Err(e) ==> e == Error::AllocationFailed,
{
    let session = match HotReload::new(Process::Owner, None) {
        Ok(s) => s,
        Err(e) => {
            return Err(Error::AllocationFailed);
        },
    };
    setup(session, &arguments)
}

/// Builds the reloadable side from the prefix and arguments the owner
/// passed on the command line, opening every region of the schema.
pub fn reloadable(prefix: String, arguments: Arguments) -> (r: Result<HotReloaded, Error>)
    ensures
        r matches Ok(h) ==> resolves(h, prefix@, arguments, Process::Reloadable),
        spec_buffer_len(arguments) > usize::MAX as nat ==> r == Err::<HotReloaded, Error>(
            Error::AllocationFailed,
        ),
        r matches Err(e) ==> (e == Error::IdentifierTooLong || e == Error::AllocationFailed || e
            == Error::NotFound),
{
    let session = match HotReload::new(Process::Reloadable, Some(prefix)) {
        Ok(s) => s,
        Err(e) => {
            return Err(Error::NotFound);
        },
    };
    setup(session, &arguments)
}

/// The watcher command line for this schema's project: rebuild and rerun
/// the reloadable binary, handing it the session prefix and the canonical
/// text of the arguments.
pub fn spawn_command(h: &HotReloaded, arguments: &Arguments) -> (r: String)
    ensures
        r@ == "run -p "@ + PROJECT_NAME@ + " -- "@ + h.hot_reload.prefix() + " "@
            + serialized_arguments(*arguments),
{
    let serialized = serialize_arguments(arguments);
    h.hot_reload.watch_command(PROJECT_NAME, serialized.as_str())
}

/// Schema agreement: two sides that evaluate the schema over the same
/// prefix and the same arguments resolve every field to the same
/// identifier and the same element count, and so to the same layout; a
/// length mismatch between the processes is impossible.
pub proof fn lemma_schema_agreement(
    o: HotReloaded,
    r: HotReloaded,
    prefix: Seq<char>,
    a: Arguments,
)
    requires
        resolves(o, prefix, a, Process::Owner),
        resolves(r, prefix, a, Process::Reloadable),
    ensures
        o.window_len.id() == r.window_len.id(),
        o.buffer.id() == r.buffer.id(),
        o.signals.id() == r.signals.id(),
        o.buffer.spec_len() == r.buffer.spec_len(),
{
}

/// Ownership exclusivity: for each identifier of a session, the owner side
/// holds the creating handle and the reloadable side does not, so
/// `is_owner()` is true on exactly one of the two processes.
pub proof fn lemma_owner_exclusive(
    o: HotReloaded,
    r: HotReloaded,
    prefix: Seq<char>,
    a: Arguments,
)
    requires
        resolves(o, prefix, a, Process::Owner),
        resolves(r, prefix, a, Process::Reloadable),
    ensures
        o.window_len.owner() && !r.window_len.owner(),
        o.buffer.owner() && !r.buffer.owner(),
        o.signals.owner() && !r.signals.owner(),
{
}

/// The schema's field names are short ASCII words.
proof fn lemma_field_names_ascii()
    ensures
        is_ascii_chars("window_len"@) && "window_len"@.len() == 10,
        is_ascii_chars("buffer"@) && "buffer"@.len() == 6,
        is_ascii_chars("signals"@) && "signals"@.len() == 7,
{
    reveal_strlit("window_len");
    reveal_strlit("buffer");
    reveal_strlit("signals");
}

/// An owner prefix of at most 9 ASCII bytes followed by a field name of at
/// most 22 ASCII characters stays under the OS name limit.
proof fn lemma_owner_id_fits(prefix: Seq<char>, name: Seq<char>)
    requires
        is_ascii_chars(prefix),
        encode_utf8(prefix).len() <= 9,
        is_ascii_chars(name),
        name.len() <= 22,
    ensures
        encode_utf8(prefix + name).len() < 32,
{
    is_ascii_chars_encode_utf8(prefix);
    is_ascii_chars_concat(prefix + name, prefix, name);
    is_ascii_chars_encode_utf8(prefix + name);
}

} // verus!
