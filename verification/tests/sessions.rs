use hot_reload::channel::shared_channel;
use hot_reload::channel::ChannelRegion;
use hot_reload::channel::MutexRegion;
use raw_sync::events::EventInit;
use raw_sync::locks::LockInit;
use hot_reload::errors::Error;
use hot_reload::ident::memory_id;
use hot_reload::region::NamedRegion;
use hot_reload::region::TypedSlice;
use hot_reload::schema::owner;
use hot_reload::schema::reloadable;
use hot_reload::schema::spawn_command;
use hot_reload::args::Arguments;
use hot_reload::session::HotReload;
use hot_reload::session::Process;

#[test]
fn identifier_formation_exact() {
    let prefix = "/ABCD1234";
    assert_eq!(memory_id(prefix, "buffer"), "/ABCD1234buffer");
    assert_eq!(memory_id(prefix, "to"), "/ABCD1234to");
    assert_eq!(memory_id(prefix, "from"), "/ABCD1234from");
}

#[test]
fn owner_prefix_shape() {
    let session = HotReload::new(Process::Owner, None).unwrap();
    let p = session.prefix_str();
    assert!(p.starts_with('/'));
    assert!(p.len() >= 2 && p.len() <= 9);
    assert!(p[1..].chars().all(|c| c.is_ascii_hexdigit() && !c.is_ascii_lowercase()));
    assert!(session.is_owner());
}

#[test]
fn reloadable_needs_prefix_argument() {
    match HotReload::new(Process::Reloadable, None) {
        Err(e) => assert_eq!(e, Error::ArgumentMissing),
        Ok(_) => panic!("a reloadable session must not start without a prefix"),
    }
    let s = HotReload::new(Process::Reloadable, Some(String::from("/F00D"))).unwrap();
    assert_eq!(s.prefix_str(), "/F00D");
    assert!(!s.is_owner());
}

#[test]
fn thirty_one_byte_identifier_succeeds() {
    // 31 bytes: under the tightest OS limit
    let id = "/test31aaaaaaaaaaaaaaaaaaaaaaaa";
    assert_eq!(id.len(), 31);
    let r = NamedRegion::create(String::from(id), 64).unwrap();
    assert_eq!(r.identifier(), id);
    assert_eq!(r.size(), 64);
    assert!(r.is_owner());
}

#[test]
fn thirty_two_byte_identifier_fails() {
    let id = "/test32aaaaaaaaaaaaaaaaaaaaaaaab";
    assert_eq!(id.len(), 32);
    match NamedRegion::create(String::from(id), 64) {
        Err(e) => assert_eq!(e, Error::IdentifierTooLong),
        Ok(_) => panic!("a 32-byte identifier must be rejected"),
    }
    match NamedRegion::open(String::from(id)) {
        Err(e) => assert_eq!(e, Error::IdentifierTooLong),
        Ok(_) => panic!("a 32-byte identifier must be rejected"),
    }
}

#[test]
fn zero_byte_region_allocation_fails() {
    // the OS refuses a zero-sized mapping
    match NamedRegion::create(String::from("/test_zero_bytes"), 0) {
        Err(e) => assert_eq!(e, Error::AllocationFailed),
        Ok(_) => panic!("a zero-sized region must be refused"),
    }
}

#[test]
fn open_missing_region_not_found() {
    match NamedRegion::open(String::from("/test_absent_name")) {
        Err(e) => assert_eq!(e, Error::NotFound),
        Ok(_) => panic!("opening an absent name must fail"),
    }
}

#[test]
fn owner_restart_clears_stale_name() {
    // a handle that stands for the stale region of a crashed owner
    let stale = NamedRegion::create(String::from("/test_restart"), 32).unwrap();
    // the restarted owner force-creates the same name and succeeds
    let fresh = NamedRegion::create(String::from("/test_restart"), 32).unwrap();
    assert!(fresh.is_owner());
    drop(stale);
    drop(fresh);
}

#[test]
fn exactly_one_owner_per_identifier() {
    let o = NamedRegion::create(String::from("/test_one_owner"), 16).unwrap();
    let r = NamedRegion::open(String::from("/test_one_owner")).unwrap();
    assert!(o.is_owner());
    assert!(!r.is_owner());
    assert_eq!(o.identifier(), r.identifier());
}

#[test]
fn slice_sides_agree_on_size_and_identifier() {
    let session = HotReload::new(Process::Owner, None).unwrap();
    let created: TypedSlice<u32> = session.slice("buffer", 300 * 300).unwrap();
    let peer = HotReload::new(
        Process::Reloadable,
        Some(String::from(session.prefix_str())),
    )
    .unwrap();
    let opened: TypedSlice<u32> = peer.slice("buffer", 300 * 300).unwrap();
    assert_eq!(created.length(), opened.length());
    assert_eq!(created.region().identifier(), opened.region().identifier());
    assert!(created.region().is_owner());
    assert!(!opened.region().is_owner());
    // the mapped region really holds all elements on both sides
    assert!(opened.region().size() >= 4 * 300 * 300);
    assert_eq!(created.region().size(), 4 * 300 * 300);
}

#[test]
fn schema_smoke_handshake() {
    let args = Arguments { window_width: 300, window_height: 300 };
    let state = owner(args).unwrap();
    assert_eq!(state.buffer.length(), 300 * 300);
    // the reloadable side, handed the prefix and args over the CLI,
    // resolves the same fields
    let prefix = String::from(state.hot_reload.prefix_str());
    let other = reloadable(prefix, args).unwrap();
    assert_eq!(other.buffer.length(), state.buffer.length());
    assert_eq!(
        state.buffer.region().identifier(),
        other.buffer.region().identifier()
    );
    assert_eq!(
        state.signals.region().identifier(),
        other.signals.region().identifier()
    );
    assert!(state.window_len.region().is_owner());
    assert!(!other.window_len.region().is_owner());
}

#[test]
fn reloadable_without_owner_not_found() {
    let args = Arguments { window_width: 2, window_height: 2 };
    match reloadable(String::from("/BADC0DE"), args) {
        Err(e) => assert_eq!(e, Error::NotFound),
        Ok(_) => panic!("attaching without an owner must fail"),
    }
}

#[test]
fn mutex_region_create_and_open() {
    let created: MutexRegion<u64> = MutexRegion::new(true, String::from("/test_mutex")).unwrap();
    let opened: MutexRegion<u64> = MutexRegion::new(false, String::from("/test_mutex")).unwrap();
    assert!(created.region().is_owner());
    assert!(!opened.region().is_owner());
    assert_eq!(created.region().identifier(), opened.region().identifier());
    // room for the mutex header and the guarded value
    assert!(created.region().size() > 8);
    match MutexRegion::<u64>::new(false, String::from("/test_mutex_absent")) {
        Err(e) => assert_eq!(e, Error::NotFound),
        Ok(_) => panic!("opening an absent mutex region must fail"),
    }
}

#[test]
fn free_constructors_mirror_the_typed_ones() {
    let v = hot_reload::region::shared_memory::<u64>(true, String::from("/test_free_v")).unwrap();
    assert!(v.region().is_owner());
    let s =
        hot_reload::region::shared_memory_with_slice::<u16>(true, String::from("/test_free_s"), 8)
            .unwrap();
    assert_eq!(s.length(), 8);
    assert_eq!(s.region().size(), 16);
    let m =
        hot_reload::channel::shared_memory_with_mutex::<u32>(true, String::from("/test_free_m"))
            .unwrap();
    assert_eq!(m.region().identifier(), "/test_free_m");
    let c = hot_reload::channel::shared_channel::<u32>(true, String::from("/test_free_c")).unwrap();
    assert!(c.region().is_owner());
}

#[test]
fn channel_region_layout_budget() {
    // the region is sized for exactly the layout the process glue builds:
    // event header, mutex header, payload slot, at the header sizes the
    // synchronization library itself reports
    let ev = <raw_sync::events::Event as EventInit>::size_of(None);
    let mx = <raw_sync::locks::Mutex as LockInit>::size_of(None);
    let c: ChannelRegion<u32> = shared_channel(true, String::from("/test_layout")).unwrap();
    assert_eq!(c.event_header_bytes(), ev);
    assert_eq!(c.mutex_header_bytes(), mx);
    assert_eq!(
        c.region().size(),
        ev + mx + std::mem::size_of::<Option<u32>>()
    );
    // the compact offsets the glue derives stay aligned on this platform
    assert_eq!(ev % std::mem::align_of::<usize>(), 0);
    assert_eq!(mx % std::mem::align_of::<usize>(), 0);
    // the opening side derives the same numbers, so both processes agree
    let o: ChannelRegion<u32> = shared_channel(false, String::from("/test_layout")).unwrap();
    assert_eq!(o.event_header_bytes(), ev);
    assert_eq!(o.mutex_header_bytes(), mx);
    assert!(ev + mx + std::mem::size_of::<Option<u32>>() <= o.region().size());

    let m: MutexRegion<u64> = MutexRegion::new(true, String::from("/test_layout_m")).unwrap();
    assert_eq!(m.mutex_header_bytes(), mx);
    assert_eq!(m.region().size(), mx + std::mem::size_of::<u64>());
}

#[test]
fn watch_command_exact() {
    let args = Arguments { window_width: 300, window_height: 300 };
    let state = owner(args).unwrap();
    let cmd = spawn_command(&state, &args);
    let expected = format!(
        "run -p example-impl -- {} (window_width:300,window_height:300)",
        state.hot_reload.prefix_str()
    );
    assert_eq!(cmd, expected);
}

#[test]
fn field_identifiers_under_limit() {
    let args = Arguments { window_width: 4, window_height: 4 };
    let state = owner(args).unwrap();
    for id in [
        state.window_len.region().identifier(),
        state.buffer.region().identifier(),
        state.signals.region().identifier(),
    ] {
        assert!(id.len() < 32);
        assert!(id.starts_with('/'));
    }
    assert_eq!(
        state.buffer.region().identifier(),
        memory_id(state.hot_reload.prefix_str(), "buffer")
    );
}
