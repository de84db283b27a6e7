use torwell84::commands::ping_average;
use torwell84::error::Error;
use torwell84::expiry::ExpiryTable;
use torwell84::frames::{align_bytes, dropped_frames, next_slot, unpad_rows};
use torwell84::key_store::{key_backend, tpm_index, tpm_read_result, tpm_unsupported, tpm_write_result, KeyBackend};
use torwell84::frames::ShaderSource;
use torwell84::shader_index::{cache_entry_name, join, needs_update, shader_hash, CacheIndex, ShaderCache};
use torwell84::tor_settings::TorSettings;
use torwell84::workers::{parse_worker_list, ProxyRound, Route, WorkerPool};

#[test]
fn requests_try_each_worker_then_go_direct() {
    let mut pool = WorkerPool::new();
    pool.set_config(vec!["https://w1/p".into(), "https://w2/p?a=1".into()], None);
    let mut round = ProxyRound::start(&pool);
    match round.next_route(&mut pool, "https://x/") {
        Route::Worker { target, token } => {
            assert_eq!(target, "https://w1/p?url=https%3A%2F%2Fx%2F");
            assert!(token.is_none());
        }
        Route::Direct(_) => panic!("expected a worker"),
    }
    match round.next_route(&mut pool, "https://x/") {
        Route::Worker { target, .. } => assert_eq!(target, "https://w2/p?a=1&url=https%3A%2F%2Fx%2F"),
        Route::Direct(_) => panic!("expected a worker"),
    }
    match round.next_route(&mut pool, "https://x/") {
        Route::Direct(u) => assert_eq!(u, "https://x/"),
        Route::Worker { .. } => panic!("expected the direct route"),
    }
}

#[test]
fn import_many_workers_from_file() {
    let mut content = String::new();
    for i in 0..150 {
        content.push_str(&format!("  https://worker{i}.example/proxy \n"));
        if i % 10 == 0 {
            content.push_str("\n   \n");
        }
    }
    let workers = parse_worker_list(&content);
    assert_eq!(workers.len(), 150);
    assert_eq!(workers[0], "https://worker0.example/proxy");
    assert_eq!(workers[149], "https://worker149.example/proxy");
}

#[test]
fn ping_average_rounds_down() {
    assert_eq!(ping_average(&vec![10, 20, 31]), 20);
    assert_eq!(ping_average(&vec![7]), 7);
}

#[test]
fn key_storage_backends() {
    assert_eq!(key_backend(Some("TPM")), KeyBackend::Tpm);
    assert_eq!(key_backend(Some("hsm")), KeyBackend::Tpm);
    assert_eq!(key_backend(Some("keyring")), KeyBackend::Keyring);
    assert_eq!(key_backend(None), KeyBackend::Keyring);
    assert!(matches!(tpm_index(None), Err(Error::Io(m)) if m == "TORWELL_TPM_NV_INDEX not set"));
    assert_eq!(tpm_index(Some("0x1500016".into())).unwrap(), "0x1500016");
    assert_eq!(tpm_read_result(true, " secret\n", String::new()).unwrap(), Some("secret".to_string()));
    assert!(matches!(tpm_read_result(false, "", "denied".into()), Err(Error::Io(m)) if m == "denied"));
    assert!(tpm_write_result(true, String::new()).is_ok());
    assert!(matches!(tpm_unsupported(), Error::Io(m) if m == "TPM backend not implemented on Windows"));
}

#[test]
fn renderer_frame_bookkeeping() {
    assert_eq!(dropped_frames(None, 5), 0);
    assert_eq!(dropped_frames(Some(2), 3), 0);
    assert_eq!(dropped_frames(Some(2), 6), 3);
    assert_eq!(dropped_frames(Some(9), 3), 0);
    assert_eq!(next_slot(2, 3), 0);
    assert_eq!(align_bytes(5120, 256), 5120);
    assert_eq!(align_bytes(4, 256), 256);
    let padded: Vec<u8> = (0u8..24).collect();
    assert_eq!(unpad_rows(&padded, 1, 3, 8), vec![0, 1, 2, 3, 8, 9, 10, 11, 16, 17, 18, 19]);
}

#[test]
fn shader_cache_plans() {
    let h = shader_hash("");
    assert_eq!(h, "af1349b9f5f9a1a6a0404dea36dcc9499bcb25c9adc112b7cc9a93cae41f3262");
    assert_eq!(cache_entry_name("fullscreen", &h), "fullscreen-af1349b9f5f9a1a6.wgsl");
    let mut cache = ShaderCache::new("/cache".into(), CacheIndex::new());
    assert_eq!(cache.index_path(), "/cache/index.json");
    let shader = ShaderSource { name: "fullscreen".into(), source: "".into() };
    let plan = cache.plan(&shader);
    assert_eq!(plan.path, "/cache/fullscreen-af1349b9f5f9a1a6.wgsl");
    assert!(plan.cached.is_none());
    assert!(needs_update(&plan.cached, true));
    assert!(cache.commit("fullscreen", &plan, false, 7));
    let again = cache.plan(&shader);
    assert_eq!(again.cached.as_deref(), Some("/cache/fullscreen-af1349b9f5f9a1a6.wgsl"));
    assert!(!cache.commit("fullscreen", &again, true, 9));
    assert_eq!(
        cache.index_entries(),
        vec![("fullscreen".to_string(), h.clone(), "/cache/fullscreen-af1349b9f5f9a1a6.wgsl".to_string(), 7)]
    );
    assert!(needs_update(&again.cached, false));
    let changed = cache.plan(&ShaderSource { name: "fullscreen".into(), source: "fn main() {}".into() });
    assert!(changed.cached.is_none());
    let restored = ShaderCache::new("cache/".into(), CacheIndex::from_entries(cache.index_entries()));
    assert_eq!(restored.index_path(), "cache/index.json");
    assert_eq!(restored.plan(&shader).cached.as_deref(), Some("/cache/fullscreen-af1349b9f5f9a1a6.wgsl"));
    assert_eq!(join("", "a.wgsl"), "a.wgsl");
    assert_eq!(join("/x", "/abs"), "/abs");
}

#[test]
fn generated_routes_never_repeat_a_country() {
    let mut s = TorSettings::new();
    s.set_entry_country(Some("DE".into())).unwrap();
    s.set_middle_country(Some("DE".into())).unwrap();
    s.set_exit_country(Some("de".into())).unwrap();
    let p = s.generate_torrc_profile(false, None, false, "t".into()).unwrap();
    assert_eq!((p.entry.as_str(), p.middle.as_str(), p.exit.as_str()), ("DE", "NL", "SE"));
}

#[test]
fn expiry_table_reads_back_writes() {
    let mut t = ExpiryTable::new();
    t.insert("a".into(), 100);
    t.insert("b".into(), 50);
    t.insert("a".into(), 10);
    assert!(t.is_fresh("a", 9));
    assert!(!t.is_fresh("a", 10));
    assert!(t.is_fresh("b", 49));
    t.cleanup(20);
    assert!(!t.is_fresh("a", 0));
    assert!(t.is_fresh("b", 20));
}
