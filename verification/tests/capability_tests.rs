use aegis_ai_runtime::capabilities::{
    default_max_call_depth, default_max_memory, default_max_operations, default_timeout, Capability,
    GrantSet, ResourceLimits,
};

const ALL: [Capability; 10] = [
    Capability::HttpGet,
    Capability::HttpPost,
    Capability::Http,
    Capability::FileRead,
    Capability::FileWrite,
    Capability::FileList,
    Capability::KvGet,
    Capability::KvSet,
    Capability::Exec,
    Capability::Env,
];

#[test]
fn capability_names_are_the_policy_names() {
    let names: Vec<&str> = ALL.iter().map(|c| c.name()).collect();
    assert_eq!(
        names,
        vec!["http_get", "http_post", "http", "file_read", "file_write", "file_list", "kv_get", "kv_set", "exec", "env"]
    );
}

#[test]
fn capability_names_are_distinct() {
    for a in ALL.iter() {
        for b in ALL.iter() {
            assert_eq!(a.name() == b.name(), a == b);
        }
    }
}

#[test]
fn matches_is_same_kind() {
    for a in ALL.iter() {
        for b in ALL.iter() {
            assert_eq!(a.matches(b), a == b);
        }
    }
}

#[test]
fn kind_predicates() {
    assert!(Capability::HttpGet.is_http());
    assert!(Capability::HttpPost.is_http());
    assert!(!Capability::Http.is_http());
    assert!(Capability::FileRead.is_file_read());
    assert!(!Capability::FileWrite.is_file_read());
    assert!(Capability::FileWrite.is_file_write());
    assert!(Capability::FileList.is_file_list());
    assert!(Capability::KvSet.is_kv_set());
    assert!(!Capability::KvGet.is_kv_set());
    assert!(Capability::KvGet.is_kv_get());
}

#[test]
fn grant_set_reports_its_grants() {
    let g = GrantSet::new(vec![Capability::KvGet, Capability::FileList]);
    assert!(g.has(&Capability::KvGet));
    assert!(!g.has(&Capability::KvSet));
    assert!(g.has_kv_get());
    assert!(!g.has_kv_set());
    assert!(g.has_file_list());
    assert!(!g.has_file_read());
    assert!(!g.has_file_write());
    assert!(!g.has_http());
}

#[test]
fn bare_http_capability_does_not_grant_http() {
    let g = GrantSet::new(vec![Capability::Http]);
    assert!(g.has(&Capability::Http));
    assert!(!g.has_http());
    assert!(GrantSet::new(vec![Capability::HttpPost]).has_http());
}

#[test]
fn empty_grant_set_grants_nothing() {
    let g = GrantSet::default();
    for c in ALL.iter() {
        assert!(!g.has(c));
    }
    assert!(!g.has_http());
    let c = g.clone();
    assert!(!c.has_kv_get());
}

#[test]
fn default_limits() {
    assert_eq!(default_max_memory(), 64);
    assert_eq!(default_max_operations(), 1_000_000);
    assert_eq!(default_max_call_depth(), 64);
    assert_eq!(default_timeout(), 30);
    let l = ResourceLimits::default();
    assert_eq!(l.max_memory_mb, 64);
    assert_eq!(l.max_operations, 1_000_000);
    assert_eq!(l.max_call_depth, 64);
    assert_eq!(l.timeout_seconds, 30);
}
