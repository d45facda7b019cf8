use cortex::brain::{
    initial_state, AttachmentGrant, BrainState, MemoryObject, MergeStrategy, StoreError,
};
use cortex::crypto::sha256_hex;
use cortex::package::{
    open_brain, slugify, verify_manifest_signature, commit_brain, CreateBrainRequest,
};
use cortex::store::{AppConfig, BrainStore, BrainSummary};

fn grant(agent: &str, model: &str) -> AttachmentGrant {
    AttachmentGrant {
        agent_id: agent.to_string(),
        model_id: model.to_string(),
        read_classes: vec!["normative.preference".to_string()],
        write_classes: vec!["normative.preference".to_string()],
        sinks: vec!["none".to_string()],
        expires_at: None,
    }
}

fn object(id: &str, subject: &str, predicate: &str, value: &str, suppressed: bool) -> MemoryObject {
    MemoryObject {
        id: id.to_string(),
        subject: subject.to_string(),
        predicate: predicate.to_string(),
        value: value.to_string(),
        memory_type: "fact".to_string(),
        suppressed,
    }
}

fn store() -> BrainStore {
    BrainStore::new("/tmp/cortex-home".to_string())
}

fn create(name: &str, tenant: &str, secret: &str) -> cortex::package::CreatedBrain {
    let s = store();
    let req = CreateBrainRequest {
        name: name.to_string(),
        tenant_id: tenant.to_string(),
        passphrase_env: Some("TEST_BRAIN_SECRET".to_string()),
    };
    let id = s.new_brain_id(&req.name);
    s.create_brain(&req, &id, secret, b"{\"state\":1}").unwrap()
}

#[test]
fn create_export_import_roundtrip() {
    let s = store();
    let created = create("demo", "tenant-a", "test-secret");
    assert_eq!(created.summary.name, "demo");
    assert_eq!(created.summary.tenant_id, "tenant-a");
    assert_eq!(created.summary.active_branch, "main");
    assert!(verify_manifest_signature(&created.manifest).is_ok());

    let listed = vec![created.summary.clone()];
    let mut cfg = AppConfig { active_brain: None };
    s.set_active_brain(&listed, &mut cfg, &created.summary.brain_id).unwrap();
    assert_eq!(cfg.active_brain.as_deref(), Some(created.summary.brain_id.as_str()));

    let original_state = created.state.clone();
    let package = s
        .export_brain(created.manifest.clone(), created.state.clone(), created.signing_key.clone())
        .unwrap();
    let package2 = s
        .export_brain(created.manifest.clone(), created.state.clone(), created.signing_key.clone())
        .unwrap();

    let verify = s.import_brain(package, None, true, true, Some("test-secret")).unwrap();
    assert!(verify.is_none());

    let imported = s
        .import_brain(package2, Some("demo-copy".to_string()), false, true, Some("test-secret"))
        .unwrap()
        .unwrap();
    assert_eq!(imported.summary.name, "demo-copy");
    assert_ne!(imported.summary.brain_id, created.summary.brain_id);
    assert!(imported.summary.brain_id.starts_with(&created.summary.brain_id));
    assert!(verify_manifest_signature(&imported.manifest).is_ok());
    assert_eq!(cortex::package::blob_digest(&imported.state), imported.manifest.state_sha256);

    let before = open_brain(&created.manifest, &original_state, &created.signing_key, "test-secret").unwrap();
    let after = open_brain(&imported.manifest, &imported.state, &imported.signing_key, "test-secret").unwrap();
    assert_eq!(before.state_bytes, after.state_bytes);
    assert_eq!(after.state_bytes, b"{\"state\":1}".to_vec());

    let listed = s.list_brains(vec![created.summary.clone(), imported.summary.clone()]);
    assert!(listed.len() >= 2);
}

#[test]
fn branch_attach_forget_merge_audit() {
    let mut state: BrainState = initial_state("ops-1234abcd", "tenant-b");
    store().branch(&mut state, "main", "exp-a").unwrap();
    store().attach(&mut state, &grant("agent-1", "gpt-test"));
    let suppressed =
        store().forget_suppress(&mut state, "main", "user:x", "prefers_beverage", "SCOPE_GLOBAL", "test").unwrap();
    assert_eq!(suppressed, 0);
    let report = store().merge(&mut state, "exp-a", "main", MergeStrategy::Ours).unwrap();
    assert!(report.conflicts.is_empty());
    assert_eq!(report.merged, 0);
    let trace = store().audit_trace(&state);
    assert_eq!(trace.len(), state.audit.len());
    let actions: Vec<&str> = trace.iter().map(|a| a.action.as_str()).collect();
    assert_eq!(
        actions,
        vec!["brain.create", "brain.branch", "brain.attach", "brain.forget.suppress", "brain.merge"]
    );
    assert_eq!(trace[1].details, "{\"from\":\"main\",\"to\":\"exp-a\"}");
    assert_eq!(state.audit[0].details, "{\"brain_id\":\"ops-1234abcd\",\"tenant_id\":\"tenant-b\"}");
    assert_eq!(
        state.audit[3].details,
        "{\"predicate\":\"prefers_beverage\",\"scope\":\"SCOPE_GLOBAL\",\"subject\":\"user:x\",\"suppressed\":0}"
    );
    assert_eq!(state.audit[4].details, "{\"merged\":0,\"source\":\"exp-a\",\"target\":\"main\"}");
}

#[test]
fn branch_refuses_taken_name_and_missing_active() {
    let mut state = initial_state("b", "t");
    assert_eq!(store().branch(&mut state, "main", "main"), Err(StoreError::BranchExists));
    assert_eq!(store().branch(&mut state, "nope", "x"), Err(StoreError::ActiveBranchMissing));
    assert_eq!(state.branches.len(), 1);
    assert_eq!(state.audit.len(), 1);
}

#[test]
fn forget_flips_matching_and_is_idempotent() {
    let mut state = initial_state("b", "t");
    state.branches[0].memory_objects = vec![
        object("o1", "user:x", "prefers_beverage", "\"tea\"", false),
        object("o2", "user:x", "prefers_beverage", "\"coffee\"", true),
        object("o3", "user:y", "prefers_beverage", "\"tea\"", false),
    ];
    let n = store().forget_suppress(&mut state, "main", "user:x", "prefers_beverage", "SCOPE_GLOBAL", "r").unwrap();
    assert_eq!(n, 1);
    let b = &state.branches[0];
    assert!(b.memory_objects[0].suppressed && b.memory_objects[1].suppressed);
    assert!(!b.memory_objects[2].suppressed);
    assert_eq!(b.suppressions.len(), 1);
    assert_eq!(b.suppressions[0].suppressed_count, 1);
    let again = store().forget_suppress(&mut state, "main", "user:x", "prefers_beverage", "SCOPE_GLOBAL", "r").unwrap();
    assert_eq!(again, 0);
    assert_eq!(store().forget_suppress(&mut state, "gone", "s", "p", "g", "r"), Err(StoreError::ActiveBranchMissing));
}

fn two_branch_state() -> BrainState {
    let mut state = initial_state("b", "t");
    store().branch(&mut state, "main", "src").unwrap();
    state.branches[0].memory_objects = vec![
        object("a", "s", "p", "1", false),
        object("b", "s", "p", "2", false),
    ];
    state.branches[1].memory_objects = vec![
        object("a", "s", "p", "1", false),
        object("b", "s", "p", "20", false),
        object("c", "s", "p", "3", true),
    ];
    state
}

#[test]
fn merge_theirs_overwrites_and_inserts() {
    let mut state = two_branch_state();
    let report = store().merge(&mut state, "src", "main", MergeStrategy::Theirs).unwrap();
    assert_eq!(report.merged, 2);
    let main = &state.branches[0].memory_objects;
    for src in &state.branches[1].memory_objects {
        let dst = main.iter().find(|o| o.id == src.id).unwrap();
        assert_eq!((dst.value.as_str(), dst.suppressed), (src.value.as_str(), src.suppressed));
    }
}

#[test]
fn merge_ours_keeps_target_and_manual_reports_conflicts() {
    let mut state = two_branch_state();
    let report = store().merge(&mut state, "src", "main", MergeStrategy::Ours).unwrap();
    assert_eq!(report.merged, 1);
    assert_eq!(state.branches[0].memory_objects[1].value, "2");
    assert_eq!(state.branches[0].memory_objects.len(), 3);

    let mut state = two_branch_state();
    let audits = state.audit.len();
    let r = store().merge(&mut state, "src", "main", MergeStrategy::Manual);
    assert_eq!(r.unwrap_err(), StoreError::MergeConflicts(vec!["b".to_string()]));
    assert_eq!(state.branches[0].memory_objects.len(), 2);
    assert_eq!(state.audit.len(), audits);
    assert_eq!(store().merge(&mut state, "x", "main", MergeStrategy::Ours).unwrap_err(), StoreError::UnknownSourceBranch);
    assert_eq!(store().merge(&mut state, "src", "x", MergeStrategy::Ours).unwrap_err(), StoreError::UnknownTargetBranch);
}

#[test]
fn attach_replaces_and_detach_counts() {
    let mut state = initial_state("b", "t");
    store().attach(&mut state, &grant("agent-1", "m1"));
    store().attach(&mut state, &grant("agent-1", "m2"));
    let mut g = grant("agent-1", "m1");
    g.sinks = vec!["log".to_string()];
    store().attach(&mut state, &g);
    assert_eq!(state.attachments.len(), 2);
    assert_eq!(state.attachments[1].sinks, vec!["log".to_string()]);
    assert_eq!(store().detach(&mut state, "agent-1", Some("m2")), 1);
    assert_eq!(store().detach(&mut state, "agent-1", None), 1);
    assert_eq!(store().detach(&mut state, "agent-1", None), 0);
    assert_eq!(
        state.audit.last().unwrap().details,
        "{\"agent\":\"agent-1\",\"model\":null,\"removed\":0}"
    );
}

#[test]
fn api_key_remap_resolves_latest() {
    let s = store();
    let mut mappings = Vec::new();
    s.map_api_key(&mut mappings, "key-1", "tenant-a", "brain-1", "user:a");
    s.map_api_key(&mut mappings, "key-2", "tenant-a", "brain-2", "user:b");
    s.map_api_key(&mut mappings, "key-1", "tenant-c", "brain-3", "user:c");
    assert_eq!(mappings.len(), 2);
    let m = s.resolve_api_key(&mappings, "key-1").unwrap();
    assert_eq!((m.brain_id.as_str(), m.subject.as_str()), ("brain-3", "user:c"));
    assert_eq!(m.key_hash, sha256_hex(b"key-1"));
    assert!(s.resolve_api_key(&mappings, "key-9").is_none());
}

#[test]
fn sha256_hex_of_known_input() {
    assert_eq!(
        sha256_hex(b"abc"),
        "ba7816bf8f01cfea414140de5dae2223b00361a396177a9cb410ff61f20015ad"
    );
}

#[test]
fn resolve_brain_by_id_or_name_and_active() {
    let s = store();
    let listed = vec![
        BrainSummary { brain_id: "demo-1".into(), name: "demo".into(), tenant_id: "t".into(), updated_at: "u".into(), active_branch: "main".into() },
        BrainSummary { brain_id: "ops-2".into(), name: "ops".into(), tenant_id: "t".into(), updated_at: "u".into(), active_branch: "main".into() },
    ];
    assert_eq!(s.resolve_brain(&listed, "ops").unwrap().brain_id, "ops-2");
    assert_eq!(s.resolve_brain(&listed, "demo-1").unwrap().name, "demo");
    assert_eq!(s.resolve_brain(&listed, "none").unwrap_err(), StoreError::BrainNotFound);
    let cfg = AppConfig { active_brain: Some("ops-2".into()) };
    assert_eq!(s.resolve_brain_or_active(&listed, None, Some(" demo "), &cfg).unwrap().brain_id, "demo-1");
    assert_eq!(s.resolve_brain_or_active(&listed, None, None, &cfg).unwrap().brain_id, "ops-2");
    let empty = AppConfig { active_brain: None };
    assert_eq!(s.resolve_brain_or_active(&listed, None, None, &empty).unwrap_err(), StoreError::NoActiveBrain);
    assert_eq!(s.config_path(), "/tmp/cortex-home/config.json");
    assert_eq!(s.api_mapping_path(), "/tmp/cortex-home/auth/api_keys.json");
}

#[test]
fn slug_and_brain_id() {
    assert_eq!(slugify("My  Brain!"), "my-brain");
    assert_eq!(slugify("--Demo--"), "demo");
    let id = store().new_brain_id("Demo Brain");
    assert!(id.starts_with("demo-brain-"));
    assert_eq!(id.len(), "demo-brain-".len() + 8);
}

#[test]
fn signature_breaks_when_a_field_changes() {
    let created = create("sig", "tenant", "pw");
    assert!(verify_manifest_signature(&created.manifest).is_ok());
    let mut tampered = created.manifest.clone();
    tampered.name = "other".to_string();
    assert_eq!(verify_manifest_signature(&tampered), Err(StoreError::SignatureInvalid));
}

#[test]
fn state_bound_to_brain_id() {
    let created = create("bind", "tenant", "pw");
    let opened = open_brain(&created.manifest, &created.state, &created.signing_key, "pw").unwrap();
    let other_id = b"someone-else".to_vec();
    assert_eq!(
        cortex::package::open_bytes(&opened.key, &other_id, &created.state).unwrap_err(),
        StoreError::DecryptionFailed
    );
    assert!(open_brain(&created.manifest, &created.state, &created.signing_key, "wrong").is_err());
}

#[test]
fn commit_keeps_digest_and_signature() {
    let created = create("commit", "tenant", "pw");
    let opened = open_brain(&created.manifest, &created.state, &created.signing_key, "pw").unwrap();
    let mut manifest = created.manifest.clone();
    let blob = commit_brain(&mut manifest, &opened, b"{\"changed\":true}").unwrap();
    assert_eq!(cortex::package::blob_digest(&blob), manifest.state_sha256);
    assert!(verify_manifest_signature(&manifest).is_ok());
    let reopened = open_brain(&manifest, &blob, &created.signing_key, "pw").unwrap();
    assert_eq!(reopened.state_bytes, b"{\"changed\":true}".to_vec());
    assert_eq!(open_brain(&manifest, &created.state, &created.signing_key, "pw").err(), Some(StoreError::StateChecksumMismatch));
}

#[test]
fn list_brains_sorted_by_name() {
    let s = store();
    let b = |id: &str, name: &str| BrainSummary { brain_id: id.into(), name: name.into(), tenant_id: "t".into(), updated_at: "u".into(), active_branch: "main".into() };
    let sorted = s.list_brains(vec![b("3", "ops"), b("1", "demo"), b("2", "Zeta"), b("4", "demo")]);
    let ids: Vec<&str> = sorted.iter().map(|x| x.brain_id.as_str()).collect();
    assert_eq!(ids, vec!["2", "1", "4", "3"]);
}

#[test]
fn manifest_encodings_have_expected_lengths() {
    let created = create("enc", "tenant", "pw");
    assert_eq!(created.manifest.kdf_salt_b64.len(), 24);
    assert_eq!(created.manifest.signing_public_key_b64.len(), 44);
    assert_eq!(created.manifest.signature_b64.len(), 88);
    assert_eq!(created.manifest.state_sha256.len(), 64);
    assert_eq!(created.state.nonce_b64.len(), 32);
    assert_eq!(created.manifest.secret_env_var, "TEST_BRAIN_SECRET");
    assert_eq!(created.manifest.format_version, "brain/v1");
}

#[test]
fn created_summary_fields_and_sealed_seed() {
    let created = create("demo", "tenant-a", "test-secret");
    assert_eq!(created.summary.tenant_id, "tenant-a");
    assert_eq!(created.summary.active_branch, "main");
    assert_eq!(created.summary.updated_at, created.manifest.updated_at);
    let opened = open_brain(&created.manifest, &created.state, &created.signing_key, "test-secret").unwrap();
    assert_eq!(opened.seed.len(), 32);
}
