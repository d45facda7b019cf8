//! The brain store's bookkeeping: where its files live, the API-key map,
//! resolving a brain by id or name, and the active brain.

use vstd::prelude::*;
use vstd::utf8::encode_utf8;
use vstd::seq_lib::group_to_multiset_ensures;
use crate::crypto::{hex_of, sha256_of, sha256_hex};
use crate::brain::StoreError;
use crate::text::trim_string;

verus! {

/// The home directory of a store; the files themselves are read and written
/// by the caller.
#[derive(Debug, Clone)]
pub struct BrainStore {
    home_dir: String,
}

/// A brain as listed: id, name, tenant, last update and active branch.
#[derive(Debug, Clone)]
pub struct BrainSummary {
    pub brain_id: String,
    pub name: String,
    pub tenant_id: String,
    pub updated_at: String,
    pub active_branch: String,
}

/// The store's configuration file.
#[derive(Debug, Clone)]
pub struct AppConfig {
    pub active_brain: Option<String>,
}

/// Which tenant, brain and subject an API key stands for; the key is kept as
/// the hex SHA-256 of its text.
#[derive(Debug, Clone)]
pub struct ApiKeyMapping {
    pub key_hash: String,
    pub tenant_id: String,
    pub brain_id: String,
    pub subject: String,
}

pub struct MappingV {
    pub key_hash: Seq<char>,
    pub tenant_id: Seq<char>,
    pub brain_id: Seq<char>,
    pub subject: Seq<char>,
}

impl View for ApiKeyMapping {
    type V = MappingV;

    open spec fn view(&self) -> MappingV {
        MappingV {
            key_hash: self.key_hash@,
            tenant_id: self.tenant_id@,
            brain_id: self.brain_id@,
            subject: self.subject@,
        }
    }
}

pub open spec fn mappings_v(v: Seq<ApiKeyMapping>) -> Seq<MappingV> {
    v.map_values(|m: ApiKeyMapping| m@)
}

/// The hex SHA-256 of a key's UTF-8 text.
pub open spec fn key_digest(plain: Seq<char>) -> Seq<char> {
    hex_of(sha256_of(encode_utf8(plain)))
}

/// The mappings whose key hash is not `h`, in order.
pub open spec fn without_hash(v: Seq<MappingV>, h: Seq<char>) -> Seq<MappingV>
    decreases v.len(),
{
    if v.len() == 0 {
        seq![]
    } else if v.last().key_hash == h {
        without_hash(v.drop_last(), h)
    } else {
        without_hash(v.drop_last(), h).push(v.last())
    }
}

/// The first mapping from index `i` on whose key hash is `h`.
pub open spec fn hash_from(v: Seq<MappingV>, h: Seq<char>, i: int) -> Option<MappingV>
    decreases v.len() - i,
{
    if i < 0 || i >= v.len() {
        None
    } else if v[i].key_hash == h {
        Some(v[i])
    } else {
        hash_from(v, h, i + 1)
    }
}

proof fn lemma_without_hash(v: Seq<MappingV>, h: Seq<char>)
    ensures
        forall|i: int| 0 <= i < without_hash(v, h).len() ==> (#[trigger] without_hash(v, h)[i]).key_hash != h,
    decreases v.len(),
{
    if v.len() > 0 {
        lemma_without_hash(v.drop_last(), h);
        let w = without_hash(v.drop_last(), h);
        if v.last().key_hash != h {
            assert forall|i: int| 0 <= i < w.push(v.last()).len() implies (#[trigger] w.push(
                v.last(),
            )[i]).key_hash != h by {
                if i < w.len() {
                    assert(w.push(v.last())[i] == w[i]);
                }
            }
        }
    }
}

proof fn lemma_hash_from_absent(v: Seq<MappingV>, h: Seq<char>, m: MappingV, i: int)
    requires
        0 <= i <= v.len(),
        forall|k: int| 0 <= k < v.len() ==> (#[trigger] v[k]).key_hash != h,
        m.key_hash == h,
    ensures
        hash_from(v.push(m), h, i) == Some(m),
    decreases v.len() - i,
{
    if i < v.len() {
        assert(v.push(m)[i] == v[i]);
        lemma_hash_from_absent(v, h, m, i + 1);
    }
}

/// Mapping a key again replaces what it was mapped to before: afterwards the
/// key resolves to the latest mapping, and no other mapping holds its hash.
pub proof fn lemma_remap_resolves_latest(
    v: Seq<MappingV>,
    plain: Seq<char>,
    tenant_id: Seq<char>,
    brain_id: Seq<char>,
    subject: Seq<char>,
)
    ensures
        ({
            let h = key_digest(plain);
            let m = MappingV { key_hash: h, tenant_id, brain_id, subject };
            let after = without_hash(v, h).push(m);
            &&& hash_from(after, h, 0) == Some(m)
            &&& forall|i: int|
                0 <= i < after.len() && (#[trigger] after[i]).key_hash == h ==> after[i] == m
        }),
{
    let h = key_digest(plain);
    let m = MappingV { key_hash: h, tenant_id, brain_id, subject };
    lemma_without_hash(v, h);
    lemma_hash_from_absent(without_hash(v, h), h, m, 0);
}

/// The first brain listed whose id or name is `r`.
pub open spec fn summary_from(v: Seq<BrainSummary>, r: Seq<char>, i: int) -> Option<BrainSummary>
    decreases v.len() - i,
{
    if i < 0 || i >= v.len() {
        None
    } else if v[i].brain_id@ == r || v[i].name@ == r {
        Some(v[i])
    } else {
        summary_from(v, r, i + 1)
    }
}

impl BrainSummary {
    pub fn copy(&self) -> (r: BrainSummary)
        ensures
            r == *self,
    {
        BrainSummary {
            brain_id: self.brain_id.clone(),
            name: self.name.clone(),
            tenant_id: self.tenant_id.clone(),
            updated_at: self.updated_at.clone(),
            active_branch: self.active_branch.clone(),
        }
    }
}

impl BrainStore {
    pub fn new(home_dir: String) -> (r: BrainStore)
        ensures
            r.home() == home_dir@,
    {
        BrainStore { home_dir }
    }

    pub closed spec fn home(&self) -> Seq<char> {
        self.home_dir@
    }

    pub fn home_dir(&self) -> (r: &String)
        ensures
            r@ == self.home(),
    {
        &self.home_dir
    }

    /// `<home>/brains`, where each brain has a directory named by its id.
    pub fn brains_dir(&self) -> (r: String)
        ensures
            r@ == self.home() + "/brains"@,
    {
        self.home_dir.clone().concat("/brains")
    }

    /// `<home>/config.json`.
    pub fn config_path(&self) -> (r: String)
        ensures
            r@ == self.home() + "/config.json"@,
    {
        self.home_dir.clone().concat("/config.json")
    }

    /// `<home>/auth/api_keys.json`.
    pub fn api_mapping_path(&self) -> (r: String)
        ensures
            r@ == self.home() + "/auth/api_keys.json"@,
    {
        self.home_dir.clone().concat("/auth/api_keys.json")
    }

    /// `<home>/brains/<brain_id>`.
    pub fn brain_dir(&self, brain_id: &str) -> (r: String)
        ensures
            r@ == self.home() + "/brains/"@ + brain_id@,
    {
        self.home_dir.clone().concat("/brains/").concat(brain_id)
    }

    /// Maps an API key, replacing any mapping of the same key.
    pub fn map_api_key(
        &self,
        mappings: &mut Vec<ApiKeyMapping>,
        api_key_plain: &str,
        tenant_id: &str,
        brain_id: &str,
        subject: &str,
    )
        ensures
            mappings_v(final(mappings)@) == without_hash(
                mappings_v(old(mappings)@),
                key_digest(api_key_plain@),
            ).push(
                MappingV {
                    key_hash: key_digest(api_key_plain@),
                    tenant_id: tenant_id@,
                    brain_id: brain_id@,
                    subject: subject@,
                },
            ),
    {
        let hash = sha256_hex(api_key_plain.as_bytes());
        let mut kept: Vec<ApiKeyMapping> = Vec::new();
        let mut i: usize = 0;
        while i < mappings.len()
            invariant
                i <= mappings@.len(),
                hash@ == key_digest(api_key_plain@),
                mappings_v(kept@) == without_hash(
                    mappings_v(mappings@.subrange(0, i as int)),
                    hash@,
                ),
            decreases mappings.len() - i,
        {
            let m = &mappings[i];
            let ghost k0 = kept@;
            proof {
                assert(mappings_v(mappings@.subrange(0, i + 1)).drop_last() =~= mappings_v(
                    mappings@.subrange(0, i as int),
                ));
            }
            if m.key_hash != hash {
                kept.push(
                    ApiKeyMapping {
                        key_hash: m.key_hash.clone(),
                        tenant_id: m.tenant_id.clone(),
                        brain_id: m.brain_id.clone(),
                        subject: m.subject.clone(),
                    },
                );
                assert(mappings_v(kept@) =~= mappings_v(k0).push(m@));
            }
            i += 1;
        }
        proof {
            assert(mappings@.subrange(0, i as int) =~= mappings@);
        }
        let ghost k1 = kept@;
        kept.push(
            ApiKeyMapping {
                key_hash: hash,
                tenant_id: String::from_str(tenant_id),
                brain_id: String::from_str(brain_id),
                subject: String::from_str(subject),
            },
        );
        assert(mappings_v(kept@) =~= mappings_v(k1).push(kept@.last()@));
        *mappings = kept;
    }

    /// The mapping of an API key, compared by the hash of its text.
    pub fn resolve_api_key(&self, mappings: &Vec<ApiKeyMapping>, api_key_plain: &str) -> (r: Option<
        ApiKeyMapping,
    >)
        ensures
            match r {
                Some(m) => hash_from(mappings_v(mappings@), key_digest(api_key_plain@), 0) == Some(
                    m@,
                ),
                None => hash_from(mappings_v(mappings@), key_digest(api_key_plain@), 0).is_none(),
            },
    {
        let hash = sha256_hex(api_key_plain.as_bytes());
        let mut i: usize = 0;
        while i < mappings.len()
            invariant
                i <= mappings@.len(),
                hash@ == key_digest(api_key_plain@),
                hash_from(mappings_v(mappings@), hash@, 0) == hash_from(
                    mappings_v(mappings@),
                    hash@,
                    i as int,
                ),
            decreases mappings.len() - i,
        {
            let m = &mappings[i];
            if m.key_hash == hash {
                return Some(
                    ApiKeyMapping {
                        key_hash: m.key_hash.clone(),
                        tenant_id: m.tenant_id.clone(),
                        brain_id: m.brain_id.clone(),
                        subject: m.subject.clone(),
                    },
                );
            }
            i += 1;
        }
        None
    }

    /// The listed brain whose id or name is `brain_ref`.
    pub fn resolve_brain(&self, listed: &Vec<BrainSummary>, brain_ref: &str) -> (r: Result<
        BrainSummary,
        StoreError,
    >)
        ensures
            match summary_from(listed@, brain_ref@, 0) {
                Some(s) => r == Ok::<BrainSummary, StoreError>(s),
                None => r == Err::<BrainSummary, StoreError>(StoreError::BrainNotFound),
            },
    {
        let target = String::from_str(brain_ref);
        let mut i: usize = 0;
        while i < listed.len()
            invariant
                i <= listed@.len(),
                target@ == brain_ref@,
                summary_from(listed@, brain_ref@, 0) == summary_from(listed@, brain_ref@, i as int),
            decreases listed.len() - i,
        {
            if listed[i].brain_id == target || listed[i].name == target {
                return Ok(listed[i].copy());
            }
            i += 1;
        }
        Err(StoreError::BrainNotFound)
    }

    /// The active brain's id in the configuration.
    pub fn active_brain_id(&self, cfg: &AppConfig) -> (r: Option<String>)
        ensures
            r == cfg.active_brain,
    {
        match &cfg.active_brain {
            Some(a) => Some(a.clone()),
            None => None,
        }
    }

    /// Makes the brain named by `brain_ref` the active one.
    pub fn set_active_brain(
        &self,
        listed: &Vec<BrainSummary>,
        cfg: &mut AppConfig,
        brain_ref: &str,
    ) -> (r: Result<BrainSummary, StoreError>)
        ensures
            match summary_from(listed@, brain_ref@, 0) {
                Some(s) => r == Ok::<BrainSummary, StoreError>(s) && final(cfg).active_brain == Some(
                    s.brain_id,
                ),
                None => r == Err::<BrainSummary, StoreError>(StoreError::BrainNotFound) && *final(cfg)
                    == *old(cfg),
            },
    {
        let summary = match self.resolve_brain(listed, brain_ref) {
            Ok(s) => s,
            Err(e) => {
                return Err(e);
            },
        };
        cfg.active_brain = Some(summary.brain_id.clone());
        Ok(summary)
    }

    /// Resolves the brain to work on: the explicit reference, else the one
    /// named by the environment's override (trimmed), else the active brain.
    pub fn resolve_brain_or_active(
        &self,
        listed: &Vec<BrainSummary>,
        brain_ref: Option<&str>,
        env_brain: Option<&str>,
        cfg: &AppConfig,
    ) -> (r: Result<BrainSummary, StoreError>)
        ensures
            ({
                let wanted = match brain_ref {
                    Some(b) => Some(b@),
                    None => match env_brain {
                        Some(e) => Some(crate::text::trim(e@)),
                        None => match cfg.active_brain {
                            Some(a) => Some(a@),
                            None => None,
                        },
                    },
                };
                match wanted {
                    None => r == Err::<BrainSummary, StoreError>(StoreError::NoActiveBrain),
                    Some(w) => match summary_from(listed@, w, 0) {
                        Some(s) => r == Ok::<BrainSummary, StoreError>(s),
                        None => r == Err::<BrainSummary, StoreError>(StoreError::BrainNotFound),
                    },
                }
            }),
    {
        if let Some(b) = brain_ref {
            return self.resolve_brain(listed, b);
        }
        if let Some(e) = env_brain {
            let t = trim_string(e);
            return self.resolve_brain(listed, t.as_str());
        }
        match &cfg.active_brain {
            Some(a) => self.resolve_brain(listed, a.as_str()),
            None => Err(StoreError::NoActiveBrain),
        }
    }
}

/// `a` comes no later than `b` in code-point order, as `str`'s ordering
/// places them.
pub open spec fn text_le(a: Seq<char>, b: Seq<char>) -> bool
    decreases a.len(),
{
    if a.len() == 0 {
        true
    } else if b.len() == 0 {
        false
    } else if a[0] != b[0] {
        a[0] < b[0]
    } else {
        text_le(a.drop_first(), b.drop_first())
    }
}

proof fn lemma_text_le_total(a: Seq<char>, b: Seq<char>)
    ensures
        text_le(a, b) || text_le(b, a),
    decreases a.len(),
{
    if a.len() > 0 && b.len() > 0 && a[0] == b[0] {
        lemma_text_le_total(a.drop_first(), b.drop_first());
    }
}

fn name_le(a: &String, b: &String) -> (r: bool)
    ensures
        r == text_le(a@, b@),
{
    let x = crate::text::chars_of(a.as_str());
    let y = crate::text::chars_of(b.as_str());
    let mut i: usize = 0;
    assert(x@.subrange(0, x@.len() as int) =~= x@);
    assert(y@.subrange(0, y@.len() as int) =~= y@);
    while i < x.len() && i < y.len() && x[i] == y[i]
        invariant
            x@ == a@,
            y@ == b@,
            i <= x@.len(),
            i <= y@.len(),
            text_le(a@, b@) == text_le(
                x@.subrange(i as int, x@.len() as int),
                y@.subrange(i as int, y@.len() as int),
            ),
        decreases x.len() - i,
    {
        assert(x@.subrange(i as int, x@.len() as int).drop_first() =~= x@.subrange(
            i + 1,
            x@.len() as int,
        ));
        assert(y@.subrange(i as int, y@.len() as int).drop_first() =~= y@.subrange(
            i + 1,
            y@.len() as int,
        ));
        i += 1;
    }
    if i == x.len() {
        true
    } else if i == y.len() {
        false
    } else {
        x[i] < y[i]
    }
}

/// Neighbours are in name order.
pub open spec fn sorted_by_name(v: Seq<BrainSummary>) -> bool {
    forall|i: int| 0 <= i < v.len() - 1 ==> text_le((#[trigger] v[i]).name@, v[i + 1].name@)
}

impl BrainStore {
    /// The brains found in the store, sorted by name.
    pub fn list_brains(&self, listed: Vec<BrainSummary>) -> (r: Vec<BrainSummary>)
        ensures
            sorted_by_name(r@),
            r@.to_multiset() == listed@.to_multiset(),
    {
        broadcast use group_to_multiset_ensures;

        let mut out: Vec<BrainSummary> = Vec::new();
        let mut i: usize = 0;
        while i < listed.len()
            invariant
                i <= listed@.len(),
                sorted_by_name(out@),
                out@.to_multiset() == listed@.subrange(0, i as int).to_multiset(),
            decreases listed.len() - i,
        {
            let x = listed[i].copy();
            let mut p: usize = 0;
            while p < out.len() && name_le(&out[p].name, &x.name)
                invariant
                    p <= out@.len(),
                    forall|k: int| 0 <= k < p ==> text_le((#[trigger] out@[k]).name@, x.name@),
                decreases out.len() - p,
            {
                p += 1;
            }
            proof {
                if p < out@.len() {
                    lemma_text_le_total(out@[p as int].name@, x.name@);
                }
                assert(listed@.subrange(0, i + 1) =~= listed@.subrange(0, i as int).push(x));
            }
            let ghost before = out@;
            out.insert(p, x);
            proof {
                assert(out@ =~= before.insert(p as int, x));
                vstd::seq_lib::to_multiset_insert(before, p as int, x);
                vstd::seq_lib::to_multiset_build(listed@.subrange(0, i as int), x);
                assert forall|k: int| 0 <= k < out@.len() - 1 implies text_le(
                    (#[trigger] out@[k]).name@,
                    out@[k + 1].name@,
                ) by {
                    if k < p as int - 1 {
                        assert(out@[k] == before[k] && out@[k + 1] == before[k + 1]);
                    } else if k == p as int - 1 {
                        assert(out@[k] == before[k] && out@[k + 1] == x);
                    } else if k == p as int {
                        assert(out@[k + 1] == before[k]);
                    } else {
                        assert(out@[k] == before[k - 1] && out@[k + 1] == before[k]);
                    }
                }
            }
            i += 1;
        }
        assert(listed@.subrange(0, i as int) =~= listed@);
        out
    }
}

} // verus!
