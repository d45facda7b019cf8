//! The decrypted content of a brain, and the changes that the store's
//! operations make to it.
//!
//! Keyed collections of the state are vectors whose keys are unique:
//! branches by name, memory objects by id.

use vstd::prelude::*;
use crate::crypto::{json_quote, json_quoted, new_uuid, now_rfc3339};
use crate::text::push_char;
use crate::store::BrainStore;

verus! {

/// A remembered fact; `value` is the JSON text of its value.
#[derive(Debug, Clone)]
pub struct MemoryObject {
    pub id: String,
    pub subject: String,
    pub predicate: String,
    pub value: String,
    pub memory_type: String,
    pub suppressed: bool,
}

#[derive(Debug, Clone)]
pub struct RuleEntry {
    pub id: String,
    pub description: String,
    pub allowed_sinks: Vec<String>,
}

/// A ledger event; `payload` is JSON text.
#[derive(Debug, Clone)]
pub struct LedgerEvent {
    pub id: String,
    pub ts: String,
    pub operation: String,
    pub payload: String,
}

#[derive(Debug, Clone)]
pub struct SuppressionRecord {
    pub id: String,
    pub ts: String,
    pub subject: String,
    pub predicate: String,
    pub scope: String,
    pub reason: String,
    pub suppressed_count: usize,
}

#[derive(Debug, Clone)]
pub struct AttachmentGrant {
    pub agent_id: String,
    pub model_id: String,
    pub read_classes: Vec<String>,
    pub write_classes: Vec<String>,
    pub sinks: Vec<String>,
    pub expires_at: Option<String>,
}

/// An audit record; `details` is JSON text.
#[derive(Debug, Clone)]
pub struct AuditEntry {
    pub id: String,
    pub ts: String,
    pub actor: String,
    pub action: String,
    pub details: String,
}

#[derive(Debug, Clone)]
pub struct BranchState {
    pub name: String,
    pub memory_objects: Vec<MemoryObject>,
    pub rules: Vec<RuleEntry>,
    pub ledger: Vec<LedgerEvent>,
    pub suppressions: Vec<SuppressionRecord>,
}

#[derive(Debug, Clone)]
pub struct BrainState {
    pub branches: Vec<BranchState>,
    pub attachments: Vec<AttachmentGrant>,
    pub audit: Vec<AuditEntry>,
}

pub struct ObjV {
    pub id: Seq<char>,
    pub subject: Seq<char>,
    pub predicate: Seq<char>,
    pub value: Seq<char>,
    pub memory_type: Seq<char>,
    pub suppressed: bool,
}

pub struct BranchV {
    pub name: Seq<char>,
    pub objects: Seq<ObjV>,
    pub rules: Seq<(Seq<char>, Seq<char>, Seq<Seq<char>>)>,
    pub ledger: Seq<(Seq<char>, Seq<char>, Seq<char>, Seq<char>)>,
    pub suppressions: Seq<SuppressionRecord>,
}

pub struct GrantV {
    pub agent_id: Seq<char>,
    pub model_id: Seq<char>,
    pub read_classes: Seq<Seq<char>>,
    pub write_classes: Seq<Seq<char>>,
    pub sinks: Seq<Seq<char>>,
    pub expires_at: Option<Seq<char>>,
}

pub struct AuditV {
    pub actor: Seq<char>,
    pub action: Seq<char>,
    pub details: Seq<char>,
}

pub open spec fn strs(v: Seq<String>) -> Seq<Seq<char>> {
    v.map_values(|s: String| s@)
}

impl View for MemoryObject {
    type V = ObjV;

    open spec fn view(&self) -> ObjV {
        ObjV {
            id: self.id@,
            subject: self.subject@,
            predicate: self.predicate@,
            value: self.value@,
            memory_type: self.memory_type@,
            suppressed: self.suppressed,
        }
    }
}

pub open spec fn rules_v(v: Seq<RuleEntry>) -> Seq<(Seq<char>, Seq<char>, Seq<Seq<char>>)> {
    v.map_values(|r: RuleEntry| (r.id@, r.description@, strs(r.allowed_sinks@)))
}

pub open spec fn ledger_v(v: Seq<LedgerEvent>) -> Seq<(Seq<char>, Seq<char>, Seq<char>, Seq<char>)> {
    v.map_values(|e: LedgerEvent| (e.id@, e.ts@, e.operation@, e.payload@))
}

pub open spec fn objs(v: Seq<MemoryObject>) -> Seq<ObjV> {
    v.map_values(|o: MemoryObject| o@)
}

impl View for BranchState {
    type V = BranchV;

    open spec fn view(&self) -> BranchV {
        BranchV {
            name: self.name@,
            objects: objs(self.memory_objects@),
            rules: rules_v(self.rules@),
            ledger: ledger_v(self.ledger@),
            suppressions: self.suppressions@,
        }
    }
}

impl View for AttachmentGrant {
    type V = GrantV;

    open spec fn view(&self) -> GrantV {
        GrantV {
            agent_id: self.agent_id@,
            model_id: self.model_id@,
            read_classes: strs(self.read_classes@),
            write_classes: strs(self.write_classes@),
            sinks: strs(self.sinks@),
            expires_at: match self.expires_at {
                Some(e) => Some(e@),
                None => None,
            },
        }
    }
}

/// What an audit entry records; its id and time stamp are left out.
impl View for AuditEntry {
    type V = AuditV;

    open spec fn view(&self) -> AuditV {
        AuditV { actor: self.actor@, action: self.action@, details: self.details@ }
    }
}

pub open spec fn branches(v: Seq<BranchState>) -> Seq<BranchV> {
    v.map_values(|b: BranchState| b@)
}

pub open spec fn grants(v: Seq<AttachmentGrant>) -> Seq<GrantV> {
    v.map_values(|g: AttachmentGrant| g@)
}

pub open spec fn audits(v: Seq<AuditEntry>) -> Seq<AuditV> {
    v.map_values(|a: AuditEntry| a@)
}

/// Branch names are unique, and so are object ids within each branch.
pub open spec fn state_wf(s: BrainState) -> bool {
    let bs = branches(s.branches@);
    &&& forall|i: int, j: int| 0 <= i < j < bs.len() ==> (#[trigger] bs[i]).name != (#[trigger] bs[j]).name
    &&& forall|k: int| 0 <= k < bs.len() ==> obj_ids_unique(#[trigger] bs[k].objects)
}

pub fn copy_strings(v: &Vec<String>) -> (r: Vec<String>)
    ensures
        r@ == v@,
{
    let r = v.clone();
    assert(r@ =~= v@);
    r
}

impl MemoryObject {
    pub fn copy(&self) -> (r: MemoryObject)
        ensures
            r@ == self@,
    {
        MemoryObject {
            id: self.id.clone(),
            subject: self.subject.clone(),
            predicate: self.predicate.clone(),
            value: self.value.clone(),
            memory_type: self.memory_type.clone(),
            suppressed: self.suppressed,
        }
    }
}

impl AttachmentGrant {
    pub fn copy(&self) -> (r: AttachmentGrant)
        ensures
            r@ == self@,
    {
        AttachmentGrant {
            agent_id: self.agent_id.clone(),
            model_id: self.model_id.clone(),
            read_classes: copy_strings(&self.read_classes),
            write_classes: copy_strings(&self.write_classes),
            sinks: copy_strings(&self.sinks),
            expires_at: match &self.expires_at {
                Some(e) => Some(e.clone()),
                None => None,
            },
        }
    }
}

impl BranchState {
    /// A copy of this branch under another name.
    pub fn copy_as(&self, name: String) -> (r: BranchState)
        ensures
            r@ == (BranchV { name: name@, ..self@ }),
    {
        let mut objects: Vec<MemoryObject> = Vec::new();
        let mut i: usize = 0;
        while i < self.memory_objects.len()
            invariant
                i <= self.memory_objects@.len(),
                objs(objects@) == objs(self.memory_objects@.subrange(0, i as int)),
            decreases self.memory_objects.len() - i,
        {
            let ghost before = objects@;
            objects.push(self.memory_objects[i].copy());
            assert(objs(objects@) =~= objs(before).push(self.memory_objects@[i as int]@));
            assert(self.memory_objects@.subrange(0, i + 1) =~= self.memory_objects@.subrange(0, i as int).push(self.memory_objects@[i as int]));
            assert(objs(objects@) =~= objs(self.memory_objects@.subrange(0, i + 1)));
            i += 1;
        }
        let mut rules: Vec<RuleEntry> = Vec::new();
        let mut j: usize = 0;
        while j < self.rules.len()
            invariant
                j <= self.rules@.len(),
                rules_v(rules@) == rules_v(self.rules@.subrange(0, j as int)),
            decreases self.rules.len() - j,
        {
            let r = &self.rules[j];
            let ghost before = rules@;
            assert(self.rules@.subrange(0, j + 1) =~= self.rules@.subrange(0, j as int).push(self.rules@[j as int]));
            rules.push(
                RuleEntry {
                    id: r.id.clone(),
                    description: r.description.clone(),
                    allowed_sinks: copy_strings(&r.allowed_sinks),
                },
            );
            assert(rules_v(rules@) =~= rules_v(before).push(rules_v(self.rules@)[j as int]));
            assert(rules_v(rules@) =~= rules_v(self.rules@.subrange(0, j + 1)));
            j += 1;
        }
        let mut ledger: Vec<LedgerEvent> = Vec::new();
        let mut k: usize = 0;
        while k < self.ledger.len()
            invariant
                k <= self.ledger@.len(),
                ledger_v(ledger@) == ledger_v(self.ledger@.subrange(0, k as int)),
            decreases self.ledger.len() - k,
        {
            let e = &self.ledger[k];
            let ghost before = ledger@;
            assert(self.ledger@.subrange(0, k + 1) =~= self.ledger@.subrange(0, k as int).push(self.ledger@[k as int]));
            ledger.push(
                LedgerEvent {
                    id: e.id.clone(),
                    ts: e.ts.clone(),
                    operation: e.operation.clone(),
                    payload: e.payload.clone(),
                },
            );
            assert(ledger_v(ledger@) =~= ledger_v(before).push(ledger_v(self.ledger@)[k as int]));
            assert(ledger_v(ledger@) =~= ledger_v(self.ledger@.subrange(0, k + 1)));
            k += 1;
        }
        let mut suppressions: Vec<SuppressionRecord> = Vec::new();
        let mut n: usize = 0;
        while n < self.suppressions.len()
            invariant
                n <= self.suppressions@.len(),
                suppressions@ == self.suppressions@.subrange(0, n as int),
            decreases self.suppressions.len() - n,
        {
            let s = &self.suppressions[n];
            suppressions.push(
                SuppressionRecord {
                    id: s.id.clone(),
                    ts: s.ts.clone(),
                    subject: s.subject.clone(),
                    predicate: s.predicate.clone(),
                    scope: s.scope.clone(),
                    reason: s.reason.clone(),
                    suppressed_count: s.suppressed_count,
                },
            );
            assert(suppressions@ =~= self.suppressions@.subrange(0, n + 1));
            n += 1;
        }
        proof {
            assert(self.memory_objects@.subrange(0, i as int) =~= self.memory_objects@);
            assert(self.rules@.subrange(0, j as int) =~= self.rules@);
            assert(self.ledger@.subrange(0, k as int) =~= self.ledger@);
            assert(self.suppressions@.subrange(0, n as int) =~= self.suppressions@);
        }
        BranchState { name, memory_objects: objects, rules, ledger, suppressions }
    }
}

/// Why a store operation failed.
#[derive(Debug, Clone, PartialEq, Eq)]
pub enum StoreError {
    SecretMissing,
    BrainNotFound,
    NoActiveBrain,
    BranchExists,
    ActiveBranchMissing,
    UnknownSourceBranch,
    UnknownTargetBranch,
    MergeConflicts(Vec<String>),
    KeyDerivationFailed,
    EncryptionFailed,
    DecryptionFailed,
    SignatureInvalid,
    InvalidSigningKey,
    StateChecksumMismatch,
    InvalidPackageVersion,
}

/// The index of the first branch from `i` on named `name`.
pub open spec fn index_from(s: Seq<BranchState>, name: Seq<char>, i: int) -> Option<int>
    decreases s.len() - i,
{
    if i < 0 || i >= s.len() {
        None
    } else if s[i].name@ == name {
        Some(i)
    } else {
        index_from(s, name, i + 1)
    }
}

/// The index of the branch named `name`.
pub open spec fn branch_pos(s: Seq<BranchState>, name: Seq<char>) -> Option<int> {
    index_from(s, name, 0)
}

pub proof fn lemma_index_from(s: Seq<BranchState>, name: Seq<char>, i: int)
    ensures
        index_from(s, name, i) matches Some(k) ==> i <= k < s.len() && s[k].name@ == name,
        index_from(s, name, i).is_none() && 0 <= i ==> forall|k: int|
            i <= k < s.len() ==> (#[trigger] s[k]).name@ != name,
    decreases s.len() - i,
{
    if !(i < 0 || i >= s.len()) && s[i].name@ != name {
        lemma_index_from(s, name, i + 1);
    }
}

/// Finds the branch named `name`.
pub fn find_branch(bs: &Vec<BranchState>, name: &str) -> (r: Option<usize>)
    ensures
        match r {
            Some(i) => branch_pos(bs@, name@) == Some(i as int) && i < bs@.len(),
            None => branch_pos(bs@, name@).is_none(),
        },
{
    let target = String::from_str(name);
    let mut i: usize = 0;
    while i < bs.len()
        invariant
            i <= bs@.len(),
            target@ == name@,
            branch_pos(bs@, name@) == index_from(bs@, name@, i as int),
        decreases bs.len() - i,
    {
        if bs[i].name == target {
            return Some(i);
        }
        i += 1;
    }
    None
}

/// The decimal digits of `n`.
pub open spec fn decimal(n: nat) -> Seq<char>
    decreases n,
{
    if n < 10 {
        seq![(('0' as nat) + n) as char]
    } else {
        decimal(n / 10) + seq![(('0' as nat) + n % 10) as char]
    }
}

pub fn decimal_string(n: usize) -> (r: String)
    ensures
        r@ == decimal(n as nat),
    decreases n,
{
    if n < 10 {
        let mut s = String::new();
        push_char(&mut s, (('0' as u8) + (n as u8)) as char);
        s
    } else {
        let mut s = decimal_string(n / 10);
        push_char(&mut s, (('0' as u8) + ((n % 10) as u8)) as char);
        s
    }
}

/// JSON text `{"a":A,"b":B}` from two keys and two JSON texts.
pub open spec fn json_obj2(k1: Seq<char>, v1: Seq<char>, k2: Seq<char>, v2: Seq<char>) -> Seq<char> {
    seq!['{'] + json_quoted(k1) + seq![':'] + v1 + seq![','] + json_quoted(k2) + seq![':'] + v2
        + seq!['}']
}

/// JSON text `{"a":A,"b":B,"c":C}`.
pub open spec fn json_obj3(
    k1: Seq<char>,
    v1: Seq<char>,
    k2: Seq<char>,
    v2: Seq<char>,
    k3: Seq<char>,
    v3: Seq<char>,
) -> Seq<char> {
    json_obj2(k1, v1, k2, v2).drop_last() + seq![','] + json_quoted(k3) + seq![':'] + v3 + seq![
        '}',
    ]
}

fn obj2(k1: &str, v1: &str, k2: &str, v2: &str) -> (r: String)
    ensures
        r@ == json_obj2(k1@, v1@, k2@, v2@),
{
    let mut s = String::new();
    push_char(&mut s, '{');
    s.append(json_quote(k1).as_str());
    push_char(&mut s, ':');
    s.append(v1);
    push_char(&mut s, ',');
    s.append(json_quote(k2).as_str());
    push_char(&mut s, ':');
    s.append(v2);
    push_char(&mut s, '}');
    assert(s@ =~= json_obj2(k1@, v1@, k2@, v2@));
    s
}

fn obj3(k1: &str, v1: &str, k2: &str, v2: &str, k3: &str, v3: &str) -> (r: String)
    ensures
        r@ == json_obj3(k1@, v1@, k2@, v2@, k3@, v3@),
{
    let mut s = String::new();
    push_char(&mut s, '{');
    s.append(json_quote(k1).as_str());
    push_char(&mut s, ':');
    s.append(v1);
    push_char(&mut s, ',');
    s.append(json_quote(k2).as_str());
    push_char(&mut s, ':');
    s.append(v2);
    push_char(&mut s, ',');
    s.append(json_quote(k3).as_str());
    push_char(&mut s, ':');
    s.append(v3);
    push_char(&mut s, '}');
    assert(json_obj2(k1@, v1@, k2@, v2@).drop_last() =~= seq!['{'] + json_quoted(k1@) + seq![':']
        + v1@ + seq![','] + json_quoted(k2@) + seq![':'] + v2@);
    assert(s@ =~= json_obj3(k1@, v1@, k2@, v2@, k3@, v3@));
    s
}

/// A new audit entry with a fresh id and the current time.
pub fn audit_entry(actor: &str, action: &str, details: String) -> (r: AuditEntry)
    ensures
        r@ == (AuditV { actor: actor@, action: action@, details: details@ }),
{
    AuditEntry {
        id: new_uuid(),
        ts: now_rfc3339(),
        actor: String::from_str(actor),
        action: String::from_str(action),
        details,
    }
}

pub open spec fn branch_details(from: Seq<char>, to: Seq<char>) -> Seq<char> {
    json_obj2("from"@, json_quoted(from), "to"@, json_quoted(to))
}

impl BrainStore {
    /// Copies the active branch into a new branch named `new_branch`.
    pub fn branch(&self, state: &mut BrainState, active_branch: &str, new_branch: &str) -> (r: Result<
        (),
        StoreError,
    >)
        ensures
            r.is_err() <==> branch_pos(old(state).branches@, new_branch@).is_some() || branch_pos(
                old(state).branches@,
                active_branch@,
            ).is_none(),
            r matches Err(e) ==> *final(state) == *old(state) && e == if branch_pos(
                old(state).branches@,
                new_branch@,
            ).is_some() {
                StoreError::BranchExists
            } else {
                StoreError::ActiveBranchMissing
            },
            state_wf(*old(state)) ==> state_wf(*final(state)),
            r.is_ok() ==> {
                let src = old(state).branches@[branch_pos(old(state).branches@, active_branch@).unwrap()];
                &&& branches(final(state).branches@) == branches(old(state).branches@).push(
                    BranchV { name: new_branch@, ..src@ },
                )
                &&& final(state).attachments == old(state).attachments
                &&& audits(final(state).audit@) == audits(old(state).audit@).push(
                    AuditV {
                        actor: "user"@,
                        action: "brain.branch"@,
                        details: branch_details(active_branch@, new_branch@),
                    },
                )
            },
    {
        if find_branch(&state.branches, new_branch).is_some() {
            return Err(StoreError::BranchExists);
        }
        let idx = match find_branch(&state.branches, active_branch) {
            Some(i) => i,
            None => {
                return Err(StoreError::ActiveBranchMissing);
            },
        };
        let copy = state.branches[idx].copy_as(String::from_str(new_branch));
        let ghost b0 = state.branches@;
        let ghost a0 = state.audit@;
        state.branches.push(copy);
        let details = obj2("from", json_quote(active_branch).as_str(), "to", json_quote(new_branch).as_str());
        state.audit.push(audit_entry("user", "brain.branch", details));
        proof {
            assert(branches(state.branches@) =~= branches(b0).push(copy@));
            assert(audits(state.audit@) =~= audits(a0).push(state.audit@.last()@));
            lemma_index_from(b0, new_branch@, 0);
            if state_wf(*old(state)) {
                let bs = branches(state.branches@);
                let ob = branches(b0);
                assert forall|i: int, j: int| 0 <= i < j < bs.len() implies (#[trigger] bs[i]).name
                    != (#[trigger] bs[j]).name by {
                    if j == ob.len() {
                        assert(bs[j].name == new_branch@);
                        assert(bs[i] == ob[i]);
                        assert(b0[i].name@ != new_branch@);
                    } else {
                        assert(bs[i] == ob[i] && bs[j] == ob[j]);
                    }
                }
                assert forall|k: int| 0 <= k < bs.len() implies obj_ids_unique(#[trigger] bs[k].objects) by {
                    if k == ob.len() {
                        assert(bs[k].objects == ob[idx as int].objects);
                    } else {
                        assert(bs[k] == ob[k]);
                    }
                }
            }
        }
        Ok(())
    }
}

/// The grant is held for the pair (agent, model).
pub open spec fn same_pair(g: GrantV, agent: Seq<char>, model: Seq<char>) -> bool {
    g.agent_id == agent && g.model_id == model
}

/// The grants that are not held for (agent, model), in order.
pub open spec fn without_pair(v: Seq<GrantV>, agent: Seq<char>, model: Seq<char>) -> Seq<GrantV>
    decreases v.len(),
{
    if v.len() == 0 {
        seq![]
    } else if same_pair(v.last(), agent, model) {
        without_pair(v.drop_last(), agent, model)
    } else {
        without_pair(v.drop_last(), agent, model).push(v.last())
    }
}

pub open spec fn attach_details(agent: Seq<char>, model: Seq<char>) -> Seq<char> {
    json_obj2("agent"@, json_quoted(agent), "model"@, json_quoted(model))
}

impl BrainStore {
    /// Grants `grant`, replacing any grant for the same agent and model.
    pub fn attach(&self, state: &mut BrainState, grant: &AttachmentGrant)
        ensures
            grants(final(state).attachments@) == without_pair(
                grants(old(state).attachments@),
                grant.agent_id@,
                grant.model_id@,
            ).push(grant@),
            final(state).branches == old(state).branches,
            state_wf(*old(state)) ==> state_wf(*final(state)),
            audits(final(state).audit@) == audits(old(state).audit@).push(
                AuditV {
                    actor: "user"@,
                    action: "brain.attach"@,
                    details: attach_details(grant.agent_id@, grant.model_id@),
                },
            ),
    {
        let mut kept: Vec<AttachmentGrant> = Vec::new();
        let mut i: usize = 0;
        while i < state.attachments.len()
            invariant
                i <= state.attachments@.len(),
                grants(kept@) == without_pair(
                    grants(state.attachments@.subrange(0, i as int)),
                    grant.agent_id@,
                    grant.model_id@,
                ),
            decreases state.attachments.len() - i,
        {
            let a = &state.attachments[i];
            let ghost k0 = kept@;
            proof {
                assert(grants(state.attachments@.subrange(0, i + 1)).drop_last() =~= grants(
                    state.attachments@.subrange(0, i as int),
                ));
            }
            if !(a.agent_id == grant.agent_id && a.model_id == grant.model_id) {
                kept.push(a.copy());
                assert(grants(kept@) =~= grants(k0).push(a@));
            }
            i += 1;
        }
        proof {
            assert(state.attachments@.subrange(0, i as int) =~= state.attachments@);
        }
        let ghost k1 = kept@;
        kept.push(grant.copy());
        assert(grants(kept@) =~= grants(k1).push(grant@));
        state.attachments = kept;
        let ghost a0 = state.audit@;
        let details = obj2("agent", json_quote(grant.agent_id.as_str()).as_str(), "model", json_quote(grant.model_id.as_str()).as_str());
        state.audit.push(audit_entry("user", "brain.attach", details));
        assert(audits(state.audit@) =~= audits(a0).push(state.audit@.last()@));
    }
}

/// The grant matches `agent` and, when given, `model`.
pub open spec fn detach_hit(g: GrantV, agent: Seq<char>, model: Option<Seq<char>>) -> bool {
    g.agent_id == agent && match model {
        Some(m) => g.model_id == m,
        None => true,
    }
}

/// The grants that `detach` keeps, in order.
pub open spec fn detach_kept(v: Seq<GrantV>, agent: Seq<char>, model: Option<Seq<char>>) -> Seq<
    GrantV,
>
    decreases v.len(),
{
    if v.len() == 0 {
        seq![]
    } else if detach_hit(v.last(), agent, model) {
        detach_kept(v.drop_last(), agent, model)
    } else {
        detach_kept(v.drop_last(), agent, model).push(v.last())
    }
}

pub proof fn lemma_detach_kept_len(v: Seq<GrantV>, agent: Seq<char>, model: Option<Seq<char>>)
    ensures
        detach_kept(v, agent, model).len() <= v.len(),
    decreases v.len(),
{
    if v.len() > 0 {
        lemma_detach_kept_len(v.drop_last(), agent, model);
    }
}

pub open spec fn detach_details(agent: Seq<char>, model: Option<Seq<char>>, removed: nat) -> Seq<
    char,
> {
    json_obj3(
        "agent"@,
        json_quoted(agent),
        "model"@,
        match model {
            Some(m) => json_quoted(m),
            None => "null"@,
        },
        "removed"@,
        decimal(removed),
    )
}

impl BrainStore {
    /// Removes the grants of `agent` (for `model` only, when given) and returns
    /// how many were removed.
    pub fn detach(&self, state: &mut BrainState, agent: &str, model: Option<&str>) -> (r: usize)
        ensures
            grants(final(state).attachments@) == detach_kept(
                grants(old(state).attachments@),
                agent@,
                match model {
                    Some(m) => Some(m@),
                    None => None,
                },
            ),
            r == old(state).attachments@.len() - final(state).attachments@.len(),
            final(state).branches == old(state).branches,
            state_wf(*old(state)) ==> state_wf(*final(state)),
            audits(final(state).audit@) == audits(old(state).audit@).push(
                AuditV {
                    actor: "user"@,
                    action: "brain.detach"@,
                    details: detach_details(
                        agent@,
                        match model {
                            Some(m) => Some(m@),
                            None => None,
                        },
                        r as nat,
                    ),
                },
            ),
    {
        let ghost mv = match model {
            Some(m) => Some(m@),
            None => None,
        };
        let agent_s = String::from_str(agent);
        let model_s = match model {
            Some(m) => Some(String::from_str(m)),
            None => None,
        };
        let mut kept: Vec<AttachmentGrant> = Vec::new();
        let mut i: usize = 0;
        while i < state.attachments.len()
            invariant
                i <= state.attachments@.len(),
                agent_s@ == agent@,
                mv == match model_s {
                    Some(m) => Some(m@),
                    None => None::<Seq<char>>,
                },
                grants(kept@) == detach_kept(grants(state.attachments@.subrange(0, i as int)), agent@, mv),
            decreases state.attachments.len() - i,
        {
            let a = &state.attachments[i];
            let ghost k0 = kept@;
            proof {
                assert(grants(state.attachments@.subrange(0, i + 1)).drop_last() =~= grants(
                    state.attachments@.subrange(0, i as int),
                ));
            }
            let hit = a.agent_id == agent_s && match &model_s {
                Some(m) => a.model_id == *m,
                None => true,
            };
            if !hit {
                kept.push(a.copy());
                assert(grants(kept@) =~= grants(k0).push(a@));
            }
            i += 1;
        }
        proof {
            assert(state.attachments@.subrange(0, i as int) =~= state.attachments@);
            lemma_detach_kept_len(grants(state.attachments@), agent@, mv);
        }
        let removed = state.attachments.len() - kept.len();
        state.attachments = kept;
        let model_json = match model {
            Some(m) => json_quote(m),
            None => String::from_str("null"),
        };
        let details = obj3("agent", json_quote(agent).as_str(), "model", model_json.as_str(), "removed", decimal_string(removed).as_str());
        let ghost a0 = state.audit@;
        state.audit.push(audit_entry("user", "brain.detach", details));
        assert(audits(state.audit@) =~= audits(a0).push(state.audit@.last()@));
        removed
    }
}

/// JSON text with four members.
pub open spec fn json_obj4(
    k1: Seq<char>,
    v1: Seq<char>,
    k2: Seq<char>,
    v2: Seq<char>,
    k3: Seq<char>,
    v3: Seq<char>,
    k4: Seq<char>,
    v4: Seq<char>,
) -> Seq<char> {
    json_obj3(k1, v1, k2, v2, k3, v3).drop_last() + seq![','] + json_quoted(k4) + seq![':'] + v4
        + seq!['}']
}

fn obj4(k1: &str, v1: &str, k2: &str, v2: &str, k3: &str, v3: &str, k4: &str, v4: &str) -> (r:
    String)
    ensures
        r@ == json_obj4(k1@, v1@, k2@, v2@, k3@, v3@, k4@, v4@),
{
    let mut s = String::new();
    push_char(&mut s, '{');
    s.append(json_quote(k1).as_str());
    push_char(&mut s, ':');
    s.append(v1);
    push_char(&mut s, ',');
    s.append(json_quote(k2).as_str());
    push_char(&mut s, ':');
    s.append(v2);
    push_char(&mut s, ',');
    s.append(json_quote(k3).as_str());
    push_char(&mut s, ':');
    s.append(v3);
    push_char(&mut s, ',');
    s.append(json_quote(k4).as_str());
    push_char(&mut s, ':');
    s.append(v4);
    push_char(&mut s, '}');
    let ghost head_two = seq!['{'] + json_quoted(k1@) + seq![':'] + v1@ + seq![','] + json_quoted(k2@)
        + seq![':'] + v2@;
    assert(json_obj2(k1@, v1@, k2@, v2@).drop_last() =~= head_two);
    let ghost head_three = head_two + seq![','] + json_quoted(k3@) + seq![':'] + v3@;
    assert(json_obj3(k1@, v1@, k2@, v2@, k3@, v3@).drop_last() =~= head_three);
    assert(s@ =~= json_obj4(k1@, v1@, k2@, v2@, k3@, v3@, k4@, v4@));
    s
}

/// The object states the fact `(subject, predicate)`.
pub open spec fn states_fact(o: ObjV, subject: Seq<char>, predicate: Seq<char>) -> bool {
    o.subject == subject && o.predicate == predicate
}

/// The objects with every one that states the fact marked suppressed.
pub open spec fn suppress_matching(v: Seq<ObjV>, subject: Seq<char>, predicate: Seq<char>) -> Seq<
    ObjV,
> {
    v.map_values(
        |o: ObjV|
            if states_fact(o, subject, predicate) {
                ObjV { suppressed: true, ..o }
            } else {
                o
            },
    )
}

/// How many objects state the fact and are not yet suppressed.
pub open spec fn unsuppressed_count(v: Seq<ObjV>, subject: Seq<char>, predicate: Seq<char>) -> nat
    decreases v.len(),
{
    if v.len() == 0 {
        0
    } else {
        unsuppressed_count(v.drop_last(), subject, predicate) + if states_fact(
            v.last(),
            subject,
            predicate,
        ) && !v.last().suppressed {
            1nat
        } else {
            0nat
        }
    }
}

proof fn lemma_unsuppressed_bound(v: Seq<ObjV>, subject: Seq<char>, predicate: Seq<char>)
    ensures
        unsuppressed_count(v, subject, predicate) <= v.len(),
    decreases v.len(),
{
    if v.len() > 0 {
        lemma_unsuppressed_bound(v.drop_last(), subject, predicate);
    }
}

/// After suppression no object that states the fact is unsuppressed, so a
/// second suppression of the same fact flips nothing.
pub proof fn lemma_forget_suppresses(v: Seq<ObjV>, subject: Seq<char>, predicate: Seq<char>)
    ensures
        forall|i: int|
            0 <= i < v.len() && states_fact(
                #[trigger] suppress_matching(v, subject, predicate)[i],
                subject,
                predicate,
            ) ==> suppress_matching(v, subject, predicate)[i].suppressed,
        unsuppressed_count(suppress_matching(v, subject, predicate), subject, predicate) == 0,
    decreases v.len(),
{
    if v.len() > 0 {
        lemma_forget_suppresses(v.drop_last(), subject, predicate);
        assert(suppress_matching(v, subject, predicate).drop_last() =~= suppress_matching(
            v.drop_last(),
            subject,
            predicate,
        ));
    }
}

pub open spec fn forget_details(
    subject: Seq<char>,
    predicate: Seq<char>,
    scope: Seq<char>,
    count: nat,
) -> Seq<char> {
    json_obj4(
        "predicate"@,
        json_quoted(predicate),
        "scope"@,
        json_quoted(scope),
        "subject"@,
        json_quoted(subject),
        "suppressed"@,
        decimal(count),
    )
}

impl BrainStore {
    /// Marks suppressed every unsuppressed object of the active branch that
    /// states `(subject, predicate)`, records the suppression, and returns how
    /// many objects it flipped.
    pub fn forget_suppress(
        &self,
        state: &mut BrainState,
        active_branch: &str,
        subject: &str,
        predicate: &str,
        scope: &str,
        reason: &str,
    ) -> (r: Result<usize, StoreError>)
        ensures
            r.is_err() <==> branch_pos(old(state).branches@, active_branch@).is_none(),
            r matches Err(e) ==> e == StoreError::ActiveBranchMissing && *final(state) == *old(state),
            state_wf(*old(state)) ==> state_wf(*final(state)),
            r matches Ok(n) ==> {
                let k = branch_pos(old(state).branches@, active_branch@).unwrap();
                let b0 = old(state).branches@[k];
                let b1 = final(state).branches@[k];
                &&& final(state).branches@.len() == old(state).branches@.len()
                &&& forall|j: int|
                    0 <= j < old(state).branches@.len() && j != k ==> (#[trigger] final(state).branches@[j])
                        == old(state).branches@[j]
                &&& b1@.name == b0@.name
                &&& b1@.objects == suppress_matching(b0@.objects, subject@, predicate@)
                &&& b1@.rules == b0@.rules
                &&& b1@.ledger == b0@.ledger
                &&& b1.suppressions@.len() == b0.suppressions@.len() + 1
                &&& b1.suppressions@.drop_last() == b0.suppressions@
                &&& b1.suppressions@.last().subject@ == subject@
                &&& b1.suppressions@.last().predicate@ == predicate@
                &&& b1.suppressions@.last().scope@ == scope@
                &&& b1.suppressions@.last().reason@ == reason@
                &&& b1.suppressions@.last().suppressed_count == n
                &&& n == unsuppressed_count(b0@.objects, subject@, predicate@)
                &&& forall|i: int|
                    0 <= i < b1@.objects.len() && states_fact(
                        #[trigger] b1@.objects[i],
                        subject@,
                        predicate@,
                    ) ==> b1@.objects[i].suppressed
                &&& unsuppressed_count(b1@.objects, subject@, predicate@) == 0
                &&& suppress_matching(b1@.objects, subject@, predicate@) == b1@.objects
                &&& final(state).attachments == old(state).attachments
                &&& audits(final(state).audit@) == audits(old(state).audit@).push(
                    AuditV {
                        actor: "user"@,
                        action: "brain.forget.suppress"@,
                        details: forget_details(subject@, predicate@, scope@, n as nat),
                    },
                )
            },
    {
        let k = match find_branch(&state.branches, active_branch) {
            Some(i) => i,
            None => {
                return Err(StoreError::ActiveBranchMissing);
            },
        };
        let subject_s = String::from_str(subject);
        let predicate_s = String::from_str(predicate);
        let ghost b0 = state.branches@[k as int];
        let mut b = state.branches.remove(k);
        let mut objects: Vec<MemoryObject> = Vec::new();
        let mut count: usize = 0;
        let mut i: usize = 0;
        proof {
            lemma_unsuppressed_bound(b0@.objects, subject@, predicate@);
        }
        while i < b.memory_objects.len()
            invariant
                b == b0,
                subject_s@ == subject@,
                predicate_s@ == predicate@,
                i <= b.memory_objects@.len(),
                objs(objects@) == suppress_matching(
                    objs(b.memory_objects@.subrange(0, i as int)),
                    subject@,
                    predicate@,
                ),
                count == unsuppressed_count(objs(b.memory_objects@.subrange(0, i as int)), subject@, predicate@),
                unsuppressed_count(objs(b.memory_objects@), subject@, predicate@) <= b.memory_objects@.len(),
            decreases b.memory_objects.len() - i,
        {
            let ghost pre = objs(b.memory_objects@.subrange(0, i as int));
            let ghost o0 = objects@;
            let o = &b.memory_objects[i];
            proof {
                let post = objs(b.memory_objects@.subrange(0, i + 1));
                assert(post.drop_last() =~= pre);
                lemma_unsuppressed_prefix(objs(b.memory_objects@), i + 1, subject@, predicate@);
                assert(objs(b.memory_objects@).subrange(0, i + 1) =~= post);
            }
            let mut c = o.copy();
            if o.subject == subject_s && o.predicate == predicate_s {
                if !o.suppressed {
                    count += 1;
                }
                c.suppressed = true;
            }
            objects.push(c);
            proof {
                let post = objs(b.memory_objects@.subrange(0, i + 1));
                assert(post.drop_last() =~= pre);
                assert(objs(objects@) =~= objs(o0).push(c@));
                assert(objs(objects@) =~= suppress_matching(post, subject@, predicate@));
                lemma_unsuppressed_prefix(objs(b.memory_objects@), i + 1, subject@, predicate@);
                assert(objs(b.memory_objects@).subrange(0, i + 1) =~= post);
            }
            i += 1;
        }
        proof {
            assert(b.memory_objects@.subrange(0, i as int) =~= b.memory_objects@);
        }
        b.memory_objects = objects;
        b.suppressions.push(
            SuppressionRecord {
                id: new_uuid(),
                ts: now_rfc3339(),
                subject: subject_s,
                predicate: predicate_s,
                scope: String::from_str(scope),
                reason: String::from_str(reason),
                suppressed_count: count,
            },
        );
        let ghost mid = state.branches@;
        state.branches.insert(k, b);
        proof {
            assert(b.suppressions@.drop_last() =~= b0.suppressions@);
            assert forall|j: int|
                0 <= j < old(state).branches@.len() && j != k implies (#[trigger] state.branches@[j])
                == old(state).branches@[j] by {
                if j < k {
                    assert(state.branches@[j] == mid[j]);
                } else {
                    assert(state.branches@[j] == mid[j - 1]);
                }
            }
        }
        let details = obj4(
            "predicate",
            json_quote(predicate).as_str(),
            "scope",
            json_quote(scope).as_str(),
            "subject",
            json_quote(subject).as_str(),
            "suppressed",
            decimal_string(count).as_str(),
        );
        proof {
            if state_wf(*old(state)) {
                let bs = branches(state.branches@);
                let ob = branches(old(state).branches@);
                assert(bs.len() == ob.len());
                assert forall|j: int| 0 <= j < bs.len() && j != k implies #[trigger] bs[j] == ob[j] by {
                    assert(state.branches@[j] == old(state).branches@[j]);
                }
                assert(bs[k as int].name == ob[k as int].name);
                let so = suppress_matching(ob[k as int].objects, subject@, predicate@);
                assert(bs[k as int].objects == so);
                assert forall|i: int, j: int| 0 <= i < j < so.len() implies (#[trigger] so[i]).id
                    != (#[trigger] so[j]).id by {
                    assert(so[i].id == ob[k as int].objects[i].id);
                    assert(so[j].id == ob[k as int].objects[j].id);
                }
                assert forall|i: int, j: int| 0 <= i < j < bs.len() implies (#[trigger] bs[i]).name
                    != (#[trigger] bs[j]).name by {
                    assert(bs[i].name == ob[i].name);
                    assert(bs[j].name == ob[j].name);
                }
                assert forall|m: int| 0 <= m < bs.len() implies obj_ids_unique(#[trigger] bs[m].objects) by {
                    if m != k {
                        assert(bs[m] == ob[m]);
                    }
                }
            }
        }
        proof {
            lemma_forget_suppresses(b0@.objects, subject@, predicate@);
            lemma_suppress_fixpoint(b0@.objects, subject@, predicate@);
        }
        let ghost a0 = state.audit@;
        state.audit.push(audit_entry("user", "brain.forget.suppress", details));
        assert(audits(state.audit@) =~= audits(a0).push(state.audit@.last()@));
        Ok(count)
    }
}

proof fn lemma_unsuppressed_prefix(v: Seq<ObjV>, n: int, subject: Seq<char>, predicate: Seq<char>)
    requires
        0 <= n <= v.len(),
    ensures
        unsuppressed_count(v.subrange(0, n), subject, predicate) <= unsuppressed_count(
            v,
            subject,
            predicate,
        ),
    decreases v.len(),
{
    if n < v.len() {
        assert(v.drop_last().subrange(0, n) =~= v.subrange(0, n));
        lemma_unsuppressed_prefix(v.drop_last(), n, subject, predicate);
    } else {
        assert(v.subrange(0, n) =~= v);
    }
}

#[derive(Debug, Clone, Copy, PartialEq, Eq, Structural)]
pub enum MergeStrategy {
    Ours,
    Theirs,
    Manual,
}

#[derive(Debug, Clone)]
pub struct MergeReport {
    pub merged: usize,
    pub conflicts: Vec<String>,
}

/// `j` is the first index of `v` holding id `id`.
pub open spec fn first_at(v: Seq<ObjV>, id: Seq<char>, j: int) -> bool {
    0 <= j < v.len() && v[j].id == id && forall|k: int| 0 <= k < j ==> (#[trigger] v[k]).id != id
}

/// Where `id` first occurs among the objects.
pub open spec fn obj_pos(v: Seq<ObjV>, id: Seq<char>) -> Option<int> {
    if exists|j: int| first_at(v, id, j) {
        Some(choose|j: int| first_at(v, id, j))
    } else {
        None
    }
}

proof fn lemma_obj_pos(v: Seq<ObjV>, id: Seq<char>, j: int)
    requires
        first_at(v, id, j),
    ensures
        obj_pos(v, id) == Some(j),
{
    let c = choose|x: int| first_at(v, id, x);
    if c < j {
        assert(v[c].id != id);
    } else if c > j {
        assert(v[j].id != id);
    }
}

/// One step of a merge: the target's objects so far, the merged count and
/// the conflicting ids, after taking source object `o`.
pub open spec fn merge_step(
    acc: (Seq<ObjV>, nat, Seq<Seq<char>>),
    o: ObjV,
    strategy: MergeStrategy,
) -> (Seq<ObjV>, nat, Seq<Seq<char>>) {
    match obj_pos(acc.0, o.id) {
        None => (acc.0.push(o), acc.1 + 1, acc.2),
        Some(i) => if acc.0[i].value == o.value && acc.0[i].suppressed == o.suppressed {
            acc
        } else {
            match strategy {
                MergeStrategy::Ours => acc,
                MergeStrategy::Theirs => (acc.0.update(i, o), acc.1 + 1, acc.2),
                MergeStrategy::Manual => (acc.0, acc.1, acc.2.push(o.id)),
            }
        },
    }
}

/// The merge of the source objects, in order, into the target objects.
pub open spec fn merge_fold(target: Seq<ObjV>, src: Seq<ObjV>, strategy: MergeStrategy) -> (
    Seq<ObjV>,
    nat,
    Seq<Seq<char>>,
)
    decreases src.len(),
{
    if src.len() == 0 {
        (target, 0, seq![])
    } else {
        merge_step(merge_fold(target, src.drop_last(), strategy), src.last(), strategy)
    }
}

proof fn lemma_merge_count(target: Seq<ObjV>, src: Seq<ObjV>, strategy: MergeStrategy)
    ensures
        merge_fold(target, src, strategy).1 <= src.len(),
    decreases src.len(),
{
    if src.len() > 0 {
        lemma_merge_count(target, src.drop_last(), strategy);
    }
}

pub open spec fn merge_details(source: Seq<char>, target: Seq<char>, merged: nat) -> Seq<char> {
    json_obj3(
        "merged"@,
        decimal(merged),
        "source"@,
        json_quoted(source),
        "target"@,
        json_quoted(target),
    )
}

fn find_obj(v: &Vec<MemoryObject>, id: &String) -> (r: Option<usize>)
    ensures
        match r {
            Some(i) => obj_pos(objs(v@), id@) == Some(i as int) && i < v@.len(),
            None => obj_pos(objs(v@), id@).is_none(),
        },
{
    let mut i: usize = 0;
    while i < v.len()
        invariant
            i <= v@.len(),
            forall|k: int| 0 <= k < i ==> (#[trigger] objs(v@)[k]).id != id@,
        decreases v.len() - i,
    {
        if v[i].id == *id {
            proof {
                lemma_obj_pos(objs(v@), id@, i as int);
            }
            return Some(i);
        }
        i += 1;
    }
    proof {
        if exists|j: int| first_at(objs(v@), id@, j) {
            let j = choose|j: int| first_at(objs(v@), id@, j);
            assert(objs(v@)[j].id == id@);
        }
    }
    None
}

impl BrainStore {
    /// Merges the memory objects of branch `source` into branch `target`. Nothing
    /// is changed when a branch is unknown or the strategy leaves conflicts.
    pub fn merge(&self, state: &mut BrainState, source: &str, target: &str, strategy: MergeStrategy) -> (r:
        Result<MergeReport, StoreError>)
        ensures
            branch_pos(old(state).branches@, source@).is_none() ==> r == Err::<MergeReport, StoreError>(
                StoreError::UnknownSourceBranch,
            ),
            branch_pos(old(state).branches@, source@).is_some() && branch_pos(
                old(state).branches@,
                target@,
            ).is_none() ==> r == Err::<MergeReport, StoreError>(StoreError::UnknownTargetBranch),
            r.is_err() ==> *final(state) == *old(state),
            state_wf(*old(state)) ==> state_wf(*final(state)),
            branch_pos(old(state).branches@, source@) matches Some(si) ==> branch_pos(
                old(state).branches@,
                target@,
            ) matches Some(ti) ==> {
                let m = merge_fold(
                    old(state).branches@[ti]@.objects,
                    old(state).branches@[si]@.objects,
                    strategy,
                );
                let src = old(state).branches@[si]@.objects;
                let tgt = old(state).branches@[ti]@.objects;
                &&& (m.2.len() > 0 <==> r.is_err())
                &&& (strategy == MergeStrategy::Theirs ==> r.is_ok())
                &&& (strategy == MergeStrategy::Theirs && state_wf(*old(state)) ==> forall|k: int|
                    0 <= k < src.len() ==> holds_obj(m.0, #[trigger] src[k]))
                &&& forall|x: Seq<char>|
                    id_absent(src, x) ==> #[trigger] obj_pos(m.0, x) == obj_pos(tgt, x) && (obj_pos(
                        tgt,
                        x,
                    ) matches Some(j) ==> m.0[j] == tgt[j])
                &&& (m.2.len() > 0 ==> (r matches Err(StoreError::MergeConflicts(c)) && c@.map_values(
                    |x: String| x@,
                ) == m.2))
                &&& r matches Ok(rep) ==> {
                    &&& rep.merged == m.1
                    &&& rep.conflicts@.len() == 0
                    &&& final(state).branches@.len() == old(state).branches@.len()
                    &&& forall|j: int|
                        0 <= j < old(state).branches@.len() && j != ti ==> (#[trigger] final(state).branches@[j]) == old(state).branches@[j]
                    &&& final(state).branches@[ti]@ == (BranchV {
                        objects: m.0,
                        ..old(state).branches@[ti]@
                    })
                    &&& final(state).attachments == old(state).attachments
                    &&& audits(final(state).audit@) == audits(old(state).audit@).push(
                        AuditV {
                            actor: "user"@,
                            action: "brain.merge"@,
                            details: merge_details(source@, target@, rep.merged as nat),
                        },
                    )
                }
            },
    {
        let si = match find_branch(&state.branches, source) {
            Some(i) => i,
            None => {
                return Err(StoreError::UnknownSourceBranch);
            },
        };
        let ti = match find_branch(&state.branches, target) {
            Some(i) => i,
            None => {
                return Err(StoreError::UnknownTargetBranch);
            },
        };
        let ghost src = objs(state.branches@[si as int].memory_objects@);
        let ghost tgt = objs(state.branches@[ti as int].memory_objects@);
        let mut acc: Vec<MemoryObject> = Vec::new();
        let mut k: usize = 0;
        while k < state.branches[ti].memory_objects.len()
            invariant
                ti < state.branches@.len(),
                tgt == objs(state.branches@[ti as int].memory_objects@),
                k <= tgt.len(),
                objs(acc@) == tgt.subrange(0, k as int),
            decreases state.branches@[ti as int].memory_objects@.len() - k,
        {
            let ghost before = acc@;
            acc.push(state.branches[ti].memory_objects[k].copy());
            assert(objs(acc@) =~= objs(before).push(tgt[k as int]));
            assert(objs(acc@) =~= tgt.subrange(0, k + 1));
            k += 1;
        }
        assert(tgt.subrange(0, k as int) =~= tgt);
        let mut merged: usize = 0;
        let mut conflicts: Vec<String> = Vec::new();
        let mut i: usize = 0;
        proof {
            assert forall|n: int| 0 <= n <= src.len() implies #[trigger] merge_fold(
                tgt,
                src.subrange(0, n),
                strategy,
            ).1 <= n by {
                lemma_merge_count(tgt, src.subrange(0, n), strategy);
            }
            assert(src.subrange(0, 0) =~= seq![]);
            assert(conflicts@.map_values(|x: String| x@) =~= seq![]);
        }
        while i < state.branches[si].memory_objects.len()
            invariant
                si < state.branches@.len(),
                ti < state.branches@.len(),
                src == objs(state.branches@[si as int].memory_objects@),
                i <= src.len(),
                merge_fold(tgt, src.subrange(0, i as int), strategy) == (
                    objs(acc@),
                    merged as nat,
                    conflicts@.map_values(|x: String| x@),
                ),
                forall|n: int| 0 <= n <= src.len() ==> #[trigger] merge_fold(tgt, src.subrange(0, n), strategy).1 <= n,
            decreases src.len() - i,
        {
            let o = &state.branches[si].memory_objects[i];
            let ghost a0 = objs(acc@);
            let ghost c0 = conflicts@;
            proof {
                assert(src.subrange(0, i + 1).drop_last() =~= src.subrange(0, i as int));
                assert(src.subrange(0, i + 1).last() == o@);
                assert(merge_fold(tgt, src.subrange(0, i + 1), strategy).1 <= i + 1);
            }
            match find_obj(&acc, &o.id) {
                None => {
                    acc.push(o.copy());
                    merged += 1;
                    assert(objs(acc@) =~= a0.push(o@));
                },
                Some(p) => {
                    if acc[p].value == o.value && acc[p].suppressed == o.suppressed {
                    } else {
                        match strategy {
                            MergeStrategy::Ours => {},
                            MergeStrategy::Theirs => {
                                acc.set(p, o.copy());
                                merged += 1;
                                assert(objs(acc@) =~= a0.update(p as int, o@));
                            },
                            MergeStrategy::Manual => {
                                conflicts.push(o.id.clone());
                                assert(conflicts@.map_values(|x: String| x@) =~= c0.map_values(
                                    |x: String| x@,
                                ).push(o.id@));
                            },
                        }
                    }
                },
            }
            i += 1;
        }
        assert(src.subrange(0, i as int) =~= src);
        proof {
            if strategy == MergeStrategy::Theirs {
                lemma_theirs_no_conflicts(tgt, src);
                if state_wf(*old(state)) {
                    assert(branches(old(state).branches@)[si as int].objects == src);
                    lemma_merge_theirs(tgt, src);
                }
            }
            assert forall|x: Seq<char>| id_absent(src, x) implies #[trigger] obj_pos(
                merge_fold(tgt, src, strategy).0,
                x,
            ) == obj_pos(tgt, x) && (obj_pos(tgt, x) matches Some(j) ==> merge_fold(tgt, src, strategy).0[j]
                == tgt[j]) by {
                lemma_merge_keeps_other(tgt, src, strategy, x);
            }
        }
        if conflicts.len() > 0 {
            return Err(StoreError::MergeConflicts(conflicts));
        }
        let ghost b_before = state.branches@;
        let mut b = state.branches.remove(ti);
        b.memory_objects = acc;
        state.branches.insert(ti, b);
        proof {
            assert forall|j: int|
                0 <= j < b_before.len() && j != ti implies (#[trigger] state.branches@[j]) == b_before[j] by {
                if j < ti {
                    assert(state.branches@[j] == b_before[j]);
                } else {
                    assert(state.branches@[j] == b_before[j]);
                }
            }
        }
        let details = obj3(
            "merged",
            decimal_string(merged).as_str(),
            "source",
            json_quote(source).as_str(),
            "target",
            json_quote(target).as_str(),
        );
        proof {
            if state_wf(*old(state)) {
                let bs = branches(state.branches@);
                let ob = branches(old(state).branches@);
                assert(ob[ti as int].objects == tgt);
                assert(obj_ids_unique(ob[ti as int].objects));
                lemma_merge_keeps_ids_unique(tgt, src, strategy);
                assert(bs.len() == ob.len());
                assert forall|j: int| 0 <= j < bs.len() && j != ti implies #[trigger] bs[j] == ob[j] by {
                    assert(state.branches@[j] == old(state).branches@[j]);
                }
                assert(bs[ti as int].name == ob[ti as int].name);
                assert forall|i: int, j: int| 0 <= i < j < bs.len() implies (#[trigger] bs[i]).name
                    != (#[trigger] bs[j]).name by {
                    assert(bs[i].name == ob[i].name);
                    assert(bs[j].name == ob[j].name);
                }
                assert forall|m: int| 0 <= m < bs.len() implies obj_ids_unique(#[trigger] bs[m].objects) by {
                    if m != ti {
                        assert(bs[m] == ob[m]);
                    }
                }
            }
        }
        let ghost a0 = state.audit@;
        state.audit.push(audit_entry("user", "brain.merge", details));
        assert(audits(state.audit@) =~= audits(a0).push(state.audit@.last()@));
        Ok(MergeReport { merged, conflicts: Vec::new() })
    }
}

proof fn lemma_first_exists(v: Seq<ObjV>, id: Seq<char>, k: int)
    requires
        0 <= k < v.len(),
        v[k].id == id,
    ensures
        obj_pos(v, id).is_some(),
    decreases k,
{
    if forall|m: int| 0 <= m < k ==> (#[trigger] v[m]).id != id {
        assert(first_at(v, id, k));
    } else {
        let m = choose|m: int| 0 <= m < k && (#[trigger] v[m]).id == id;
        lemma_first_exists(v, id, m);
    }
}

proof fn lemma_obj_pos_some(v: Seq<ObjV>, id: Seq<char>)
    requires
        obj_pos(v, id).is_some(),
    ensures
        first_at(v, id, obj_pos(v, id).unwrap()),
{
}

/// The source objects' ids are unique.
pub open spec fn obj_ids_unique(v: Seq<ObjV>) -> bool {
    forall|i: int, j: int| 0 <= i < j < v.len() ==> (#[trigger] v[i]).id != (#[trigger] v[j]).id
}

/// Object `o` sits at the first place of its id in `v`, with its value and
/// suppression flag.
pub open spec fn holds_obj(v: Seq<ObjV>, o: ObjV) -> bool {
    obj_pos(v, o.id) matches Some(j) && v[j].value == o.value && v[j].suppressed == o.suppressed
}

/// With strategy Theirs a merge finds no conflicts, and every object of the
/// source ends up in the target with the source's value and suppression flag.
pub proof fn lemma_merge_theirs(target: Seq<ObjV>, src: Seq<ObjV>)
    requires
        obj_ids_unique(src),
    ensures
        merge_fold(target, src, MergeStrategy::Theirs).2.len() == 0,
        forall|k: int|
            0 <= k < src.len() ==> holds_obj(
                merge_fold(target, src, MergeStrategy::Theirs).0,
                #[trigger] src[k],
            ),
    decreases src.len(),
{
    if src.len() > 0 {
        let pre = src.drop_last();
        lemma_merge_theirs(target, pre);
        let acc = merge_fold(target, pre, MergeStrategy::Theirs);
        let o = src.last();
        let next = merge_fold(target, src, MergeStrategy::Theirs);
        assert(next == merge_step(acc, o, MergeStrategy::Theirs));
        let v = acc.0;
        let w = next.0;
        match obj_pos(v, o.id) {
            None => {
                assert(w == v.push(o));
                assert forall|m: int| 0 <= m < v.len() implies (#[trigger] v[m]).id != o.id by {
                    if v[m].id == o.id {
                        lemma_first_exists(v, o.id, m);
                    }
                }
                assert(first_at(w, o.id, v.len() as int));
                lemma_obj_pos(w, o.id, v.len() as int);
            },
            Some(i) => {
                lemma_obj_pos_some(v, o.id);
                if !(v[i].value == o.value && v[i].suppressed == o.suppressed) {
                    assert(w == v.update(i, o));
                    assert(first_at(w, o.id, i));
                    lemma_obj_pos(w, o.id, i);
                }
            },
        }
        assert forall|k: int| 0 <= k < src.len() implies holds_obj(w, #[trigger] src[k]) by {
            if k < src.len() - 1 {
                let x = src[k];
                assert(pre[k] == x);
                assert(holds_obj(v, pre[k]));
                let j = obj_pos(v, x.id).unwrap();
                lemma_obj_pos_some(v, x.id);
                assert(x.id != o.id);
                match obj_pos(v, o.id) {
                    None => {
                        assert(first_at(w, x.id, j));
                        lemma_obj_pos(w, x.id, j);
                    },
                    Some(i) => {
                        lemma_obj_pos_some(v, o.id);
                        if !(v[i].value == o.value && v[i].suppressed == o.suppressed) {
                            assert(i != j);
                            assert(first_at(w, x.id, j));
                            lemma_obj_pos(w, x.id, j);
                        }
                    },
                }
            }
        }
    }
}

pub open spec fn create_details(brain_id: Seq<char>, tenant_id: Seq<char>) -> Seq<char> {
    json_obj2("brain_id"@, json_quoted(brain_id), "tenant_id"@, json_quoted(tenant_id))
}

/// The state of a new brain: one empty branch `main` and the creation audit
/// entry.
pub fn initial_state(brain_id: &str, tenant_id: &str) -> (r: BrainState)
    ensures
        r.branches@.len() == 1,
        r.branches@[0]@.name == "main"@,
        r.branches@[0]@.objects.len() == 0,
        r.branches@[0].rules@.len() == 0,
        r.branches@[0].ledger@.len() == 0,
        r.branches@[0].suppressions@.len() == 0,
        r.attachments@.len() == 0,
        state_wf(r),
        audits(r.audit@) == seq![
            AuditV {
                actor: "system"@,
                action: "brain.create"@,
                details: create_details(brain_id@, tenant_id@),
            },
        ],
{
    let main = BranchState {
        name: String::from_str("main"),
        memory_objects: Vec::new(),
        rules: Vec::new(),
        ledger: Vec::new(),
        suppressions: Vec::new(),
    };
    let details = obj2("brain_id", json_quote(brain_id).as_str(), "tenant_id", json_quote(tenant_id).as_str());
    let entry = audit_entry("system", "brain.create", details);
    let audit = vec![entry];
    assert(audits(audit@) =~= seq![entry@]);
    BrainState { branches: vec![main], attachments: Vec::new(), audit }
}

impl AuditEntry {
    pub fn copy(&self) -> (r: AuditEntry)
        ensures
            r@ == self@,
            r.id@ == self.id@,
            r.ts@ == self.ts@,
    {
        AuditEntry {
            id: self.id.clone(),
            ts: self.ts.clone(),
            actor: self.actor.clone(),
            action: self.action.clone(),
            details: self.details.clone(),
        }
    }
}

impl BrainStore {
    /// The brain's audit trail, most recent last.
    pub fn audit_trace(&self, state: &BrainState) -> (r: Vec<AuditEntry>)
        ensures
            audits(r@) == audits(state.audit@),
    {
        let mut out: Vec<AuditEntry> = Vec::new();
        let mut i: usize = 0;
        while i < state.audit.len()
            invariant
                i <= state.audit@.len(),
                audits(out@) == audits(state.audit@.subrange(0, i as int)),
            decreases state.audit.len() - i,
        {
            let ghost o0 = out@;
            out.push(state.audit[i].copy());
            assert(audits(out@) =~= audits(o0).push(state.audit@[i as int]@));
            assert(audits(state.audit@.subrange(0, i + 1)) =~= audits(state.audit@.subrange(0, i as int)).push(state.audit@[i as int]@));
            i += 1;
        }
        assert(state.audit@.subrange(0, i as int) =~= state.audit@);
        out
    }
}

proof fn lemma_merge_keeps_ids_unique(target: Seq<ObjV>, src: Seq<ObjV>, strategy: MergeStrategy)
    requires
        obj_ids_unique(target),
    ensures
        obj_ids_unique(merge_fold(target, src, strategy).0),
    decreases src.len(),
{
    if src.len() > 0 {
        lemma_merge_keeps_ids_unique(target, src.drop_last(), strategy);
        let acc = merge_fold(target, src.drop_last(), strategy);
        let v = acc.0;
        let o = src.last();
        let w = merge_fold(target, src, strategy).0;
        match obj_pos(v, o.id) {
            None => {
                assert forall|m: int| 0 <= m < v.len() implies (#[trigger] v[m]).id != o.id by {
                    if v[m].id == o.id {
                        lemma_first_exists(v, o.id, m);
                    }
                }
                assert forall|i: int, j: int| 0 <= i < j < w.len() implies (#[trigger] w[i]).id
                    != (#[trigger] w[j]).id by {
                    if j == v.len() {
                        assert(w[i] == v[i]);
                    } else {
                        assert(w[i] == v[i] && w[j] == v[j]);
                    }
                }
            },
            Some(p) => {
                lemma_obj_pos_some(v, o.id);
                assert forall|i: int, j: int| 0 <= i < j < w.len() implies (#[trigger] w[i]).id
                    != (#[trigger] w[j]).id by {
                    assert(w[i].id == v[i].id);
                    assert(w[j].id == v[j].id);
                }
            },
        }
    }
}

proof fn lemma_theirs_no_conflicts(target: Seq<ObjV>, src: Seq<ObjV>)
    ensures
        merge_fold(target, src, MergeStrategy::Theirs).2.len() == 0,
    decreases src.len(),
{
    if src.len() > 0 {
        lemma_theirs_no_conflicts(target, src.drop_last());
    }
}

/// No source object has id `x`.
pub open spec fn id_absent(src: Seq<ObjV>, x: Seq<char>) -> bool {
    forall|k: int| 0 <= k < src.len() ==> (#[trigger] src[k]).id != x
}

/// A merge leaves where an id absent from the source first occurs, and the
/// object there.
proof fn lemma_merge_keeps_other(
    target: Seq<ObjV>,
    src: Seq<ObjV>,
    strategy: MergeStrategy,
    x: Seq<char>,
)
    requires
        id_absent(src, x),
    ensures
        obj_pos(merge_fold(target, src, strategy).0, x) == obj_pos(target, x),
        obj_pos(target, x) matches Some(j) ==> merge_fold(target, src, strategy).0[j] == target[j],
    decreases src.len(),
{
    if src.len() > 0 {
        let pre = src.drop_last();
        assert(id_absent(pre, x)) by {
            assert forall|k: int| 0 <= k < pre.len() implies (#[trigger] pre[k]).id != x by {
                assert(pre[k] == src[k]);
            }
        }
        lemma_merge_keeps_other(target, pre, strategy, x);
        let v = merge_fold(target, pre, strategy).0;
        let w = merge_fold(target, src, strategy).0;
        let o = src.last();
        assert(o.id != x);
        if let Some(j) = obj_pos(v, x) {
            lemma_obj_pos_some(v, x);
            match obj_pos(v, o.id) {
                None => {
                    assert(first_at(w, x, j));
                    lemma_obj_pos(w, x, j);
                },
                Some(i) => {
                    lemma_obj_pos_some(v, o.id);
                    if w != v {
                        assert(i != j);
                        assert(first_at(w, x, j));
                        lemma_obj_pos(w, x, j);
                    }
                },
            }
        } else {
            match obj_pos(v, o.id) {
                None => {
                    assert forall|m: int| 0 <= m < v.len() implies (#[trigger] v[m]).id != x by {
                        if v[m].id == x {
                            lemma_first_exists(v, x, m);
                        }
                    }
                    if exists|j: int| first_at(w, x, j) {
                        let j = choose|j: int| first_at(w, x, j);
                        if j < v.len() {
                            assert(w[j] == v[j]);
                        }
                    }
                },
                Some(i) => {
                    lemma_obj_pos_some(v, o.id);
                    assert forall|m: int| 0 <= m < v.len() implies (#[trigger] v[m]).id != x by {
                        if v[m].id == x {
                            lemma_first_exists(v, x, m);
                        }
                    }
                    if exists|j: int| first_at(w, x, j) {
                        let j = choose|j: int| first_at(w, x, j);
                        if j == i {
                        } else {
                            assert(w[j] == v[j]);
                        }
                    }
                },
            }
        }
    }
}

/// Suppressing a fact a second time changes no object: what one suppression
/// leaves is left as it is.
pub proof fn lemma_suppress_fixpoint(v: Seq<ObjV>, subject: Seq<char>, predicate: Seq<char>)
    ensures
        suppress_matching(suppress_matching(v, subject, predicate), subject, predicate)
            == suppress_matching(v, subject, predicate),
{
    assert(suppress_matching(suppress_matching(v, subject, predicate), subject, predicate)
        =~= suppress_matching(v, subject, predicate));
}

} // verus!
