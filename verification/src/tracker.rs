//! The contract tracker: a registry of uploaded code and of the contracts
//! instantiated and migrated from it, maintained by admins.
use crate::keyed::{find, has_key, key_index, keys_unique, lemma_key_index, lemma_unique_index};
use vstd::prelude::*;

verus! {

/// Uploaded code.
#[derive(Debug)]
pub struct CodeIdInfo {
    pub contract_type: String,
    pub code_id: u64,
    pub hash: String,
    /// When the code was registered, in nanoseconds.
    pub tracked_at: u64,
    pub gitrev: Option<String>,
}

/// A tracked contract.
#[derive(Debug)]
pub struct ContractInfo {
    pub original_code_id: u64,
    pub original_tracked_at: u64,
    pub current_code_id: u64,
    pub current_tracked_at: u64,
    pub family: String,
    pub sequence: u32,
    pub migrate_count: u32,
}

/// A contract's place in its family: the n-th contract of a type.
#[derive(Debug)]
pub struct FamilyEntry {
    pub family: String,
    pub contract_type: String,
    pub sequence: u32,
    pub address: String,
}

/// The tracker's state.
#[derive(Debug)]
pub struct Tracker {
    pub admins: Vec<(String, ())>,
    pub code_by_hash: Vec<(String, u64)>,
    pub code_by_id: Vec<CodeIdInfo>,
    pub contract_by_family: Vec<FamilyEntry>,
    pub contract_by_addr: Vec<(String, ContractInfo)>,
}

/// What the tracker is asked to do.
#[derive(Debug)]
pub enum TrackerExecuteMsg {
    /// Register uploaded code.
    CodeId { contract_type: String, code_id: u64, hash: String, gitrev: Option<String> },
    /// Record a contract instantiated from registered code.
    Instantiate { code_id: u64, address: String, family: String },
    /// Record that a contract moved to other code of the same type.
    Migrate { new_code_id: u64, address: String },
    AddAdmin { address: String },
    RemoveAdmin { address: String },
}

/// Why the tracker refused a request.
#[derive(Clone, Copy, Debug, PartialEq, Eq, Structural)]
pub enum TrackerError {
    NotAdmin,
    CodeIdAlreadySubmitted,
    CodeHashAlreadySubmitted,
    CodeIdNotFound,
    NewCodeIdNotFound,
    ContractNotFound,
    OldCodeIdNotFound,
    ContractTypeMismatch,
    AlreadyAnAdmin,
    NotAnAdmin,
    /// A counter would overflow.
    Overflow,
}

/// Index of the code with identifier `id`, or -1.
pub open spec fn code_index_from(codes: Seq<CodeIdInfo>, id: u64, start: int) -> int
    decreases codes.len() - start,
{
    if start < 0 || start >= codes.len() {
        -1
    } else if codes[start].code_id == id {
        start
    } else {
        code_index_from(codes, id, start + 1)
    }
}

pub open spec fn code_index(codes: Seq<CodeIdInfo>, id: u64) -> int {
    code_index_from(codes, id, 0)
}

proof fn lemma_code_index_from(codes: Seq<CodeIdInfo>, id: u64, start: int)
    requires
        0 <= start <= codes.len(),
    ensures
        code_index_from(codes, id, start) == -1 || start <= code_index_from(codes, id, start) < codes.len(),
        code_index_from(codes, id, start) >= 0 ==> codes[code_index_from(codes, id, start)].code_id == id,
        code_index_from(codes, id, start) < 0 ==> forall|k: int| start <= k < codes.len() ==> codes[k].code_id != id,
        code_index_from(codes, id, start) >= 0 ==> forall|k: int|
            start <= k < code_index_from(codes, id, start) ==> codes[k].code_id != id,
    decreases codes.len() - start,
{
    if start < codes.len() {
        lemma_code_index_from(codes, id, start + 1);
    }
}

/// Whether the entry belongs to the family and type.
pub open spec fn in_family(e: FamilyEntry, family: Seq<char>, contract_type: Seq<char>) -> bool {
    e.family@ == family && e.contract_type@ == contract_type
}

/// The highest sequence number among the first `n` entries of a family
/// and type, if any.
pub open spec fn latest_sequence(entries: Seq<FamilyEntry>, family: Seq<char>, contract_type: Seq<char>, n: int) -> Option<u32>
    decreases n,
{
    if n <= 0 {
        None
    } else {
        let rest = latest_sequence(entries, family, contract_type, n - 1);
        if in_family(entries[n - 1], family, contract_type) {
            match rest {
                Some(s) => if entries[n - 1].sequence > s {
                    Some(entries[n - 1].sequence)
                } else {
                    Some(s)
                },
                None => Some(entries[n - 1].sequence),
            }
        } else {
            rest
        }
    }
}

/// The latest sequence is the highest one of its family and type.
proof fn lemma_latest_sequence(entries: Seq<FamilyEntry>, family: Seq<char>, contract_type: Seq<char>, n: int)
    requires
        0 <= n <= entries.len(),
    ensures
        forall|k: int| 0 <= k < n && in_family(entries[k], family, contract_type) ==> (latest_sequence(
            entries,
            family,
            contract_type,
            n,
        ) matches Some(s) && entries[k].sequence <= s),
        latest_sequence(entries, family, contract_type, n) is None ==> forall|k: int|
            0 <= k < n ==> !in_family(entries[k], family, contract_type),
        latest_sequence(entries, family, contract_type, n) matches Some(s) ==> exists|k: int|
            0 <= k < n && in_family(entries[k], family, contract_type) && entries[k].sequence == s,
    decreases n,
{
    if n > 0 {
        lemma_latest_sequence(entries, family, contract_type, n - 1);
    }
}

/// The address of a contract by family, type and sequence, if any.
pub open spec fn family_address(entries: Seq<FamilyEntry>, family: Seq<char>, contract_type: Seq<char>, sequence: u32) -> Option<Seq<char>> {
    if exists|k: int| 0 <= k < entries.len() && in_family(entries[k], family, contract_type) && entries[k].sequence == sequence {
        let k = choose|k: int| 0 <= k < entries.len() && in_family(entries[k], family, contract_type) && entries[k].sequence == sequence;
        Some(entries[k].address@)
    } else {
        None
    }
}

impl Tracker {
    /// Keys are unique: admins and hashes and addresses once each, code
    /// identifiers once each, and family, type and sequence once each.
    pub open spec fn wf(&self) -> bool {
        &&& keys_unique(self.admins@)
        &&& keys_unique(self.code_by_hash@)
        &&& keys_unique(self.contract_by_addr@)
        &&& forall|i: int, j: int|
            0 <= i < j < self.code_by_id@.len() ==> self.code_by_id@[i].code_id != self.code_by_id@[j].code_id
        &&& forall|i: int, j: int|
            0 <= i < j < self.contract_by_family@.len() ==> !(in_family(
                self.contract_by_family@[i],
                self.contract_by_family@[j].family@,
                self.contract_by_family@[j].contract_type@,
            ) && self.contract_by_family@[i].sequence == self.contract_by_family@[j].sequence)
    }

    /// A tracker whose only admin is its creator.
    pub fn instantiate(sender: String) -> (r: Tracker)
        ensures
            r.wf(),
            r.admins@.len() == 1 && r.admins@[0].0 == sender,
            r.code_by_hash@.len() == 0 && r.code_by_id@.len() == 0 && r.contract_by_family@.len() == 0
                && r.contract_by_addr@.len() == 0,
    {
        let mut admins = Vec::new();
        admins.push((sender, ()));
        Tracker {
            admins,
            code_by_hash: Vec::new(),
            code_by_id: Vec::new(),
            contract_by_family: Vec::new(),
            contract_by_addr: Vec::new(),
        }
    }

    fn find_code(&self, id: u64) -> (r: Option<usize>)
        ensures
            match r {
                Some(i) => i == code_index(self.code_by_id@, id) && i < self.code_by_id@.len()
                    && self.code_by_id@[i as int].code_id == id,
                None => code_index(self.code_by_id@, id) < 0,
            },
    {
        proof {
            lemma_code_index_from(self.code_by_id@, id, 0);
        }
        let mut i: usize = 0;
        while i < self.code_by_id.len()
            invariant
                i <= self.code_by_id@.len(),
                forall|k: int| 0 <= k < i ==> self.code_by_id@[k].code_id != id,
            decreases self.code_by_id@.len() - i,
        {
            if self.code_by_id[i].code_id == id {
                proof {
                    lemma_code_index_from(self.code_by_id@, id, 0);
                    let c = code_index(self.code_by_id@, id);
                    if c > i as int || c < 0 {
                        assert(self.code_by_id@[i as int].code_id == id);
                    }
                    if 0 <= c < i as int {
                        assert(self.code_by_id@[c].code_id != id);
                    }
                }
                return Some(i);
            }
            i += 1;
        }
        None
    }

    fn latest_sequence_exec(&self, family: &String, contract_type: &String) -> (r: Option<u32>)
        ensures
            r == latest_sequence(self.contract_by_family@, family@, contract_type@, self.contract_by_family@.len() as int),
    {
        let mut best: Option<u32> = None;
        let mut i: usize = 0;
        while i < self.contract_by_family.len()
            invariant
                i <= self.contract_by_family@.len(),
                best == latest_sequence(self.contract_by_family@, family@, contract_type@, i as int),
            decreases self.contract_by_family@.len() - i,
        {
            let e = &self.contract_by_family[i];
            if e.family == *family && e.contract_type == *contract_type {
                best = match best {
                    Some(s) => if e.sequence > s {
                        Some(e.sequence)
                    } else {
                        Some(s)
                    },
                    None => Some(e.sequence),
                };
            }
            i += 1;
        }
        best
    }

    /// Whether the sender may change the tracker: an admin, or the
    /// tracker contract's own admin.
    pub fn is_authorized(&self, sender: &String, contract_admin: &Option<String>) -> (r: bool)
        ensures
            r == (has_key(self.admins@, sender@) || (contract_admin matches Some(a) && a@ == sender@)),
    {
        proof {
            lemma_key_index(self.admins@, sender@);
        }
        if find(&self.admins, sender).is_some() {
            return true;
        }
        match contract_admin {
            Some(a) => *a == *sender,
            None => false,
        }
    }
}

fn clone_string(s: &String) -> (r: String)
    ensures
        r == *s,
        r@ == s@,
{
    s.clone()
}

fn clone_opt_string(s: &Option<String>) -> (r: Option<String>)
    ensures
        match (s, r) {
            (Some(a), Some(b)) => a@ == b@,
            (None, None) => true,
            _ => false,
        },
{
    match s {
        Some(a) => Some(a.clone()),
        None => None,
    }
}

/// What a change of the tracker reports.
#[derive(Debug)]
pub enum TrackerEvent {
    NewCodeId { contract_type: String, code_id: u64, hash: String },
    Instantiate { contract_type: String, code_id: u64, hash: String, address: String, family: String, sequence: u32 },
    Migrate {
        contract_type: String,
        old_code_id: u64,
        new_code_id: u64,
        old_hash: String,
        new_hash: String,
        address: String,
        family: String,
        sequence: u32,
        new_migrate_count: u32,
    },
    AdminsChanged,
}

impl Tracker {
    /// Performs a request of an authorized sender at time `now`
    /// (nanoseconds); `contract_admin` is the tracker contract's own admin.
    pub fn execute(
        &mut self,
        sender: &String,
        contract_admin: &Option<String>,
        now: u64,
        msg: TrackerExecuteMsg,
    ) -> (r: Result<TrackerEvent, TrackerError>)
        requires
            old(self).wf(),
        ensures
            final(self).wf(),
            r is Err ==> *final(self) == *old(self),
            !(has_key(old(self).admins@, sender@) || (contract_admin matches Some(a) && a@ == sender@)) ==> r
                == Err::<TrackerEvent, TrackerError>(TrackerError::NotAdmin),
            (has_key(old(self).admins@, sender@) || (contract_admin matches Some(a) && a@ == sender@)) ==> match msg {
                TrackerExecuteMsg::CodeId { contract_type, code_id, hash, gitrev } => {
                    if code_index(old(self).code_by_id@, code_id) >= 0 {
                        r == Err::<TrackerEvent, TrackerError>(TrackerError::CodeIdAlreadySubmitted)
                    } else if has_key(old(self).code_by_hash@, hash@) {
                        r == Err::<TrackerEvent, TrackerError>(TrackerError::CodeHashAlreadySubmitted)
                    } else {
                        &&& r is Ok
                        &&& final(self).code_by_hash@ == old(self).code_by_hash@.push((hash, code_id))
                        &&& final(self).code_by_id@.len() == old(self).code_by_id@.len() + 1
                        &&& final(self).code_by_id@.drop_last() == old(self).code_by_id@
                        &&& final(self).code_by_id@.last() == (CodeIdInfo { contract_type, code_id, hash, tracked_at: now, gitrev })
                        &&& final(self).admins == old(self).admins
                        &&& final(self).contract_by_family == old(self).contract_by_family
                        &&& final(self).contract_by_addr == old(self).contract_by_addr
                    }
                },
                TrackerExecuteMsg::Instantiate { code_id, address, family } => {
                    let codes = old(self).code_by_id@;
                    if code_index(codes, code_id) < 0 {
                        r == Err::<TrackerEvent, TrackerError>(TrackerError::CodeIdNotFound)
                    } else {
                        let contract_type = codes[code_index(codes, code_id)].contract_type@;
                        match latest_sequence(old(self).contract_by_family@, family@, contract_type, old(self).contract_by_family@.len() as int) {
                            Some(s) if s == u32::MAX => r == Err::<TrackerEvent, TrackerError>(TrackerError::Overflow),
                            latest => {
                                let sequence: u32 = match latest {
                                    Some(s) => (s + 1) as u32,
                                    None => 0,
                                };
                                &&& r is Ok
                                &&& final(self).contract_by_family@.len() == old(self).contract_by_family@.len() + 1
                                &&& final(self).contract_by_family@.drop_last() == old(self).contract_by_family@
                                &&& final(self).contract_by_family@.last().family@ == family@
                                &&& final(self).contract_by_family@.last().contract_type@ == contract_type
                                &&& final(self).contract_by_family@.last().sequence == sequence
                                &&& final(self).contract_by_family@.last().address@ == address@
                                &&& has_key(final(self).contract_by_addr@, address@)
                                &&& final(self).contract_by_addr@[key_index(final(self).contract_by_addr@, address@)].1
                                    == (ContractInfo {
                                    original_code_id: code_id,
                                    original_tracked_at: now,
                                    current_code_id: code_id,
                                    current_tracked_at: now,
                                    family,
                                    sequence,
                                    migrate_count: 0,
                                })
                                &&& final(self).admins == old(self).admins
                                &&& final(self).code_by_hash == old(self).code_by_hash
                                &&& final(self).code_by_id == old(self).code_by_id
                            },
                        }
                    }
                },
                TrackerExecuteMsg::Migrate { new_code_id, address } => {
                    let codes = old(self).code_by_id@;
                    let contracts = old(self).contract_by_addr@;
                    if code_index(codes, new_code_id) < 0 {
                        r == Err::<TrackerEvent, TrackerError>(TrackerError::NewCodeIdNotFound)
                    } else if !has_key(contracts, address@) {
                        r == Err::<TrackerEvent, TrackerError>(TrackerError::ContractNotFound)
                    } else {
                        let info = contracts[key_index(contracts, address@)].1;
                        if code_index(codes, info.current_code_id) < 0 {
                            r == Err::<TrackerEvent, TrackerError>(TrackerError::OldCodeIdNotFound)
                        } else if codes[code_index(codes, info.current_code_id)].contract_type@ != codes[code_index(
                            codes,
                            new_code_id,
                        )].contract_type@ {
                            r == Err::<TrackerEvent, TrackerError>(TrackerError::ContractTypeMismatch)
                        } else if info.migrate_count == u32::MAX {
                            r == Err::<TrackerEvent, TrackerError>(TrackerError::Overflow)
                        } else {
                            &&& r is Ok
                            &&& final(self).contract_by_addr@.len() == contracts.len()
                            &&& final(self).contract_by_addr@ == contracts.update(
                                key_index(contracts, address@),
                                (
                                    contracts[key_index(contracts, address@)].0,
                                    ContractInfo {
                                        current_code_id: new_code_id,
                                        current_tracked_at: now,
                                        migrate_count: (info.migrate_count + 1) as u32,
                                        ..info
                                    },
                                ),
                            )
                            &&& final(self).admins == old(self).admins
                            &&& final(self).code_by_hash == old(self).code_by_hash
                            &&& final(self).code_by_id == old(self).code_by_id
                            &&& final(self).contract_by_family == old(self).contract_by_family
                        }
                    }
                },
                TrackerExecuteMsg::AddAdmin { address } => {
                    if has_key(old(self).admins@, address@) {
                        r == Err::<TrackerEvent, TrackerError>(TrackerError::AlreadyAnAdmin)
                    } else {
                        r is Ok && final(self).admins@ == old(self).admins@.push((address, ()))
                            && final(self).code_by_hash == old(self).code_by_hash
                            && final(self).code_by_id == old(self).code_by_id
                            && final(self).contract_by_family == old(self).contract_by_family
                            && final(self).contract_by_addr == old(self).contract_by_addr
                    }
                },
                TrackerExecuteMsg::RemoveAdmin { address } => {
                    if !has_key(old(self).admins@, address@) {
                        r == Err::<TrackerEvent, TrackerError>(TrackerError::NotAnAdmin)
                    } else {
                        r is Ok && final(self).admins@ == old(self).admins@.remove(key_index(old(self).admins@, address@))
                            && final(self).code_by_hash == old(self).code_by_hash
                            && final(self).code_by_id == old(self).code_by_id
                            && final(self).contract_by_family == old(self).contract_by_family
                            && final(self).contract_by_addr == old(self).contract_by_addr
                    }
                },
            },
    {
        if !self.is_authorized(sender, contract_admin) {
            return Err(TrackerError::NotAdmin);
        }
        match msg {
            TrackerExecuteMsg::CodeId { contract_type, code_id, hash, gitrev } => {
                if self.find_code(code_id).is_some() {
                    return Err(TrackerError::CodeIdAlreadySubmitted);
                }
                proof {
                    lemma_key_index(self.code_by_hash@, hash@);
                }
                if find(&self.code_by_hash, &hash).is_some() {
                    return Err(TrackerError::CodeHashAlreadySubmitted);
                }
                let event = TrackerEvent::NewCodeId {
                    contract_type: clone_string(&contract_type),
                    code_id,
                    hash: clone_string(&hash),
                };
                let ghost old_hashes = self.code_by_hash@;
                let ghost old_codes = self.code_by_id@;
                self.code_by_hash.push((hash.clone(), code_id));
                self.code_by_id.push(CodeIdInfo { contract_type, code_id, hash, tracked_at: now, gitrev });
                proof {
                    lemma_code_index_from(old_codes, code_id, 0);
                    lemma_key_index(old_hashes, self.code_by_hash@.last().0@);
                    assert(self.code_by_id@.drop_last() =~= old_codes);
                    assert forall|i: int, j: int| 0 <= i < j < self.code_by_hash@.len() implies self.code_by_hash@[i].0@
                        != self.code_by_hash@[j].0@ by {
                        if j == old_hashes.len() {
                            assert(old_hashes[i].0@ != self.code_by_hash@.last().0@);
                        }
                    }
                }
                Ok(event)
            },
            TrackerExecuteMsg::Instantiate { code_id, address, family } => {
                let idx = match self.find_code(code_id) {
                    Some(i) => i,
                    None => return Err(TrackerError::CodeIdNotFound),
                };
                let contract_type = clone_string(&self.code_by_id[idx].contract_type);
                let hash = clone_string(&self.code_by_id[idx].hash);
                let latest = self.latest_sequence_exec(&family, &contract_type);
                let sequence: u32 = match latest {
                    Some(s) => {
                        if s == u32::MAX {
                            return Err(TrackerError::Overflow);
                        }
                        s + 1
                    },
                    None => 0,
                };
                let ghost old_family = self.contract_by_family@;
                proof {
                    lemma_latest_sequence(old_family, family@, contract_type@, old_family.len() as int);
                }
                self.contract_by_family.push(
                    FamilyEntry {
                        family: clone_string(&family),
                        contract_type: clone_string(&contract_type),
                        sequence,
                        address: clone_string(&address),
                    },
                );
                proof {
                    assert(self.contract_by_family@.drop_last() =~= old_family);
                    assert forall|i: int, j: int| 0 <= i < j < self.contract_by_family@.len() implies !(in_family(
                        self.contract_by_family@[i],
                        self.contract_by_family@[j].family@,
                        self.contract_by_family@[j].contract_type@,
                    ) && self.contract_by_family@[i].sequence == self.contract_by_family@[j].sequence) by {
                        if j == old_family.len() {
                            if in_family(old_family[i], family@, contract_type@) {
                                assert((latest_sequence(old_family, family@, contract_type@, old_family.len() as int) matches Some(s)
                                    && old_family[i].sequence <= s));
                            }
                        }
                    }
                }
                let info = ContractInfo {
                    original_code_id: code_id,
                    original_tracked_at: now,
                    current_code_id: code_id,
                    current_tracked_at: now,
                    family: clone_string(&family),
                    sequence,
                    migrate_count: 0,
                };
                let event = TrackerEvent::Instantiate {
                    contract_type,
                    code_id,
                    hash,
                    address: clone_string(&address),
                    family,
                    sequence,
                };
                set_contract(&mut self.contract_by_addr, address, info);
                Ok(event)
            },
            TrackerExecuteMsg::Migrate { new_code_id, address } => {
                let new_idx = match self.find_code(new_code_id) {
                    Some(i) => i,
                    None => return Err(TrackerError::NewCodeIdNotFound),
                };
                proof {
                    lemma_key_index(self.contract_by_addr@, address@);
                }
                let ci = match find(&self.contract_by_addr, &address) {
                    Some(i) => i,
                    None => return Err(TrackerError::ContractNotFound),
                };
                let old_code_id = self.contract_by_addr[ci].1.current_code_id;
                let old_idx = match self.find_code(old_code_id) {
                    Some(i) => i,
                    None => return Err(TrackerError::OldCodeIdNotFound),
                };
                if self.code_by_id[old_idx].contract_type != self.code_by_id[new_idx].contract_type {
                    return Err(TrackerError::ContractTypeMismatch);
                }
                if self.contract_by_addr[ci].1.migrate_count == u32::MAX {
                    return Err(TrackerError::Overflow);
                }
                let count = self.contract_by_addr[ci].1.migrate_count + 1;
                let ghost before = self.contract_by_addr@;
                let (addr, info) = self.contract_by_addr.remove(ci);
                let event = TrackerEvent::Migrate {
                    contract_type: clone_string(&self.code_by_id[old_idx].contract_type),
                    old_code_id,
                    new_code_id,
                    old_hash: clone_string(&self.code_by_id[old_idx].hash),
                    new_hash: clone_string(&self.code_by_id[new_idx].hash),
                    address: clone_string(&addr),
                    family: clone_string(&info.family),
                    sequence: info.sequence,
                    new_migrate_count: count,
                };
                let updated = ContractInfo {
                    current_code_id: new_code_id,
                    current_tracked_at: now,
                    migrate_count: count,
                    ..info
                };
                self.contract_by_addr.insert(ci, (addr, updated));
                proof {
                    assert(self.contract_by_addr@ =~= before.update(ci as int, self.contract_by_addr@[ci as int]));
                    assert forall|i: int, j: int| 0 <= i < j < self.contract_by_addr@.len() implies self.contract_by_addr@[i].0@
                        != self.contract_by_addr@[j].0@ by {
                        assert(before[i].0@ != before[j].0@);
                    }
                }
                Ok(event)
            },
            TrackerExecuteMsg::AddAdmin { address } => {
                proof {
                    lemma_key_index(self.admins@, address@);
                }
                if find(&self.admins, &address).is_some() {
                    return Err(TrackerError::AlreadyAnAdmin);
                }
                let ghost before = self.admins@;
                self.admins.push((address, ()));
                proof {
                    assert forall|i: int, j: int| 0 <= i < j < self.admins@.len() implies self.admins@[i].0@
                        != self.admins@[j].0@ by {
                        if j == before.len() {
                            assert(before[i].0@ != self.admins@.last().0@);
                        }
                    }
                }
                Ok(TrackerEvent::AdminsChanged)
            },
            TrackerExecuteMsg::RemoveAdmin { address } => {
                proof {
                    lemma_key_index(self.admins@, address@);
                }
                let i = match find(&self.admins, &address) {
                    Some(i) => i,
                    None => return Err(TrackerError::NotAnAdmin),
                };
                let ghost before = self.admins@;
                self.admins.remove(i);
                proof {
                    assert forall|a: int, b: int| 0 <= a < b < self.admins@.len() implies self.admins@[a].0@
                        != self.admins@[b].0@ by {
                        if a < i {
                            if b < i {
                                assert(before[a].0@ != before[b].0@);
                            } else {
                                assert(before[a].0@ != before[b + 1].0@);
                            }
                        } else {
                            assert(before[a + 1].0@ != before[b + 1].0@);
                        }
                    }
                }
                Ok(TrackerEvent::AdminsChanged)
            },
        }
    }
}

/// Records a contract's information under its address, replacing any.
fn set_contract(entries: &mut Vec<(String, ContractInfo)>, address: String, info: ContractInfo)
    requires
        keys_unique(old(entries)@),
    ensures
        keys_unique(final(entries)@),
        has_key(final(entries)@, address@),
        final(entries)@[key_index(final(entries)@, address@)].1 == info,
{
    proof {
        lemma_key_index(entries@, address@);
    }
    match find(entries, &address) {
        Some(i) => {
            let ghost before = entries@;
            entries.remove(i);
            entries.insert(i, (address, info));
            proof {
                assert(entries@ =~= before.update(i as int, entries@[i as int]));
                assert forall|a: int, b: int| 0 <= a < b < entries@.len() implies entries@[a].0@ != entries@[b].0@ by {
                    assert(before[a].0@ != before[b].0@);
                }
                lemma_unique_index(entries@, i as int);
            }
        },
        None => {
            let ghost before = entries@;
            entries.push((address, info));
            proof {
                let n = before.len() as int;
                assert forall|a: int, b: int| 0 <= a < b < entries@.len() implies entries@[a].0@ != entries@[b].0@ by {
                    if b == n {
                        assert(before[a].0@ != entries@[n].0@);
                    }
                }
                lemma_unique_index(entries@, n);
            }
        },
    }
}


/// What a code query answers.
#[derive(Debug)]
pub enum CodeIdResp {
    Found { contract_type: String, code_id: u64, hash: String, tracked_at: u64, gitrev: Option<String> },
    NotFound,
}

/// What a contract query answers.
#[derive(Debug)]
pub enum ContractResp {
    Found {
        address: String,
        contract_type: String,
        original_code_id: u64,
        original_tracked_at: u64,
        current_code_id: u64,
        current_tracked_at: u64,
        family: String,
        sequence: u32,
        migrate_count: u32,
    },
    NotFound,
}

/// The answer for a code: found when registered.
pub open spec fn code_resp_matches(r: CodeIdResp, codes: Seq<CodeIdInfo>, id: u64) -> bool {
    let i = code_index(codes, id);
    if i < 0 {
        r is NotFound
    } else {
        r matches CodeIdResp::Found { contract_type, code_id, hash, tracked_at, gitrev } && contract_type
            == codes[i].contract_type && code_id == id && hash == codes[i].hash && tracked_at == codes[i].tracked_at
            && gitrev == codes[i].gitrev
    }
}

/// The answer for a contract at `address`, given its information and the
/// registered codes.
pub open spec fn contract_resp_matches(r: ContractResp, address: Seq<char>, info: ContractInfo, codes: Seq<CodeIdInfo>) -> bool {
    r matches ContractResp::Found {
        address: a,
        contract_type,
        original_code_id,
        original_tracked_at,
        current_code_id,
        current_tracked_at,
        family,
        sequence,
        migrate_count,
    } && a@ == address && contract_type == codes[code_index(codes, info.current_code_id)].contract_type
        && original_code_id == info.original_code_id && original_tracked_at == info.original_tracked_at
        && current_code_id == info.current_code_id && current_tracked_at == info.current_tracked_at && family
        == info.family && sequence == info.sequence && migrate_count == info.migrate_count
}

impl Tracker {
    fn code_resp(&self, code_id: Option<u64>) -> (r: CodeIdResp)
        ensures
            match code_id {
                None => r is NotFound,
                Some(id) => code_resp_matches(r, self.code_by_id@, id),
            },
    {
        match code_id {
            None => CodeIdResp::NotFound,
            Some(id) => match self.find_code(id) {
                None => CodeIdResp::NotFound,
                Some(i) => {
                    let info = &self.code_by_id[i];
                    CodeIdResp::Found {
                        contract_type: info.contract_type.clone(),
                        code_id: info.code_id,
                        hash: info.hash.clone(),
                        tracked_at: info.tracked_at,
                        gitrev: match &info.gitrev {
                            Some(g) => Some(g.clone()),
                            None => None,
                        },
                    }
                },
            },
        }
    }

    /// The code registered under an identifier.
    pub fn query_code_by_id(&self, code_id: u64) -> (r: CodeIdResp)
        ensures
            code_resp_matches(r, self.code_by_id@, code_id),
    {
        self.code_resp(Some(code_id))
    }

    /// The code registered under a hash.
    pub fn query_code_by_hash(&self, hash: &String) -> (r: CodeIdResp)
        ensures
            !has_key(self.code_by_hash@, hash@) ==> r is NotFound,
            has_key(self.code_by_hash@, hash@) ==> code_resp_matches(
                r,
                self.code_by_id@,
                self.code_by_hash@[key_index(self.code_by_hash@, hash@)].1,
            ),
    {
        proof {
            lemma_key_index(self.code_by_hash@, hash@);
        }
        match find(&self.code_by_hash, hash) {
            Some(i) => self.code_resp(Some(self.code_by_hash[i].1)),
            None => self.code_resp(None),
        }
    }

    fn contract_resp(&self, address: &String) -> (r: Result<ContractResp, TrackerError>)
        ensures
            !has_key(self.contract_by_addr@, address@) ==> r matches Ok(ContractResp::NotFound),
            has_key(self.contract_by_addr@, address@) ==> ({
                let info = self.contract_by_addr@[key_index(self.contract_by_addr@, address@)].1;
                if code_index(self.code_by_id@, info.current_code_id) < 0 {
                    r == Err::<ContractResp, TrackerError>(TrackerError::CodeIdNotFound)
                } else {
                    r matches Ok(c) && contract_resp_matches(c, address@, info, self.code_by_id@)
                }
            }),
    {
        proof {
            lemma_key_index(self.contract_by_addr@, address@);
        }
        match find(&self.contract_by_addr, address) {
            None => Ok(ContractResp::NotFound),
            Some(i) => {
                let info = &self.contract_by_addr[i].1;
                let ci = match self.find_code(info.current_code_id) {
                    Some(ci) => ci,
                    None => return Err(TrackerError::CodeIdNotFound),
                };
                Ok(
                    ContractResp::Found {
                        address: address.clone(),
                        contract_type: self.code_by_id[ci].contract_type.clone(),
                        original_code_id: info.original_code_id,
                        original_tracked_at: info.original_tracked_at,
                        current_code_id: info.current_code_id,
                        current_tracked_at: info.current_tracked_at,
                        family: info.family.clone(),
                        sequence: info.sequence,
                        migrate_count: info.migrate_count,
                    },
                )
            },
        }
    }

    /// The contract tracked at an address.
    pub fn query_contract_by_address(&self, address: &String) -> (r: Result<ContractResp, TrackerError>)
        ensures
            !has_key(self.contract_by_addr@, address@) ==> r matches Ok(ContractResp::NotFound),
            has_key(self.contract_by_addr@, address@) ==> ({
                let info = self.contract_by_addr@[key_index(self.contract_by_addr@, address@)].1;
                if code_index(self.code_by_id@, info.current_code_id) < 0 {
                    r == Err::<ContractResp, TrackerError>(TrackerError::CodeIdNotFound)
                } else {
                    r matches Ok(c) && contract_resp_matches(c, address@, info, self.code_by_id@)
                }
            }),
    {
        self.contract_resp(address)
    }

    /// The address of the contract of a family and type with the given
    /// sequence number, or of the latest one.
    pub fn family_address_exec(&self, contract_type: &String, family: &String, sequence: Option<u32>) -> (r: Option<String>)
        requires
            self.wf(),
        ensures
            match sequence {
                Some(s) => opt_string_view(r) == family_address(self.contract_by_family@, family@, contract_type@, s),
                None => match latest_sequence(self.contract_by_family@, family@, contract_type@, self.contract_by_family@.len() as int) {
                    None => r is None,
                    Some(s) => opt_string_view(r) == family_address(self.contract_by_family@, family@, contract_type@, s),
                },
            },
    {
        let seq = match sequence {
            Some(s) => s,
            None => match self.latest_sequence_exec(family, contract_type) {
                Some(s) => s,
                None => return None,
            },
        };
        let n = self.contract_by_family.len();
        let mut i: usize = 0;
        while i < n
            invariant
                self.wf(),
                match sequence {
                    Some(s) => seq == s,
                    None => latest_sequence(self.contract_by_family@, family@, contract_type@, n as int) == Some(seq),
                },
                n == self.contract_by_family@.len(),
                i <= n,
                forall|k: int| 0 <= k < i ==> !(#[trigger] in_family(self.contract_by_family@[k], family@, contract_type@)
                    && self.contract_by_family@[k].sequence == seq),
            decreases n - i,
        {
            let e = &self.contract_by_family[i];
            if e.family == *family && e.contract_type == *contract_type && e.sequence == seq {
                proof {
                    let es = self.contract_by_family@;
                    assert(in_family(es[i as int], family@, contract_type@) && es[i as int].sequence == seq);
                    let k = choose|k: int| 0 <= k < es.len() && in_family(es[k], family@, contract_type@) && es[k].sequence == seq;
                    if k != i as int {
                        if k < i as int {
                            assert(!(in_family(es[k], family@, contract_type@) && es[k].sequence == seq));
                        } else {
                            assert(!(in_family(es[i as int], es[k].family@, es[k].contract_type@) && es[i as int].sequence == es[k].sequence));
                        }
                    }
                }
                return Some(e.address.clone());
            }
            i += 1;
        }
        proof {
            let es = self.contract_by_family@;
            assert(!exists|k: int| 0 <= k < es.len() && in_family(es[k], family@, contract_type@) && es[k].sequence == seq);
        }
        None
    }

    /// The contract of a family and type with the given sequence number, or
    /// the latest one.
    pub fn query_contract_by_family(&self, contract_type: &String, family: &String, sequence: Option<u32>) -> (r: Result<ContractResp, TrackerError>)
        requires
            self.wf(),
        ensures
            ({
                let addr = match sequence {
                    Some(s) => family_address(self.contract_by_family@, family@, contract_type@, s),
                    None => match latest_sequence(self.contract_by_family@, family@, contract_type@, self.contract_by_family@.len() as int) {
                        None => None,
                        Some(s) => family_address(self.contract_by_family@, family@, contract_type@, s),
                    },
                };
                match addr {
                    None => r matches Ok(ContractResp::NotFound),
                    Some(a) => if !has_key(self.contract_by_addr@, a) {
                        r matches Ok(ContractResp::NotFound)
                    } else {
                        let info = self.contract_by_addr@[key_index(self.contract_by_addr@, a)].1;
                        if code_index(self.code_by_id@, info.current_code_id) < 0 {
                            r == Err::<ContractResp, TrackerError>(TrackerError::CodeIdNotFound)
                        } else {
                            r matches Ok(c) && contract_resp_matches(c, a, info, self.code_by_id@)
                        }
                    },
                }
            }),
    {
        match self.family_address_exec(contract_type, family, sequence) {
            None => Ok(ContractResp::NotFound),
            Some(address) => self.contract_resp(&address),
        }
    }
}

pub open spec fn opt_string_view(o: Option<String>) -> Option<Seq<char>> {
    match o {
        Some(s) => Some(s@),
        None => None,
    }
}

/// Registered code is found by its identifier.
pub proof fn lemma_registered_code_found(codes: Seq<CodeIdInfo>, info: CodeIdInfo)
    requires
        code_index(codes, info.code_id) < 0,
    ensures
        code_index(codes.push(info), info.code_id) == codes.len(),
        codes.push(info)[code_index(codes.push(info), info.code_id)] == info,
{
    let all = codes.push(info);
    lemma_code_index_from(codes, info.code_id, 0);
    lemma_code_index_from(all, info.code_id, 0);
    let k = code_index(all, info.code_id);
    assert(all[codes.len() as int] == info);
    if 0 <= k < codes.len() {
        assert(all[k] == codes[k]);
    }
}

/// The latest sequence depends on the first `n` entries alone.
proof fn lemma_latest_prefix(a: Seq<FamilyEntry>, b: Seq<FamilyEntry>, family: Seq<char>, contract_type: Seq<char>, n: int)
    requires
        0 <= n <= a.len(),
        n <= b.len(),
        forall|k: int| 0 <= k < n ==> a[k] == b[k],
    ensures
        latest_sequence(a, family, contract_type, n) == latest_sequence(b, family, contract_type, n),
    decreases n,
{
    if n > 0 {
        lemma_latest_prefix(a, b, family, contract_type, n - 1);
        assert(a[n - 1] == b[n - 1]);
    }
}

/// A newly instantiated contract is the latest of its family and type, and
/// is found there by its sequence number.
pub proof fn lemma_instantiated_is_latest(entries: Seq<FamilyEntry>, e: FamilyEntry)
    requires
        forall|i: int, j: int|
            0 <= i < j < entries.len() ==> !(in_family(entries[i], entries[j].family@, entries[j].contract_type@)
                && entries[i].sequence == entries[j].sequence),
        e.sequence == (match latest_sequence(entries, e.family@, e.contract_type@, entries.len() as int) {
            Some(s) => s + 1,
            None => 0,
        }),
    ensures
        latest_sequence(entries.push(e), e.family@, e.contract_type@, entries.len() as int + 1) == Some(e.sequence),
        family_address(entries.push(e), e.family@, e.contract_type@, e.sequence) == Some(e.address@),
{
    let all = entries.push(e);
    let n = entries.len() as int;
    lemma_latest_sequence(entries, e.family@, e.contract_type@, n);
    assert(forall|k: int| 0 <= k < n ==> all[k] == entries[k]);
    lemma_latest_prefix(all, entries, e.family@, e.contract_type@, n);
    assert(all[n] == e);
    assert(in_family(all[n], e.family@, e.contract_type@) && all[n].sequence == e.sequence);
    let k = choose|k: int| 0 <= k < all.len() && in_family(all[k], e.family@, e.contract_type@) && all[k].sequence == e.sequence;
    if k < n {
        assert(in_family(entries[k], e.family@, e.contract_type@));
        assert((latest_sequence(entries, e.family@, e.contract_type@, n) matches Some(s) && entries[k].sequence <= s));
    }
}

} // verus!
