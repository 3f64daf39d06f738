//! Durable mapping of users to vaults to password records.
//!
//! The store holds only ciphertext for sensitive fields: a record's password
//! and notes arrive and leave as envelopes, and each vault carries its data
//! key wrapped (encrypted) under the owner's session key. The store itself
//! never holds a decryption capability.

use vstd::prelude::*;
use crate::crypto::{Envelope, EnvelopeModel, SALT_LEN};
use crate::errors::CoreError;

verus! {

/// A registered user: never deleted, only deactivated.
pub struct User {
    pub id: u64,
    pub email: String,
    pub auth_hash: u64,
    pub salt: Vec<u8>,
    pub biometric_enabled: bool,
    pub created_at: u64,
    pub active: bool,
}

/// Mathematical model of a user.
pub ghost struct UserModel {
    pub id: u64,
    pub email: Seq<char>,
    pub auth_hash: u64,
    pub salt: Seq<u8>,
    pub biometric_enabled: bool,
    pub created_at: u64,
    pub active: bool,
}

impl View for User {
    type V = UserModel;

    open spec fn view(&self) -> UserModel {
        UserModel {
            id: self.id,
            email: self.email@,
            auth_hash: self.auth_hash,
            salt: self.salt@,
            biometric_enabled: self.biometric_enabled,
            created_at: self.created_at,
            active: self.active,
        }
    }
}

/// A vault: owned by exactly one user; carries its wrapped data key and the
/// nonce counter of that data key.
pub struct Vault {
    pub id: u64,
    pub user_id: u64,
    pub name: String,
    pub description: Option<String>,
    pub icon: Option<String>,
    pub created_at: u64,
    pub key_env: Envelope,
    pub enc_ctr: u64,
}

/// Mathematical model of a vault.
pub ghost struct VaultModel {
    pub id: u64,
    pub user_id: u64,
    pub name: Seq<char>,
    pub description: Option<Seq<char>>,
    pub icon: Option<Seq<char>>,
    pub created_at: u64,
    pub key_env: EnvelopeModel,
    pub enc_ctr: u64,
}

impl View for Vault {
    type V = VaultModel;

    open spec fn view(&self) -> VaultModel {
        VaultModel {
            id: self.id,
            user_id: self.user_id,
            name: self.name@,
            description: match self.description {
                Some(ref s) => Some(s@),
                None => None,
            },
            icon: match self.icon {
                Some(ref s) => Some(s@),
                None => None,
            },
            created_at: self.created_at,
            key_env: self.key_env@,
            enc_ctr: self.enc_ctr,
        }
    }
}

/// A password record: sensitive fields only as envelopes.
pub struct PasswordRecord {
    pub id: u64,
    pub vault_id: u64,
    pub title: String,
    pub username: String,
    pub password_env: Envelope,
    pub url: Option<String>,
    pub notes_env: Option<Envelope>,
    pub tags: Vec<String>,
    pub created_at: u64,
    pub modified_at: u64,
}

/// Mathematical model of a password record.
pub ghost struct RecordModel {
    pub id: u64,
    pub vault_id: u64,
    pub title: Seq<char>,
    pub username: Seq<char>,
    pub password_env: EnvelopeModel,
    pub url: Option<Seq<char>>,
    pub notes_env: Option<EnvelopeModel>,
    pub tags: Seq<Seq<char>>,
    pub created_at: u64,
    pub modified_at: u64,
}

impl View for PasswordRecord {
    type V = RecordModel;

    open spec fn view(&self) -> RecordModel {
        RecordModel {
            id: self.id,
            vault_id: self.vault_id,
            title: self.title@,
            username: self.username@,
            password_env: self.password_env@,
            url: match self.url {
                Some(ref s) => Some(s@),
                None => None,
            },
            notes_env: match self.notes_env {
                Some(ref e) => Some(e@),
                None => None,
            },
            tags: self.tags@.map_values(|t: String| t@),
            created_at: self.created_at,
            modified_at: self.modified_at,
        }
    }
}

impl PasswordRecord {
    /// A deep copy of the record, ciphertext included.
    pub fn duplicate(&self) -> (r: PasswordRecord)
        ensures
            r@ == self@,
    {
        let url = match &self.url {
            Some(s) => Some(crate::monitor::clone_string(s)),
            None => None,
        };
        let notes_env = match &self.notes_env {
            Some(e) => Some(e.duplicate()),
            None => None,
        };
        let tags = crate::monitor::clone_string_vec(&self.tags);
        PasswordRecord {
            id: self.id,
            vault_id: self.vault_id,
            title: crate::monitor::clone_string(&self.title),
            username: crate::monitor::clone_string(&self.username),
            password_env: self.password_env.duplicate(),
            url,
            notes_env,
            tags,
            created_at: self.created_at,
            modified_at: self.modified_at,
        }
    }
}

/// The store of all durable state.
pub struct VaultStore {
    pub users: Vec<User>,
    pub vaults: Vec<Vault>,
    pub records: Vec<PasswordRecord>,
    pub next_id: u64,
    pub busy: bool,
}

/// Mathematical model of the store.
pub ghost struct StoreModel {
    pub users: Seq<UserModel>,
    pub vaults: Seq<VaultModel>,
    pub records: Seq<RecordModel>,
    pub next_id: u64,
    pub busy: bool,
}

impl View for VaultStore {
    type V = StoreModel;

    open spec fn view(&self) -> StoreModel {
        StoreModel {
            users: self.users@.map_values(|u: User| u@),
            vaults: self.vaults@.map_values(|v: Vault| v@),
            records: self.records@.map_values(|r: PasswordRecord| r@),
            next_id: self.next_id,
            busy: self.busy,
        }
    }
}

impl StoreModel {
    /// Some user is registered under this email.
    pub open spec fn email_taken(self, email: Seq<char>) -> bool {
        exists|i: int| 0 <= i < self.users.len() && self.users[i].email == email
    }

    /// Some user has this id.
    pub open spec fn user_exists(self, user_id: u64) -> bool {
        exists|i: int| 0 <= i < self.users.len() && self.users[i].id == user_id
    }

    /// Some active user has this id.
    pub open spec fn user_active(self, user_id: u64) -> bool {
        exists|i: int| 0 <= i < self.users.len() && self.users[i].id == user_id
            && self.users[i].active
    }

    /// Some vault has this id.
    pub open spec fn vault_exists(self, vault_id: u64) -> bool {
        exists|i: int| 0 <= i < self.vaults.len() && self.vaults[i].id == vault_id
    }

    /// The vault exists and belongs to this user.
    pub open spec fn owns_vault(self, user_id: u64, vault_id: u64) -> bool {
        exists|i: int|
            0 <= i < self.vaults.len() && self.vaults[i].id == vault_id && self.vaults[i].user_id
                == user_id
    }

    /// Well-formedness: ids and emails are unique, every id was minted below
    /// next_id, every vault's owner and every record's vault exist, and every
    /// salt has its required length.
    pub open spec fn wf(self) -> bool {
        &&& forall|i: int, j: int|
            0 <= i < j < self.users.len() ==> self.users[i].id != self.users[j].id
                && self.users[i].email != self.users[j].email
        &&& forall|i: int, j: int|
            0 <= i < j < self.vaults.len() ==> self.vaults[i].id != self.vaults[j].id
        &&& forall|i: int, j: int|
            0 <= i < j < self.records.len() ==> self.records[i].id != self.records[j].id
        &&& forall|i: int| 0 <= i < self.users.len() ==> #[trigger] self.users[i].id < self.next_id
        &&& forall|i: int|
            0 <= i < self.vaults.len() ==> #[trigger] self.vaults[i].id < self.next_id
        &&& forall|i: int|
            0 <= i < self.records.len() ==> #[trigger] self.records[i].id < self.next_id
        &&& forall|i: int|
            0 <= i < self.vaults.len() ==> self.user_exists(#[trigger] self.vaults[i].user_id)
        &&& forall|i: int|
            0 <= i < self.records.len() ==> self.vault_exists(#[trigger] self.records[i].vault_id)
        &&& forall|i: int|
            0 <= i < self.users.len() ==> (#[trigger] self.users[i].salt).len() == SALT_LEN
    }
}

impl VaultStore {
    /// An empty store.
    pub fn new() -> (r: VaultStore)
        ensures
            r@.users.len() == 0,
            r@.vaults.len() == 0,
            r@.records.len() == 0,
            r@.next_id == 0,
            !r@.busy,
            r@.wf(),
    {
        VaultStore { users: Vec::new(), vaults: Vec::new(), records: Vec::new(), next_id: 0, busy: false }
    }

    /// The index of the user registered under this email, if any.
    pub fn find_user_by_email(&self, email: &String) -> (r: Option<usize>)
        ensures
            r matches Some(i) ==> i < self@.users.len() && self@.users[i as int].email == email@,
            r is None ==> !self@.email_taken(email@),
    {
        let mut i: usize = 0;
        while i < self.users.len()
            invariant
                i <= self.users.len(),
                forall|j: int| 0 <= j < i ==> self@.users[j].email != email@,
            decreases self.users.len() - i,
        {
            if self.users[i].email == *email {
                return Some(i);
            }
            i = i + 1;
        }
        None
    }

    /// The index of the user with this id, if any.
    pub fn find_user(&self, user_id: u64) -> (r: Option<usize>)
        ensures
            r matches Some(i) ==> i < self@.users.len() && self@.users[i as int].id == user_id,
            r is None ==> !self@.user_exists(user_id),
    {
        let mut i: usize = 0;
        while i < self.users.len()
            invariant
                i <= self.users.len(),
                forall|j: int| 0 <= j < i ==> self@.users[j].id != user_id,
            decreases self.users.len() - i,
        {
            if self.users[i].id == user_id {
                return Some(i);
            }
            i = i + 1;
        }
        None
    }

    /// The index of the vault with this id, if any.
    pub fn find_vault(&self, vault_id: u64) -> (r: Option<usize>)
        ensures
            r matches Some(i) ==> i < self@.vaults.len() && self@.vaults[i as int].id == vault_id,
            r is None ==> !self@.vault_exists(vault_id),
    {
        let mut i: usize = 0;
        while i < self.vaults.len()
            invariant
                i <= self.vaults.len(),
                forall|j: int| 0 <= j < i ==> self@.vaults[j].id != vault_id,
            decreases self.vaults.len() - i,
        {
            if self.vaults[i].id == vault_id {
                return Some(i);
            }
            i = i + 1;
        }
        None
    }

    /// Registers a user record. Fails with EmailTaken exactly when the email
    /// is already registered, and with StorageUnavailable exactly when the id
    /// space is exhausted; on failure nothing changes.
    pub fn create_user(
        &mut self,
        email: String,
        auth_hash: u64,
        salt: Vec<u8>,
        biometric_enabled: bool,
        now: u64,
    ) -> (r: Result<u64, CoreError>)
        requires
            old(self)@.wf(),
            salt@.len() == SALT_LEN,
        ensures
            final(self)@.wf(),
            r == Err::<u64, CoreError>(CoreError::EmailTaken) <==> old(self)@.email_taken(email@),
            r is Err ==> final(self)@ == old(self)@,
            r matches Err(e) ==> e == CoreError::EmailTaken || e == CoreError::StorageUnavailable,
            !old(self)@.email_taken(email@) && old(self)@.next_id < u64::MAX ==> r is Ok,
            r matches Ok(id) ==> {
                &&& id == old(self)@.next_id
                &&& final(self)@.users == old(self)@.users.push(
                    UserModel {
                        id: old(self)@.next_id,
                        email: email@,
                        auth_hash: auth_hash,
                        salt: salt@,
                        biometric_enabled: biometric_enabled,
                        created_at: now,
                        active: true,
                    },
                )
                &&& final(self)@.vaults == old(self)@.vaults
                &&& final(self)@.records == old(self)@.records
                &&& final(self)@.next_id == old(self)@.next_id + 1
                &&& final(self)@.busy == old(self)@.busy
            },
    {
        match self.find_user_by_email(&email) {
            Some(i) => {
                proof {
                    assert(old(self)@.email_taken(email@));
                }
                Err(CoreError::EmailTaken)
            },
            None => {
                if self.next_id == u64::MAX {
                    return Err(CoreError::StorageUnavailable);
                }
                let id = self.next_id;
                let user = User {
                    id,
                    email,
                    auth_hash,
                    salt,
                    biometric_enabled,
                    created_at: now,
                    active: true,
                };
                self.users.push(user);
                self.next_id = self.next_id + 1;
                proof {
                    assert(self@.users =~= old(self)@.users.push(self@.users.last()));
                    assert(self@.vaults =~= old(self)@.vaults);
                    assert(self@.records =~= old(self)@.records);
                    assert forall|i: int, j: int|
                        0 <= i < j < self@.users.len() implies self@.users[i].id
                        != self@.users[j].id && self@.users[i].email != self@.users[j].email by {
                        if j == self@.users.len() - 1 {
                            assert(!old(self)@.email_taken(email@));
                            assert(old(self)@.users[i].email != email@);
                        }
                    }
                    assert forall|i: int|
                        0 <= i < self@.vaults.len() implies self@.user_exists(
                        #[trigger] self@.vaults[i].user_id,
                    ) by {
                        assert(old(self)@.user_exists(self@.vaults[i].user_id));
                        let w = choose|k: int|
                            0 <= k < old(self)@.users.len() && old(self)@.users[k].id
                                == self@.vaults[i].user_id;
                        assert(self@.users[w].id == self@.vaults[i].user_id);
                    }
                }
                Ok(id)
            },
        }
    }

    /// Creates a vault for this user. Fails with VaultBusy during rotation
    /// and with Unauthorized exactly when the user id is not an active user;
    /// on failure nothing changes.
    pub fn create_vault(
        &mut self,
        user_id: u64,
        name: String,
        description: Option<String>,
        icon: Option<String>,
        key_env: Envelope,
        now: u64,
    ) -> (r: Result<u64, CoreError>)
        requires
            old(self)@.wf(),
        ensures
            final(self)@.wf(),
            r is Err ==> final(self)@ == old(self)@,
            r == Err::<u64, CoreError>(CoreError::VaultBusy) <==> old(self)@.busy,
            !old(self)@.busy ==> (r == Err::<u64, CoreError>(CoreError::Unauthorized) <==> !old(self)@.user_active(user_id)),
            r matches Err(e) ==> e == CoreError::VaultBusy || e == CoreError::Unauthorized || e
                == CoreError::StorageUnavailable,
            !old(self)@.busy && old(self)@.user_active(user_id) && old(self)@.next_id < u64::MAX
                ==> r is Ok,
            r matches Ok(id) ==> {
                &&& id == old(self)@.next_id
                &&& final(self)@.vaults == old(self)@.vaults.push(
                    VaultModel {
                        id: old(self)@.next_id,
                        user_id: user_id,
                        name: name@,
                        description: match description {
                            Some(s) => Some(s@),
                            None => None,
                        },
                        icon: match icon {
                            Some(s) => Some(s@),
                            None => None,
                        },
                        created_at: now,
                        key_env: key_env@,
                        enc_ctr: 0,
                    },
                )
                &&& final(self)@.users == old(self)@.users
                &&& final(self)@.records == old(self)@.records
                &&& final(self)@.next_id == old(self)@.next_id + 1
                &&& final(self)@.busy == old(self)@.busy
            },
    {
        if self.busy {
            return Err(CoreError::VaultBusy);
        }
        let idx = self.find_user(user_id);
        let active = match idx {
            Some(i) => self.users[i].active,
            None => false,
        };
        if !active {
            proof {
                if self@.user_active(user_id) {
                    let k = choose|k: int|
                        0 <= k < self@.users.len() && self@.users[k].id == user_id
                            && self@.users[k].active;
                    match idx {
                        Some(i) => {
                            if k < i as int {
                                assert(self@.users[k].id != self@.users[i as int].id);
                            } else if k > i as int {
                                assert(self@.users[i as int].id != self@.users[k].id);
                            }
                            assert(k == i as int);
                            assert(false);
                        },
                        None => {
                            assert(self@.user_exists(user_id));
                            assert(false);
                        },
                    }
                }
            }
            return Err(CoreError::Unauthorized);
        }
        proof {
            match idx {
                Some(i) => {
                    assert(self@.users[i as int].id == user_id && self@.users[i as int].active);
                    assert(self@.user_active(user_id));
                },
                None => {
                    assert(false);
                },
            }
        }
        if self.next_id == u64::MAX {
            return Err(CoreError::StorageUnavailable);
        }
        let id = self.next_id;
        let vault = Vault {
            id,
            user_id,
            name,
            description,
            icon,
            created_at: now,
            key_env,
            enc_ctr: 0,
        };
        self.vaults.push(vault);
        self.next_id = self.next_id + 1;
        proof {
            assert(self@.vaults =~= old(self)@.vaults.push(self@.vaults.last()));
            assert(self@.users =~= old(self)@.users);
            assert(self@.records =~= old(self)@.records);
            assert forall|i: int|
                0 <= i < self@.vaults.len() implies self@.user_exists(
                #[trigger] self@.vaults[i].user_id,
            ) by {
                if i < self@.vaults.len() - 1 {
                    assert(old(self)@.user_exists(self@.vaults[i].user_id));
                }
                assert(old(self)@.user_exists(self@.vaults[i].user_id));
                let w = choose|k: int|
                    0 <= k < old(self)@.users.len() && old(self)@.users[k].id
                        == self@.vaults[i].user_id;
                assert(self@.users[w].id == self@.vaults[i].user_id);
            }
            assert forall|i: int|
                0 <= i < self@.records.len() implies self@.vault_exists(
                #[trigger] self@.records[i].vault_id,
            ) by {
                assert(old(self)@.vault_exists(self@.records[i].vault_id));
                let w = choose|k: int|
                    0 <= k < old(self)@.vaults.len() && old(self)@.vaults[k].id
                        == self@.records[i].vault_id;
                assert(self@.vaults[w].id == self@.records[i].vault_id);
            }
        }
        Ok(id)
    }

    /// Adds a password record to a vault. Ownership is checked on this path
    /// as on every path: VaultBusy during rotation, NotFound when the vault
    /// does not exist, Unauthorized when it exists but the caller does not
    /// own it; on failure nothing changes.
    pub fn create_password(
        &mut self,
        user_id: u64,
        vault_id: u64,
        title: String,
        username: String,
        password_env: Envelope,
        url: Option<String>,
        notes_env: Option<Envelope>,
        tags: Vec<String>,
        now: u64,
    ) -> (r: Result<u64, CoreError>)
        requires
            old(self)@.wf(),
        ensures
            final(self)@.wf(),
            r is Err ==> final(self)@ == old(self)@,
            r == Err::<u64, CoreError>(CoreError::VaultBusy) <==> old(self)@.busy,
            !old(self)@.busy ==> (r == Err::<u64, CoreError>(CoreError::NotFound) <==> !old(self)@.vault_exists(vault_id)),
            !old(self)@.busy && old(self)@.vault_exists(vault_id) ==> (r == Err::<u64, CoreError>(
                CoreError::Unauthorized,
            ) <==> !old(self)@.owns_vault(user_id, vault_id)),
            r matches Err(e) ==> e == CoreError::VaultBusy || e == CoreError::NotFound || e
                == CoreError::Unauthorized || e == CoreError::StorageUnavailable,
            !old(self)@.busy && old(self)@.owns_vault(user_id, vault_id) && old(self)@.next_id
                < u64::MAX ==> r is Ok,
            r matches Ok(id) ==> {
                &&& id == old(self)@.next_id
                &&& final(self)@.records == old(self)@.records.push(
                    RecordModel {
                        id: old(self)@.next_id,
                        vault_id: vault_id,
                        title: title@,
                        username: username@,
                        password_env: password_env@,
                        url: match url {
                            Some(s) => Some(s@),
                            None => None,
                        },
                        notes_env: match notes_env {
                            Some(e) => Some(e@),
                            None => None,
                        },
                        tags: tags@.map_values(|t: String| t@),
                        created_at: now,
                        modified_at: now,
                    },
                )
                &&& final(self)@.users == old(self)@.users
                &&& final(self)@.vaults == old(self)@.vaults
                &&& final(self)@.next_id == old(self)@.next_id + 1
                &&& final(self)@.busy == old(self)@.busy
            },
    {
        if self.busy {
            return Err(CoreError::VaultBusy);
        }
        let vi = match self.find_vault(vault_id) {
            Some(i) => i,
            None => {
                return Err(CoreError::NotFound);
            },
        };
        if self.vaults[vi].user_id != user_id {
            proof {
                if self@.owns_vault(user_id, vault_id) {
                    let k = choose|k: int|
                        0 <= k < self@.vaults.len() && self@.vaults[k].id == vault_id
                            && self@.vaults[k].user_id == user_id;
                    if k < vi as int {
                        assert(self@.vaults[k].id != self@.vaults[vi as int].id);
                    } else if k > vi as int {
                        assert(self@.vaults[vi as int].id != self@.vaults[k].id);
                    }
                    assert(false);
                }
            }
            return Err(CoreError::Unauthorized);
        }
        if self.next_id == u64::MAX {
            return Err(CoreError::StorageUnavailable);
        }
        proof {
            assert(self@.owns_vault(user_id, vault_id)) by {
                assert(self@.vaults[vi as int].id == vault_id && self@.vaults[vi as int].user_id
                    == user_id);
            }
        }
        let id = self.next_id;
        let record = PasswordRecord {
            id,
            vault_id,
            title,
            username,
            password_env,
            url,
            notes_env,
            tags,
            created_at: now,
            modified_at: now,
        };
        self.records.push(record);
        self.next_id = self.next_id + 1;
        proof {
            assert(self@.records =~= old(self)@.records.push(self@.records.last()));
            assert(self@.users =~= old(self)@.users);
            assert(self@.vaults =~= old(self)@.vaults);
            assert forall|i: int|
                0 <= i < self@.vaults.len() implies self@.user_exists(
                #[trigger] self@.vaults[i].user_id,
            ) by {
                assert(old(self)@.user_exists(self@.vaults[i].user_id));
                let w = choose|k: int|
                    0 <= k < old(self)@.users.len() && old(self)@.users[k].id
                        == self@.vaults[i].user_id;
                assert(self@.users[w].id == self@.vaults[i].user_id);
            }
            assert forall|i: int|
                0 <= i < self@.records.len() implies self@.vault_exists(
                #[trigger] self@.records[i].vault_id,
            ) by {
                if i < self@.records.len() - 1 {
                    assert(old(self)@.vault_exists(self@.records[i].vault_id));
                } else {
                    assert(old(self)@.vault_exists(vault_id));
                }
                let w = choose|k: int|
                    0 <= k < old(self)@.vaults.len() && old(self)@.vaults[k].id
                        == self@.records[i].vault_id;
                assert(self@.vaults[w].id == self@.records[i].vault_id);
            }
        }
        Ok(id)
    }

    /// The indices of this vault's records, in insertion order.
    pub fn record_indices(&self, vault_id: u64) -> (r: Vec<usize>)
        ensures
            forall|k: int, l: int| 0 <= k < l < r@.len() ==> r@[k] < r@[l],
            forall|k: int|
                0 <= k < r@.len() ==> r@[k] < self@.records.len() && (#[trigger] self@.records[
                    r@[k] as int
                ]).vault_id == vault_id,
            forall|j: int|
                0 <= j < self@.records.len() && (#[trigger] self@.records[j]).vault_id == vault_id
                    ==> r@.contains(j as usize),
    {
        let mut out: Vec<usize> = Vec::new();
        let mut i: usize = 0;
        while i < self.records.len()
            invariant
                i <= self.records.len(),
                forall|k: int, l: int| 0 <= k < l < out@.len() ==> out@[k] < out@[l],
                forall|k: int| 0 <= k < out@.len() ==> (#[trigger] out@[k]) < i,
                forall|k: int|
                    0 <= k < out@.len() ==> (#[trigger] self@.records[out@[k] as int]).vault_id
                        == vault_id,
                forall|j: int|
                    0 <= j < i && (#[trigger] self@.records[j]).vault_id == vault_id
                        ==> out@.contains(j as usize),
            decreases self.records.len() - i,
        {
            if self.records[i].vault_id == vault_id {
                let ghost prev = out@;
                out.push(i);
                proof {
                    assert(out@.last() == i as usize);
                    assert forall|k: int, l: int| 0 <= k < l < out@.len() implies out@[k]
                        < out@[l] by {
                        if l == out@.len() - 1 {
                            assert(out@[k] == prev[k]);
                        } else {
                            assert(out@[k] == prev[k] && out@[l] == prev[l]);
                        }
                    }
                    assert forall|j: int|
                        0 <= j < i + 1 && (#[trigger] self@.records[j]).vault_id == vault_id
                            implies out@.contains(j as usize) by {
                        if j < i {
                            assert(prev.contains(j as usize));
                            let w = choose|w: int| 0 <= w < prev.len() && prev[w] == j as usize;
                            assert(out@[w] == j as usize);
                        } else {
                            assert(out@[out@.len() - 1] == j as usize);
                        }
                    }
                }
            }
            i = i + 1;
        }
        out
    }

    /// Sets the biometric flag of the user with this id; no other field of
    /// any user changes. Returns whether the user exists.
    pub fn set_user_biometric(&mut self, user_id: u64, enabled: bool) -> (r: bool)
        requires
            old(self)@.wf(),
        ensures
            final(self)@.wf(),
            r == old(self)@.user_exists(user_id),
            final(self)@.vaults == old(self)@.vaults,
            final(self)@.records == old(self)@.records,
            final(self)@.next_id == old(self)@.next_id,
            final(self)@.busy == old(self)@.busy,
            final(self)@.users.len() == old(self)@.users.len(),
            forall|i: int|
                0 <= i < old(self)@.users.len() && old(self)@.users[i].id != user_id ==> final(self)@.users[i] == old(self)@.users[i],
            forall|i: int|
                0 <= i < old(self)@.users.len() && old(self)@.users[i].id == user_id ==> final(self)@.users[i] == (UserModel { biometric_enabled: enabled, ..old(self)@.users[i] }),
    {
        let idx = match self.find_user(user_id) {
            Some(i) => i,
            None => {
                return false;
            },
        };
        self.users[idx].biometric_enabled = enabled;
        proof {
            let s0 = old(self)@;
            let s1 = self@;
            assert(s1.users =~= s0.users.update(
                idx as int,
                UserModel { biometric_enabled: enabled, ..s0.users[idx as int] },
            ));
            assert(s1.vaults =~= s0.vaults);
            assert(s1.records =~= s0.records);
            assert forall|i: int|
                0 <= i < s0.users.len() && s0.users[i].id == user_id implies s1.users[i] == (
            UserModel { biometric_enabled: enabled, ..s0.users[i] }) by {
                if i != idx as int {
                    if i < idx as int {
                        assert(s0.users[i].id != s0.users[idx as int].id);
                    } else {
                        assert(s0.users[idx as int].id != s0.users[i].id);
                    }
                    assert(false);
                }
            }
            assert forall|a: int|
                0 <= a < s1.vaults.len() implies s1.user_exists(
                #[trigger] s1.vaults[a].user_id,
            ) by {
                assert(s0.user_exists(s0.vaults[a].user_id));
                let w = choose|w: int|
                    0 <= w < s0.users.len() && s0.users[w].id == s0.vaults[a].user_id;
                assert(s1.users[w].id == s1.vaults[a].user_id);
            }
            assert forall|a: int|
                0 <= a < s1.records.len() implies s1.vault_exists(
                #[trigger] s1.records[a].vault_id,
            ) by {
                assert(s0.vault_exists(s0.records[a].vault_id));
                let w = choose|w: int|
                    0 <= w < s0.vaults.len() && s0.vaults[w].id == s0.records[a].vault_id;
                assert(s1.vaults[w].id == s1.records[a].vault_id);
            }
        }
        true
    }

    /// Records the data key's advanced nonce counter for a vault.
    pub fn set_vault_enc_ctr(&mut self, i: usize, ctr: u64)
        requires
            old(self)@.wf(),
            i < old(self)@.vaults.len(),
        ensures
            final(self)@.wf(),
            final(self)@ == (StoreModel {
                vaults: old(self)@.vaults.update(
                    i as int,
                    VaultModel { enc_ctr: ctr, ..old(self)@.vaults[i as int] },
                ),
                ..old(self)@
            }),
    {
        self.vaults[i].enc_ctr = ctr;
        proof {
            let s0 = old(self)@;
            let s1 = self@;
            assert(s1.vaults =~= s0.vaults.update(
                i as int,
                VaultModel { enc_ctr: ctr, ..s0.vaults[i as int] },
            ));
            assert(s1 =~= (StoreModel {
                vaults: s0.vaults.update(
                    i as int,
                    VaultModel { enc_ctr: ctr, ..s0.vaults[i as int] },
                ),
                ..s0
            }));
            assert forall|a: int|
                0 <= a < s1.vaults.len() implies s1.user_exists(
                #[trigger] s1.vaults[a].user_id,
            ) by {
                assert(s0.user_exists(s0.vaults[a].user_id));
                let w = choose|w: int|
                    0 <= w < s0.users.len() && s0.users[w].id == s0.vaults[a].user_id;
                assert(s1.users[w].id == s1.vaults[a].user_id);
            }
            assert forall|a: int|
                0 <= a < s1.records.len() implies s1.vault_exists(
                #[trigger] s1.records[a].vault_id,
            ) by {
                assert(s0.vault_exists(s0.records[a].vault_id));
                let w = choose|w: int|
                    0 <= w < s0.vaults.len() && s0.vaults[w].id == s0.records[a].vault_id;
                assert(s1.vaults[w].id == s1.records[a].vault_id);
            }
        }
    }

    /// Marks the store as under exclusive rotation access.
    pub fn set_busy(&mut self, b: bool)
        ensures
            final(self)@ == (StoreModel { busy: b, ..old(self)@ }),
    {
        self.busy = b;
        proof {
            assert(self@ =~= StoreModel { busy: b, ..old(self)@ });
        }
    }
}

} // verus!
