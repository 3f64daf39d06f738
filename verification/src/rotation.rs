//! Key rotation: re-encrypting a vault's records under a fresh data key.
//!
//! Rotation is all-or-nothing. Every new envelope is produced off to the
//! side; the store is touched only after the last record has re-encrypted,
//! so any failure leaves every record under the vault's original key and
//! the original wrapped key in place. Plaintext exists only transiently
//! inside the re-encryption calls and is never persisted.

use vstd::prelude::*;
use crate::crypto::{
    decrypt_model, key_to_bytes, lemma_round_trip, unwrapped_key, CryptoEngine, Key,
};
use crate::errors::CoreError;
use crate::store::{RecordModel, StoreModel, VaultStore};

verus! {

/// The position of the vault with this id (meaningful when it exists and
/// ids are unique).
pub open spec fn vault_index(s: StoreModel, vault_id: u64) -> int {
    choose|i: int| 0 <= i < s.vaults.len() && s.vaults[i].id == vault_id
}

/// How a record looks after rotation: records of other vaults are
/// untouched; a record of the rotated vault keeps every plain field and
/// carries envelopes that open under the new key to exactly the plaintext
/// its old envelopes held under the old key.
pub open spec fn rotated_record(
    r1: RecordModel,
    r2: RecordModel,
    k_old: Key,
    k_new: Key,
    vault_id: u64,
) -> bool {
    if r1.vault_id != vault_id {
        r2 == r1
    } else {
        &&& r2.id == r1.id
        &&& r2.vault_id == r1.vault_id
        &&& r2.title == r1.title
        &&& r2.username == r1.username
        &&& r2.url == r1.url
        &&& r2.tags == r1.tags
        &&& r2.created_at == r1.created_at
        &&& r2.modified_at == r1.modified_at
        &&& decrypt_model(k_new, r2.password_env) == decrypt_model(k_old, r1.password_env)
        &&& decrypt_model(k_new, r2.password_env) is Ok
        &&& match (r1.notes_env, r2.notes_env) {
            (Option::None, Option::None) => true,
            (Option::Some(a), Option::Some(b)) => decrypt_model(k_new, b) == decrypt_model(
                k_old,
                a,
            ) && decrypt_model(k_new, b) is Ok,
            _ => false,
        }
    }
}

/// Every envelope of the vault opens under this key.
pub open spec fn vault_fully_decryptable(s: StoreModel, vault_id: u64, k: Key) -> bool {
    forall|i: int|
        0 <= i < s.records.len() && (#[trigger] s.records[i]).vault_id == vault_id ==> ({
            &&& decrypt_model(k, s.records[i].password_env) is Ok
            &&& match s.records[i].notes_env {
                Option::Some(a) => decrypt_model(k, a) is Ok,
                Option::None => true,
            }
        })
}

/// Everything a completed rotation guarantees: the vault's records all
/// carry the same plaintext under the new key that they held under the old
/// one, the wrapped key now unwraps to the new key, and nothing else moved.
pub open spec fn rotation_ok(
    pre: StoreModel,
    post: StoreModel,
    master: Key,
    vault_id: u64,
    nk: Key,
) -> bool {
    let vi = vault_index(pre, vault_id);
    let k_old = unwrapped_key(master, pre.vaults[vi].key_env)->Some_0;
    &&& unwrapped_key(master, pre.vaults[vi].key_env) is Some
    &&& post.vaults.len() == pre.vaults.len()
    &&& post.records.len() == pre.records.len()
    &&& forall|i: int| 0 <= i < pre.vaults.len() && i != vi ==> post.vaults[i] == pre.vaults[i]
    &&& post.vaults[vi].id == pre.vaults[vi].id
    &&& post.vaults[vi].user_id == pre.vaults[vi].user_id
    &&& post.vaults[vi].name == pre.vaults[vi].name
    &&& post.vaults[vi].description == pre.vaults[vi].description
    &&& post.vaults[vi].icon == pre.vaults[vi].icon
    &&& post.vaults[vi].created_at == pre.vaults[vi].created_at
    &&& unwrapped_key(master, post.vaults[vi].key_env) == Some(nk)
    &&& forall|i: int|
        0 <= i < pre.records.len() ==> rotated_record(
            pre.records[i],
            post.records[i],
            k_old,
            nk,
            vault_id,
        )
}

/// Rotates the vault's records onto the fresh data key and swaps the
/// wrapped key only after every record has succeeded. On any failure the
/// store is exactly as it was: all records remain under the original key.
pub fn rotate_vault_keys(
    store: &mut VaultStore,
    master: &mut CryptoEngine,
    vault_id: u64,
    new_key: Key,
) -> (r: Result<(), CoreError>)
    requires
        old(store)@.wf(),
        old(store)@.records.len() < 0x1000000000000000,
    ensures
        final(store)@.wf(),
        r is Err ==> final(store)@ == old(store)@ && *final(master) == *old(master),
        final(master).key == old(master).key,
        final(master).ctr >= old(master).ctr,
        r is Ok ==> final(master).ctr == old(master).ctr + 1,
        final(store)@.users == old(store)@.users,
        final(store)@.next_id == old(store)@.next_id,
        final(store)@.busy == old(store)@.busy,
        r == Err::<(), CoreError>(CoreError::VaultBusy) <==> old(store)@.busy,
        r matches Err(e) ==> e == CoreError::VaultBusy || e == CoreError::NotFound || e
            == CoreError::AuthenticationFailure || e == CoreError::CryptoError,
        !old(store)@.busy ==> (r == Err::<(), CoreError>(CoreError::NotFound) <==> !old(
            store,
        )@.vault_exists(vault_id)),
        r is Ok ==> rotation_ok(old(store)@, final(store)@, old(master).key, vault_id, new_key),
        !old(store)@.busy && old(store)@.vault_exists(vault_id) && unwrapped_key(
            old(master).key,
            old(store)@.vaults[vault_index(old(store)@, vault_id)].key_env,
        ) is None ==> r == Err::<(), CoreError>(CoreError::AuthenticationFailure),
        ({
            let vi = vault_index(old(store)@, vault_id);
            let ko = unwrapped_key(old(master).key, old(store)@.vaults[vi].key_env);
            !old(store)@.busy && old(store)@.vault_exists(vault_id) && ko is Some
                && vault_fully_decryptable(old(store)@, vault_id, ko->Some_0) && old(master).ctr
                < u64::MAX
        }) ==> r is Ok,
{
    if store.busy {
        return Err(CoreError::VaultBusy);
    }
    let vi = match store.find_vault(vault_id) {
        Some(i) => i,
        None => {
            return Err(CoreError::NotFound);
        },
    };
    proof {
        assert(store@.vaults[vault_index(store@, vault_id)].id == vault_id);
        assert(vault_index(store@, vault_id) == vi as int) by {
            let k = vault_index(store@, vault_id);
            if k < vi as int {
                assert(store@.vaults[k].id != store@.vaults[vi as int].id);
            } else if k > vi as int {
                assert(store@.vaults[vi as int].id != store@.vaults[k].id);
            }
        }
    }
    let opener = CryptoEngine { key: master.key, ctr: 0 };
    let key_plain = match opener.decrypt(&store.vaults[vi].key_env) {
        Ok(p) => p,
        Err(_) => {
            return Err(CoreError::AuthenticationFailure);
        },
    };
    let k_old = match crate::crypto::bytes_to_key(&key_plain) {
        Some(k) => k,
        None => {
            return Err(CoreError::AuthenticationFailure);
        },
    };
    proof {
        assert(unwrapped_key(old(master).key, old(store)@.vaults[vi as int].key_env) == Some(
            k_old,
        ));
    }
    let data_opener = CryptoEngine { key: k_old, ctr: 0 };
    let mut eng = CryptoEngine::with_key(new_key);
    let mut new_records: Vec<crate::store::PasswordRecord> = Vec::new();
    let mut i: usize = 0;
    while i < store.records.len()
        invariant
            i <= store.records.len(),
            *store == *old(store),
            *master == *old(master),
            store@.wf(),
            !old(store)@.busy,
            old(store)@.vault_exists(vault_id),
            vi < store.vaults.len(),
            store@.vaults[vi as int].id == vault_id,
            vault_index(old(store)@, vault_id) == vi as int,
            unwrapped_key(old(master).key, old(store)@.vaults[vi as int].key_env) == Some(k_old),
            store@.records.len() < 0x1000000000000000,
            data_opener.key == k_old,
            eng.key == new_key,
            eng.ctr <= 2 * i,
            new_records@.len() == i,
            forall|k: int|
                0 <= k < i ==> rotated_record(
                    store@.records[k],
                    (#[trigger] new_records@[k])@,
                    k_old,
                    new_key,
                    vault_id,
                ),
        decreases store.records.len() - i,
    {
        let rec = &store.records[i];
        if rec.vault_id != vault_id {
            new_records.push(rec.duplicate());
        } else {
            let p = match data_opener.decrypt(&rec.password_env) {
                Ok(p) => p,
                Err(_) => {
                    proof {
                        if vault_fully_decryptable(old(store)@, vault_id, k_old) {
                            assert(old(store)@.records[i as int].vault_id == vault_id);
                            assert(decrypt_model(
                                k_old,
                                old(store)@.records[i as int].password_env,
                            ) is Ok);
                            assert(false);
                        }
                    }
                    return Err(CoreError::AuthenticationFailure);
                },
            };
            let ghost ctr_before = eng.ctr;
            let env2 = match eng.encrypt(&p) {
                Ok(e) => e,
                Err(_) => {
                    return Err(CoreError::CryptoError);
                },
            };
            proof {
                lemma_round_trip(new_key, ctr_before, env2@, p@);
            }
            let notes2 = match &rec.notes_env {
                Some(ne) => {
                    let np = match data_opener.decrypt(ne) {
                        Ok(np) => np,
                        Err(_) => {
                            proof {
                                if vault_fully_decryptable(old(store)@, vault_id, k_old) {
                                    assert(old(store)@.records[i as int].vault_id == vault_id);
                                    assert(old(store)@.records[i as int].notes_env matches Some(a)
                                        && decrypt_model(k_old, a) is Ok);
                                    assert(false);
                                }
                            }
                            return Err(CoreError::AuthenticationFailure);
                        },
                    };
                    let ghost nctr_before = eng.ctr;
                    let nenv = match eng.encrypt(&np) {
                        Ok(e) => e,
                        Err(_) => {
                            return Err(CoreError::CryptoError);
                        },
                    };
                    proof {
                        lemma_round_trip(new_key, nctr_before, nenv@, np@);
                    }
                    Some(nenv)
                },
                None => None,
            };
            let rotated = crate::store::PasswordRecord {
                id: rec.id,
                vault_id: rec.vault_id,
                title: crate::monitor::clone_string(&rec.title),
                username: crate::monitor::clone_string(&rec.username),
                password_env: env2,
                url: match &rec.url {
                    Some(s) => Some(crate::monitor::clone_string(s)),
                    None => None,
                },
                notes_env: notes2,
                tags: crate::monitor::clone_string_vec(&rec.tags),
                created_at: rec.created_at,
                modified_at: rec.modified_at,
            };
            new_records.push(rotated);
        }
        i = i + 1;
    }
    let kb = key_to_bytes(&new_key);
    let ghost mctr_before = master.ctr;
    let wrapped = match master.encrypt(&kb) {
        Ok(e) => e,
        Err(_) => {
            return Err(CoreError::CryptoError);
        },
    };
    proof {
        lemma_round_trip(old(master).key, mctr_before, wrapped@, kb@);
    }
    let new_ctr = eng.ctr;
    store.records = new_records;
    store.vaults[vi].key_env = wrapped;
    store.vaults[vi].enc_ctr = new_ctr;
    proof {
        let s0 = old(store)@;
        let s1 = store@;
        assert(s1.users =~= s0.users);
        assert(s1.vaults.len() == s0.vaults.len());
        assert forall|k: int| 0 <= k < s1.vaults.len() && k != vi as int implies s1.vaults[k]
            == s0.vaults[k] by {}
        assert(s1.vaults[vi as int].id == s0.vaults[vi as int].id);
        assert(s1.records.len() == s0.records.len());
        assert forall|k: int| 0 <= k < s1.records.len() implies (#[trigger] s1.records[k]).id
            == s0.records[k].id && s1.records[k].vault_id == s0.records[k].vault_id by {
            assert(rotated_record(s0.records[k], s1.records[k], k_old, new_key, vault_id));
        }
        assert forall|a: int, b: int| 0 <= a < b < s1.vaults.len() implies s1.vaults[a].id
            != s1.vaults[b].id by {
            assert(s1.vaults[a].id == s0.vaults[a].id && s1.vaults[b].id == s0.vaults[b].id);
        }
        assert forall|a: int| 0 <= a < s1.vaults.len() implies #[trigger] s1.vaults[a].id
            < s1.next_id by {
            assert(s1.vaults[a].id == s0.vaults[a].id);
        }
        assert forall|a: int|
            0 <= a < s1.vaults.len() implies s1.user_exists(#[trigger] s1.vaults[a].user_id) by {
            assert(s1.vaults[a].user_id == s0.vaults[a].user_id);
            assert(s0.user_exists(s0.vaults[a].user_id));
            let w = choose|w: int|
                0 <= w < s0.users.len() && s0.users[w].id == s0.vaults[a].user_id;
            assert(s1.users[w].id == s1.vaults[a].user_id);
        }
        assert forall|a: int|
            0 <= a < s1.records.len() implies s1.vault_exists(
            #[trigger] s1.records[a].vault_id,
        ) by {
            assert(s0.vault_exists(s0.records[a].vault_id));
            let w = choose|w: int|
                0 <= w < s0.vaults.len() && s0.vaults[w].id == s0.records[a].vault_id;
            assert(s1.vaults[w].id == s1.records[a].vault_id);
        }
        assert(s1.wf());
    }
    Ok(())
}

} // verus!
