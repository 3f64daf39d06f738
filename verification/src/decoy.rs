//! The deception layer: a plausible but fake vault served under duress.
//!
//! Duress evaluation is pure and branch-poor, so its use adds no observable
//! work to the authentication path. The decoy itself is generated
//! deterministically from the vault id and a per-session seed alone: the
//! same trigger in one session always yields the same synthetic records,
//! and nothing of the real vault's contents can reach the output, because
//! nothing of it is an input.

use vstd::prelude::*;
use crate::crypto::{mix64, mix64_exec};

verus! {

/// The duress signals weighed at authentication time. Policy is a plain
/// disjunction: an explicit panic trigger, a distinguished duress
/// credential, or a rapid burst of failures right before a success.
#[derive(Clone, Copy, Debug, PartialEq, Eq, Structural)]
pub struct DuressSignals {
    pub panic_trigger: bool,
    pub duress_credential: bool,
    pub rapid_failures: u64,
    pub rapid_threshold: u64,
}

/// Whether the signals call for the decoy.
pub open spec fn duress_model(s: DuressSignals) -> bool {
    s.panic_trigger || s.duress_credential || s.rapid_failures >= s.rapid_threshold
}

/// Side-effect-free duress evaluation.
pub fn should_trigger(s: &DuressSignals) -> (r: bool)
    ensures
        r == duress_model(*s),
{
    let burst = s.rapid_failures >= s.rapid_threshold;
    let a = if s.panic_trigger {
        true
    } else {
        s.duress_credential
    };
    if a {
        true
    } else {
        burst
    }
}

/// One synthetic record of a decoy vault.
pub struct DecoyRecord {
    pub title: String,
    pub username: String,
    pub password: String,
}

/// Mathematical model of a decoy record.
pub ghost struct DecoyRecordModel {
    pub title: Seq<char>,
    pub username: Seq<char>,
    pub password: Seq<char>,
}

impl View for DecoyRecord {
    type V = DecoyRecordModel;

    open spec fn view(&self) -> DecoyRecordModel {
        DecoyRecordModel {
            title: self.title@,
            username: self.username@,
            password: self.password@,
        }
    }
}

/// A decoy vault: vault-shaped, synthetic, never persisted.
pub struct DecoyVault {
    pub vault_id: u64,
    pub records: Vec<DecoyRecord>,
}

/// The seed every decoy artifact of one vault and session descends from.
pub open spec fn decoy_seed(vault_id: u64, session_seed: u64) -> u64 {
    mix64(vault_id ^ mix64(session_seed))
}

/// The titles a decoy record can carry.
pub open spec fn title_pool() -> Seq<Seq<char>> {
    seq![
        "Email"@,
        "Banking"@,
        "Shopping"@,
        "Streaming"@,
        "Cloud Storage"@,
        "Forum"@,
        "Utilities"@,
        "Travel"@,
    ]
}

/// The usernames a decoy record can carry.
pub open spec fn name_pool() -> Seq<Seq<char>> {
    seq![
        "alex"@,
        "sam"@,
        "jordan"@,
        "casey"@,
        "taylor"@,
        "morgan"@,
        "riley"@,
        "jamie"@,
    ]
}

/// The charset decoy passwords draw from.
pub open spec fn decoy_pw_charset() -> Seq<char> {
    "abcdefghijklmnopqrstuvwxyzABCDEFGHIJKLMNOPQRSTUVWXYZ0123456789"@
}

/// The j-th character of the decoy password descending from record seed rs.
pub open spec fn decoy_pw_char(rs: u64, j: u64) -> char {
    decoy_pw_charset()[(mix64(rs ^ ((j + 0x5d) as u64)) % (decoy_pw_charset().len() as u64)) as int]
}

/// The model of the record at position i under the vault's decoy seed.
pub open spec fn decoy_record_model(seed: u64, i: u64) -> DecoyRecordModel {
    let rs = mix64(seed ^ i);
    DecoyRecordModel {
        title: title_pool()[(rs % 8) as int],
        username: name_pool()[(mix64(rs) % 8) as int],
        password: Seq::new(
            (10 + mix64(mix64(rs)) % 6) as nat,
            |j: int| decoy_pw_char(rs, j as u64),
        ),
    }
}

/// The full decoy for one vault id and session seed: a fixed number of
/// records (between 3 and 7), each a pure function of the seed.
pub open spec fn decoy_model(vault_id: u64, session_seed: u64) -> Seq<DecoyRecordModel> {
    let seed = decoy_seed(vault_id, session_seed);
    Seq::new((3 + seed % 5) as nat, |i: int| decoy_record_model(seed, i as u64))
}

fn pick_title(x: u64) -> (r: String)
    ensures
        r@ == title_pool()[(x % 8) as int],
{
    let i = x % 8;
    if i == 0 {
        String::from_str("Email")
    } else if i == 1 {
        String::from_str("Banking")
    } else if i == 2 {
        String::from_str("Shopping")
    } else if i == 3 {
        String::from_str("Streaming")
    } else if i == 4 {
        String::from_str("Cloud Storage")
    } else if i == 5 {
        String::from_str("Forum")
    } else if i == 6 {
        String::from_str("Utilities")
    } else {
        String::from_str("Travel")
    }
}

fn pick_name(x: u64) -> (r: String)
    ensures
        r@ == name_pool()[(x % 8) as int],
{
    let i = x % 8;
    if i == 0 {
        String::from_str("alex")
    } else if i == 1 {
        String::from_str("sam")
    } else if i == 2 {
        String::from_str("jordan")
    } else if i == 3 {
        String::from_str("casey")
    } else if i == 4 {
        String::from_str("taylor")
    } else if i == 5 {
        String::from_str("morgan")
    } else if i == 6 {
        String::from_str("riley")
    } else {
        String::from_str("jamie")
    }
}

fn decoy_password(rs: u64) -> (r: String)
    ensures
        r@ == Seq::new((10 + mix64(mix64(rs)) % 6) as nat, |j: int| decoy_pw_char(rs, j as u64)),
{
    let charset = "abcdefghijklmnopqrstuvwxyzABCDEFGHIJKLMNOPQRSTUVWXYZ0123456789";
    let n = charset.unicode_len();
    proof {
        reveal_strlit("abcdefghijklmnopqrstuvwxyzABCDEFGHIJKLMNOPQRSTUVWXYZ0123456789");
        assert(n == 62);
    }
    let len: usize = 10 + ((mix64_exec(mix64_exec(rs)) % 6) as usize);
    let mut out = String::new();
    let mut j: usize = 0;
    while j < len
        invariant
            j <= len,
            n == decoy_pw_charset().len(),
            n == 62,
            charset@ == decoy_pw_charset(),
            len == 10 + mix64(mix64(rs)) % 6,
            out@.len() == j,
            forall|k: int| 0 <= k < j ==> out@[k] == decoy_pw_char(rs, k as u64),
        decreases len - j,
    {
        let idx = (mix64_exec(rs ^ (j as u64 + 0x5d)) % (n as u64)) as usize;
        assert(idx < n);
        let piece = charset.substring_char(idx, idx + 1);
        let ghost prev = out@;
        out.append(piece);
        proof {
            assert(out@ =~= prev.push(decoy_pw_charset()[idx as int]));
        }
        j = j + 1;
    }
    proof {
        assert(out@ =~= Seq::new(
            (10 + mix64(mix64(rs)) % 6) as nat,
            |j: int| decoy_pw_char(rs, j as u64),
        ));
    }
    out
}

/// Materializes the decoy for this vault id, seeded per session: repeated
/// triggers within one session yield exactly the same synthetic records.
/// No real record, plaintext or ciphertext is an input, so none can be
/// extracted from the output.
pub fn materialize_decoy(vault_id: u64, session_seed: u64) -> (r: DecoyVault)
    ensures
        r.vault_id == vault_id,
        r.records@.map_values(|d: DecoyRecord| d@) == decoy_model(vault_id, session_seed),
{
    let seed = mix64_exec(vault_id ^ mix64_exec(session_seed));
    let count: usize = 3 + ((seed % 5) as usize);
    let mut records: Vec<DecoyRecord> = Vec::new();
    let mut i: usize = 0;
    while i < count
        invariant
            i <= count,
            seed == decoy_seed(vault_id, session_seed),
            count == 3 + seed % 5,
            records@.len() == i,
            forall|k: int|
                0 <= k < i ==> (#[trigger] records@[k])@ == decoy_record_model(seed, k as u64),
        decreases count - i,
    {
        let rs = mix64_exec(seed ^ (i as u64));
        let rec = DecoyRecord {
            title: pick_title(rs),
            username: pick_name(mix64_exec(rs)),
            password: decoy_password(rs),
        };
        records.push(rec);
        i = i + 1;
    }
    proof {
        assert(records@.map_values(|d: DecoyRecord| d@) =~= decoy_model(vault_id, session_seed));
    }
    DecoyVault { vault_id, records }
}

// ----------------------------------------------------------------------
// Law of the decoy.
// ----------------------------------------------------------------------

/// Decoy stability: for one vault id and session seed the decoy is a single
/// fixed value, so any two materializations within the session coincide,
/// record for record and byte for byte.
pub proof fn lemma_decoy_stable(
    vault_id: u64,
    session_seed: u64,
    r1: Seq<DecoyRecordModel>,
    r2: Seq<DecoyRecordModel>,
)
    requires
        r1 == decoy_model(vault_id, session_seed),
        r2 == decoy_model(vault_id, session_seed),
    ensures
        r1 == r2,
{
}

} // verus!
