//! Random password generation over a selectable charset.
//!
//! The randomness comes from the platform CSPRNG; everything proved here
//! holds for every value it may return: the result has exactly the asked
//! length and draws every character from the selected charset.

use vstd::prelude::*;
use crate::errors::CoreError;
use crate::sys;

verus! {

/// The charset selected by the four flags, in a fixed order.
pub open spec fn charset_model(
    include_lowercase: bool,
    include_uppercase: bool,
    include_numbers: bool,
    include_symbols: bool,
) -> Seq<char> {
    (if include_lowercase {
        "abcdefghijklmnopqrstuvwxyz"@
    } else {
        Seq::empty()
    }) + (if include_uppercase {
        "ABCDEFGHIJKLMNOPQRSTUVWXYZ"@
    } else {
        Seq::empty()
    }) + (if include_numbers {
        "0123456789"@
    } else {
        Seq::empty()
    }) + (if include_symbols {
        "!@#$%^&*()_+-=[]{}|;:,.<>?"@
    } else {
        Seq::empty()
    })
}

/// Generates a password of the asked length over the selected charset.
/// Fails with InvalidConfig exactly when no character type is selected.
pub fn generate_secure_password(
    length: usize,
    include_symbols: bool,
    include_numbers: bool,
    include_uppercase: bool,
    include_lowercase: bool,
) -> (r: Result<String, CoreError>)
    ensures
        ({
            let cs = charset_model(
                include_lowercase,
                include_uppercase,
                include_numbers,
                include_symbols,
            );
            &&& r is Ok <==> cs.len() > 0
            &&& r is Err ==> r == Err::<String, CoreError>(CoreError::InvalidConfig)
            &&& r matches Ok(p) ==> p@.len() == length && (forall|i: int|
                0 <= i < p@.len() ==> cs.contains(#[trigger] p@[i]))
        }),
{
    let ghost cs = charset_model(
        include_lowercase,
        include_uppercase,
        include_numbers,
        include_symbols,
    );
    let mut charset = String::new();
    if include_lowercase {
        charset.append("abcdefghijklmnopqrstuvwxyz");
    }
    if include_uppercase {
        charset.append("ABCDEFGHIJKLMNOPQRSTUVWXYZ");
    }
    if include_numbers {
        charset.append("0123456789");
    }
    if include_symbols {
        charset.append("!@#$%^&*()_+-=[]{}|;:,.<>?");
    }
    proof {
        assert(charset@ =~= cs);
    }
    let n = charset.as_str().unicode_len();
    if n == 0 {
        return Err(CoreError::InvalidConfig);
    }
    let mut out = String::new();
    let mut i: usize = 0;
    while i < length
        invariant
            i <= length,
            n == cs.len(),
            n > 0,
            charset@ == cs,
            out@.len() == i,
            forall|k: int| 0 <= k < i ==> cs.contains(#[trigger] out@[k]),
        decreases length - i,
    {
        let idx = (sys::fresh_random_u64() % (n as u64)) as usize;
        assert(idx < n);
        let ch = charset.as_str().substring_char(idx, idx + 1);
        let ghost prev = out@;
        out.append(ch);
        proof {
            assert(out@ =~= prev.push(cs[idx as int]));
            assert forall|k: int| 0 <= k < i + 1 implies cs.contains(#[trigger] out@[k]) by {
                if k < i {
                    assert(out@[k] == prev[k]);
                } else {
                    assert(out@[k] == cs[idx as int]);
                }
            }
        }
        i = i + 1;
    }
    Ok(out)
}

} // verus!
