//! The room-code generator: short, human-typeable codes drawn from a fixed
//! alphabet of visually unambiguous uppercase letters and digits, with a
//! bounded retry against codes already registered.

use vstd::prelude::*;
use vstd::string::StrSliceExecFns;
use vstd::string::StringExecFns;
use crate::state::ServerState;

verus! {

/// The default room-code length.
pub const CODE_LEN: usize = 8;

/// The code alphabet: uppercase letters and digits, without the easily
/// confused 0, O, 1, I and L.
pub open spec fn alphabet() -> Seq<char> {
    "ABCDEFGHJKMNPQRSTUVWXYZ23456789"@
}

/// Whether every character of `s` comes from the code alphabet.
pub open spec fn all_from_alphabet(s: Seq<char>) -> bool {
    forall|i: int| 0 <= i < s.len() ==> alphabet().contains(#[trigger] s[i])
}

/// Relies on rand::Rng::gen_range over the range 0..n, which returns a value
/// of that range and panics only when the range is empty.
#[verifier::external_body]
fn random_below(n: usize) -> (r: usize)
    requires
        n > 0,
    ensures
        r < n,
{
    rand::Rng::gen_range(&mut rand::thread_rng(), 0..n)
}

/// A fresh random code of exactly `len` characters, each drawn from the
/// fixed alphabet.
pub fn make_code(len: usize) -> (r: String)
    ensures
        r@.len() == len,
        all_from_alphabet(r@),
{
    let a: &str = "ABCDEFGHJKMNPQRSTUVWXYZ23456789";
    proof {
        reveal_strlit("ABCDEFGHJKMNPQRSTUVWXYZ23456789");
    }
    let mut out = String::new();
    let mut i: usize = 0;
    while i < len
        invariant
            i <= len,
            out@.len() == i,
            all_from_alphabet(out@),
            a@ == alphabet(),
        decreases len - i,
    {
        let k = random_below(31);
        proof {
            reveal_strlit("ABCDEFGHJKMNPQRSTUVWXYZ23456789");
        }
        let ch = a.substring_char(k, k + 1);
        proof {
            assert(ch@ =~= seq![alphabet()[k as int]]);
            assert(alphabet().contains(alphabet()[k as int]));
        }
        out.append(ch);
        i = i + 1;
    }
    out
}

/// A code that is absent from the registry, found by drawing up to 16
/// candidates of length `len`. Should all of them collide, one code of
/// length `len + 1` is returned without another registry check — a bounded
/// relaxation the astronomically small keyspace pressure never reaches.
pub fn unique_code(state: &ServerState, len: usize) -> (r: String)
    requires
        len < usize::MAX,
    ensures
        all_from_alphabet(r@),
        r@.len() == len || r@.len() == len + 1,
        r@.len() == len ==> !state.has_code(r@),
{
    let mut tries: usize = 0;
    while tries < 16
        invariant
            tries <= 16,
        decreases 16 - tries,
    {
        let code = make_code(len);
        if !state.contains_code(code.as_str()) {
            return code;
        }
        tries = tries + 1;
    }
    make_code(len + 1)
}

} // verus!
