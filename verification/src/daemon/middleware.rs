//! Authentication of callers.
use vstd::prelude::*;
use vstd::string::*;
use vstd::utf8::*;
use crate::paths::opt_str;
use crate::search::strip_prefix;

verus! {

/// Whether two byte strings are equal, without a branch that depends on where
/// they differ.
pub fn constant_time_eq(a: &[u8], b: &[u8]) -> (r: bool)
    ensures
        r == (a@ == b@),
{
    if a.len() != b.len() {
        return false;
    }
    let n: usize = a.len();
    let mut acc: u8 = 0;
    let mut i: usize = 0;
    while i < n
        invariant
            i <= n,
            n == a@.len(),
            n == b@.len(),
            acc == 0 <==> forall|j: int| 0 <= j < i ==> a@[j] == b@[j],
        decreases n - i,
    {
        let x: u8 = a[i];
        let y: u8 = b[i];
        let ghost before = acc;
        acc = acc | (x ^ y);
        proof {
            assert((before | (x ^ y)) == 0 <==> (before == 0 && x == y)) by (bit_vector);
            if acc == 0 {
                assert forall|j: int| 0 <= j < i + 1 implies a@[j] == b@[j] by {
                    if j < i {
                        assert(before == 0);
                    }
                }
            } else if forall|j: int| 0 <= j < i + 1 ==> a@[j] == b@[j] {
                assert(a@[i as int] == b@[i as int]);
            }
        }
        i += 1;
    }
    proof {
        if acc == 0 {
            assert(a@ =~= b@);
        }
    }
    acc == 0
}

/// The header presents the token.
pub open spec fn presents(header: Option<Seq<char>>, token: Seq<char>) -> bool {
    header is Some && header->0 == "Bearer "@ + token
}

/// Whether a caller may pass: its `Authorization` header has to present the
/// token.
pub fn require_auth(header: Option<&str>, token: &str) -> (r: bool)
    ensures
        r == presents(opt_str(header), token@),
{
    match header {
        Some(h) => match strip_prefix(h, "Bearer ") {
            Some(t) => {
                proof {
                    encode_utf8_decode_utf8(t@);
                    encode_utf8_decode_utf8(token@);
                    let p = "Bearer "@;
                    assert(h@ =~= p + t@) by {
                        assert(h@.subrange(0, p.len() as int) == p);
                        assert(h@ =~= h@.subrange(0, p.len() as int) + h@.skip(p.len() as int));
                    }
                    if h@ == p + token@ {
                        assert((p + token@).skip(p.len() as int) =~= token@);
                    }
                }
                constant_time_eq(t.as_str().as_bytes(), token.as_bytes())
            },
            None => {
                proof {
                    let p = "Bearer "@;
                    if h@ == p + token@ {
                        assert((p + token@).subrange(0, p.len() as int) =~= p);
                    }
                }
                false
            },
        },
        None => false,
    }
}

} // verus!
