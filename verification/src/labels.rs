//! Case-insensitive matching of interaction-kind labels.
//!
//! Interaction kinds arrive as free-form labels; the relationship store
//! matches them against a fixed set of known labels without regard to
//! ASCII case.

use vstd::prelude::*;
use vstd::string::StrSliceExecFns;

verus! {

/// A character code with an ASCII upper-case letter folded to its
/// lower-case counterpart.
pub open spec fn fold_code(c: u32) -> u32 {
    if 65 <= c && c <= 90 {
        (c + 32) as u32
    } else {
        c
    }
}

/// Two labels are the same up to ASCII case.
pub open spec fn label_eq(a: Seq<char>, b: Seq<char>) -> bool {
    a.len() == b.len() && forall|i: int|
        0 <= i < a.len() ==> fold_code(#[trigger] a[i] as u32) == fold_code(b[i] as u32)
}

/// Fold one character's code, as `fold_code` does.
fn fold_char(c: char) -> (r: u32)
    ensures
        r == fold_code(c as u32),
{
    let u = c as u32;
    if 65 <= u && u <= 90 {
        u + 32
    } else {
        u
    }
}

/// Whether two labels are the same up to ASCII case.
pub fn labels_match(a: &str, b: &str) -> (r: bool)
    ensures
        r == label_eq(a@, b@),
{
    let n = a.unicode_len();
    let m = b.unicode_len();
    if n != m {
        return false;
    }
    let mut i: usize = 0;
    while i < n
        invariant
            n == a@.len(),
            n == b@.len(),
            i <= n,
            forall|j: int| 0 <= j < i ==> fold_code(#[trigger] a@[j] as u32) == fold_code(
                b@[j] as u32,
            ),
        decreases n - i,
    {
        if fold_char(a.get_char(i)) != fold_char(b.get_char(i)) {
            return false;
        }
        i = i + 1;
    }
    true
}

} // verus!
