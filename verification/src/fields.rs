//! The fields of a descriptor that are passed over on purpose.

use vstd::prelude::*;
use crate::text::text_eq;

verus! {

/// The fields that are ignored if present, in alphabetical order.
pub const IGNORED_FIELDS: [&'static str; 8] = [
    "ipv4.arp-notify",
    "ipv4.forwarding",
    "ipv6.accept-dad",
    "ipv6.accept-ra",
    "ipv6.addr-gen-mode",
    "ipv6.autoconf",
    "ipv6.forwarding",
    "ipv6.stable-secret",
];

/// Whether a field is one of the ignored ones.
pub open spec fn is_ignored(field: Seq<char>) -> bool {
    exists|i: int| 0 <= i < 8 && IGNORED_FIELDS[i]@ == field
}

/// Whether a field is one of the ignored ones.
pub fn is_ignored_field(field: &str) -> (r: bool)
    ensures
        r == is_ignored(field@),
{
    let mut i: usize = 0;
    while i < 8
        invariant
            i <= 8,
            forall|j: int| 0 <= j < i ==> IGNORED_FIELDS[j]@ != field@,
        decreases 8 - i,
    {
        if text_eq(IGNORED_FIELDS[i], field) {
            return true;
        }
        i += 1;
    }
    false
}

/// `a` stands before `b` in the order of a dictionary: they agree on the
/// first `k` characters, and then `a` ends or has the lesser character.
pub open spec fn precedes_at(a: Seq<char>, b: Seq<char>, k: int) -> bool {
    &&& 0 <= k <= a.len()
    &&& k < b.len()
    &&& forall|i: int| 0 <= i < k ==> a[i] == b[i]
    &&& (k == a.len() || a[k] < b[k])
}

/// `a` stands before `b` in the order of a dictionary.
pub open spec fn precedes(a: Seq<char>, b: Seq<char>) -> bool {
    exists|k: int| precedes_at(a, b, k)
}

/// The list of ignored fields is in alphabetical order, without repetition.
pub proof fn ignored_fields_sorted()
    ensures
        forall|i: int| 0 <= i < 7 ==> precedes(#[trigger] IGNORED_FIELDS[i]@, IGNORED_FIELDS[i + 1]@),
{
    reveal_strlit("ipv4.arp-notify");
    reveal_strlit("ipv4.forwarding");
    reveal_strlit("ipv6.accept-dad");
    reveal_strlit("ipv6.accept-ra");
    reveal_strlit("ipv6.addr-gen-mode");
    reveal_strlit("ipv6.autoconf");
    reveal_strlit("ipv6.forwarding");
    reveal_strlit("ipv6.stable-secret");
    assert(precedes_at(IGNORED_FIELDS[0]@, IGNORED_FIELDS[1]@, 5));
    assert(precedes_at(IGNORED_FIELDS[1]@, IGNORED_FIELDS[2]@, 3));
    assert(precedes_at(IGNORED_FIELDS[2]@, IGNORED_FIELDS[3]@, 12));
    assert(precedes_at(IGNORED_FIELDS[3]@, IGNORED_FIELDS[4]@, 6));
    assert(precedes_at(IGNORED_FIELDS[4]@, IGNORED_FIELDS[5]@, 6));
    assert(precedes_at(IGNORED_FIELDS[5]@, IGNORED_FIELDS[6]@, 5));
    assert(precedes_at(IGNORED_FIELDS[6]@, IGNORED_FIELDS[7]@, 5));
}

} // verus!
