//! The inspector: a read-only, point-in-time snapshot of the tracked
//! identities, derived from the registry's keys by parsing each back into
//! its `(owner, executable)` pair. Purely informational; nothing else is
//! driven by it.

use vstd::prelude::*;
use crate::key::colon_free;
use crate::key::key_exe;
use crate::key::key_of;
use crate::key::key_owner;
use crate::key::lemma_key_round_trip;
use crate::key::parse_key;
use crate::registry::Registry;

verus! {

/// One tracked identity in a snapshot: the parsed pair and the raw key it
/// was parsed from.
pub struct ActiveProcess {
    pub owner: String,
    pub exe: String,
    pub key: String,
}

/// Holds when `s` is a faithful snapshot of the registry contents `m`:
/// each listed key exactly once, each one registered, each parsed into the
/// pair its key serializes, and every registered key listed.
pub open spec fn is_snapshot(m: Map<Seq<char>, u64>, s: Seq<ActiveProcess>) -> bool {
    &&& forall|i: int, j: int| 0 <= i < j < s.len() ==> s[i].key@ != s[j].key@
    &&& forall|i: int|
        0 <= i < s.len() ==> m.contains_key(#[trigger] s[i].key@) && s[i].owner@ == key_owner(
            s[i].key@,
        ) && s[i].exe@ == key_exe(s[i].key@)
    &&& forall|k: Seq<char>|
        m.contains_key(k) ==> exists|i: int| 0 <= i < s.len() && #[trigger] s[i].key@ == k
}

/// A snapshot of what is currently tracked, one element per registered
/// key, in no particular order.
pub fn list_active(registry: &Registry) -> (r: Vec<ActiveProcess>)
    ensures
        is_snapshot(registry@, r@),
{
    let keys = registry.keys();
    let n = keys.len();
    let mut r: Vec<ActiveProcess> = Vec::new();
    let mut i: usize = 0;
    while i < n
        invariant
            n == keys@.len(),
            forall|p: int| 0 <= p < n ==> registry@.contains_key(#[trigger] keys@[p]@),
            forall|p: int, q: int| 0 <= p < q < n ==> keys@[p]@ != keys@[q]@,
            0 <= i <= n,
            r@.len() == i,
            forall|p: int| 0 <= p < i ==> #[trigger] r@[p].key@ == keys@[p]@,
            forall|p: int|
                0 <= p < i ==> #[trigger] r@[p].owner@ == key_owner(keys@[p]@) && r@[p].exe@
                    == key_exe(keys@[p]@),
        decreases n - i,
    {
        let parsed = parse_key(keys[i].as_str());
        let entry = ActiveProcess { owner: parsed.0, exe: parsed.1, key: keys[i].clone() };
        r.push(entry);
        i = i + 1;
    }
    proof {
        assert forall|k: Seq<char>| registry@.contains_key(k) implies exists|p: int|
            0 <= p < r@.len() && #[trigger] r@[p].key@ == k by {
            let p = choose|p: int| 0 <= p < keys@.len() && #[trigger] keys@[p]@ == k;
            assert(r@[p].key@ == k);
        }
    }
    r
}

/// Everything a launch registers is listed: a snapshot of a registry that
/// tracks the key of a colon-free owner and an executable contains that
/// very pair. With `launch` ensuring the key is registered the moment it
/// returns, `list_active` lists the launched pair immediately afterwards.
pub proof fn lemma_snapshot_lists_launched(
    m: Map<Seq<char>, u64>,
    s: Seq<ActiveProcess>,
    owner: Seq<char>,
    exe: Seq<char>,
)
    requires
        is_snapshot(m, s),
        m.contains_key(key_of(owner, exe)),
        colon_free(owner),
    ensures
        exists|i: int| 0 <= i < s.len() && #[trigger] s[i].owner@ == owner && s[i].exe@ == exe,
{
    let k = key_of(owner, exe);
    let i = choose|i: int| 0 <= i < s.len() && #[trigger] s[i].key@ == k;
    lemma_key_round_trip(owner, exe);
    assert(s[i].owner@ == owner && s[i].exe@ == exe);
}

/// Nothing removed is listed: once a key has been taken out of the
/// registry — by the monitor on exit, or by the terminator — no element of
/// a later snapshot carries it.
pub proof fn lemma_snapshot_omits_removed(
    m: Map<Seq<char>, u64>,
    s: Seq<ActiveProcess>,
    k: Seq<char>,
)
    requires
        is_snapshot(m, s),
        !m.contains_key(k),
    ensures
        forall|i: int| 0 <= i < s.len() ==> (#[trigger] s[i].key@) != k,
{
}

} // verus!
