//! The composite identity key of a tracked process: an `(owner, executable)`
//! pair serialized as a single string `"owner:exe"` with `':'` as separator,
//! and the parse that recovers the pair from the stored form.

use vstd::prelude::*;
use vstd::string::StringExecFns;
use vstd::string::StrSliceExecFns;

verus! {

/// The serialized key for an `(owner, executable)` pair.
pub open spec fn key_of(owner: Seq<char>, exe: Seq<char>) -> Seq<char> {
    owner + seq![':'] + exe
}

/// Holds when a string contains no `':'`, i.e. it survives the round trip
/// through a serialized key unchanged.
pub open spec fn colon_free(s: Seq<char>) -> bool {
    forall|i: int| 0 <= i < s.len() ==> s[i] != ':'
}

/// Index of the first `':'` in `k`, or `k.len()` if there is none.
pub open spec fn first_colon(k: Seq<char>) -> int
    decreases k.len(),
{
    if k.len() == 0 {
        0
    } else if k[0] == ':' {
        0
    } else {
        1 + first_colon(k.skip(1))
    }
}

/// The owner component recovered from a serialized key: everything before
/// the first `':'` (the whole key if there is no `':'`).
pub open spec fn key_owner(k: Seq<char>) -> Seq<char> {
    k.subrange(0, first_colon(k))
}

/// The executable component recovered from a serialized key: everything
/// after the first `':'` (empty if there is no `':'`).
pub open spec fn key_exe(k: Seq<char>) -> Seq<char> {
    if first_colon(k) < k.len() {
        k.subrange(first_colon(k) + 1, k.len() as int)
    } else {
        Seq::<char>::empty()
    }
}

/// If `k[i] == ':'` and no earlier character is `':'`, then `i` is the first
/// colon.
pub proof fn lemma_first_colon_is(k: Seq<char>, i: int)
    requires
        0 <= i < k.len(),
        k[i] == ':',
        forall|j: int| 0 <= j < i ==> k[j] != ':',
    ensures
        first_colon(k) == i,
    decreases k.len(),
{
    if i == 0 {
    } else {
        assert(forall|j: int| 0 <= j < i - 1 ==> k.skip(1)[j] == k[j + 1]);
        lemma_first_colon_is(k.skip(1), i - 1);
    }
}

/// If no character of `k` is `':'`, the first colon index is `k.len()`.
pub proof fn lemma_first_colon_absent(k: Seq<char>)
    requires
        colon_free(k),
    ensures
        first_colon(k) == k.len(),
    decreases k.len(),
{
    if k.len() == 0 {
    } else {
        assert(forall|j: int| 0 <= j < k.len() - 1 ==> k.skip(1)[j] == k[j + 1]);
        lemma_first_colon_absent(k.skip(1));
    }
}

/// Round trip: a key built from a colon-free owner parses back to exactly
/// the pair it was built from.
pub proof fn lemma_key_round_trip(owner: Seq<char>, exe: Seq<char>)
    requires
        colon_free(owner),
    ensures
        key_owner(key_of(owner, exe)) == owner,
        key_exe(key_of(owner, exe)) == exe,
{
    let k = key_of(owner, exe);
    assert(k[owner.len() as int] == ':');
    assert(forall|j: int| 0 <= j < owner.len() ==> k[j] == owner[j]);
    lemma_first_colon_is(k, owner.len() as int);
    assert(key_owner(k) =~= owner);
    assert(key_exe(k) =~= exe);
}

/// Builds the serialized key `"<owner>:<exe>"`.
pub fn make_key(owner: &String, exe: &String) -> (r: String)
    ensures
        r@ == key_of(owner@, exe@),
{
    let mut s = owner.clone();
    s.append(":");
    s.append(exe.as_str());
    proof {
        reveal_strlit(":");
        assert(s@ =~= key_of(owner@, exe@));
    }
    s
}

/// Splits a serialized key at its first `':'`, recovering the
/// `(owner, executable)` pair; a key without `':'` yields the whole key as
/// owner and an empty executable name.
pub fn parse_key(k: &str) -> (r: (String, String))
    ensures
        r.0@ == key_owner(k@),
        r.1@ == key_exe(k@),
{
    let n = k.unicode_len();
    let mut i: usize = 0;
    let mut found: bool = false;
    while i < n && !found
        invariant
            n == k@.len(),
            0 <= i <= n,
            forall|j: int| 0 <= j < i ==> k@[j] != ':',
            found ==> i < n && k@[i as int] == ':',
        decreases n - i + (if found { 0int } else { 1int }),
    {
        if k.get_char(i) == ':' {
            found = true;
        } else {
            i = i + 1;
        }
    }
    if found {
        proof {
            lemma_first_colon_is(k@, i as int);
        }
        let owner = k.substring_char(0, i).to_owned();
        let exe = k.substring_char(i + 1, n).to_owned();
        (owner, exe)
    } else {
        proof {
            lemma_first_colon_absent(k@);
        }
        let owner = k.substring_char(0, n).to_owned();
        proof {
            assert(owner@ =~= key_owner(k@));
        }
        (owner, String::new())
    }
}

} // verus!
