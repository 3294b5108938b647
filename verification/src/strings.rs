use vstd::prelude::*;

verus! {

/// Whether two strings hold the same characters.
pub fn str_equals(a: &str, b: &str) -> (r: bool)
    ensures
        r == (a@ == b@),
{
    let n = a.unicode_len();
    if n != b.unicode_len() {
        return false;
    }
    let mut i: usize = 0;
    while i < n
        invariant
            n == a@.len(),
            n == b@.len(),
            i <= n,
            forall|j: int| 0 <= j < i ==> a@[j] == b@[j],
        decreases n - i,
    {
        if a.get_char(i) != b.get_char(i) {
            return false;
        }
        i = i + 1;
    }
    assert(a@ =~= b@);
    true
}

/// The hash of a string by `rustc_hash`'s `FxHasher`, started from its
/// default state. Nothing is stated of the value: it depends on the width
/// of the machine's words.
#[verifier::external_body]
fn fx_hash_str(s: &str) -> (h: u64) {
    let mut hasher = rustc_hash::FxHasher::default();
    std::hash::Hash::hash(s, &mut hasher);
    std::hash::Hasher::finish(&hasher)
}

/// A 64-bit hash cut to 32 bits: its low 32 bits are kept.
pub fn hash_to_u32(raw: u64) -> (h: u32)
    ensures
        h as int == raw as int % 0x1_0000_0000,
{
    let low: u64 = raw % 0x1_0000_0000u64;
    low as u32
}

/// The precomputed hash of a selector identifier: the `FxHasher` hash of
/// its name, cut to 32 bits as `hash_to_u32` does. What the hasher returns
/// depends on the width of the machine's words, so no clause names the
/// value: any 32-bit value may come back.
pub fn identifier_hash(name: &str) -> (h: u32) {
    hash_to_u32(fx_hash_str(name))
}

} // verus!
