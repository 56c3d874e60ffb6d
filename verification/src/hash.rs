//! 32-byte hashes and digests (block hashes, transaction ids, miner identities, payload
//! digests), and the fork-activation scores that gate consensus rules.

use vstd::prelude::*;

verus! {

/// A 32-byte hash. Its view is its byte sequence.
#[derive(Debug, Clone, Copy)]
pub struct Hash32 {
    pub bytes: [u8; 32],
}

impl View for Hash32 {
    type V = Seq<u8>;

    open spec fn view(&self) -> Seq<u8> {
        self.bytes@
    }
}

/// `w` shifted right by `i` bytes.
pub open spec fn shift_bytes(w: nat, i: nat) -> nat
    decreases i,
{
    if i == 0 {
        w
    } else {
        shift_bytes(w, (i - 1) as nat) / 256
    }
}

/// Byte `i` of the little-endian encoding of `w`.
pub open spec fn le_byte(w: nat, i: nat) -> u8 {
    (shift_bytes(w, i) % 256) as u8
}

/// Lexicographic order on byte sequences (the order of hashes).
pub open spec fn lex_lt(a: Seq<u8>, b: Seq<u8>) -> bool
    decreases a.len(),
{
    if a.len() == 0 {
        b.len() > 0
    } else if b.len() == 0 {
        false
    } else if a[0] != b[0] {
        a[0] < b[0]
    } else {
        lex_lt(a.drop_first(), b.drop_first())
    }
}

/// Byte sequences are strictly ordered: no sequence precedes itself.
pub proof fn lemma_lex_lt_irreflexive(a: Seq<u8>)
    ensures
        !lex_lt(a, a),
    decreases a.len(),
{
    if a.len() > 0 {
        lemma_lex_lt_irreflexive(a.drop_first());
    }
}

/// The byte-sequence order is transitive.
pub proof fn lemma_lex_lt_transitive(a: Seq<u8>, b: Seq<u8>, c: Seq<u8>)
    requires
        lex_lt(a, b),
        lex_lt(b, c),
    ensures
        lex_lt(a, c),
    decreases a.len(),
{
    if a.len() > 0 && b.len() > 0 && c.len() > 0 && a[0] == b[0] && b[0] == c[0] {
        lemma_lex_lt_transitive(a.drop_first(), b.drop_first(), c.drop_first());
    }
}

impl Hash32 {
    /// The hash whose bytes are `bytes`.
    pub fn from_bytes(bytes: [u8; 32]) -> (r: Hash32)
        ensures
            r@ == bytes@,
    {
        Hash32 { bytes }
    }

    /// The hash whose first eight bytes are the little-endian encoding of `word` and whose other
    /// bytes are zero.
    pub fn from_u64_word(word: u64) -> (r: Hash32)
        ensures
            r@.len() == 32,
            forall|i: int| 0 <= i < 8 ==> r@[i] == le_byte(word as nat, i as nat),
            forall|i: int| 8 <= i < 32 ==> r@[i] == 0,
    {
        let mut bytes = [0u8; 32];
        let mut x: u64 = word;
        let mut i: usize = 0;
        while i < 8
            invariant
                i <= 8,
                x as nat == shift_bytes(word as nat, i as nat),
                forall|j: int| 0 <= j < i ==> bytes@[j] == le_byte(word as nat, j as nat),
                forall|j: int| 8 <= j < 32 ==> bytes@[j] == 0,
            decreases 8 - i,
        {
            bytes[i] = (x % 256) as u8;
            x = x / 256;
            i = i + 1;
        }
        Hash32 { bytes }
    }

    /// Whether the two hashes have the same bytes.
    pub fn equals(&self, other: &Hash32) -> (r: bool)
        ensures
            r == (self@ == other@),
    {
        let mut i: usize = 0;
        while i < 32
            invariant
                i <= 32,
                forall|j: int| 0 <= j < i ==> self.bytes@[j] == other.bytes@[j],
            decreases 32 - i,
        {
            if self.bytes[i] != other.bytes[i] {
                return false;
            }
            i = i + 1;
        }
        assert(self.bytes@ =~= other.bytes@);
        true
    }

    /// Whether `self` orders strictly before `other`.
    pub fn less_than(&self, other: &Hash32) -> (r: bool)
        ensures
            r == lex_lt(self@, other@),
    {
        let mut i: usize = 0;
        assert(self@.skip(0) =~= self@);
        assert(other@.skip(0) =~= other@);
        while i < 32
            invariant
                i <= 32,
                forall|j: int| 0 <= j < i ==> self.bytes@[j] == other.bytes@[j],
                lex_lt(self@, other@) == lex_lt(self@.skip(i as int), other@.skip(i as int)),
            decreases 32 - i,
        {
            assert(self@.skip(i as int).drop_first() =~= self@.skip(i + 1));
            assert(other@.skip(i as int).drop_first() =~= other@.skip(i + 1));
            if self.bytes[i] != other.bytes[i] {
                return self.bytes[i] < other.bytes[i];
            }
            i = i + 1;
        }
        false
    }
}

impl Default for Hash32 {
    fn default() -> (r: Hash32)
        ensures
            r@ == Seq::new(32, |i: int| 0u8),
    {
        let r = Hash32 { bytes: [0u8; 32] };
        assert(r@ =~= Seq::new(32, |i: int| 0u8));
        r
    }
}

/// A consensus rule change that takes effect at a DAA score.
#[derive(Debug, Clone, Copy, PartialEq, Eq, Structural)]
pub struct ForkActivation {
    pub daa_score: u64,
}

impl ForkActivation {
    /// Active at every score.
    pub fn always() -> (r: ForkActivation)
        ensures
            r.daa_score == 0,
    {
        ForkActivation { daa_score: 0 }
    }

    /// Never active.
    pub fn never() -> (r: ForkActivation)
        ensures
            r.daa_score == u64::MAX,
    {
        ForkActivation { daa_score: u64::MAX }
    }

    /// Whether the rule is in force at `daa_score`.
    pub open spec fn active_at(self, daa_score: u64) -> bool {
        self.daa_score <= daa_score
    }

    /// Whether the rule is in force at `daa_score`.
    pub fn is_active(&self, daa_score: u64) -> (r: bool)
        ensures
            r == self.active_at(daa_score),
    {
        self.daa_score <= daa_score
    }
}

} // verus!
