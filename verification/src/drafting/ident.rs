//! Identifiers of drafts.
use std::collections::hash_map::DefaultHasher;
use std::hash::Hasher;

use vstd::prelude::*;
use vstd::std_specs::hash::DefaultHasherAdditionalSpecFns;
use vstd::string::*;

verus! {

/// The characters that identifiers are made of.
pub const NANOID_ALPHABET: &'static str =
    "useandom-26T198340PX75pxJACKVERYMINDBUSHWOLF_GQZbfghjklqvwyzrict";

/// The number of characters of an identifier.
pub const NANOID_LENGTH: u8 = 21;

/// The identifier that hash values give: for each, the character that its six lowest bits name.
pub fn nanoid(hashes: &Vec<u64>) -> (id: String)
    ensures
        id@ == Seq::new(hashes@.len(), |i: int| NANOID_ALPHABET@[hashes@[i] as int % 64]),
        id@.len() == hashes@.len(),
        forall|i: int|
            0 <= i < hashes@.len() ==> #[trigger] id@[i]
                == "useandom-26T198340PX75pxJACKVERYMINDBUSHWOLF_GQZbfghjklqvwyzrict"@[hashes@[i] as int % 64],
{
    proof {
        reveal_strlit("useandom-26T198340PX75pxJACKVERYMINDBUSHWOLF_GQZbfghjklqvwyzrict");
        assert(NANOID_ALPHABET@.len() == 64);
    }
    let mut id = String::new();
    let mut i: usize = 0;
    while i < hashes.len()
        invariant
            i <= hashes@.len(),
            NANOID_ALPHABET@.len() == 64,
            id@ == Seq::new(i as nat, |k: int| NANOID_ALPHABET@[hashes@[k] as int % 64]),
        decreases hashes@.len() - i,
    {
        let low: u64 = hashes[i] & 63;
        let hash: u64 = hashes[i];
        assert(hash & 63 == hash % 64) by (bit_vector);
        id.push(NANOID_ALPHABET.get_char(low as usize));
        i = i + 1;
    }
    id
}

/// What has been written to the hasher when it gives the hash of character `i`: the clock, then
/// the numbers from 0 to `i`, one byte each.
pub open spec fn hashed(clock: Seq<u8>, i: int) -> Seq<Seq<u8>> {
    seq![clock] + Seq::new((i + 1) as nat, |k: int| seq![k as u8])
}

/// The identifier that a reading of the clock gives: each character is named by a hash of the
/// clock and of a counter.
pub fn identifier_at(clock: &[u8]) -> (id: String)
    ensures
        id@.len() == 21,
        forall|i: int|
            0 <= i < 21 ==> #[trigger] id@[i] == NANOID_ALPHABET@[DefaultHasher::spec_finish(
                seq![clock@] + Seq::new((i + 1) as nat, |k: int| seq![k as u8]),
            ) as int % 64],
{
    let mut hasher = DefaultHasher::new();
    hasher.write(clock);
    let mut hashes: Vec<u64> = Vec::new();
    let mut i: u8 = 0;
    assert(hasher@ == hashed(clock@, -1));
    while i < NANOID_LENGTH
        invariant
            i <= NANOID_LENGTH,
            hashes@.len() == i,
            hasher@ == hashed(clock@, i - 1),
            forall|k: int|
                0 <= k < i ==> #[trigger] hashes@[k] == DefaultHasher::spec_finish(
                    hashed(clock@, k),
                ),
        decreases NANOID_LENGTH - i,
    {
        let counter: [u8; 1] = [i];
        hasher.write(&counter);
        proof {
            assert(counter@ == seq![i]);
            assert(hasher@ == hashed(clock@, i as int));
        }
        hashes.push(hasher.finish());
        i = i + 1;
    }
    nanoid(&hashes)
}

/// The hash of a character takes in what the hash of the one before it took in, and the number of
/// the character.
pub proof fn law_hashes_build_on_one_another(clock: Seq<u8>, i: int)
    requires
        0 <= i,
    ensures
        hashed(clock, 0) == seq![clock, seq![0u8]],
        hashed(clock, i + 1) == hashed(clock, i).push(seq![(i + 1) as u8]),
{
    assert(hashed(clock, 0) =~~= seq![clock, seq![0u8]]);
    assert(hashed(clock, i + 1) =~~= hashed(clock, i).push(seq![(i + 1) as u8]));
}

/// There are 64 characters for the 64 values of six bits: letters, digits, `-` and `_`, no two
/// alike, so that different bits give different characters.
pub proof fn law_alphabet_has_no_repeats(i: int, j: int)
    requires
        0 <= i < 64,
        0 <= j < 64,
    ensures
        NANOID_ALPHABET@.len() == 64,
        NANOID_ALPHABET@[i] == NANOID_ALPHABET@[j] ==> i == j,
        ({
            let c = NANOID_ALPHABET@[i];
            'a' <= c <= 'z' || 'A' <= c <= 'Z' || '0' <= c <= '9' || c == '-' || c == '_'
        }),
{
    reveal_strlit("useandom-26T198340PX75pxJACKVERYMINDBUSHWOLF_GQZbfghjklqvwyzrict");
}

}
