//! Base58 texts, as the host writes keys and instruction data.

use vstd::prelude::*;

verus! {

/// The bytes that a Base58 text stands for in the Bitcoin alphabet, if it is
/// one.
pub uninterp spec fn base58_decoded(text: Seq<char>) -> Option<Seq<u8>>;

/// `bs58::decode(text).into_vec()`: the bytes that the text stands for, and
/// nothing where the decoder fails because it is no Base58 text.
#[verifier::external_body]
pub(crate) fn bs58_decode(text: &str) -> (r: Option<Vec<u8>>)
    ensures
        r is Some <==> base58_decoded(text@) is Some,
        r is Some ==> r.unwrap()@ == base58_decoded(text@).unwrap(),
{
    bs58::decode(text).into_vec().ok()
}

/// Whether every text of the list is a Base58 text.
pub open spec fn all_decode(texts: Seq<String>) -> bool {
    forall|i: int| 0 <= i < texts.len() ==> base58_decoded(#[trigger] texts[i]@) is Some
}

/// Collects the bytes of the texts that were decoded so far, or gives up at
/// the first text that was not: `decoded` is what the decoder made of
/// `text`, the next text of the list.
pub fn collect_decoded(done: &mut Vec<Vec<u8>>, decoded: Option<Vec<u8>>) -> (r: bool)
    ensures
        r == decoded is Some,
        r ==> final(done)@ == old(done)@.push(decoded.unwrap()),
        !r ==> final(done)@ == old(done)@,
{
    match decoded {
        Some(bytes) => {
            done.push(bytes);
            true
        },
        None => false,
    }
}

/// Decodes a list of Base58 texts, such as the keys of the operators: the
/// bytes of each text, in the order of the list; nothing where a text is no
/// Base58 text.
pub fn decode_all(texts: &Vec<String>) -> (r: Option<Vec<Vec<u8>>>)
    ensures
        r is Some <==> all_decode(texts@),
        r is Some ==> r.unwrap()@.len() == texts@.len(),
        r is Some ==> forall|i: int|
            0 <= i < texts@.len() ==> (#[trigger] r.unwrap()@[i])@ == base58_decoded(
                texts@[i]@,
            ).unwrap(),
{
    let mut done: Vec<Vec<u8>> = Vec::new();
    let mut i: usize = 0;
    while i < texts.len()
        invariant
            i <= texts@.len(),
            done@.len() == i,
            forall|j: int| 0 <= j < i ==> base58_decoded(#[trigger] texts@[j]@) is Some,
            forall|j: int|
                0 <= j < i ==> (#[trigger] done@[j])@ == base58_decoded(texts@[j]@).unwrap(),
        decreases texts@.len() - i,
    {
        let decoded = bs58_decode(texts[i].as_str());
        if !collect_decoded(&mut done, decoded) {
            return None;
        }
        i += 1;
    }
    Some(done)
}

} // verus!
