//! Keys into the contract and program registries, and the decoding of the
//! length-prefixed, word-padded byte encoding that the registries store.
use crate::types::{ContentAddress, Node, Predicate, PredicateAddress, PredicateView, Reads};
use vstd::prelude::*;

verus! {

/// The 8 big-endian bytes of a word.
pub open spec fn word_be_bytes(w: i64) -> Seq<u8> {
    Seq::new(8, |j: int| (((w as u64) >> ((56 - 8 * j) as u64)) & 0xffu64) as u8)
}

/// The unsigned big-endian number that `bytes` spell.
pub open spec fn be_value(bytes: Seq<u8>) -> nat
    decreases bytes.len(),
{
    if bytes.len() == 0 {
        0
    } else {
        (be_value(bytes.drop_last()) * 256 + bytes.last()) as nat
    }
}

/// The word whose big-endian bytes are `bytes` (8 of them, in two's complement).
pub open spec fn word_from_be(bytes: Seq<u8>) -> i64 {
    be_value(bytes) as u64 as i64
}

/// The four words of a 32-byte address, each read big-endian from 8 bytes.
pub open spec fn address_words(address: Seq<u8>) -> Seq<i64> {
    Seq::new(4, |i: int| word_from_be(address.subrange(8 * i, 8 * i + 8)))
}

/// The key `[0, <contract-ca>, <predicate-ca>]` of the contract registry whose
/// non-empty value marks the predicate as belonging to the contract.
pub open spec fn spec_contract_predicate_key(contract: Seq<u8>, predicate: Seq<u8>) -> Seq<i64> {
    seq![0i64] + address_words(contract) + address_words(predicate)
}

/// The key `[1, <predicate-ca>]` of the contract registry that holds the encoded predicate.
pub open spec fn spec_predicate_key(predicate: Seq<u8>) -> Seq<i64> {
    seq![1i64] + address_words(predicate)
}

/// The key `[0, <program-ca>]` of the program registry that holds the program's bytecode.
pub open spec fn spec_program_key(program: Seq<u8>) -> Seq<i64> {
    seq![0i64] + address_words(program)
}

/// `essential_types::convert::bytes_from_word`: the big-endian bytes of a word
/// (`Word::to_be_bytes`).
#[verifier::external_body]
fn bytes_from_word(w: i64) -> (r: [u8; 8])
    ensures
        r@ == word_be_bytes(w),
{
    essential_types::convert::bytes_from_word(w)
}

/// `essential_node_types::contract_registry::contract_predicate_key`: the key
/// `[0, <contract-ca>, <predicate-ca>]`, each address as four big-endian words.
#[verifier::external_body]
pub(crate) fn contract_predicate_key(pred_addr: &PredicateAddress) -> (r: Vec<i64>)
    ensures
        r@ == spec_contract_predicate_key(pred_addr.contract@, pred_addr.predicate@),
{
    essential_node_types::contract_registry::contract_predicate_key(
        &essential_types::PredicateAddress {
            contract: essential_types::ContentAddress(pred_addr.contract.0),
            predicate: essential_types::ContentAddress(pred_addr.predicate.0),
        },
    )
}

/// `essential_node_types::contract_registry::predicate_key`: the key
/// `[1, <predicate-ca>]`, the address as four big-endian words.
#[verifier::external_body]
pub(crate) fn predicate_key(pred_ca: &ContentAddress) -> (r: Vec<i64>)
    ensures
        r@ == spec_predicate_key(pred_ca@),
{
    essential_node_types::contract_registry::predicate_key(
        &essential_types::ContentAddress(pred_ca.0),
    )
}

/// `essential_node_types::program_registry::program_key`: the key
/// `[0, <program-ca>]`, the address as four big-endian words.
#[verifier::external_body]
pub(crate) fn program_key(prog_ca: &ContentAddress) -> (r: Vec<i64>)
    ensures
        r@ == spec_program_key(prog_ca@),
{
    essential_node_types::program_registry::program_key(&essential_types::ContentAddress(prog_ca.0))
}

/// The declaration of `essential_types::predicate::PredicateDecodeError`.
#[verifier::external_type_specification]
#[verifier::external_body]
pub struct ExPredicateDecodeError(essential_types::predicate::PredicateDecodeError);

/// What `essential_types::predicate::Predicate::decode` makes of `bytes`:
/// the decoded predicate, or `None` where it reports an error.
pub uninterp spec fn predicate_decoding(bytes: Seq<u8>) -> Option<PredicateView>;

/// `essential_types::predicate::Predicate::decode`, with the decoded predicate
/// copied field by field into the library's `Predicate`.
#[verifier::external_body]
pub(crate) fn decode_predicate(bytes: &[u8]) -> (r: Result<
    Predicate,
    essential_types::predicate::PredicateDecodeError,
>)
    ensures
        r is Ok <==> predicate_decoding(bytes@) is Some,
        r is Ok ==> r->Ok_0@ == predicate_decoding(bytes@)->0,
{
    let p = essential_types::predicate::Predicate::decode(bytes)?;
    let nodes = p.nodes.iter().map(|n| Node {
        edge_start: n.edge_start,
        program_address: ContentAddress(n.program_address.0),
        reads: match n.reads {
            essential_types::predicate::Reads::Pre => Reads::Pre,
            essential_types::predicate::Reads::Post => Reads::Post,
        },
    }).collect();
    Ok(Predicate { nodes, edges: p.edges })
}

/// Why a length-prefixed word encoding could not be read.
#[derive(Clone, Copy, Debug, PartialEq, Eq, Structural)]
pub enum LenBytesError {
    /// There is no word that encodes the length.
    MissingLenBytes,
    /// The length word is not a valid byte count.
    InvalidLenBytes,
}

/// All bytes of `words`, each word as its 8 big-endian bytes.
pub open spec fn words_bytes(words: Seq<i64>) -> Seq<u8>
    decreases words.len(),
{
    if words.len() == 0 {
        Seq::empty()
    } else {
        words_bytes(words.drop_last()) + word_be_bytes(words.last())
    }
}

/// The first `n` elements of `s`, or all of `s` where it is shorter.
pub open spec fn prefix_upto(s: Seq<u8>, n: int) -> Seq<u8> {
    if n <= s.len() {
        s.take(n)
    } else {
        s
    }
}

/// The bytes encoded by `words`: the first word gives the number of bytes, the
/// rest hold the bytes big-endian, padded in the final word.
pub open spec fn spec_len_prefixed_bytes(words: Seq<i64>) -> Result<Seq<u8>, LenBytesError> {
    if words.len() == 0 {
        Err(LenBytesError::MissingLenBytes)
    } else if words[0] < 0 || words[0] > usize::MAX {
        Err(LenBytesError::InvalidLenBytes)
    } else {
        Ok(prefix_upto(words_bytes(words.drop_first()), words[0] as int))
    }
}

/// Byte `j` of the bytes of `words` is byte `j % 8` of word `j / 8`, and
/// there are eight bytes per word.
pub proof fn lemma_words_bytes_index(words: Seq<i64>)
    ensures
        words_bytes(words).len() == 8 * words.len(),
        forall|j: int|
            0 <= j < 8 * words.len() ==> #[trigger] words_bytes(words)[j] == word_be_bytes(
                words[j / 8],
            )[j % 8],
    decreases words.len(),
{
    if words.len() > 0 {
        let init = words.drop_last();
        lemma_words_bytes_index(init);
        assert forall|j: int| 0 <= j < 8 * words.len() implies #[trigger] words_bytes(words)[j]
            == word_be_bytes(words[j / 8])[j % 8] by {
            if j < 8 * init.len() {
                assert(words_bytes(init)[j] == word_be_bytes(init[j / 8])[j % 8]);
                assert(init[j / 8] == words[j / 8]);
            } else {
                assert(j / 8 == init.len());
                assert(j % 8 == j - 8 * init.len());
            }
        }
    }
}

/// A valid length word `n` gives exactly `n` bytes where the words after it
/// hold that many, and all of them where they hold fewer; byte `j` is byte
/// `j % 8` of word `1 + j / 8`, big-endian.
pub proof fn lemma_len_prefixed_bytes_exact(words: Seq<i64>)
    requires
        words.len() > 0,
        0 <= words[0] <= usize::MAX,
    ensures
        spec_len_prefixed_bytes(words) is Ok,
        words[0] <= 8 * (words.len() - 1) ==> spec_len_prefixed_bytes(words)->Ok_0.len() == words[0],
        words[0] > 8 * (words.len() - 1) ==> spec_len_prefixed_bytes(words)->Ok_0.len() == 8 * (
        words.len() - 1),
        forall|j: int|
            0 <= j < spec_len_prefixed_bytes(words)->Ok_0.len() ==> #[trigger] spec_len_prefixed_bytes(
                words,
            )->Ok_0[j] == word_be_bytes(words[1 + j / 8])[j % 8],
{
    let rest = words.drop_first();
    lemma_words_bytes_index(rest);
    let b = spec_len_prefixed_bytes(words)->Ok_0;
    assert forall|j: int| 0 <= j < b.len() implies #[trigger] spec_len_prefixed_bytes(words)->Ok_0[j]
        == word_be_bytes(words[1 + j / 8])[j % 8] by {
        assert(words_bytes(rest)[j] == word_be_bytes(rest[j / 8])[j % 8]);
        assert(rest[j / 8] == words[1 + j / 8]);
    }
}

proof fn lemma_prefix_upto_push(s: Seq<u8>, x: u8, n: int)
    requires
        n >= 0,
    ensures
        prefix_upto(s.push(x), n) == (if s.len() < n {
            prefix_upto(s, n).push(x)
        } else {
            prefix_upto(s, n)
        }),
{
    if s.len() < n {
        assert(prefix_upto(s.push(x), n) =~= s.push(x));
    } else {
        assert(prefix_upto(s.push(x), n) =~= s.take(n));
    }
}

/// Read the bytes of a length-prefixed, word-padded encoding.
pub fn bytes_from_len_prefixed_words(words: &[i64]) -> (r: Result<Vec<u8>, LenBytesError>)
    ensures
        r is Ok <==> spec_len_prefixed_bytes(words@) is Ok,
        r is Ok ==> r->Ok_0@ == spec_len_prefixed_bytes(words@)->Ok_0,
        r is Err ==> r->Err_0 == spec_len_prefixed_bytes(words@)->Err_0,
        r matches Ok(b) ==> b@.len() == (if words@[0] <= 8 * (words@.len() - 1) {
            words@[0] as int
        } else {
            8 * (words@.len() - 1)
        }),
{
    if words.len() == 0 {
        return Err(LenBytesError::MissingLenBytes);
    }
    let len_word = words[0];
    if len_word < 0 || (len_word as u64) > (usize::MAX as u64) {
        return Err(LenBytesError::InvalidLenBytes);
    }
    let n = len_word as usize;
    let ghost rest = words@.drop_first();
    let mut out: Vec<u8> = Vec::new();
    let mut i: usize = 1;
    proof {
        assert(words@.subrange(1, 1) =~= Seq::<i64>::empty());
    }
    while i < words.len()
        invariant
            1 <= i <= words.len(),
            rest == words@.drop_first(),
            n == words@[0],
            out@ == prefix_upto(words_bytes(words@.subrange(1, i as int)), n as int),
            out@.len() <= n,
        decreases words.len() - i,
    {
        let bytes = bytes_from_word(words[i]);
        let ghost before = words_bytes(words@.subrange(1, i as int));
        let mut j: usize = 0;
        while j < 8
            invariant
                j <= 8,
                bytes@ == word_be_bytes(words@[i as int]),
                out@ == prefix_upto(before + bytes@.take(j as int), n as int),
                out@.len() <= n,
            decreases 8 - j,
        {
            proof {
                assert(before + bytes@.take(j + 1) =~= (before + bytes@.take(j as int)).push(
                    bytes@[j as int],
                ));
                lemma_prefix_upto_push(before + bytes@.take(j as int), bytes@[j as int], n as int);
            }
            if out.len() < n {
                out.push(bytes[j]);
            }
            j = j + 1;
        }
        proof {
            let sub = words@.subrange(1, i + 1);
            assert(sub.drop_last() =~= words@.subrange(1, i as int));
            assert(bytes@.take(8) =~= bytes@);
            assert(words_bytes(sub) == before + word_be_bytes(words@[i as int]));
        }
        i = i + 1;
    }
    proof {
        assert(words@.subrange(1, words@.len() as int) =~= rest);
        lemma_len_prefixed_bytes_exact(words@);
    }
    Ok(out)
}

} // verus!
