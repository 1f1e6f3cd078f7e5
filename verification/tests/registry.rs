use essential_node::registry::{bytes_from_len_prefixed_words, LenBytesError};
use essential_node::types::{ContentAddress, Key, PredicateAddress, Value};
use essential_node::validate::{get_predicate, get_program, BlockRef, QueryStateExcl, StateViewIx};
use vstd::seq::Seq;

/// A state holding exactly the given entries of one registry.
struct Registry {
    address: ContentAddress,
    entries: Vec<(Key, Value)>,
}

impl QueryStateExcl for Registry {
    type Error = ();

    // Only the verifier reads this model of the state; it is never called.
    fn state_at(&self, _: Seq<u8>, _: Seq<i64>, _: StateViewIx) -> Option<Seq<i64>> {
        None
    }

    // Nor this one: no read is promised to succeed.
    fn readable(&self, _: Seq<u8>, _: Seq<i64>, _: StateViewIx) -> bool {
        false
    }

    fn query_state_excl(
        &self,
        contract_ca: &ContentAddress,
        key: &Key,
        _: &StateViewIx,
    ) -> Result<Option<Value>, ()> {
        if *contract_ca != self.address {
            return Ok(None);
        }
        Ok(self.entries.iter().find(|(k, _)| k == key).map(|(_, v)| v.clone()))
    }
}

fn ix() -> StateViewIx {
    StateViewIx { block: BlockRef::Number(1), solution_set_ix: 0 }
}

fn counting_address() -> ContentAddress {
    let mut a = [0u8; 32];
    for (i, b) in a.iter_mut().enumerate() {
        *b = i as u8;
    }
    ContentAddress(a)
}

#[test]
fn program_is_read_at_its_registry_key() {
    // The program registry key is `[0, <program address as four big-endian words>]`.
    let key = vec![
        0,
        0x0001020304050607,
        0x08090a0b0c0d0e0f,
        0x1011121314151617,
        0x18191a1b1c1d1e1f,
    ];
    let registry = Registry {
        address: ContentAddress([9; 32]),
        entries: vec![(key, vec![2, i64::from_be_bytes([7, 8, 0, 0, 0, 0, 0, 0])])],
    };
    let p = get_program(&registry, &ix(), &ContentAddress([9; 32]), &counting_address())
        .unwrap()
        .unwrap();
    assert_eq!(p.0, vec![7, 8]);
    // Another address is not found at that key.
    assert!(get_program(&registry, &ix(), &ContentAddress([9; 32]), &ContentAddress([0; 32]))
        .unwrap()
        .is_none());
}

#[test]
fn program_key_of_zero_address() {
    let registry = Registry {
        address: ContentAddress([9; 32]),
        entries: vec![(vec![0, 0, 0, 0, 0], vec![1, i64::from_be_bytes([5, 0, 0, 0, 0, 0, 0, 0])])],
    };
    let p = get_program(&registry, &ix(), &ContentAddress([9; 32]), &ContentAddress([0; 32]))
        .unwrap()
        .unwrap();
    assert_eq!(p.0, vec![5]);
}

#[test]
fn predicate_is_read_at_its_registry_keys() {
    // The predicate must be registered under `[0, <contract>, <predicate>]` and
    // stored under `[1, <predicate>]`; here the stored bytes do not decode.
    let contract = ContentAddress([0; 32]);
    let predicate = ContentAddress([0xff; 32]);
    let addr = PredicateAddress { contract, predicate };
    let registered: Key = vec![0, 0, 0, 0, 0, -1, -1, -1, -1];
    let stored: Key = vec![1, -1, -1, -1, -1];
    let registry = Registry {
        address: ContentAddress([9; 32]),
        entries: vec![(registered.clone(), vec![1]), (stored.clone(), vec![1, 0])],
    };
    assert!(get_predicate(&registry, &ix(), &ContentAddress([9; 32]), &addr).is_err());

    // Without the registration, the predicate is not part of the contract.
    let unregistered = Registry {
        address: ContentAddress([9; 32]),
        entries: vec![(stored, vec![1, 0])],
    };
    assert!(get_predicate(&unregistered, &ix(), &ContentAddress([9; 32]), &addr)
        .unwrap()
        .is_none());
}

#[test]
fn len_prefixed_bytes_take_only_the_length() {
    let words = [3, i64::from_be_bytes([1, 2, 3, 4, 5, 6, 7, 8])];
    assert_eq!(bytes_from_len_prefixed_words(&words), Ok(vec![1, 2, 3]));
}

#[test]
fn len_prefixed_bytes_across_words() {
    let words = [
        10,
        i64::from_be_bytes([1, 2, 3, 4, 5, 6, 7, 8]),
        i64::from_be_bytes([9, 10, 0, 0, 0, 0, 0, 0]),
    ];
    assert_eq!(
        bytes_from_len_prefixed_words(&words),
        Ok(vec![1, 2, 3, 4, 5, 6, 7, 8, 9, 10])
    );
}

#[test]
fn len_prefixed_bytes_shorter_than_the_length() {
    // The length asks for more bytes than the words hold: all of them are given.
    let words = [100, i64::from_be_bytes([1, 2, 3, 4, 5, 6, 7, 8])];
    assert_eq!(
        bytes_from_len_prefixed_words(&words),
        Ok(vec![1, 2, 3, 4, 5, 6, 7, 8])
    );
    assert_eq!(bytes_from_len_prefixed_words(&[0]), Ok(vec![]));
}

#[test]
fn len_prefixed_bytes_errors() {
    assert_eq!(bytes_from_len_prefixed_words(&[]), Err(LenBytesError::MissingLenBytes));
    assert_eq!(bytes_from_len_prefixed_words(&[-1, 5]), Err(LenBytesError::InvalidLenBytes));
}
