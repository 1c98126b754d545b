use lyraswap::{Address, AddressKind};
use soroban_sdk::xdr::{self, AccountId, ContractId, PublicKey, ScAddress, Uint256};

fn on_ledger(address: &Address) -> ScAddress {
    match address.kind {
        AddressKind::Account => {
            ScAddress::Account(AccountId(PublicKey::PublicKeyTypeEd25519(Uint256(address.key))))
        }
        AddressKind::Contract => ScAddress::Contract(ContractId(xdr::Hash(address.key))),
    }
}

fn samples() -> Vec<Address> {
    let mut keys = vec![[0u8; 32], [1u8; 32], [127u8; 32], [128u8; 32], [255u8; 32]];
    for at in [0usize, 1, 15, 30, 31] {
        let mut key = [128u8; 32];
        key[at] = 129;
        keys.push(key);
        key[at] = 3;
        keys.push(key);
    }
    let mut all = Vec::new();
    for key in keys {
        all.push(Address { kind: AddressKind::Account, key });
        all.push(Address { kind: AddressKind::Contract, key });
    }
    all
}

#[test]
fn addresses_are_ordered_as_on_the_ledger() {
    for a in samples() {
        for b in samples() {
            assert_eq!(a == b, on_ledger(&a) == on_ledger(&b));
            assert_eq!(a < b, on_ledger(&a) < on_ledger(&b));
            assert_eq!(a.partial_cmp(&b), on_ledger(&a).partial_cmp(&on_ledger(&b)));
        }
    }
}

#[test]
fn accounts_come_before_contracts() {
    let account = Address { kind: AddressKind::Account, key: [255; 32] };
    let contract = Address { kind: AddressKind::Contract, key: [0; 32] };
    assert!(account < contract);
    assert!(contract > account);
    assert!(account != contract);
}
