use connected_accounts::contract::{
    Counter, EcrecoverInput, EcrecoverOutput, EcrecoverSigInput, HashOutput,
};
use connected_accounts::recovery::{
    address_from_digest, address_from_key, address_or_sentinel, recover_address, recover_signer,
    signer_from_key, RECOVERY_ID_LIMIT,
};
use connected_accounts::typed_data::{
    domain_separator, hash_linking_account, hash_linking_accounts,
    hash_linking_accounts_no_domain, LinkingAccount, LinkingAccounts,
};

const SIGNER: &str = "2c7536e3605d9c16a7a3d7b1898e529396a65c23";
const SIGNER_KEY: &str = "4e3b81af9c2234cad09d679ce6035ed1392347ce64ce405f5dcd36228a25de6e47fd35c4215d1edf53e6f83de344615ce719bdb0fd878f6ed76f06dd277956de";
const SIGNATURE: &str = "abe9fd9b104ae41203e6233a6b24a4ddfbfd187437449c5317139b553a2d3bd47a1bbd29764bbbca13a3f9110e0fc3d5e83cae7aa88a6993b8f6a7bf72d03e04";
const SIGNATURE_HIGH_S: &str = "abe9fd9b104ae41203e6233a6b24a4ddfbfd187437449c5317139b553a2d3bd485e442d689b44435ec5c06eef1f03c28d2722e6c06be36a806dbb6cd5d66033d";

fn bytes32(text: &str) -> [u8; 32] {
    let mut out = [0u8; 32];
    out.copy_from_slice(&hex::decode(text).expect("test input is valid hex"));
    out
}

fn bytes64(text: &str) -> [u8; 64] {
    let mut out = [0u8; 64];
    out.copy_from_slice(&hex::decode(text).expect("test input is valid hex"));
    out
}

fn bytes20(text: &str) -> [u8; 20] {
    let mut out = [0u8; 20];
    out.copy_from_slice(&hex::decode(text).expect("test input is valid hex"));
    out
}

fn linked(origin_id: &str) -> LinkingAccounts {
    LinkingAccounts {
        account_a: LinkingAccount {
            origin_id: origin_id.to_string(),
            account_id: "alice.near".to_string(),
        },
        account_b: LinkingAccount {
            origin_id: "github.com/alice".to_string(),
            account_id: "alice.testnet".to_string(),
        },
    }
}

fn signed_by_alice(v: u8, sig: &str, mc: bool) -> EcrecoverSigInput {
    EcrecoverSigInput { v, sig: bytes64(sig), mc }
}

#[test]
fn address_from_digest_takes_the_last_twenty_bytes() {
    let mut digest = [0u8; 32];
    for (i, byte) in digest.iter_mut().enumerate() {
        *byte = i as u8;
    }
    let address = address_from_digest(&digest);
    let expected: Vec<u8> = (12u8..32).collect();
    assert_eq!(address.to_vec(), expected);
}

#[test]
fn address_from_key_hashes_the_key() {
    assert_eq!(address_from_key(&bytes64(SIGNER_KEY)), bytes20(SIGNER));
    assert_eq!(
        address_from_key(&[0u8; 64]),
        bytes20("3f17f1962b36e491b30a40b2405849e597ba5fb5")
    );
}

#[test]
fn signer_from_key_keeps_failure_apart() {
    assert_eq!(signer_from_key(None), None);
    assert_eq!(
        signer_from_key(Some(bytes64(SIGNER_KEY))),
        Some(bytes20(SIGNER))
    );
}

#[test]
fn address_or_sentinel_maps_no_signer_to_zero() {
    assert_eq!(address_or_sentinel(None), [0u8; 20]);
    assert_eq!(address_or_sentinel(Some([7u8; 20])), [7u8; 20]);
}

#[test]
fn eth_ecrecover_reproduces_a_published_address() {
    let data = EcrecoverInput {
        m: bytes32("456e9aea5e197a1f1af7a3e85a3212fa4049a3ba34c2289b4c860fc0b0c64ef3"),
        v: 1,
        sig: bytes64("9242685bf161793cc25603c231bc2f568eb630ea16aa137d2664ac80388256084f8ae3bd7535248d0bd448298cc2e2071e56992d0774dc340c368ae950852ada"),
        mc: false,
    };
    assert_eq!(
        Counter::default().eth_ecrecover(data),
        EcrecoverOutput {
            address: bytes20("7156526fbd7a3c72969b54f64e42c10fbb768c8a")
        }
    );
}

#[test]
fn eth_ecrecover_with_malleability_check() {
    let data = EcrecoverInput {
        m: bytes32("ce0677bb30baa8cf067c88db9811f4333d131bf8bcf12fe7065d211dce971008"),
        v: 1,
        sig: bytes64("90f27b8b488db00b00606796d2987f6a5f59ae62ea05effe84fef5b8b0e549984a691139ad57a3f0b906637673aa2f63d1f55cb1a69199d4009eea23ceaddc93"),
        mc: true,
    };
    assert_eq!(
        Counter::default().eth_ecrecover(data).address,
        bytes20("a19d069d48d2e9392ec2bb41ecab0a72119d633b")
    );
}

#[test]
fn eth_ecrecover_of_a_zero_r_is_the_zero_address() {
    let data = EcrecoverInput {
        m: bytes32("60be35518133bb945595a87176455ea5cb358f0768edf67855fd8b4317486a61"),
        v: 0,
        sig: bytes64("0000000000000000000000000000000000000000000000000000000000000000443a4b19c24abdace71770faad25665fbc5b00450ec0b76c6e87e9a4383747fd"),
        mc: false,
    };
    assert_eq!(Counter::default().eth_ecrecover(data).address, [0u8; 20]);
}

#[test]
fn eth_ecrecover_of_an_r_at_the_group_order_is_the_zero_address() {
    let data = EcrecoverInput {
        m: bytes32("f942d196d96de0d4f4f2d33341115641205382d4eef1bbe1f9ab1f5067bca093"),
        v: 0,
        sig: bytes64("fffffffffffffffffffffffffffffffebaaedce6af48a03bbfd25e8cd036414021b0e741e3105da10c7a7cc277dd760d827f569ccacb296112e8a7b4b378765a"),
        mc: false,
    };
    assert_eq!(Counter::default().eth_ecrecover(data).address, [0u8; 20]);
}

#[test]
fn eth_ecrecover_of_more_vectors() {
    let cases = [
        (
            "a727ef196c4ed856629b4274297ae7a7b6225043defbde6cd30c0d78f30d6d0b",
            0u8,
            "000000000000000000000000000000000000000000000000000000000000000188785d53d67fe3cfff690d4c8785c5facef3a19e9bec59933d352973a5da554a",
            "461956acbec5f0e6fe4b706ed791c8d9cf4b6871",
        ),
        (
            "bd0f7f412744c079e9138ce32c4cdc4454807fd5fbaee573c8d16aaf03e9fbdd",
            1u8,
            "7fffffffffffffffffffffffffffffff5d576e7357a4501ddfe92f46681b20a0f110f1b5ca7b71a94aa14d1a2601052f1f391aeba368098f06de38522120b2e8",
            "7f0566bdcb1dd0831fbd6fb14accfaee40ed810f",
        ),
        (
            "526ba0b62766b2ef4ed5ccde1944789e5345a987ee818b8d07fcd97b466ce900",
            1u8,
            "7fffffffffffffffffffffffffffffff5d576e7357a4501ddfe92f46681b20a18247138be67318dc7e03a2b8aca964616d298625e5190298ad03d2c29057100f",
            "8a024c143d2cd3910d2759a117244f8b315bb44a",
        ),
    ];
    for (m, v, sig, address) in cases {
        let data = EcrecoverInput { m: bytes32(m), v, sig: bytes64(sig), mc: false };
        assert_eq!(
            Counter::default().eth_ecrecover(data).address,
            bytes20(address)
        );
    }
}

#[test]
fn eth_ecrecover_over_every_recovery_id() {
    let cases = [
        (
            "c5964d730e93ba96daf5f7fc447a31ecb7f96c7caccd006ab4d9bd4aa7c394e7",
            0u8,
            "7fffffffffffffffffffffffffffffff5d576e7357a4501ddfe92f46681b20a11e5dcdc3f9010af67c32c43624eaf1bac42578a93aba14014c22b640f55780f6",
            true,
            "d3d32610dacbddef633bd5a52d668d8a7720d737",
        ),
        (
            "e9c74ebcc77d58bae29b6e946e03e052e8dcc7db136dc98ec45be4f13366b3fc",
            2u8,
            "000000000000000000000000000000014246b43c1be7d345d8e5bf50c19fa5eac53c9211f596d8ab82617a48d4849a865466ec7599aab4eb56fdb0b0f4ed1a4a",
            false,
            "8af79595da7983b9f4c6adbf17bfb42cfc98ea4c",
        ),
        (
            "a4bf8f79f89ef6ed53bc8398ac5ce0d0af90ff4433513275c307ab216f3d3c7a",
            2u8,
            "0000000000000000000000000000000136826b058c5cd7e9415c884f95fb5e5b0000000000000000000000000000000000000000000000000000000000000001",
            true,
            "ab34d78a4a1fe02b028a4eba8e936b93fb97e048",
        ),
        (
            "0db7b8d8248f827e762b7605dc64839c287f7425b5a6c575494646d34b0b84ba",
            3u8,
            "000000000000000000000000000000007a914d34aa53bdea0a8f4ff49355a62353bd2aa75ba1c4c99ec14c32714946fe2702766da0099d50a3f7a3b26196d082",
            false,
            "1879c1285b2ce9357b5f8d50d4c8c24190a039f0",
        ),
        (
            "8daf092eb11e987fb03071be36fe04c6bec6fd412ec6e5ebb1f7baebc7e6ffde",
            3u8,
            "00000000000000000000000000000000aea63e1143861dd225c99e8f95e0365b5c5e19f3143eae4dc62bea8fee69ecd8f8aa3774917e98933ec6b2939a7da5d9",
            true,
            "8dc3341395ca7beb8319c92d3c4cdd6f658d1fef",
        ),
    ];
    for (m, v, sig, mc, address) in cases {
        let data = EcrecoverInput { m: bytes32(m), v, sig: bytes64(sig), mc };
        assert_eq!(
            Counter::default().eth_ecrecover(data).address,
            bytes20(address)
        );
    }
}

#[test]
fn eth_ecrecover_of_a_signature_that_recovers_no_key_is_the_zero_address() {
    let cases = [
        (
            "951c3d802b4b3a0365c1220e3eed672d8f801cb175f8f674d7409e0a6cf6aed9",
            1u8,
            "75650fb1b3349f38048668b7dcab0211e26eaa0a12b2c04fe7f7ffc9d1551aa8958a153fd8acfcfb448e2021b4037cac22f071c9a6deed05a46d4f409fac8179",
            false,
        ),
        (
            "9157d65274b79a042fe4dcb7691d82c9368ae6bcb223aaf208576d0bd5e9515a",
            2u8,
            "000000000000000000000000000000014551231950b75fc4402da1722fc9baed739f8a83bdb021eeac938c806384aef2352ed1cea937b88b0ce70da221092b54",
            false,
        ),
        (
            "394fa6c2779246ffb301ef4edf6547eb50547fefc68634498c7a87ee9462e5a7",
            1u8,
            "fbecc7fb2e06c8d65128d600636560be89b08bf224c2edd7942817316b5f4a93412786e5131125d2eea03b95b60a38f790b7d3919d89a7d3cf971592d8c1ca7f",
            true,
        ),
    ];
    for (m, v, sig, mc) in cases {
        let data = EcrecoverInput { m: bytes32(m), v, sig: bytes64(sig), mc };
        assert_eq!(Counter::default().eth_ecrecover(data).address, [0u8; 20]);
    }
}

#[test]
fn eth_ecrecover_of_a_malformed_recovery_id_is_the_zero_address() {
    for v in [4u8, 5, 26, 27, 28, 29, 35, 128, 255] {
        let data = EcrecoverInput {
            m: bytes32("456e9aea5e197a1f1af7a3e85a3212fa4049a3ba34c2289b4c860fc0b0c64ef3"),
            v,
            sig: bytes64("9242685bf161793cc25603c231bc2f568eb630ea16aa137d2664ac80388256084f8ae3bd7535248d0bd448298cc2e2071e56992d0774dc340c368ae950852ada"),
            mc: false,
        };
        assert_eq!(Counter::default().eth_ecrecover(data).address, [0u8; 20]);
    }
}

#[test]
fn recovery_id_limit_is_four() {
    assert_eq!(RECOVERY_ID_LIMIT, 4);
}

#[test]
fn eth_ecrecover_of_an_unusual_recovery_id_does_not_fail() {
    for v in [2u8, 3] {
        let data = EcrecoverInput {
            m: bytes32("456e9aea5e197a1f1af7a3e85a3212fa4049a3ba34c2289b4c860fc0b0c64ef3"),
            v,
            sig: bytes64("9242685bf161793cc25603c231bc2f568eb630ea16aa137d2664ac80388256084f8ae3bd7535248d0bd448298cc2e2071e56992d0774dc340c368ae950852ada"),
            mc: false,
        };
        assert_eq!(Counter::default().eth_ecrecover(data).address, [0u8; 20]);
    }
}

#[test]
fn recover_signer_tells_failure_from_an_address() {
    let digest = hash_linking_accounts(&linked("twitter.com/alice"));
    let signature = bytes64(SIGNATURE);
    assert_eq!(
        recover_signer(&digest, &signature, 0, false),
        Some(bytes20(SIGNER))
    );
    assert_eq!(recover_signer(&digest, &signature, 4, false), None);
    assert_eq!(recover_signer(&digest, &[0u8; 64], 0, false), None);
}

#[test]
fn recover_address_maps_failure_to_zero() {
    let digest = hash_linking_accounts(&linked("twitter.com/alice"));
    assert_eq!(
        recover_address(&digest, &bytes64(SIGNATURE), 0, true),
        bytes20(SIGNER)
    );
    assert_eq!(recover_address(&digest, &[0u8; 64], 0, false), [0u8; 20]);
    assert_eq!(recover_address(&digest, &[0xffu8; 64], 1, false), [0u8; 20]);
}

#[test]
fn eth_verify_eip712_returns_the_signer() {
    let output = Counter::default().eth_verify_eip712(
        linked("twitter.com/alice"),
        signed_by_alice(0, SIGNATURE, false),
    );
    assert_eq!(output, EcrecoverOutput { address: bytes20(SIGNER) });
}

#[test]
fn eth_verify_eip712_accepts_a_low_s_under_the_malleability_check() {
    let output = Counter::default().eth_verify_eip712(
        linked("twitter.com/alice"),
        signed_by_alice(0, SIGNATURE, true),
    );
    assert_eq!(output.address, bytes20(SIGNER));
}

#[test]
fn eth_verify_eip712_rejects_a_high_s_under_the_malleability_check() {
    let relaxed = Counter::default().eth_verify_eip712(
        linked("twitter.com/alice"),
        signed_by_alice(1, SIGNATURE_HIGH_S, false),
    );
    assert_eq!(relaxed.address, bytes20(SIGNER));
    let strict = Counter::default().eth_verify_eip712(
        linked("twitter.com/alice"),
        signed_by_alice(1, SIGNATURE_HIGH_S, true),
    );
    assert_eq!(strict.address, [0u8; 20]);
}

#[test]
fn eth_verify_eip712_of_a_tampered_message_is_not_the_signer() {
    let output = Counter::default().eth_verify_eip712(
        linked("twitter.com/alicf"),
        signed_by_alice(0, SIGNATURE, false),
    );
    assert_ne!(output.address, bytes20(SIGNER));
    assert_eq!(
        output.address,
        bytes20("f4698e6777afb02832470462e41a653d0f76dad2")
    );
}

#[test]
fn eth_verify_eip712_of_each_flipped_bit_is_not_the_signer() {
    let signed = "twitter.com/alice".as_bytes();
    for position in 0..signed.len() {
        for bit in 0..7 {
            let mut tampered = signed.to_vec();
            tampered[position] ^= 1 << bit;
            let origin_id = String::from_utf8(tampered).expect("still ASCII");
            let output = Counter::default()
                .eth_verify_eip712(linked(&origin_id), signed_by_alice(0, SIGNATURE, false));
            assert_ne!(output.address, bytes20(SIGNER));
        }
    }
}

#[test]
fn eth_verify_eip712_of_the_other_recovery_id_is_not_the_signer() {
    let output = Counter::default().eth_verify_eip712(
        linked("twitter.com/alice"),
        signed_by_alice(1, SIGNATURE, false),
    );
    assert_eq!(
        output.address,
        bytes20("590b7f7ed3201b40965324fe5ec457eef31169f9")
    );
}

#[test]
fn eth_verify_eip712_of_a_malformed_recovery_id_is_the_zero_address() {
    for v in [4u8, 27, 28, 200, 255] {
        let output = Counter::default().eth_verify_eip712(
            linked("twitter.com/alice"),
            signed_by_alice(v, SIGNATURE, false),
        );
        assert_eq!(output.address, [0u8; 20]);
    }
}

#[test]
fn counter_hashes_as_the_free_functions_do() {
    let counter = Counter::default();
    let message = linked("twitter.com/alice");
    assert_eq!(
        counter.domain_separator(),
        HashOutput { hash: domain_separator() }
    );
    assert_eq!(
        counter.hash_linking_accounts(message.clone()).hash,
        hash_linking_accounts(&message)
    );
    assert_eq!(
        counter.hash_linking_accounts_no_domain(message.clone()).hash,
        hash_linking_accounts_no_domain(&message)
    );
    assert_eq!(
        counter.hash_linking_account(message.account_a.clone()).hash,
        hash_linking_account(&message.account_a)
    );
}

#[test]
fn counter_domain_separator_has_its_known_value() {
    assert_eq!(
        Counter::default().domain_separator().hash,
        bytes32("ab52a3fea07fbe37530706c740a2d8eae68a2eba9321a74f55b7139d4bfbae2a")
    );
    assert_eq!(
        Counter::default().domain_separator(),
        Counter::default().domain_separator()
    );
}

#[test]
fn counter_hash_linking_accounts_has_its_known_value() {
    assert_eq!(
        Counter::default()
            .hash_linking_accounts(linked("twitter.com/alice"))
            .hash,
        bytes32("6313703d209259da0f08c6be84dd59705b60d69081f2c1b7f5d1d49b1817373e")
    );
    assert_eq!(
        Counter::default()
            .hash_linking_accounts(linked("twitter.com/alicf"))
            .hash,
        bytes32("fc314069bcaaae8203a7eb5b572012d6b5d16b7f4e4b0baa8264c44d5bdc2ff4")
    );
}
