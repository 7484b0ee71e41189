use openmls::prelude::tls_codec::{DeserializeBytes, Serialize};
use openmls::prelude::{
    BasicCredential, Ciphersuite, CredentialWithKey, Extension, ExtensionType, Extensions,
    ExternalProposal, ExternalSender, GroupEpoch, GroupId, KeyPackage, LeafNodeIndex, MlsGroup,
    MlsGroupCreateConfig, MlsMessageIn, MlsMessageOut, OpenMlsProvider, RequiredCapabilitiesExtension,
    SenderExtensionIndex, SignaturePublicKey, UnknownExtension, PURE_PLAINTEXT_WIRE_FORMAT_POLICY,
};
use openmls_basic_credential::SignatureKeyPair;
use openmls_rust_crypto::OpenMlsRustCrypto;
use sigil::mls::framing::is_well_framed;
use sigil::mls::group::extract_group_id_from_proposals;
use sigil::{SigilError, SigilSession};

const SUITE: Ciphersuite = Ciphersuite::MLS_128_DHKEMP256_AES128GCM_SHA256_P256;

struct Party {
    provider: OpenMlsRustCrypto,
    keys: SignatureKeyPair,
    owner: CredentialWithKey,
}

impl Party {
    fn new(name: &[u8]) -> Party {
        let keys = SignatureKeyPair::new(SUITE.signature_algorithm()).unwrap();
        let owner = CredentialWithKey {
            credential: BasicCredential::new(name.to_vec()).into(),
            signature_key: keys.public().into(),
        };
        let provider = OpenMlsRustCrypto::default();
        keys.store(provider.storage()).unwrap();
        Party { provider, keys, owner }
    }

    fn package(&self) -> KeyPackage {
        let extensions = Extensions::single(Extension::Unknown(
            0xF042,
            UnknownExtension(vec![0xFF; 300]),
        ))
        .unwrap();
        KeyPackage::builder()
            .key_package_extensions(extensions)
            .leaf_node_capabilities(
                openmls::prelude::Capabilities::builder()
                    .extensions(vec![ExtensionType::Unknown(0xF042)])
                    .build(),
            )
            .build(SUITE, &self.provider, &self.keys, self.owner.clone())
            .unwrap()
            .key_package()
            .clone()
    }
}

fn bytes(message: &MlsMessageOut) -> Vec<u8> {
    message.tls_serialize_detached().unwrap()
}

/// Messages of every kind: public and private, with proposals, commits, key
/// packages and trees in them.
fn messages() -> Vec<Vec<u8>> {
    let alice = Party::new(b"alice");
    let bob = Party::new(b"bob");
    let carol = Party::new(b"carol");
    let sender = ExternalSender::new(
        SignaturePublicKey::from(alice.keys.public()),
        alice.owner.credential.clone(),
    );
    let extensions = Extensions::from_vec(vec![
        Extension::ExternalSenders(vec![sender]),
        Extension::RequiredCapabilities(RequiredCapabilitiesExtension::new(&[], &[], &[])),
    ])
    .unwrap();
    let mut found = Vec::new();
    for plain in [true, false] {
        let mut builder = MlsGroupCreateConfig::builder()
            .ciphersuite(SUITE)
            .use_ratchet_tree_extension(true)
            .with_group_context_extensions(extensions.clone())
            .capabilities(
                openmls::prelude::Capabilities::builder()
                    .extensions(vec![ExtensionType::Unknown(0xF042)])
                    .build(),
            );
        if plain {
            builder = builder.wire_format_policy(PURE_PLAINTEXT_WIRE_FORMAT_POLICY);
        }
        let config = builder.build();
        let mut group =
            MlsGroup::new(&alice.provider, &alice.keys, &config, alice.owner.clone()).unwrap();
        let (commit, welcome, _) =
            group.add_members(&alice.provider, &alice.keys, &[bob.package()]).unwrap();
        found.push(bytes(&commit));
        found.push(bytes(&welcome));
        group.merge_pending_commit(&alice.provider).unwrap();
        let (proposal, _) =
            group.propose_add_member(&alice.provider, &alice.keys, &carol.package()).unwrap();
        found.push(bytes(&proposal));
        let (proposal, _) = group
            .propose_remove_member(&alice.provider, &alice.keys, LeafNodeIndex::new(1))
            .unwrap();
        found.push(bytes(&proposal));
        let (commit, welcome, _) =
            group.commit_to_pending_proposals(&alice.provider, &alice.keys).unwrap();
        found.push(bytes(&commit));
        found.push(bytes(&welcome.unwrap()));
        group.merge_pending_commit(&alice.provider).unwrap();
        let info = group.export_group_info(alice.provider.crypto(), &alice.keys, true).unwrap();
        found.push(bytes(&info));
    }
    found.push(bytes(&MlsMessageOut::from(carol.package())));
    let external: MlsMessageOut = ExternalProposal::new_add::<OpenMlsRustCrypto>(
        carol.package(),
        GroupId::from_slice(b"channel"),
        GroupEpoch::from(7),
        &alice.keys,
        SenderExtensionIndex::new(0),
    )
    .unwrap();
    found.push(bytes(&external));
    let external: MlsMessageOut = ExternalProposal::new_remove::<OpenMlsRustCrypto>(
        LeafNodeIndex::new(3),
        GroupId::from_slice(b"channel"),
        GroupEpoch::from(7),
        &alice.keys,
        SenderExtensionIndex::new(0),
    )
    .unwrap();
    found.push(bytes(&external));
    found
}

#[test]
fn what_openmls_writes_is_well_framed() {
    for message in messages() {
        assert!(is_well_framed(&message));
        assert!(MlsMessageIn::tls_deserialize_exact_bytes(&message).is_ok());
    }
}

#[test]
fn well_framed_bytes_can_be_read() {
    // Whatever passes is read without a panic, be it a message or not.
    let mut passed = 0u32;
    for message in messages() {
        for i in 0..message.len() {
            assert!(!is_well_framed(&message[..i]));
            for change in [1, 0x40, 0x80, 0xFF] {
                let mut changed = message.clone();
                changed[i] ^= change;
                if is_well_framed(&changed) {
                    let _ = MlsMessageIn::tls_deserialize_exact_bytes(&changed);
                    passed += 1;
                }
            }
        }
    }
    assert!(passed > 1000);
}

#[test]
fn lengths_that_mls_does_not_allow_are_refused() {
    assert!(!is_well_framed(&[]));
    assert!(!is_well_framed(&[0, 1, 0, 1, 0xC0]));
    assert!(!is_well_framed(&[0, 1, 0, 1, 5]));
    // A wire format that there is not.
    assert!(!is_well_framed(&[0, 1, 0, 9, 0]));
    let private = |length: &[u8]| {
        let mut message = vec![0, 1, 0, 2];
        message.extend_from_slice(length);
        message.extend_from_slice(&[0, 0, 0, 0, 0, 0, 0, 0, 1, 0, 0, 0]);
        message
    };
    assert!(is_well_framed(&private(&[0])));
    assert!(is_well_framed(&private(&[2, 7, 7])));
    // Two bytes for a length that one holds.
    assert!(!is_well_framed(&private(&[0x40, 2, 7, 7])));
    let mut long = vec![0x40, 0x40];
    long.extend_from_slice(&[7; 0x40]);
    assert!(is_well_framed(&private(&long)));
}

#[test]
fn vector_may_not_outgrow_the_message() {
    // A Welcome whose secrets are longer than their length says.
    let mut welcome = vec![0, 1, 0, 3, 0, 2, 1];
    welcome.push(0x3C);
    welcome.extend_from_slice(&[9; 0x3C]);
    welcome.extend_from_slice(&[0, 0]);
    welcome.push(0);
    assert!(is_well_framed(&welcome));
    assert!(MlsMessageIn::tls_deserialize_exact_bytes(&welcome).is_ok());
    // With one byte more their length would take two bytes, and the message with it.
    welcome[7] = 0x3D;
    welcome.insert(8, 9);
    assert!(!is_well_framed(&welcome));
    // OpenMLS counts the length of 0x3FFF bytes of an extension with four bytes, where
    // it takes two.
    let party = Party::new(b"dora");
    let package = |n: usize| {
        let extensions =
            Extensions::single(Extension::Unknown(0xF042, UnknownExtension(vec![5; n]))).unwrap();
        let package = KeyPackage::builder()
            .key_package_extensions(extensions)
            .leaf_node_capabilities(
                openmls::prelude::Capabilities::builder()
                    .extensions(vec![ExtensionType::Unknown(0xF042)])
                    .build(),
            )
            .build(SUITE, &party.provider, &party.keys, party.owner.clone())
            .unwrap();
        bytes(&MlsMessageOut::from(package.key_package().clone()))
    };
    assert!(is_well_framed(&package(0x4000)));
    let mut message = package(0x3FFE);
    assert!(is_well_framed(&message));
    let lengths = [0x80, 0, 0x40, 2, 0xF0, 0x42, 0x7F, 0xFE];
    let at = (0..message.len() - 8).find(|i| message[*i..*i + 8] == lengths).unwrap();
    message[at + 3] = 3;
    message[at + 7] = 0xFF;
    message.insert(at + 8, 5);
    assert!(!is_well_framed(&message));
}

#[test]
fn ill_framed_messages_are_unreadable() {
    let ill = vec![0u8, 1, 0, 1, 0xC0];
    assert_eq!(extract_group_id_from_proposals(&[ill.clone()]), None);
    let mut session = SigilSession::new(1).unwrap();
    match session.join_group(&ill) {
        Err(SigilError::Mls(text)) => {
            assert_eq!(text, "welcome deserialize: not framed as an MLS message")
        }
        _ => panic!("there is nothing to join"),
    }
    let credential =
        sigil::mls::credential::MlsCredential { credential_type: 1, content: vec![1] };
    session.create_group(credential, vec![4; 65], b"channel").unwrap();
    assert_eq!(session.process_proposals(&[ill.clone()]).unwrap(), true);
    match session.process_commit(&ill) {
        Err(SigilError::Mls(text)) => {
            assert_eq!(text, "commit deserialize: not framed as an MLS message")
        }
        _ => panic!("there is no commit"),
    }
}
