use p256::{EncodedPoint, PublicKey};
use qqbot::crypto::{server_public_key, EncryptECDH, IEncryptMethod};
use qqbot::hex::{decode_hex, try_decode_hex};

fn secret_from(seed: u8) -> [u8; 32] {
    let mut b = [seed; 32];
    b[0] = 1;
    assert!(EncryptECDH::secret_accepted(&b));
    b
}

#[test]
fn test_ecdh_generate_key() {
    let mut e = EncryptECDH::new();
    let mut secret = [0u8; 32];
    loop {
        rand::RngCore::fill_bytes(&mut rand::rngs::OsRng, &mut secret);
        if EncryptECDH::secret_accepted(&secret) {
            break;
        }
    }
    e.generate_key(&secret, server_public_key());
    assert_eq!(e.initial_share_key.len(), 16);
    assert_eq!(e.public_key.len(), 65);
    assert_eq!(e.public_key_ver, 1);
}

#[test]
fn key_agreement_matches_p256() {
    let secret = secret_from(7);
    let mut e = EncryptECDH::new();
    assert!(e.try_generate_key(&secret, server_public_key()));
    let sk = p256::SecretKey::from_bytes(p256::FieldBytes::from_slice(&secret)).unwrap();
    let server = decode_hex(server_public_key()).unwrap();
    let peer = PublicKey::from_sec1_bytes(&server).unwrap();
    let shared = p256::ecdh::diffie_hellman(sk.to_nonzero_scalar(), peer.as_affine());
    let digest = md5::compute(&shared.raw_secret_bytes()[..16]).0;
    assert_eq!(&e.initial_share_key[..], &digest);
    assert_eq!(&e.public_key[..], EncodedPoint::from(sk.public_key()).as_bytes());
}

#[test]
fn unusable_keys_leave_the_method_as_it_was() {
    let mut e = EncryptECDH::new();
    assert!(!e.try_generate_key(&secret_from(7), "zz"));
    assert!(!e.try_generate_key(&secret_from(7), "0401"));
    assert!(!e.try_generate_key(&[0u8; 32], server_public_key()));
    assert!(!EncryptECDH::secret_accepted(&[0xffu8; 32]));
    assert!(e.initial_share_key.is_empty());
    assert!(e.public_key.is_empty());
}

#[test]
fn shared_key_is_the_digest_of_half_the_secret() {
    let mut e = EncryptECDH::new();
    e.apply_agreement(&[0u8; 32], &[4, 1, 2]);
    assert_eq!(
        &e.initial_share_key[..],
        &[0x4a, 0xe7, 0x13, 0x36, 0xe4, 0x4b, 0xf9, 0xbf, 0x79, 0xd2, 0x75, 0x2e, 0x23, 0x48, 0x18, 0xa5]
    );
    assert_eq!(&e.public_key[..], &[4, 1, 2]);
}

#[test]
fn ecdh_packet_carries_key_and_public_point() {
    let mut e = EncryptECDH::new();
    e.apply_agreement(&[1u8; 32], &[4, 9]);
    assert_eq!(e.id(), 0x87);
    assert_eq!(
        e.frame_encrypted(&[7, 7], &[0xaa]),
        vec![2, 1, 7, 7, 0x01, 0x31, 0, 1, 0, 2, 4, 9, 0xaa]
    );
}

#[test]
fn server_key_decodes_to_an_uncompressed_point() {
    let k = try_decode_hex(server_public_key()).unwrap();
    assert_eq!(k.len(), 65);
    assert_eq!(k[0], 4);
    assert!(try_decode_hex("0").is_none());
    assert!(try_decode_hex("zz").is_none());
    assert_eq!(try_decode_hex("0102"), Some(vec![1, 2]));
}
