use chain_vote::gang::{GroupElement, Scalar, GROUP_ELEMENT_BYTES_LEN};
use chain_vote::gargamel::{Keypair, SecretKey};
use chain_vote::hash::{digest, Digest};
use chain_vote::key::{EitherEd25519SecretKey, Signature};
use chain_vote::modarith::{
    add_mod_u64, mul_mod_u64, pow_mod_u64, GROUP_MODULUS, GROUP_ORDER,
};
use chain_vote::rng::random_scalars;
use rand_chacha::ChaCha20Rng;
use rand_core::SeedableRng;
use chain_vote::shvzk::{challenge_from_digest, coins_for, power_of_two};
use chain_vote::unit_vector::{binrep, bits_needed};
use chain_vote::{Ciphertext, Crs, CIPHERTEXT_BYTES_LEN};

fn hex(bytes: &[u8]) -> String {
    let mut s = String::new();
    for b in bytes {
        s.push_str(&format!("{:02x}", b));
    }
    s
}

fn unhex(s: &str) -> Vec<u8> {
    (0..s.len() / 2)
        .map(|i| u8::from_str_radix(&s[2 * i..2 * i + 2], 16).unwrap())
        .collect()
}

#[test]
fn digest_is_blake2b_256() {
    assert_eq!(
        hex(&digest(b"")),
        "0e5751c026e543b2e8ab2eb06099daa1d1e5df47778f7787faab45cdf12fe3a8"
    );
    assert_eq!(
        hex(&digest(b"abc")),
        "bddd813c634239723171ef3fee98579b94964e3bb1cb3e427262c8c068d52319"
    );
    let d = Digest::digest_byteslice(b"abc");
    assert_eq!(
        d.to_hex(),
        "bddd813c634239723171ef3fee98579b94964e3bb1cb3e427262c8c068d52319"
    );
    assert_eq!(Digest::from_bytes(&d.to_bytes()), Some(d));
    assert_eq!(Digest::from_bytes(&[0u8; 31]), None);
    assert_eq!(Digest::from_bytes(&[0u8; 33]), None);
    assert!(d.equals(&Digest::digest_byteslice(b"abc")));
    assert!(!d.equals(&Digest::digest_byteslice(b"abd")));
}

#[test]
fn ed25519_signs_as_the_standard_says() {
    let seed = unhex("9d61b19deffd5a60ba844af492ec2cc44449c5697b326919703bac031cae7f60");
    let key = EitherEd25519SecretKey::from_seed(Digest::from_bytes(&seed).unwrap());
    let public = key.to_public();
    assert_eq!(
        hex(&public.0.to_bytes()),
        "d75a980182b10ab7d54bfed3c964073a0ee172f3daa62325af021a68f707511a"
    );
    let signature = key.sign_slice(b"");
    assert_eq!(
        hex(&signature.to_bytes()),
        "e5564300c360ac729086e2cc806e828a84877f1eb8e5d974d873e065224901555fb8821590a33bacc61e39701cf9b46bd25bf5f0595bbe24655141438e7a100b"
    );
    assert!(public.verify(b"", &signature));
    assert!(!public.verify(b"x", &signature));
    let mut bytes = signature.to_bytes();
    bytes[3] ^= 1;
    let forged = Signature::from_bytes(&bytes).unwrap();
    assert!(!public.verify(b"", &forged));
    assert_eq!(Signature::from_bytes(&bytes[..63]), None);
}

#[test]
fn seeded_generator_repeats_itself() {
    let mut a = ChaCha20Rng::from_seed([7u8; 32]);
    let mut b = ChaCha20Rng::from_seed([7u8; 32]);
    let mut c = ChaCha20Rng::from_seed([8u8; 32]);
    let xs = random_scalars(&mut a, 6);
    let ys = random_scalars(&mut b, 6);
    let zs = random_scalars(&mut c, 6);
    assert_eq!(xs.len(), 6);
    assert_eq!(xs, ys);
    assert_ne!(xs, zs);
    assert_ne!(xs[0], xs[1]);
    for x in &xs {
        assert!(x.to_u64() < GROUP_ORDER);
    }
}

#[test]
fn modular_arithmetic_gives_exact_values() {
    assert_eq!(mul_mod_u64(7, 8, 10), 6);
    assert_eq!(mul_mod_u64(u64::MAX, u64::MAX, 1_000_000_007), 114_944_269);
    assert_eq!(add_mod_u64(9, 9, 10), 8);
    assert_eq!(pow_mod_u64(2, 10, 1_000_000), 1024);
    assert_eq!(pow_mod_u64(3, 0, 7), 1);
    assert_eq!(pow_mod_u64(0, 0, 7), 1);
    assert_eq!(pow_mod_u64(4, GROUP_ORDER, GROUP_MODULUS), 1);
    assert_eq!(pow_mod_u64(3, GROUP_ORDER - 1, GROUP_ORDER), 1);
    assert_ne!(pow_mod_u64(3, (GROUP_ORDER - 1) / 2, GROUP_ORDER), 1);
    assert_eq!(GROUP_MODULUS, 2 * GROUP_ORDER + 1);
}

#[test]
fn scalars_are_integers_modulo_the_order() {
    let a = Scalar::from_u64(GROUP_ORDER - 1);
    let one = Scalar::one();
    assert_eq!(a.add(&one), Scalar::zero());
    assert_eq!(Scalar::from_u64(GROUP_ORDER), Scalar::zero());
    assert_eq!(Scalar::from_u64(GROUP_ORDER + 5).to_u64(), 5);
    assert_eq!(a.negate(), one);
    assert_eq!(Scalar::zero().negate(), Scalar::zero());
    assert_eq!(
        Scalar::from_u64(3).sub(&Scalar::from_u64(5)).to_u64(),
        GROUP_ORDER - 2
    );
    assert_eq!(Scalar::from_u64(6).mul(&Scalar::from_u64(7)).to_u64(), 42);
    assert_eq!(a.mul(&a), one);
    assert_eq!(Scalar::from_u64(2).power(10).to_u64(), 1024);
    assert_eq!(Scalar::from_u64(5).power(0), one);
    assert_eq!(
        Scalar::from_u128(1u128 << 64).to_u64(),
        ((1u128 << 64) % GROUP_ORDER as u128) as u64
    );
    let bytes = Scalar::from_u64(258).to_bytes();
    assert_eq!(bytes, vec![0, 0, 0, 0, 0, 0, 1, 2]);
    assert_eq!(Scalar::from_bytes(&bytes), Some(Scalar::from_u64(258)));
    assert_eq!(Scalar::from_bytes(&GROUP_ORDER.to_be_bytes()), None);
    assert_eq!(Scalar::from_bytes(&bytes[..7]), None);
    assert_eq!(Scalar::from_bytes(&[0u8; 9]), None);
}

#[test]
fn group_elements_obey_the_group_laws() {
    let g = GroupElement::generator();
    let zero = GroupElement::zero();
    assert_eq!(g.to_bytes(), vec![0, 0, 0, 0, 0, 0, 0, 4]);
    assert_eq!(zero.to_bytes(), vec![0, 0, 0, 0, 0, 0, 0, 1]);
    assert_eq!(g.add(&zero), g);
    assert_eq!(g.add(&g).to_bytes(), vec![0, 0, 0, 0, 0, 0, 0, 16]);
    assert_eq!(g.sub(&g), zero);
    assert_eq!(g.add(&g.negate()), zero);
    assert_eq!(g.scalar_mul(&Scalar::from_u64(5)).to_bytes()[6..], [4, 0]);
    assert_eq!(g.scalar_mul(&Scalar::zero()), zero);
    assert_eq!(g.scalar_mul(&Scalar::from_u64(GROUP_ORDER - 1)).add(&g), zero);
    let a = g.scalar_mul(&Scalar::from_u64(123_456_789));
    let b = g.scalar_mul(&Scalar::from_u64(987_654_321));
    assert_eq!(a.add(&b), b.add(&a));
    assert_eq!(a.add(&b), g.scalar_mul(&Scalar::from_u64(1_111_111_110)));
    assert_eq!(
        a.scalar_mul(&Scalar::from_u64(3)),
        g.scalar_mul(&Scalar::from_u64(370_370_367))
    );
    assert!(a.equals(&a) && !a.equals(&b));
    let mut n = a;
    n.normalize();
    assert_eq!(n, a);
    assert_eq!(GroupElement::sum(&vec![a, b, g]), a.add(&b).add(&g));
    assert_eq!(GroupElement::sum(&vec![]), zero);
}

#[test]
fn table_holds_the_first_multiples_of_the_generator() {
    let g = GroupElement::generator();
    let table = GroupElement::table(5);
    assert_eq!(table.len(), 5);
    for (i, e) in table.iter().enumerate() {
        assert_eq!(*e, g.scalar_mul(&Scalar::from_u64(i as u64 + 1)));
    }
    assert_eq!(GroupElement::table(0).len(), 0);
}

#[test]
fn group_element_encoding_is_canonical() {
    let g = GroupElement::generator();
    let e = g.scalar_mul(&Scalar::from_u64(0xdead_beef));
    let bytes = e.to_bytes();
    assert_eq!(bytes.len(), GROUP_ELEMENT_BYTES_LEN);
    assert_eq!(GroupElement::from_bytes(&bytes), Some(e));
    assert_eq!(GroupElement::from_bytes(&bytes[..7]), None);
    let mut longer = bytes.clone();
    longer.push(0);
    assert_eq!(GroupElement::from_bytes(&longer), None);
    // zero is no member, nor is the modulus less one, nor what is not below the modulus
    assert_eq!(GroupElement::from_bytes(&0u64.to_be_bytes()), None);
    assert_eq!(GroupElement::from_bytes(&(GROUP_MODULUS - 1).to_be_bytes()), None);
    assert_eq!(GroupElement::from_bytes(&GROUP_MODULUS.to_be_bytes()), None);
    assert_eq!(GroupElement::from_bytes(&(GROUP_MODULUS + 4).to_be_bytes()), None);
    assert_eq!(GroupElement::from_bytes(&u64::MAX.to_be_bytes()), None);
}

#[test]
fn digests_map_into_the_group() {
    let e = GroupElement::from_digest(&digest(b"seed"));
    assert_eq!(GroupElement::from_bytes(&e.to_bytes()), Some(e));
    assert_ne!(e, GroupElement::from_digest(&digest(b"other seed")));
    assert_eq!(GroupElement::from_digest(&[1, 2, 3]), GroupElement::generator());
    let a = Crs::from_hash(b"plan");
    assert_eq!(a, Crs::from_hash(b"plan"));
    assert_ne!(a, Crs::from_hash(b"plan2"));
    assert_eq!(a.element(), GroupElement::from_digest(&digest(b"\x03plan")));
}

#[test]
fn ciphertexts_add_scale_and_open() {
    let keys = Keypair::from_secret(Scalar::from_u64(424_242));
    let pk = keys.public_key;
    assert_eq!(pk, SecretKey::from_scalar(Scalar::from_u64(424_242)).to_public());
    let g = GroupElement::generator();
    let c1 = pk.encrypt_with_r(&Scalar::from_u64(3), &Scalar::from_u64(1111));
    let c2 = pk.encrypt_with_r(&Scalar::from_u64(4), &Scalar::from_u64(2222));
    let sk = keys.secret_key.sk;
    assert_eq!(c1.decrypt_with(&sk), g.scalar_mul(&Scalar::from_u64(3)));
    assert_eq!(c1.add(&c2).decrypt_with(&sk), g.scalar_mul(&Scalar::from_u64(7)));
    assert_eq!(
        c1.add(&c2),
        pk.encrypt_with_r(&Scalar::from_u64(7), &Scalar::from_u64(3333))
    );
    assert_eq!(
        c1.scale(&Scalar::from_u64(10)),
        pk.encrypt_with_r(&Scalar::from_u64(30), &Scalar::from_u64(11110))
    );
    assert_eq!(Ciphertext::zero().decrypt_with(&sk), GroupElement::zero());
    assert_eq!(c1.add(&Ciphertext::zero()), c1);
    let (e1, e2) = c1.elements();
    assert_eq!(Ciphertext::from_elements(e1, e2), c1);
    assert_eq!(e1, g.scalar_mul(&Scalar::from_u64(1111)));
    assert!(c1.equals(&c1) && !c1.equals(&c2));
}

#[test]
fn ciphertext_encoding_round_trips_and_rejects_other_lengths() {
    let pk = Keypair::from_secret(Scalar::from_u64(5)).public_key;
    let c = pk.encrypt_with_r(&Scalar::from_u64(1), &Scalar::from_u64(77));
    let bytes = c.to_bytes();
    assert_eq!(bytes.len(), CIPHERTEXT_BYTES_LEN);
    assert_eq!(Ciphertext::from_bytes(&bytes), Some(c));
    for cut in 0..bytes.len() {
        assert_eq!(Ciphertext::from_bytes(&bytes[..cut]), None);
    }
    let mut longer = bytes.clone();
    longer.push(1);
    assert_eq!(Ciphertext::from_bytes(&longer), None);
    let mut broken = bytes.clone();
    broken[..8].copy_from_slice(&0u64.to_be_bytes());
    assert_eq!(Ciphertext::from_bytes(&broken), None);
}

#[test]
fn bits_and_powers_of_two() {
    let expected = [0usize, 0, 1, 2, 2, 3, 3, 3, 3, 4];
    for (n, bits) in expected.iter().enumerate() {
        assert_eq!(bits_needed(n), *bits, "n = {}", n);
    }
    assert_eq!(bits_needed(256), 8);
    assert_eq!(bits_needed(255), 8);
    assert_eq!(bits_needed(129), 8);
    assert_eq!(bits_needed(128), 7);
    assert_eq!(power_of_two(0), 1);
    assert_eq!(power_of_two(8), 256);
    assert_eq!(binrep(6, 4), vec![false, true, true, false]);
    assert_eq!(binrep(6, 0), Vec::<bool>::new());
    assert_eq!(binrep(255, 3), vec![true, true, true]);
    assert_eq!(coins_for(2), 5);
    assert_eq!(coins_for(5), 15);
    assert_eq!(coins_for(1), 0);
}

#[test]
fn challenge_is_the_first_sixteen_bytes_modulo_the_order() {
    let mut d = [0u8; 32];
    d[15] = 9;
    d[16] = 0xff;
    assert_eq!(challenge_from_digest(&d).to_u64(), 9);
    let d = [0xffu8; 32];
    assert_eq!(
        challenge_from_digest(&d).to_u64(),
        (u128::MAX % GROUP_ORDER as u128) as u64
    );
}
