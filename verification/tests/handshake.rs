use tdlib_rs::aes::raw_rsa;
use tdlib_rs::aes::rsa_pad;
use tdlib_rs::aes::rsa_pad_block;
use tdlib_rs::aes::rsa_pad_internal;
use tdlib_rs::aes::rsa_pad_with;
use tdlib_rs::aes::rsa_pad_within;
use tdlib_rs::aes::EncryptError;
use tdlib_rs::dc_cache::DcCache;
use tdlib_rs::dc_cache::PrimeCacheStatus;
use tdlib_rs::objects::base::I256;
use tdlib_rs::objects::mtproto_api::constructors::check_residue;
use tdlib_rs::objects::mtproto_api::constructors::client_DH_inner_data;
use tdlib_rs::objects::mtproto_api::constructors::derive_tmp_aes;
use tdlib_rs::objects::mtproto_api::constructors::half_of;
use tdlib_rs::objects::mtproto_api::constructors::record_verdict;
use tdlib_rs::objects::mtproto_api::constructors::PRIME_CHECKS;
use tdlib_rs::objects::mtproto_api::constructors::p_q_inner_data_dc;
use tdlib_rs::objects::mtproto_api::constructors::p_q_inner_data_temp_dc;
use tdlib_rs::objects::mtproto_api::constructors::resPQ;
use tdlib_rs::objects::mtproto_api::constructors::server_DH_inner_data;
use tdlib_rs::objects::mtproto_api::constructors::server_DH_params_ok;
use tdlib_rs::objects::mtproto_api::constructors::CheckDhPrimeError;
use tdlib_rs::objects::mtproto_api::constructors::DecryptError;
use tdlib_rs::objects::mtproto_api::types::select_key;
use tdlib_rs::objects::mtproto_api::types::Client_DH_Inner_Data;
use tdlib_rs::objects::mtproto_api::types::P_Q_inner_data;
use tdlib_rs::objects::mtproto_api::types::RSAPublicKey;
use tdlib_rs::objects::mtproto_api::types::ResPQ;
use tdlib_rs::objects::mtproto_api::types::ResPq;
use tdlib_rs::objects::mtproto_api::types::Server_DH_Inner_Data;
use tdlib_rs::objects::mtproto_api::types::Server_DH_Params;
use tdlib_rs::objects::traits::Deserialize;
use tdlib_rs::objects::traits::OptDeserialize;
use tdlib_rs::objects::traits::Serialize;
use tdlib_rs::objects::traits::TypeId;
use tdlib_rs::objects::DeserializeError;

const SAFE_PRIME: &str = "\
    C803921456C8225EFD82887BCCFBC75A88FCE8CC59C44D0F88D9339A70054B21\
    F58B7F5EE79DE09024020CE292E4A9E333D21C306F7B57C60D7E39CBE08A9968\
    4EAC06E0A843C44BE36F9A5D8EC94B1913072CAC4A7456A96AE30024B2CDD89E\
    17146142E8BBDD63F2D8372DE08054B9D46ADE1495B005CC317C22BBCDAEEA36\
    2424D9D7C287F301C4F6D2109CCC90F9DF2BF28FAF2065B1BD83DE3C35375473\
    1A034A51556189F87E0C1A26246D42F0F9CCEA4A1866C582F27E20BAD6D469F0\
    CC092A678A119C9718259AF96B9797EB7D0671F58B2050F3D18C3A7D400F5950\
    750696D08AD70440C52730B0A0499A9D77A6E0D2BE318C4FB2B01BEFA13DCBE3";

const PLAIN_PRIME: &str = "\
    F175B8300D6437A6DC68EDD05910E586D804041F4341B71B619F00B4558CE14E\
    57B2DE6D548543280536F650AC63FE98B44B8D4FB772425D4930F4AB7FF99C24\
    23B5C3E59E53F616C3D03EE6EBBDD79E3879DD41E29DD52B9D07F7875D9E1177\
    3C01C8D344566816D4A9A2A5ACB2DBA81B8FE9725422946D41EB950A0BC3FA6F\
    1710BA8B80CF79C5DAB96F07F5B7F8C64DB42F6911D7DC994AE7A6DAD6A6D6BC\
    6BC4A692132357CE9EF1E331C2E422D2C29FBADEC9269AFF6319EA52CF7417FA\
    7E764122EB2AFD556E20791FFEFB50482C620BC74D68984823FC6DA95DFA0015\
    7F1306EEF65D87AEE7AD85CD9355FDEDC5512432CC9DB3888FF8105EC10ACF1D";

const MODULUS: &str = "\
    896C05A53C641F217014737AFAF57CEA08CE5A12732E9F8879700FBD794096C0\
    933A94CC3AC05C6437C389ADAFE5B0BC13E43DCD8E7B87290F0225F861FF3B6B\
    FF450563966D6AA51B2773A7A71784000F1775FCCC198CA6638F354342C74C3A\
    7C45FF69BE0C3786FD7052124109FE42084C18ECEEE54995A9452269A2AD37C7\
    C6FE188508DCDD35FEF3E5C9C9E31F300EB0AB225CB069CAB613493FD518E09A\
    0B9E176B8F9995011A2F4C4D4070F1AC52E9A7286BD7B30FD3D29606B27C971A\
    A5D0DD97B167BBF9D141FA528523B61CA725DBE91C281E3D3EAC54AD0FDC779B\
    FD7F35DA0BEA208F4268EF16C26DC5A4960ACCC144C0F4476813ADD874BE0CE7";

fn hex(text: &str) -> Vec<u8> {
    let digits: Vec<u8> = text
        .bytes()
        .filter(|b| b.is_ascii_hexdigit())
        .map(|b| (b as char).to_digit(16).unwrap() as u8)
        .collect();
    digits.chunks(2).map(|pair| pair[0] * 16 + pair[1]).collect()
}

fn buffer(bytes: &[u8]) -> bytes::BytesMut {
    bytes::BytesMut::from(bytes)
}

fn key() -> RSAPublicKey {
    RSAPublicKey {
        n: buffer(&hex(MODULUS)),
        e: buffer(&[1, 0, 1]),
    }
}

fn server_data(g: i32, dh_prime: &[u8]) -> server_DH_inner_data {
    server_DH_inner_data {
        nonce: 0x0102030405060708090a0b0c0d0e0f10,
        server_nonce: -5,
        g,
        dh_prime: buffer(dh_prime),
        g_a: buffer(&[2, 3, 4]),
        server_time: 1_600_000_000,
    }
}

fn sent_data(new_nonce: I256) -> P_Q_inner_data {
    P_Q_inner_data::P_Q_inner_data_dc(Box::new(p_q_inner_data_dc {
        pq: buffer(&[15]),
        p: buffer(&[3]),
        q: buffer(&[5]),
        nonce: 0x0102030405060708090a0b0c0d0e0f10,
        server_nonce: -5,
        new_nonce,
        dc: -1,
    }))
}

fn ige(data: &[u8], key: &[u8], iv: &[u8], mode: openssl::symm::Mode) -> Vec<u8> {
    let aes_key = match mode {
        openssl::symm::Mode::Encrypt => openssl::aes::AesKey::new_encrypt(key).unwrap(),
        openssl::symm::Mode::Decrypt => openssl::aes::AesKey::new_decrypt(key).unwrap(),
    };
    let mut out = vec![0u8; data.len()];
    let mut iv = iv.to_vec();
    openssl::aes::aes_ige(data, &mut out, &aes_key, &mut iv, mode);
    out
}

fn encrypted_answer(inner: &Server_DH_Inner_Data, sent: &P_Q_inner_data, padding: usize) -> Vec<u8> {
    let (new_nonce, server_nonce) = match sent {
        P_Q_inner_data::P_Q_inner_data_dc(v) => (v.new_nonce.serialize_to_vec(), v.server_nonce),
        P_Q_inner_data::P_Q_inner_data_temp_dc(v) => {
            (v.new_nonce.serialize_to_vec(), v.server_nonce)
        }
    };
    let (aes_key, aes_iv) = derive_tmp_aes(&new_nonce, &server_nonce.serialize_to_vec());
    let answer = inner.serialize_to_vec();
    let mut plain = openssl::sha::sha1(&answer).to_vec();
    plain.extend_from_slice(&answer);
    plain.extend_from_slice(&vec![0x77u8; padding]);
    assert_eq!(plain.len() % 16, 0);
    ige(&plain, &aes_key, &aes_iv, openssl::symm::Mode::Encrypt)
}

#[test]
fn fingerprint_is_the_low_64_bits_of_the_sha1_of_the_key() {
    let k = key();
    assert_eq!(
        k.sha1().to_vec(),
        hex("c485a166f03d9444fc6a84b34237a8d2408a02f7")
    );
    assert_eq!(k.sha1_as_i64(), -647803385371150526);
    let small = RSAPublicKey {
        n: buffer(&[0x0b, 0x2d]),
        e: buffer(&[3]),
    };
    assert_eq!(
        small.sha1().to_vec(),
        hex("6a7943e6faeefb9254fece0f71c599a936e2e2d5")
    );
    assert_eq!(small.sha1_as_i64(), -3034614474492754575);
    assert_eq!(small.serialize_to_vec(), vec![2, 0x0b, 0x2d, 0, 1, 3, 0, 0]);
    let back = RSAPublicKey::deserialize_from_bytes(&small.serialize_to_vec()).unwrap();
    assert_eq!(back.n, small.n);
    assert_eq!(back.e, small.e);
}

#[test]
fn key_and_vector_of_the_answer_come_from_the_nonces() {
    let new_nonce: Vec<u8> = (0..32u8).collect();
    let server_nonce: Vec<u8> = (100..116u8).collect();
    let (aes_key, aes_iv) = derive_tmp_aes(&new_nonce, &server_nonce);
    assert_eq!(
        aes_key,
        hex("712f8fa051fa2182c9f0092e4a4a03cdfe8d31ea8511ee48b1376fcebfc89896")
    );
    assert_eq!(
        aes_iv,
        hex("b1000d81f5b44f4de864070e166e6218f6783e8511471a5ab7802cf200010203")
    );
}

#[test]
fn block_of_rsa_pad_is_key_xor_hash_and_encrypted_data() {
    let data: Vec<u8> = (0..192u8).collect();
    let reversed: Vec<u8> = data.iter().rev().cloned().collect();
    let temp_key: Vec<u8> = (200..232u8).collect();
    let modulus = hex(MODULUS);
    let mut tries = 0u8;
    loop {
        let mut temp_key = temp_key.clone();
        temp_key[0] = tries;
        let mut hashed = temp_key.clone();
        hashed.extend_from_slice(&data);
        let mut data_with_hash = reversed.clone();
        data_with_hash.extend_from_slice(&openssl::sha::sha256(&hashed));
        let aes_encrypted = ige(&data_with_hash, &temp_key, &[0u8; 32], openssl::symm::Mode::Encrypt);
        let hash = openssl::sha::sha256(&aes_encrypted);
        let mut expected: Vec<u8> = temp_key.iter().zip(hash.iter()).map(|(a, b)| a ^ b).collect();
        expected.extend_from_slice(&aes_encrypted);
        assert_eq!(expected.len(), 256);
        let below = expected < modulus;
        let block = rsa_pad_block(&data, &reversed, &temp_key, &modulus).unwrap();
        if below {
            assert_eq!(block, Some(expected.clone()));
        } else {
            assert_eq!(block, None);
        }
        assert_eq!(rsa_pad_block(&data, &reversed, &temp_key, &[1]).unwrap(), None);
        let all_ones = vec![0xffu8; 257];
        assert_eq!(
            rsa_pad_block(&data, &reversed, &temp_key, &all_ones).unwrap(),
            Some(expected.clone())
        );
        let out = rsa_pad_with(&data, &temp_key, &key()).unwrap();
        if below {
            let mut ctx = openssl::bn::BigNumContext::new().unwrap();
            let mut c = openssl::bn::BigNum::new().unwrap();
            c.mod_exp(
                &openssl::bn::BigNum::from_slice(&expected).unwrap(),
                &openssl::bn::BigNum::from_u32(65537).unwrap(),
                &openssl::bn::BigNum::from_slice(&modulus).unwrap(),
                &mut ctx,
            )
            .unwrap();
            let mut cipher = c.to_vec();
            while cipher.len() < 256 {
                cipher.insert(0, 0);
            }
            assert_eq!(out.unwrap().to_vec(), cipher);
            break;
        } else {
            assert!(out.is_none());
        }
        tries += 1;
        assert!(tries < 100);
    }
}

#[test]
fn rsa_pad_takes_up_to_144_bytes() {
    let k = key();
    let a = rsa_pad(&[7u8; 144], &k).unwrap();
    let b = rsa_pad(&[7u8; 144], &k).unwrap();
    assert_eq!(a.len(), 256);
    assert_eq!(b.len(), 256);
    assert_ne!(a, b);
    assert!(a.to_vec() < hex(MODULUS));
    assert_eq!(rsa_pad(&[], &k).unwrap().len(), 256);
    match rsa_pad(&[7u8; 145], &k) {
        Err(EncryptError::DataTooLong) => {}
        _ => panic!("145 bytes are too long"),
    }
}

#[test]
fn rsa_pad_gives_up_when_its_attempts_are_made() {
    let tiny = RSAPublicKey {
        n: buffer(&[5]),
        e: buffer(&[3]),
    };
    assert!(matches!(
        rsa_pad_within(&[1, 2, 3], &tiny, 3),
        Err(EncryptError::NoResidue)
    ));
    assert!(matches!(
        rsa_pad_within(&[1, 2, 3], &key(), 0),
        Err(EncryptError::NoResidue)
    ));
    assert!(matches!(
        rsa_pad_within(&[0u8; 145], &key(), 0),
        Err(EncryptError::DataTooLong)
    ));
    assert_eq!(rsa_pad_within(&[1, 2, 3], &key(), 64).unwrap().len(), 256);
}

#[test]
fn key_that_does_not_take_the_block_is_an_error_of_openssl() {
    let long = RSAPublicKey {
        n: buffer(&[0xffu8; 257]),
        e: buffer(&[3]),
    };
    assert!(matches!(
        rsa_pad_with(&[3u8; 192], &[1u8; 32], &long),
        Err(EncryptError::OpenSSLError(_))
    ));
    assert!(matches!(
        rsa_pad(&[3u8; 10], &long),
        Err(EncryptError::OpenSSLError(_))
    ));
}

#[test]
fn one_attempt_of_rsa_pad_gives_a_block_below_the_modulus() {
    let k = key();
    let data = buffer(&[3u8; 192]);
    let mut found = 0;
    for _ in 0..64 {
        if let Some(block) = rsa_pad_internal(&data, &data, &k).unwrap() {
            assert_eq!(block.len(), 256);
            assert!(block.to_vec() < hex(MODULUS));
            found += 1;
        }
    }
    assert!(found > 0);
    let tiny = RSAPublicKey {
        n: buffer(&[5]),
        e: buffer(&[3]),
    };
    assert!(rsa_pad_internal(&data, &data, &tiny).unwrap().is_none());
    match rsa_pad_with(&[3u8; 192], &[1u8; 32], &tiny) {
        Ok(None) => {}
        _ => panic!("no block is below 5"),
    }
}

#[test]
fn answer_of_the_server_is_decrypted_and_checked() {
    let sent = sent_data(I256::new([1, 2, 3, 4]));
    let inner = Server_DH_Inner_Data::from(server_data(3, &[23]));
    let plain_len = 20 + inner.serialize_to_vec().len();
    let padding = (16 - plain_len % 16) % 16;
    let answer = server_DH_params_ok {
        nonce: 0x0102030405060708090a0b0c0d0e0f10,
        server_nonce: -5,
        encrypted_answer: buffer(&encrypted_answer(&inner, &sent, padding)),
    };
    let got = answer.decrypt_answer(&sent).unwrap();
    assert_eq!(got.nonce, 0x0102030405060708090a0b0c0d0e0f10);
    assert_eq!(got.server_nonce, -5);
    assert_eq!(got.g, 3);
    assert_eq!(&got.dh_prime[..], &[23u8]);
    assert_eq!(&got.g_a[..], &[2u8, 3, 4]);
    assert_eq!(got.server_time, 1_600_000_000);
}

#[test]
fn answer_with_other_nonces_is_mismatched() {
    let sent = sent_data(I256::new([1, 2, 3, 4]));
    let inner = Server_DH_Inner_Data::from(server_data(3, &[23]));
    let plain_len = 20 + inner.serialize_to_vec().len();
    let padding = (16 - plain_len % 16) % 16;
    let encrypted = buffer(&encrypted_answer(&inner, &sent, padding));
    let answer = server_DH_params_ok {
        nonce: 0x0102030405060708090a0b0c0d0e0f11,
        server_nonce: -5,
        encrypted_answer: encrypted.clone(),
    };
    assert!(matches!(
        answer.decrypt_answer(&sent),
        Err(DecryptError::Mismatched)
    ));
    let answer = server_DH_params_ok {
        nonce: 0x0102030405060708090a0b0c0d0e0f10,
        server_nonce: -6,
        encrypted_answer: encrypted,
    };
    assert!(matches!(
        answer.decrypt_answer(&sent),
        Err(DecryptError::Mismatched)
    ));
}

#[test]
fn answer_with_a_wrong_hash_is_mismatched() {
    let sent = sent_data(I256::new([9, 9, 9, 9]));
    let inner = Server_DH_Inner_Data::from(server_data(3, &[23]));
    let new_nonce = I256::new([9, 9, 9, 9]).serialize_to_vec();
    let (aes_key, aes_iv) = derive_tmp_aes(&new_nonce, &(-5i128).serialize_to_vec());
    let body = inner.serialize_to_vec();
    let mut plain = vec![0u8; 20];
    plain.extend_from_slice(&body);
    plain.extend_from_slice(&vec![0u8; (16 - plain.len() % 16) % 16]);
    let answer = server_DH_params_ok {
        nonce: 0x0102030405060708090a0b0c0d0e0f10,
        server_nonce: -5,
        encrypted_answer: buffer(&ige(&plain, &aes_key, &aes_iv, openssl::symm::Mode::Encrypt)),
    };
    assert!(matches!(
        answer.decrypt_answer(&sent),
        Err(DecryptError::Mismatched)
    ));
}

#[test]
fn answer_of_a_bad_length_is_refused() {
    let sent = sent_data(I256::new([1, 2, 3, 4]));
    for len in [0usize, 15, 16, 17, 33] {
        let answer = server_DH_params_ok {
            nonce: 0x0102030405060708090a0b0c0d0e0f10,
            server_nonce: -5,
            encrypted_answer: buffer(&vec![1u8; len]),
        };
        assert!(matches!(
            answer.decrypt_answer(&sent),
            Err(DecryptError::InvalidLength)
        ));
    }
}

#[test]
fn answer_that_holds_no_inner_data_is_a_deserialize_error() {
    let sent = sent_data(I256::new([1, 2, 3, 4]));
    let new_nonce = I256::new([1, 2, 3, 4]).serialize_to_vec();
    let (aes_key, aes_iv) = derive_tmp_aes(&new_nonce, &(-5i128).serialize_to_vec());
    let mut plain = vec![0u8; 20];
    plain.extend_from_slice(&[1, 2, 3, 4]);
    plain.extend_from_slice(&[0u8; 8]);
    let answer = server_DH_params_ok {
        nonce: 0x0102030405060708090a0b0c0d0e0f10,
        server_nonce: -5,
        encrypted_answer: buffer(&ige(&plain, &aes_key, &aes_iv, openssl::symm::Mode::Encrypt)),
    };
    assert!(matches!(
        answer.decrypt_answer(&sent),
        Err(DecryptError::DeserializeError(DeserializeError::NoVariant))
    ));
    let mut plain = vec![0u8; 20];
    plain.extend_from_slice(&0xb5890dbau32.to_le_bytes());
    plain.extend_from_slice(&[0u8; 8]);
    let answer = server_DH_params_ok {
        nonce: 0x0102030405060708090a0b0c0d0e0f10,
        server_nonce: -5,
        encrypted_answer: buffer(&ige(&plain, &aes_key, &aes_iv, openssl::symm::Mode::Encrypt)),
    };
    assert!(matches!(
        answer.decrypt_answer(&sent),
        Err(DecryptError::DeserializeError(DeserializeError::IoError))
    ));
}

#[test]
fn safe_prime_with_a_good_generator_passes_and_is_cached() {
    let prime = hex(SAFE_PRIME);
    let mut cache = DcCache::new();
    for g in [3, 4, 5, 7] {
        assert!(server_data(g, &prime).check_dh_prime(&mut cache).is_ok());
        assert_eq!(cache.is_good_prime(&buffer(&prime)), PrimeCacheStatus::Good);
    }
    for g in [2, 6, 0, 1, 8, -3, i32::MAX] {
        let e = server_data(g, &prime).check_dh_prime(&mut cache).unwrap_err();
        assert!(matches!(e, CheckDhPrimeError::BadResidue));
        assert_eq!(e.message(), "Bad prime mod 4g.");
    }
}

#[test]
fn cache_decides_where_it_has_a_verdict() {
    let prime = hex(SAFE_PRIME);
    let mut cache = DcCache::new();
    cache.add_prime(&buffer(&prime), false);
    let e = server_data(3, &prime).check_dh_prime(&mut cache).unwrap_err();
    assert!(matches!(e, CheckDhPrimeError::NotSafePrime));
    assert_eq!(e.message(), "p or (p - 1) / 2 is not a prime number.");
    let plain = hex(PLAIN_PRIME);
    cache.add_prime(&buffer(&plain), true);
    assert!(server_data(4, &plain).check_dh_prime(&mut cache).is_ok());
}

#[test]
fn prime_that_is_not_2048_bits_is_refused() {
    let mut cache = DcCache::new();
    let mut short = hex(SAFE_PRIME);
    short[0] = 0x7f;
    for prime in [vec![23u8], vec![], short, vec![0xffu8; 257]] {
        let e = server_data(4, &prime).check_dh_prime(&mut cache).unwrap_err();
        assert!(matches!(e, CheckDhPrimeError::NotTwoKBits));
        assert_eq!(e.message(), "dh_prime is not 2048 bits");
        assert_eq!(cache.is_good_prime(&buffer(&prime)), PrimeCacheStatus::Miss);
    }
    let mut padded = vec![0u8, 0];
    padded.extend_from_slice(&hex(SAFE_PRIME));
    assert!(server_data(4, &padded).check_dh_prime(&mut cache).is_ok());
}

#[test]
fn number_that_is_not_prime_is_refused_and_remembered() {
    let mut cache = DcCache::new();
    let mut even = hex(SAFE_PRIME);
    even[255] &= 0xfe;
    let e = server_data(4, &even).check_dh_prime(&mut cache).unwrap_err();
    assert!(matches!(e, CheckDhPrimeError::NotPrime));
    assert_eq!(e.message(), "p is not a prime number.");
    assert_eq!(cache.is_good_prime(&buffer(&even)), PrimeCacheStatus::Bad);
    let e = server_data(4, &even).check_dh_prime(&mut cache).unwrap_err();
    assert!(matches!(e, CheckDhPrimeError::NotSafePrime));
}

#[test]
fn prime_whose_half_is_not_prime_is_refused_and_remembered() {
    let mut cache = DcCache::new();
    let plain = hex(PLAIN_PRIME);
    let e = server_data(4, &plain).check_dh_prime(&mut cache).unwrap_err();
    assert!(matches!(e, CheckDhPrimeError::NotSafePrime));
    assert_eq!(cache.is_good_prime(&buffer(&plain)), PrimeCacheStatus::Bad);
    let e = server_data(3, &plain).check_dh_prime(&mut cache).unwrap_err();
    assert!(matches!(e, CheckDhPrimeError::BadResidue));
}

#[test]
fn residues_of_small_primes() {
    assert!(check_residue(2, &[7]).unwrap());
    assert!(check_residue(2, &[1, 7]).unwrap());
    assert!(!check_residue(2, &[3]).unwrap());
    assert!(check_residue(3, &[5]).unwrap());
    assert!(!check_residue(3, &[7]).unwrap());
    assert!(check_residue(4, &[]).unwrap());
    assert!(check_residue(5, &[11]).unwrap());
    assert!(check_residue(5, &[19]).unwrap());
    assert!(!check_residue(5, &[7]).unwrap());
    assert!(check_residue(6, &[19]).unwrap());
    assert!(check_residue(6, &[23]).unwrap());
    assert!(check_residue(6, &[43]).unwrap());
    assert!(!check_residue(6, &[7]).unwrap());
    assert!(check_residue(7, &[3]).unwrap());
    assert!(check_residue(7, &[5]).unwrap());
    assert!(check_residue(7, &[13]).unwrap());
    assert!(!check_residue(7, &[11]).unwrap());
    assert!(!check_residue(8, &[7]).unwrap());
    assert!(!check_residue(-2, &[7]).unwrap());
    assert_eq!(half_of(&[23]).unwrap(), vec![11]);
    assert_eq!(half_of(&[1, 0]).unwrap(), vec![127]);
    assert_eq!(half_of(&[2]).unwrap(), Vec::<u8>::new());
}

#[test]
fn answer_of_the_client_is_the_generator_to_its_secret() {
    let server = Server_DH_Inner_Data::from(server_data(5, &[23]));
    let c = client_DH_inner_data::with_secret(&server, 77, &[0, 0, 6]).unwrap();
    assert_eq!(c.nonce, 0x0102030405060708090a0b0c0d0e0f10);
    assert_eq!(c.server_nonce, -5);
    assert_eq!(c.retry_id, 77);
    assert_eq!(&c.g_b[..], &[8u8]);
    assert_eq!(&c.b[..], &[6u8]);
    let server = Server_DH_Inner_Data::from(server_data(3, &hex(SAFE_PRIME)));
    let c = client_DH_inner_data::new(&server, 0).unwrap();
    assert_eq!(c.retry_id, 0);
    assert!(c.b.len() <= 256 && c.b.len() >= 250);
    assert!(c.g_b.len() <= 256);
    let mut ctx = openssl::bn::BigNumContext::new().unwrap();
    let mut expected = openssl::bn::BigNum::new().unwrap();
    expected
        .mod_exp(
            &openssl::bn::BigNum::from_u32(3).unwrap(),
            &openssl::bn::BigNum::from_slice(&c.b).unwrap(),
            &openssl::bn::BigNum::from_slice(&hex(SAFE_PRIME)).unwrap(),
            &mut ctx,
        )
        .unwrap();
    assert_eq!(c.g_b.to_vec(), expected.to_vec());
    let d = client_DH_inner_data::new(&server, 0).unwrap();
    assert_ne!(c.b, d.b);
    match Client_DH_Inner_Data::new(&server, 5).unwrap() {
        Client_DH_Inner_Data::Boxed(c) => {
            assert_eq!(c.retry_id, 5);
            assert_eq!(c.server_nonce, -5);
        }
    }
}

#[test]
fn secret_of_the_client_stays_off_the_wire() {
    let c = client_DH_inner_data {
        nonce: 1,
        server_nonce: 2,
        retry_id: 3,
        g_b: buffer(&[4, 5]),
        b: buffer(&[6, 7, 8]),
    };
    let bytes = c.serialize_to_vec();
    assert_eq!(bytes.len(), 16 + 16 + 8 + 4);
    assert_eq!(&bytes[40..], &[2, 4, 5, 0]);
    let back = client_DH_inner_data::deserialize_from_bytes(&bytes).unwrap();
    assert_eq!(back.nonce, 1);
    assert_eq!(back.server_nonce, 2);
    assert_eq!(back.retry_id, 3);
    assert_eq!(back.g_b, c.g_b);
    assert!(back.b.is_empty());
    let boxed = Client_DH_Inner_Data::from(c).serialize_to_vec();
    assert_eq!(&boxed[0..4], &0x6643b654u32.to_le_bytes());
    assert_eq!(&boxed[4..], &bytes[..]);
}

#[test]
fn response_with_the_product_comes_back() {
    let v = resPQ {
        nonce: 0x11,
        server_nonce: 0x22,
        pq: buffer(&[0x17, 0xED, 0x48, 0x94, 0x1A, 0x08, 0xF9, 0x81]),
        server_public_key_fingerprints: Box::new(vec![-647803385371150526, 5]),
    };
    let bytes = v.serialize_to_vec();
    let mut expected = vec![0x11u8];
    expected.extend_from_slice(&[0u8; 15]);
    expected.push(0x22);
    expected.extend_from_slice(&[0u8; 15]);
    expected.extend_from_slice(&[8, 0x17, 0xED, 0x48, 0x94, 0x1A, 0x08, 0xF9, 0x81, 0, 0, 0]);
    expected.extend_from_slice(&[0x15, 0xc4, 0xb5, 0x1c, 2, 0, 0, 0]);
    expected.extend_from_slice(&(-647803385371150526i64).to_le_bytes());
    expected.extend_from_slice(&5i64.to_le_bytes());
    assert_eq!(bytes, expected);
    let back = resPQ::deserialize_from_bytes(&bytes).unwrap();
    assert_eq!(back.nonce, v.nonce);
    assert_eq!(back.server_nonce, v.server_nonce);
    assert_eq!(back.pq, v.pq);
    assert_eq!(
        back.server_public_key_fingerprints,
        v.server_public_key_fingerprints
    );
    let boxed = ResPQ::from(v).serialize_to_vec();
    assert_eq!(&boxed[0..4], &[0x63, 0x24, 0x16, 0x05]);
    assert_eq!(&boxed[4..], &bytes[..]);
    match ResPQ::deserialize_from_bytes(&boxed).unwrap() {
        ResPQ::ResPQ(back) => assert_eq!(back.nonce, 0x11),
    }
    assert!(ResPQ::opt_deserialize_from_bytes(&bytes).unwrap().is_none());
    assert_eq!(
        ResPQ::deserialize_from_bytes(&bytes).unwrap_err(),
        DeserializeError::NoVariant
    );
    let mut wrong_vector = expected.clone();
    wrong_vector[44] = 0x16;
    assert_eq!(
        resPQ::deserialize_from_bytes(&wrong_vector).unwrap_err(),
        DeserializeError::NoVariant
    );
    assert_eq!(
        resPQ::deserialize_from_bytes(&expected[..50]).unwrap_err(),
        DeserializeError::IoError
    );
}

#[test]
fn inner_data_of_both_kinds_comes_back() {
    let dc = p_q_inner_data_dc {
        pq: buffer(&[15]),
        p: buffer(&[3]),
        q: buffer(&[5]),
        nonce: 7,
        server_nonce: 8,
        new_nonce: I256::new([1, 2, 3, 4]),
        dc: -1,
    };
    let temp = p_q_inner_data_temp_dc {
        pq: buffer(&[15]),
        p: buffer(&[3]),
        q: buffer(&[5]),
        nonce: 7,
        server_nonce: 8,
        new_nonce: I256::new([1, 2, 3, 4]),
        dc: 2,
        expires_in: 120,
    };
    let a = P_Q_inner_data::from(dc.clone()).serialize_to_vec();
    let b = P_Q_inner_data::from(Box::new(temp.clone())).serialize_to_vec();
    assert_eq!(&a[0..4], &0xa9f55f95u32.to_le_bytes());
    assert_eq!(&b[0..4], &0x56fddf88u32.to_le_bytes());
    assert_eq!(a.len(), 4 + 12 + 32 + 32 + 4);
    assert_eq!(b.len(), a.len() + 4);
    assert_eq!(&a[4..], &dc.serialize_to_vec()[..]);
    assert_eq!(&a[a.len() - 4..], &[0xff, 0xff, 0xff, 0xff]);
    assert_eq!(&b[b.len() - 4..], &[120, 0, 0, 0]);
    match P_Q_inner_data::deserialize_from_bytes(&a).unwrap() {
        P_Q_inner_data::P_Q_inner_data_dc(v) => {
            assert_eq!(v.new_nonce, I256::new([1, 2, 3, 4]));
            assert_eq!(v.dc, -1);
            assert_eq!(v.q, dc.q);
        }
        _ => panic!("the data was for a permanent key"),
    }
    match P_Q_inner_data::deserialize_from_bytes(&b).unwrap() {
        P_Q_inner_data::P_Q_inner_data_temp_dc(v) => {
            assert_eq!(v.expires_in, 120);
            assert_eq!(v.dc, 2);
        }
        _ => panic!("the data was for a temporary key"),
    }
    assert!(P_Q_inner_data::opt_deserialize_from_bytes(&[1u8, 2, 3, 4])
        .unwrap()
        .is_none());
}

#[test]
fn unknown_answer_is_kept_as_a_failure_code() {
    let ok = server_DH_params_ok {
        nonce: 1,
        server_nonce: 2,
        encrypted_answer: buffer(&[9u8; 32]),
    };
    let bytes = Server_DH_Params::from(ok).serialize_to_vec();
    assert_eq!(&bytes[0..4], &0xd0e8075cu32.to_le_bytes());
    match Server_DH_Params::deserialize_from_bytes(&bytes).unwrap() {
        Server_DH_Params::ParamsOk(v) => {
            assert_eq!(v.nonce, 1);
            assert_eq!(v.server_nonce, 2);
            assert_eq!(&v.encrypted_answer[..], &[9u8; 32]);
        }
        Server_DH_Params::Failed(_) => panic!("the answer was the parameters"),
    }
    match Server_DH_Params::deserialize_from_bytes(&0x79cb045du32.to_le_bytes()).unwrap() {
        Server_DH_Params::Failed(code) => assert_eq!(code, 0x79cb045d),
        _ => panic!("the answer was a failure"),
    }
    match Server_DH_Params::deserialize_from_bytes(&[0xff, 0xff, 0xff, 0xff, 1]).unwrap() {
        Server_DH_Params::Failed(code) => assert_eq!(code, -1),
        _ => panic!("the answer was a failure"),
    }
    assert_eq!(
        Server_DH_Params::from(-7).serialize_to_vec(),
        vec![0xf9, 0xff, 0xff, 0xff]
    );
    assert_eq!(
        Server_DH_Params::deserialize_from_bytes(&bytes[..10]).unwrap_err(),
        DeserializeError::IoError
    );
    assert_eq!(
        Server_DH_Params::deserialize_from_bytes(&[1, 2]).unwrap_err(),
        DeserializeError::IoError
    );
}

#[test]
fn parameters_of_the_server_come_back_behind_their_id() {
    let inner = server_data(3, &[23]);
    let boxed = Server_DH_Inner_Data::from(inner.clone());
    let bytes = boxed.serialize_to_vec();
    assert_eq!(&bytes[0..4], &0xb5890dbau32.to_le_bytes());
    assert_eq!(&bytes[4..], &inner.serialize_to_vec()[..]);
    let back = Server_DH_Inner_Data::deserialize_from_bytes(&bytes).unwrap();
    assert_eq!(back.g, 3);
    assert_eq!(back.server_time, 1_600_000_000);
    assert_eq!(back.dh_prime, inner.dh_prime);
    assert_eq!(back.g_a, inner.g_a);
}

#[test]
fn constructor_ids_of_the_exchange() {
    assert_eq!(resPQ::type_id2(), 0x05162463);
    assert_eq!(ResPq::type_id2(), 0x05162463);
    assert_eq!(p_q_inner_data_dc::type_id2(), 0xa9f55f95);
    assert_eq!(p_q_inner_data_temp_dc::type_id2(), 0x56fddf88);
    assert_eq!(server_DH_inner_data::type_id2(), 0xb5890dba);
    assert_eq!(server_DH_params_ok::type_id2(), 0xd0e8075c);
    assert_eq!(client_DH_inner_data::type_id2(), 0x6643b654);
    assert_eq!(server_data(2, &[1]).type_id(), 0xb5890dba);
}

#[test]
fn key_of_the_server_is_found_by_its_fingerprint() {
    let small = RSAPublicKey {
        n: buffer(&[0x0b, 0x2d]),
        e: buffer(&[3]),
    };
    let keys = vec![small.clone(), key(), small];
    assert_eq!(select_key(&keys, &[-647803385371150526]), Some(1));
    assert_eq!(select_key(&keys, &[-3034614474492754575]), Some(0));
    assert_eq!(
        select_key(&keys, &[5, -647803385371150526, -3034614474492754575]),
        Some(0)
    );
    assert_eq!(select_key(&keys[1..], &[7, -3034614474492754575]), Some(1));
    assert_eq!(select_key(&keys, &[1, 2, 3]), None);
    assert_eq!(select_key(&keys, &[]), None);
    assert_eq!(select_key(&[], &[-647803385371150526]), None);
}

#[test]
fn authorization_key_is_the_shared_secret_in_256_bytes() {
    let mut server = server_data(5, &[23]);
    server.g_a = buffer(&[19]);
    let boxed = Server_DH_Inner_Data::from(server.clone());
    let c = client_DH_inner_data::with_secret(&boxed, 0, &[6]).unwrap();
    assert_eq!(&c.g_b[..], &[8u8]);
    let mut expected = vec![0u8; 255];
    expected.push(2);
    assert_eq!(c.auth_key(&server).unwrap(), expected);
    let prime = hex(SAFE_PRIME);
    let mut server = server_data(3, &prime);
    let a = [0x12u8, 0x34, 0x56, 0x78, 0x9a];
    let mut ctx = openssl::bn::BigNumContext::new().unwrap();
    let p = openssl::bn::BigNum::from_slice(&prime).unwrap();
    let mut g_a = openssl::bn::BigNum::new().unwrap();
    g_a.mod_exp(
        &openssl::bn::BigNum::from_u32(3).unwrap(),
        &openssl::bn::BigNum::from_slice(&a).unwrap(),
        &p,
        &mut ctx,
    )
    .unwrap();
    server.g_a = buffer(&g_a.to_vec());
    let boxed = Server_DH_Inner_Data::from(server.clone());
    let c = client_DH_inner_data::new(&boxed, 0).unwrap();
    let key_of_client = c.auth_key(&server).unwrap();
    assert_eq!(key_of_client.len(), 256);
    let mut key_of_server = openssl::bn::BigNum::new().unwrap();
    key_of_server
        .mod_exp(
            &openssl::bn::BigNum::from_slice(&c.g_b).unwrap(),
            &openssl::bn::BigNum::from_slice(&a).unwrap(),
            &p,
            &mut ctx,
        )
        .unwrap();
    let mut key_of_server = key_of_server.to_vec();
    while key_of_server.len() < 256 {
        key_of_server.insert(0, 0);
    }
    assert_eq!(key_of_client, key_of_server);
}

#[test]
fn answer_of_the_client_is_put_together_from_its_parts() {
    let server = server_data(3, &[23]);
    let c = client_DH_inner_data::from_power(&server, -9, &[0, 0, 7, 0], &[1, 2, 3]);
    assert_eq!(c.nonce, server.nonce);
    assert_eq!(c.server_nonce, server.server_nonce);
    assert_eq!(c.retry_id, -9);
    assert_eq!(&c.g_b[..], &[1u8, 2, 3]);
    assert_eq!(&c.b[..], &[7u8, 0]);
    let c = client_DH_inner_data::from_power(&server, 0, &[0, 0], &[]);
    assert!(c.b.is_empty());
    assert!(c.g_b.is_empty());
}

#[test]
fn answer_with_foreign_nonces_inside_is_mismatched() {
    let sent = sent_data(I256::new([1, 2, 3, 4]));
    for (nonce, server_nonce) in [
        (0x0102030405060708090a0b0c0d0e0f11i128, -5i128),
        (0x0102030405060708090a0b0c0d0e0f10, -6),
        (7, 8),
    ] {
        let mut data = server_data(3, &[23]);
        data.nonce = nonce;
        data.server_nonce = server_nonce;
        let inner = Server_DH_Inner_Data::from(data);
        let plain_len = 20 + inner.serialize_to_vec().len();
        let padding = (16 - plain_len % 16) % 16;
        let answer = server_DH_params_ok {
            nonce: 0x0102030405060708090a0b0c0d0e0f10,
            server_nonce: -5,
            encrypted_answer: buffer(&encrypted_answer(&inner, &sent, padding)),
        };
        assert!(matches!(
            answer.decrypt_answer(&sent),
            Err(DecryptError::Mismatched)
        ));
    }
}

#[test]
fn verdict_of_the_tests_is_recorded() {
    let prime = buffer(&[23]);
    let other = buffer(&[29]);
    let mut cache = DcCache::new();
    cache.add_prime(&other, true);
    assert!(record_verdict(&mut cache, &prime, true, true).is_ok());
    assert_eq!(cache.is_good_prime(&prime), PrimeCacheStatus::Good);
    assert!(matches!(
        record_verdict(&mut cache, &prime, true, false),
        Err(CheckDhPrimeError::NotSafePrime)
    ));
    assert_eq!(cache.is_good_prime(&prime), PrimeCacheStatus::Bad);
    assert!(record_verdict(&mut cache, &prime, true, true).is_ok());
    assert!(matches!(
        record_verdict(&mut cache, &prime, false, true),
        Err(CheckDhPrimeError::NotPrime)
    ));
    assert_eq!(cache.is_good_prime(&prime), PrimeCacheStatus::Bad);
    assert!(matches!(
        record_verdict(&mut cache, &prime, false, false),
        Err(CheckDhPrimeError::NotPrime)
    ));
    assert_eq!(cache.is_good_prime(&other), PrimeCacheStatus::Good);
    assert_eq!(PRIME_CHECKS, 64);
}

#[test]
fn checks_that_fail_early_leave_the_cache_alone() {
    let prime = hex(SAFE_PRIME);
    let mut cache = DcCache::new();
    assert!(server_data(2, &prime).check_dh_prime(&mut cache).is_err());
    assert_eq!(cache.is_good_prime(&buffer(&prime)), PrimeCacheStatus::Miss);
    assert!(server_data(4, &[23]).check_dh_prime(&mut cache).is_err());
    assert_eq!(cache.is_good_prime(&buffer(&[23])), PrimeCacheStatus::Miss);
    cache.add_prime(&buffer(&prime), false);
    assert!(server_data(9, &prime).check_dh_prime(&mut cache).is_err());
    assert_eq!(cache.is_good_prime(&buffer(&prime)), PrimeCacheStatus::Bad);
}

#[test]
fn raw_rsa_is_the_block_to_the_exponent_modulo_the_modulus() {
    let k = key();
    let mut block = vec![0u8; 256];
    block[255] = 2;
    block[100] = 7;
    let out = raw_rsa(&k, &block).unwrap();
    assert_eq!(out.len(), 256);
    let mut ctx = openssl::bn::BigNumContext::new().unwrap();
    let mut expected = openssl::bn::BigNum::new().unwrap();
    expected
        .mod_exp(
            &openssl::bn::BigNum::from_slice(&block).unwrap(),
            &openssl::bn::BigNum::from_u32(65537).unwrap(),
            &openssl::bn::BigNum::from_slice(&hex(MODULUS)).unwrap(),
            &mut ctx,
        )
        .unwrap();
    let mut expected = expected.to_vec();
    while expected.len() < 256 {
        expected.insert(0, 0);
    }
    assert_eq!(out, expected);
    let mut padded = vec![0u8, 0];
    padded.extend_from_slice(&hex(MODULUS));
    let long = RSAPublicKey {
        n: buffer(&padded),
        e: buffer(&[0, 1, 0, 1]),
    };
    assert_eq!(raw_rsa(&long, &block).unwrap(), expected);
    assert_eq!(rsa_pad(&[1, 2, 3], &long).unwrap().len(), 256);
}

#[test]
fn secret_of_the_client_is_empty_after_decoding_the_tagged_sum() {
    let c = client_DH_inner_data {
        nonce: 1,
        server_nonce: 2,
        retry_id: 3,
        g_b: buffer(&[4, 5]),
        b: buffer(&[6, 7, 8]),
    };
    let bytes = Client_DH_Inner_Data::from(c).serialize_to_vec();
    match Client_DH_Inner_Data::opt_deserialize_from_bytes(&bytes).unwrap() {
        Some(Client_DH_Inner_Data::Boxed(back)) => {
            assert!(back.b.is_empty());
            assert_eq!(&back.g_b[..], &[4u8, 5]);
            assert_eq!(back.retry_id, 3);
        }
        None => panic!("the constructor is that of the answer of the client"),
    }
    match Client_DH_Inner_Data::deserialize_from_bytes(&bytes).unwrap() {
        Client_DH_Inner_Data::Boxed(back) => assert!(back.b.is_empty()),
    }
    assert!(Client_DH_Inner_Data::opt_deserialize_from_bytes(&[1u8, 2, 3, 4])
        .unwrap()
        .is_none());
}
