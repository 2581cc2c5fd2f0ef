use tdlib_rs::dc_cache::DcCache;
use tdlib_rs::dc_cache::PrimeCacheStatus;
use tdlib_rs::endian::get_be;
use tdlib_rs::endian::get_le;
use tdlib_rs::endian::pad_front;
use tdlib_rs::endian::put_be;
use tdlib_rs::endian::put_le;
use tdlib_rs::endian::strip_leading_zeros;
use tdlib_rs::objects::base::signed_128;
use tdlib_rs::objects::base::I256;
use tdlib_rs::objects::mtproto_api::constructors::p_q_inner_data_dc;
use tdlib_rs::objects::mtproto_api::constructors::p_q_inner_data_temp_dc;
use tdlib_rs::objects::mtproto_api::constructors::resPQ;
use tdlib_rs::objects::mtproto_api::constructors::FactorizeError;
use tdlib_rs::objects::mtproto_api::functions::req_pq_multi;
use tdlib_rs::objects::mtproto_api::types::P_Q_inner_data;
use tdlib_rs::objects::traits::Serialize;
use tdlib_rs::objects::traits::TypeId;
use tdlib_rs::prime::big_attempt;
use tdlib_rs::prime::pq_add_mul;
use tdlib_rs::prime::pq_attempt;
use tdlib_rs::prime::pq_factorize;
use tdlib_rs::prime::pq_factorize1;
use tdlib_rs::prime::pq_gcd;
use tdlib_rs::random::spread_u32;
use tdlib_rs::random::spread_u8;
use tdlib_rs::random::Random;

fn gcd(a: u64, b: u64) -> u64 {
    if b == 0 {
        a
    } else {
        gcd(b, a % b)
    }
}

#[test]
fn add_mul_is_c_plus_a_times_b_modulo_pq() {
    assert_eq!(pq_add_mul(1, 2, 3, 5), 2);
    assert_eq!(pq_add_mul(0, 0, 0, 1), 0);
    assert_eq!(pq_add_mul(4, 4, 4, 7), 6);
    assert_eq!(pq_add_mul(3, 5, 0, 11), 3);
    let pq: u64 = 0x17ED48941A08F981;
    let (c, a, b) = (pq - 1, pq - 2, u64::MAX);
    let expected = ((c as u128 + a as u128 * b as u128) % pq as u128) as u64;
    assert_eq!(pq_add_mul(c, a, b, pq), expected);
    let pq: u64 = 1 << 63;
    let (c, a, b) = (pq - 1, pq - 1, pq - 1);
    let expected = ((c as u128 + a as u128 * b as u128) % pq as u128) as u64;
    assert_eq!(pq_add_mul(c, a, b, pq), expected);
}

#[test]
fn gcd_with_an_odd_number() {
    assert_eq!(pq_gcd(0, 7), 7);
    assert_eq!(pq_gcd(12, 9), 3);
    assert_eq!(pq_gcd(9, 9), 9);
    assert_eq!(pq_gcd(1 << 40, 3), 1);
    assert_eq!(pq_gcd(1229739323 * 6, 0x17ED48941A08F981), 1229739323);
    for a in 0..200u64 {
        for b in (1..200u64).step_by(2) {
            assert_eq!(pq_gcd(a, b), gcd(a, b));
        }
    }
}

#[test]
fn small_and_even_products() {
    assert_eq!(pq_factorize1(0), 1);
    assert_eq!(pq_factorize1(1), 1);
    assert_eq!(pq_factorize1(2), 1);
    assert_eq!(pq_factorize1((1 << 63) + 1), 1);
    assert_eq!(pq_factorize1(u64::MAX), 1);
    assert_eq!(pq_factorize1(4), 2);
    assert_eq!(pq_factorize1(1 << 63), 2);
    assert_eq!(pq_factorize1(2 * 1229739323), 2);
}

#[test]
fn product_of_two_primes_is_taken_apart() {
    assert_eq!(pq_factorize1(0x17ED48941A08F981), 0x494C553B);
    assert_eq!(pq_factorize1(15), 3);
    assert_eq!(pq_factorize1(9), 3);
    assert_eq!(pq_factorize1(1000003 * 1000033), 1000003);
}

#[test]
fn divisor_found_is_not_above_its_cofactor() {
    for pq in [21u64, 35, 77, 221, 10403, 3 * 5 * 7 * 11, 7, 13, 1_000_003] {
        let g = pq_factorize1(pq);
        assert!(g >= 1);
        assert_eq!(pq % g, 0);
        assert!(g <= pq / g);
    }
}

#[test]
fn bytes_of_a_product_give_bytes_of_its_factors() {
    let (p, q) = pq_factorize(&[0x17, 0xED, 0x48, 0x94, 0x1A, 0x08, 0xF9, 0x81])
        .unwrap()
        .unwrap();
    assert_eq!(p, vec![0x49, 0x4C, 0x55, 0x3B]);
    assert_eq!(q, vec![0x53, 0x91, 0x10, 0x73]);
    let (p, q) = pq_factorize(&[0, 0, 15]).unwrap().unwrap();
    assert_eq!(p, vec![3]);
    assert_eq!(q, vec![5]);
    let (p, q) = pq_factorize(&[1, 0]).unwrap().unwrap();
    assert_eq!(p, vec![2]);
    assert_eq!(q, vec![128]);
    let (p, q) = pq_factorize(&[4]).unwrap().unwrap();
    assert_eq!(p, vec![2]);
    assert_eq!(q, vec![2]);
    let (p, q) = pq_factorize(&[9]).unwrap().unwrap();
    assert_eq!(p, vec![3]);
    assert_eq!(q, vec![3]);
}

#[test]
fn number_that_does_not_come_apart_is_not_found() {
    assert!(pq_factorize(&[]).unwrap().is_none());
    assert!(pq_factorize(&[0]).unwrap().is_none());
    assert!(pq_factorize(&[1]).unwrap().is_none());
    assert!(pq_factorize(&[2]).unwrap().is_none());
    assert!(pq_factorize(&[7]).unwrap().is_none());
    assert!(pq_factorize(&[0x49, 0x4C, 0x55, 0x3B]).unwrap().is_none());
    let v = resPQ {
        nonce: 1,
        server_nonce: 2,
        pq: bytes::BytesMut::from(&[13u8][..]),
        server_public_key_fingerprints: Box::new(vec![]),
    };
    assert!(matches!(v.pq_factorize(), Err(FactorizeError::NotFound)));
    assert!(matches!(
        p_q_inner_data_dc::try_from(&v),
        Err(FactorizeError::NotFound)
    ));
    assert!(matches!(
        P_Q_inner_data::new(&v, Some(5)),
        Err(FactorizeError::NotFound)
    ));
}

#[test]
fn product_above_63_bits_goes_the_long_way() {
    let pq: u64 = 4294967291 * 4294967279;
    assert!(pq >> 63 == 1);
    let (p, q) = pq_factorize(&pq.to_be_bytes()).unwrap().unwrap();
    assert_eq!(p, 4294967279u32.to_be_bytes().to_vec());
    assert_eq!(q, 4294967291u32.to_be_bytes().to_vec());
    let mut nine = vec![0u8];
    nine.extend_from_slice(&0x17ED48941A08F981u64.to_be_bytes());
    let (p, q) = pq_factorize(&nine).unwrap().unwrap();
    assert_eq!(p, vec![0x49, 0x4C, 0x55, 0x3B]);
    assert_eq!(q, vec![0x53, 0x91, 0x10, 0x73]);
    assert!(pq_factorize(&[0u8; 9]).unwrap().is_none());
    let mut prime = vec![0u8; 5];
    prime.extend_from_slice(&4294967291u32.to_be_bytes());
    assert!(pq_factorize(&prime).unwrap().is_none());
}

#[test]
fn answer_to_the_product_of_the_server() {
    let v = resPQ {
        nonce: 11,
        server_nonce: -22,
        pq: bytes::BytesMut::from(&[0x17u8, 0xED, 0x48, 0x94, 0x1A, 0x08, 0xF9, 0x81][..]),
        server_public_key_fingerprints: Box::new(vec![1, 2]),
    };
    let (p, q) = v.pq_factorize().unwrap();
    assert_eq!(p, vec![0x49, 0x4C, 0x55, 0x3B]);
    assert_eq!(q, vec![0x53, 0x91, 0x10, 0x73]);
    let d = p_q_inner_data_dc::with_new_nonce(&v, I256::new([1, 2, 3, 4])).unwrap();
    assert_eq!(d.pq, v.pq);
    assert_eq!(&d.p[..], &[0x49u8, 0x4C, 0x55, 0x3B]);
    assert_eq!(&d.q[..], &[0x53u8, 0x91, 0x10, 0x73]);
    assert_eq!(d.nonce, 11);
    assert_eq!(d.server_nonce, -22);
    assert_eq!(d.new_nonce, I256::new([1, 2, 3, 4]));
    assert_eq!(d.dc, -1);
    let d = p_q_inner_data_temp_dc::try_from(&v).unwrap();
    assert_eq!(d.expires_in, 120);
    assert_eq!(d.dc, -1);
    assert_eq!(&d.p[..], &[0x49u8, 0x4C, 0x55, 0x3B]);
    match P_Q_inner_data::new(&v, Some(300)).unwrap() {
        P_Q_inner_data::P_Q_inner_data_temp_dc(d) => {
            assert_eq!(d.expires_in, 300);
            assert_eq!(d.nonce, 11);
        }
        P_Q_inner_data::P_Q_inner_data_dc(_) => panic!("a permanent key was not asked for"),
    }
    match P_Q_inner_data::new(&v, None).unwrap() {
        P_Q_inner_data::P_Q_inner_data_dc(d) => {
            assert_eq!(d.server_nonce, -22);
            assert_eq!(&d.q[..], &[0x53u8, 0x91, 0x10, 0x73]);
        }
        P_Q_inner_data::P_Q_inner_data_temp_dc(_) => panic!("a temporary key was not asked for"),
    }
}

#[test]
fn two_new_nonces_differ() {
    let v = resPQ {
        nonce: 1,
        server_nonce: 2,
        pq: bytes::BytesMut::from(&[15u8][..]),
        server_public_key_fingerprints: Box::new(vec![]),
    };
    let a = p_q_inner_data_dc::try_from(&v).unwrap();
    let b = p_q_inner_data_dc::try_from(&v).unwrap();
    assert_ne!(a.new_nonce, b.new_nonce);
    let mut random = Random::new();
    assert_ne!(I256::random(&mut random), I256::random(&mut random));
}

#[test]
fn request_for_the_product_is_its_nonce() {
    let a = req_pq_multi::new();
    let b = req_pq_multi::new();
    assert_ne!(a.nonce, b.nonce);
    assert_eq!(a.type_id(), 0xbe7e8ef1);
    let r = req_pq_multi { nonce: 0x0102 };
    let mut expected = vec![0xf1, 0x8e, 0x7e, 0xbe, 2, 1];
    expected.extend_from_slice(&[0u8; 14]);
    assert_eq!(Box::new(r).serialize_to_vec(), expected);
}

#[test]
fn random_numbers_stay_in_their_range() {
    let mut random = Random::new();
    let mut seen = [false; 16];
    for _ in 0..2000 {
        let x = random.gen_u8_in_range(17, 32);
        assert!((17..=32).contains(&x));
        seen[(x - 17) as usize] = true;
        let y = random.gen_u32_in_range(5, 6);
        assert!(y == 5 || y == 6);
    }
    assert!(seen.iter().all(|s| *s));
    assert_eq!(random.gen_u32_in_range(9, 9), 9);
    assert_eq!(random.gen_u8_in_range(0, 0), 0);
    let _ = random.gen_u32_in_range(0, u32::MAX);
    let _ = random.gen_u8_in_range(0, u8::MAX);
    let a = (random.gen_u64(), random.gen_u64(), random.gen_u32(), random.gen_u8());
    let b = (random.gen_u64(), random.gen_u64(), random.gen_u32(), random.gen_u8());
    assert_ne!(a, b);
}

#[test]
fn numbers_as_bytes() {
    let mut v = vec![9u8];
    put_le(&mut v, 0x01020304, 3);
    assert_eq!(v, vec![9, 4, 3, 2]);
    put_be(&mut v, 0x01020304, 4);
    assert_eq!(v, vec![9, 4, 3, 2, 1, 2, 3, 4]);
    put_be(&mut v, 0x0102, 0);
    assert_eq!(v.len(), 8);
    assert_eq!(get_le(&[4, 3, 2, 1]), 0x01020304);
    assert_eq!(get_le(&[0xff; 16]), u128::MAX);
    assert_eq!(get_le(&[]), 0);
    assert_eq!(get_be(&[1, 2, 3, 4]), 0x01020304);
    assert_eq!(get_be(&[0xff; 8]), u64::MAX);
    let mut v = vec![0, 0, 5, 0];
    strip_leading_zeros(&mut v);
    assert_eq!(v, vec![5, 0]);
    let mut v = vec![0, 0];
    strip_leading_zeros(&mut v);
    assert_eq!(v, Vec::<u8>::new());
}

#[test]
fn cache_remembers_the_last_verdict() {
    let mut cache = DcCache::new();
    let seven = bytes::BytesMut::from(&[7u8][..]);
    let nine = bytes::BytesMut::from(&[9u8][..]);
    let long_seven = bytes::BytesMut::from(&[0u8, 7][..]);
    assert_eq!(cache.is_good_prime(&seven), PrimeCacheStatus::Miss);
    cache.add_prime(&seven, true);
    assert_eq!(cache.is_good_prime(&seven), PrimeCacheStatus::Good);
    assert_eq!(cache.is_good_prime(&nine), PrimeCacheStatus::Miss);
    assert_eq!(cache.is_good_prime(&long_seven), PrimeCacheStatus::Miss);
    cache.add_prime(&nine, false);
    assert_eq!(cache.is_good_prime(&nine), PrimeCacheStatus::Bad);
    assert_eq!(cache.is_good_prime(&seven), PrimeCacheStatus::Good);
    cache.add_prime(&seven, false);
    assert_eq!(cache.is_good_prime(&seven), PrimeCacheStatus::Bad);
    cache.add_prime(&nine, true);
    assert_eq!(cache.is_good_prime(&nine), PrimeCacheStatus::Good);
    assert_eq!(cache.is_good_prime(&seven), PrimeCacheStatus::Bad);
}

#[test]
fn draw_is_spread_over_the_range() {
    assert_eq!(spread_u32(0, 17, 32), 17);
    assert_eq!(spread_u32(15, 17, 32), 32);
    assert_eq!(spread_u32(16, 17, 32), 17);
    assert_eq!(spread_u32(100, 17, 32), 21);
    assert_eq!(spread_u32(u32::MAX, 5, 5), 5);
    assert_eq!(spread_u32(12345, 0, u32::MAX), 12345);
    assert_eq!(spread_u32(u32::MAX, 1, u32::MAX), 1);
    assert_eq!(spread_u8(0, 17, 32), 17);
    assert_eq!(spread_u8(255, 17, 32), 32);
    assert_eq!(spread_u8(200, 0, u8::MAX), 200);
    assert_eq!(spread_u8(7, 250, 255), 251);
}

#[test]
fn short_number_is_padded_in_front() {
    assert_eq!(pad_front(&[1, 2], 4), vec![0, 0, 1, 2]);
    assert_eq!(pad_front(&[1, 2], 2), vec![1, 2]);
    assert_eq!(pad_front(&[1, 2, 3], 2), vec![1, 2, 3]);
    assert_eq!(pad_front(&[], 3), vec![0, 0, 0]);
    assert_eq!(pad_front(&[], 0), Vec::<u8>::new());
}

#[test]
fn bits_of_a_nonce_are_read_in_twos_complement() {
    assert_eq!(signed_128(0), 0);
    assert_eq!(signed_128(5), 5);
    assert_eq!(signed_128(u128::MAX), -1);
    assert_eq!(signed_128(1 << 127), i128::MIN);
    assert_eq!(signed_128((1 << 127) - 1), i128::MAX);
}

fn reference_attempt(pq: u128, c: u128, x0: u128, lim: u64, big: bool) -> (u128, u64) {
    let (mut x, mut y) = (x0, x0);
    let mut steps = 0u64;
    let mut j = 1u64;
    while j < lim {
        x = if big {
            let sum = (x * x) % pq + c;
            if sum < pq {
                sum
            } else {
                sum - pq
            }
        } else {
            (c + x * x) % pq
        };
        let z = if x < y { y - x } else { x - y };
        let (mut a, mut b) = (z, pq);
        while b != 0 {
            let r = a % b;
            a = b;
            b = r;
        }
        steps += 1;
        if a != 1 {
            return (a, steps);
        }
        if j.is_power_of_two() {
            y = x;
        }
        j += 1;
    }
    (1, steps)
}

#[test]
fn attempt_finds_the_first_divisor_on_its_way() {
    for (pq, c, x0, lim) in [
        (15u64, 2u64, 3u64, 5u64),
        (15, 3, 7, 100),
        (21, 4, 2, 50),
        (10403, 17, 5, 1000),
        (1000003 * 1000033, 20, 12345, 1 << 18),
        (0x494C553B, 19, 77, 1 << 18),
        (13, 5, 6, 2),
        (13, 5, 6, 1),
        (13, 5, 6, 0),
    ] {
        let expected = reference_attempt(pq as u128, c as u128, x0 as u128, lim, false);
        let (g, steps) = pq_attempt(pq, c, x0, lim);
        assert_eq!((g as u128, steps), expected);
        assert_eq!(pq % g, 0);
    }
    let pq: u64 = 0x17ED48941A08F981;
    let (g, steps) = pq_attempt(pq, 17, 5, 1 << 18);
    assert_eq!(
        (g as u128, steps),
        reference_attempt(pq as u128, 17, 5, 1 << 18, false)
    );
    assert!(g == 0x494C553B || g == 0x53911073 || g == 1 || g == pq);
}

#[test]
fn attempt_on_numbers_of_any_size_finds_the_first_divisor_on_its_way() {
    let pq: u64 = 4294967291 * 4294967279;
    for (t, a0, lim) in [(17u32, 5u32, 1u64 << 18), (32, 0xffff_ffff, 1 << 18), (20, 0, 40), (20, 1, 1)] {
        let expected = reference_attempt(pq as u128, t as u128, a0 as u128, lim, true);
        let mut start = a0.to_be_bytes().to_vec();
        while start.first() == Some(&0) {
            start.remove(0);
        }
        let (p, found, steps) = big_attempt(&pq.to_be_bytes(), t, &start, lim).unwrap();
        let mut value = 0u128;
        for b in &p {
            value = value * 256 + *b as u128;
        }
        assert_eq!((value, steps), expected);
        assert_eq!(found, value != 1);
        assert!(p.first() != Some(&0));
    }
    let small = [0u8, 0, 0, 0, 0, 0, 0, 0, 15];
    let expected = reference_attempt(15, 17, 7, 100, true);
    let (p, found, steps) = big_attempt(&small, 17, &[7], 100).unwrap();
    assert_eq!((p[0] as u128, steps), expected);
    assert!(found);
}
