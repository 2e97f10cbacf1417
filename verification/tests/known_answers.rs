use fast_keccak::{CShake, Hasher, KangarooTwelve, Keccak, Sha3, Shake, Xof};
fn hex(bytes: &[u8]) -> String {
    let mut s = String::new();
    for b in bytes {
        s.push_str(&format!("{:02x}", b));
    }
    s
}

fn pattern(len: usize) -> Vec<u8> {
    let mut v = Vec::with_capacity(len);
    for i in 0..len {
        v.push((i % 251) as u8);
    }
    v
}

#[test]
fn sha3_224_of_empty_input() {
    let mut hasher = Sha3::v224();
    hasher.update(b"");
    let mut output = [0u8; 28];
    hasher.finalize(&mut output);
    assert_eq!(hex(&output), "6b4e03423667dbb73b6e15454f0eb1abd4597f9a1b078e3f5b5a6bc7");
}

#[test]
fn sha3_224_of_abc() {
    let mut hasher = Sha3::v224();
    hasher.update(b"abc");
    let mut output = [0u8; 28];
    hasher.finalize(&mut output);
    assert_eq!(hex(&output), "e642824c3f8cf24ad09234ee7d3c766fc9a3a5168d0c94ad73b46fdf");
}

#[test]
fn keccak_224_of_empty_input() {
    let mut hasher = Keccak::v224();
    hasher.update(b"");
    let mut output = [0u8; 28];
    hasher.finalize(&mut output);
    assert_eq!(hex(&output), "f71837502ba8e10837bdd8d365adb85591895602fc552b48b7390abd");
}

#[test]
fn keccak_224_of_hello_world() {
    let mut hasher = Keccak::v224();
    hasher.update(b"hello world");
    let mut output = [0u8; 28];
    hasher.finalize(&mut output);
    assert_eq!(hex(&output), "25f3ecfebabe99686282f57f5c9e1f18244cfee2813d33f955aae568");
}

#[test]
fn sha3_256_of_empty_input() {
    let mut hasher = Sha3::v256();
    hasher.update(b"");
    let mut output = [0u8; 32];
    hasher.finalize(&mut output);
    assert_eq!(hex(&output), "a7ffc6f8bf1ed76651c14756a061d662f580ff4de43b49fa82d80a4b80f8434a");
}

#[test]
fn sha3_256_of_abc() {
    let mut hasher = Sha3::v256();
    hasher.update(b"abc");
    let mut output = [0u8; 32];
    hasher.finalize(&mut output);
    assert_eq!(hex(&output), "3a985da74fe225b2045c172d6bd390bd855f086e3e9d525b46bfe24511431532");
}

#[test]
fn keccak_256_of_empty_input() {
    let mut hasher = Keccak::v256();
    hasher.update(b"");
    let mut output = [0u8; 32];
    hasher.finalize(&mut output);
    assert_eq!(hex(&output), "c5d2460186f7233c927e7db2dcc703c0e500b653ca82273b7bfad8045d85a470");
}

#[test]
fn keccak_256_of_hello_world() {
    let mut hasher = Keccak::v256();
    hasher.update(b"hello world");
    let mut output = [0u8; 32];
    hasher.finalize(&mut output);
    assert_eq!(hex(&output), "47173285a8d7341e5e972fc677286384f802f8ef42a5ec5f03bbfa254cb01fad");
}

#[test]
fn sha3_384_of_empty_input() {
    let mut hasher = Sha3::v384();
    hasher.update(b"");
    let mut output = [0u8; 48];
    hasher.finalize(&mut output);
    assert_eq!(hex(&output), "0c63a75b845e4f7d01107d852e4c2485c51a50aaaa94fc61995e71bbee983a2ac3713831264adb47fb6bd1e058d5f004");
}

#[test]
fn sha3_384_of_abc() {
    let mut hasher = Sha3::v384();
    hasher.update(b"abc");
    let mut output = [0u8; 48];
    hasher.finalize(&mut output);
    assert_eq!(hex(&output), "ec01498288516fc926459f58e2c6ad8df9b473cb0fc08c2596da7cf0e49be4b298d88cea927ac7f539f1edf228376d25");
}

#[test]
fn keccak_384_of_empty_input() {
    let mut hasher = Keccak::v384();
    hasher.update(b"");
    let mut output = [0u8; 48];
    hasher.finalize(&mut output);
    assert_eq!(hex(&output), "2c23146a63a29acf99e73b88f8c24eaa7dc60aa771780ccc006afbfa8fe2479b2dd2b21362337441ac12b515911957ff");
}

#[test]
fn keccak_384_of_hello_world() {
    let mut hasher = Keccak::v384();
    hasher.update(b"hello world");
    let mut output = [0u8; 48];
    hasher.finalize(&mut output);
    assert_eq!(hex(&output), "65fc99339a2a40e99d3c40d695b22f278853ca0f925cde4254bcae5e22ece47e6441f91b6568425adc9d95b0072eb49f");
}

#[test]
fn sha3_512_of_empty_input() {
    let mut hasher = Sha3::v512();
    hasher.update(b"");
    let mut output = [0u8; 64];
    hasher.finalize(&mut output);
    assert_eq!(hex(&output), "a69f73cca23a9ac5c8b567dc185a756e97c982164fe25859e0d1dcc1475c80a615b2123af1f5f94c11e3e9402c3ac558f500199d95b6d3e301758586281dcd26");
}

#[test]
fn sha3_512_of_abc() {
    let mut hasher = Sha3::v512();
    hasher.update(b"abc");
    let mut output = [0u8; 64];
    hasher.finalize(&mut output);
    assert_eq!(hex(&output), "b751850b1a57168a5693cd924b6b096e08f621827444f70d884f5d0240d2712e10e116e9192af3c91a7ec57647e3934057340b4cf408d5a56592f8274eec53f0");
}

#[test]
fn keccak_512_of_empty_input() {
    let mut hasher = Keccak::v512();
    hasher.update(b"");
    let mut output = [0u8; 64];
    hasher.finalize(&mut output);
    assert_eq!(hex(&output), "0eab42de4c3ceb9235fc91acffe746b29c29a8c366b7c60e4e67c466f36a4304c00fa9caf9d87976ba469bcbe06713b435f091ef2769fb160cdab33d3670680e");
}

#[test]
fn keccak_512_of_hello_world() {
    let mut hasher = Keccak::v512();
    hasher.update(b"hello world");
    let mut output = [0u8; 64];
    hasher.finalize(&mut output);
    assert_eq!(hex(&output), "3ee2b40047b8060f68c67242175660f4174d0af5c01d47168ec20ed619b0b7c42181f40aa1046f39e2ef9efc6910782a998e0013d172458957957fac9405b67d");
}

#[test]
fn sha3_256_of_a_long_input() {
    let data = vec![254u8; 4096];
    let mut hasher = Sha3::v256();
    hasher.update(&data);
    let mut output = [0u8; 32];
    hasher.finalize(&mut output);
    assert_eq!(hex(&output), "cdc3865fc4ab23d57e1cc48bf9f00184a3bab7f33330010986f601fec201e940");
}

#[test]
fn shake128_of_empty_input() {
    let mut shake = Shake::v128();
    let mut output = [0u8; 32];
    shake.squeeze(&mut output);
    assert_eq!(hex(&output), "7f9c2ba4e88f827d616045507605853ed73b8093f6efbc88eb1a6eacfa66ef26");
}

#[test]
fn shake128_finalize_of_abc() {
    let mut shake = Shake::v128();
    shake.update(b"abc");
    let mut output = [0u8; 64];
    shake.finalize(&mut output);
    assert_eq!(hex(&output), "5881092dd818bf5cf8a3ddb793fbcba74097d5c526a6d35f97b83351940f2cc844c50af32acd3f2cdd066568706f509bc1bdde58295dae3f891a9a0fca578378");
}

#[test]
fn shake128_output_longer_than_two_blocks() {
    let mut shake = Shake::v128();
    shake.update(b"The quick brown fox jumps over the lazy dog");
    let mut output = [0u8; 400];
    shake.squeeze(&mut output);
    assert_eq!(hex(&output[368..]), "89891ba5ee99753cfdd38e1abc7147fd74b7c7d1ce0609b6680a2e18888d8494");
}

#[test]
fn shake256_of_empty_input() {
    let mut shake = Shake::v256();
    let mut output = [0u8; 32];
    shake.squeeze(&mut output);
    assert_eq!(hex(&output), "46b9dd2b0ba88d13233b3feb743eeb243fcd52ea62b81b82b50c27646ed5762f");
}

#[test]
fn shake256_finalize_of_abc() {
    let mut shake = Shake::v256();
    shake.update(b"abc");
    let mut output = [0u8; 64];
    shake.finalize(&mut output);
    assert_eq!(hex(&output), "483366601360a8771c6863080cc4114d8db44530f8f1e1ee4f94ea37e78b5739d5a15bef186a5386c75744c0527e1faa9f8726e462a12a4feb06bd8801e751e4");
}

#[test]
fn shake256_output_longer_than_two_blocks() {
    let mut shake = Shake::v256();
    shake.update(b"The quick brown fox jumps over the lazy dog");
    let mut output = [0u8; 400];
    shake.squeeze(&mut output);
    assert_eq!(hex(&output[368..]), "1039b05e94c9f993d04feb272b6e00bb0276939cf746c42936831fc8f2b4cb0c");
}

#[test]
fn cshake128_with_customization_of_four_bytes() {
    let mut cshake = CShake::v128(b"", b"Email Signature");
    cshake.update(&[0, 1, 2, 3]);
    let mut output = [0u8; 32];
    cshake.finalize(&mut output);
    assert_eq!(hex(&output), "c1c36925b6409a04f1b504fcbca9d82b4017277cb5ed2b2065fc1d3814d5aaf5");
}

#[test]
fn cshake128_with_customization_of_two_hundred_bytes() {
    let data: Vec<u8> = (0..200u8).collect();
    let mut cshake = CShake::v128(b"", b"Email Signature");
    cshake.update(&data);
    let mut output = [0u8; 32];
    cshake.squeeze(&mut output);
    assert_eq!(hex(&output), "c5221d50e4f822d96a2e8881a961420f294b7b24fe3d2094baed2c6524cc166b");
}

#[test]
fn cshake128_with_name_and_customization() {
    let mut cshake = CShake::v128(b"KMAC", b"My Tagged Application");
    cshake.update(b"payload");
    let mut output = [0u8; 32];
    cshake.squeeze(&mut output);
    assert_eq!(hex(&output), "9cb5651d5d5e3e9e6bac106d98dc831037932150e2e4cde6a6368037e030b3be");
}

#[test]
fn cshake128_without_name_and_customization_is_shake128() {
    let mut cshake = CShake::v128(b"", b"");
    cshake.update(b"abc");
    let mut output = [0u8; 32];
    cshake.squeeze(&mut output);
    assert_eq!(hex(&output), "5881092dd818bf5cf8a3ddb793fbcba74097d5c526a6d35f97b83351940f2cc8");
}

#[test]
fn cshake256_with_customization_of_four_bytes() {
    let mut cshake = CShake::v256(b"", b"Email Signature");
    cshake.update(&[0, 1, 2, 3]);
    let mut output = [0u8; 64];
    cshake.finalize(&mut output);
    assert_eq!(hex(&output), "d008828e2b80ac9d2218ffee1d070c48b8e4c87bff32c9699d5b6896eee0edd164020e2be0560858d9c00c037e34a96937c561a74c412bb4c746469527281c8c");
}

#[test]
fn cshake256_with_customization_of_two_hundred_bytes() {
    let data: Vec<u8> = (0..200u8).collect();
    let mut cshake = CShake::v256(b"", b"Email Signature");
    cshake.update(&data);
    let mut output = [0u8; 64];
    cshake.squeeze(&mut output);
    assert_eq!(hex(&output), "07dc27b11e51fbac75bc7b3c1d983e8b4b85fb1defaf218912ac86430273091727f42b17ed1df63e8ec118f04b23633c1dfb1574c8fb55cb45da8e25afb092bb");
}

#[test]
fn cshake256_with_name_and_customization() {
    let mut cshake = CShake::v256(b"KMAC", b"My Tagged Application");
    cshake.update(b"payload");
    let mut output = [0u8; 32];
    cshake.squeeze(&mut output);
    assert_eq!(hex(&output), "c3c1860f40d32dc7969d138e75fa4bb26de5514f3a2f41f0e6dbc82169d143a8");
}

#[test]
fn cshake256_without_name_and_customization_is_shake256() {
    let mut cshake = CShake::v256(b"", b"");
    cshake.update(b"abc");
    let mut output = [0u8; 32];
    cshake.squeeze(&mut output);
    assert_eq!(hex(&output), "483366601360a8771c6863080cc4114d8db44530f8f1e1ee4f94ea37e78b5739");
}

#[test]
fn cshake128_prefix_of_exactly_one_block() {
    let custom = [0x5au8; 161];
    let mut cshake = CShake::v128(b"", &custom);
    cshake.update(b"abc");
    let mut output = [0u8; 32];
    cshake.squeeze(&mut output);
    assert_eq!(hex(&output), "39cbce5e0a209ec56c57c960202c26c5bc9c003c369b8e5ebc2dc19b71dcb583");
}

#[test]
fn cshake256_prefix_of_exactly_one_block() {
    let custom = [0x5au8; 129];
    let mut cshake = CShake::v256(b"", &custom);
    let mut output = [0u8; 32];
    cshake.squeeze(&mut output);
    assert_eq!(hex(&output), "67a660447a273ce4531d855223fef3bb6d3679232acba901c5056a54104f027e");
}

#[test]
fn kangaroo_twelve_of_empty_input() {
    let mut k12 = KangarooTwelve::new(b"");
    k12.update(&[]);
    let mut output = [0u8; 32];
    k12.finalize(&mut output);
    assert_eq!(hex(&output), "1ac2d450fc3b4205d19da7bfca1b37513c0803577ac7167f06fe2ce1f0ef39e5");
}

#[test]
fn kangaroo_twelve_of_empty_input_64_bytes() {
    let mut k12 = KangarooTwelve::new(b"");
    k12.update(&[]);
    let mut output = [0u8; 64];
    k12.finalize(&mut output);
    assert_eq!(hex(&output), "1ac2d450fc3b4205d19da7bfca1b37513c0803577ac7167f06fe2ce1f0ef39e54269c056b8c82e48276038b6d292966cc07a3d4645272e31ff38508139eb0a71");
}

#[test]
fn kangaroo_twelve_of_empty_input_last_bytes_of_10032() {
    let mut k12 = KangarooTwelve::new(b"");
    k12.update(&[]);
    let mut output = vec![0u8; 10032];
    k12.finalize(&mut output);
    assert_eq!(hex(&output[10000..]), "e8dc563642f7228c84684c898405d3a834799158c079b12880277a1d28e2ff6d");
}

#[test]
fn kangaroo_twelve_of_pattern_17_pow_0() {
    let mut k12 = KangarooTwelve::new(b"");
    k12.update(&pattern(1));
    let mut output = [0u8; 32];
    k12.finalize(&mut output);
    assert_eq!(hex(&output), "2bda92450e8b147f8a7cb629e784a058efca7cf7d8218e02d345dfaa65244a1f");
}

#[test]
fn kangaroo_twelve_of_pattern_17_pow_1() {
    let mut k12 = KangarooTwelve::new(b"");
    k12.update(&pattern(17));
    let mut output = [0u8; 32];
    k12.finalize(&mut output);
    assert_eq!(hex(&output), "6bf75fa2239198db4772e36478f8e19b0f371205f6a9a93a273f51df37122888");
}

#[test]
fn kangaroo_twelve_of_pattern_17_pow_2() {
    let mut k12 = KangarooTwelve::new(b"");
    k12.update(&pattern(289));
    let mut output = [0u8; 32];
    k12.finalize(&mut output);
    assert_eq!(hex(&output), "0c315ebcdedbf61426de7dcf8fb725d1e74675d7f5327a5067f367b108ecb67c");
}

#[test]
fn kangaroo_twelve_of_pattern_17_pow_3() {
    let mut k12 = KangarooTwelve::new(b"");
    k12.update(&pattern(4913));
    let mut output = [0u8; 32];
    k12.finalize(&mut output);
    assert_eq!(hex(&output), "cb552e2ec77d9910701d578b457ddf772c12e322e4ee7fe417f92c758f0d59d0");
}

#[test]
fn kangaroo_twelve_of_pattern_17_pow_4() {
    let mut k12 = KangarooTwelve::new(b"");
    k12.update(&pattern(83521));
    let mut output = [0u8; 32];
    k12.finalize(&mut output);
    assert_eq!(hex(&output), "8701045e22205345ff4dda05555cbb5c3af1a771c2b89baef37db43d9998b9fe");
}

#[test]
fn kangaroo_twelve_with_customization_of_41_pow_0() {
    let mut k12 = KangarooTwelve::new(&pattern(1));
    k12.update(&[0xffu8; 0]);
    let mut output = [0u8; 32];
    k12.finalize(&mut output);
    assert_eq!(hex(&output), "fab658db63e94a246188bf7af69a133045f46ee984c56e3c3328caaf1aa1a583");
}

#[test]
fn kangaroo_twelve_with_customization_of_41_pow_1() {
    let mut k12 = KangarooTwelve::new(&pattern(41));
    k12.update(&[0xffu8; 1]);
    let mut output = [0u8; 32];
    k12.finalize(&mut output);
    assert_eq!(hex(&output), "d848c5068ced736f4462159b9867fd4c20b808acc3d5bc48e0b06ba0a3762ec4");
}

#[test]
fn kangaroo_twelve_with_customization_of_41_pow_2() {
    let mut k12 = KangarooTwelve::new(&pattern(1681));
    k12.update(&[0xffu8; 3]);
    let mut output = [0u8; 32];
    k12.finalize(&mut output);
    assert_eq!(hex(&output), "c389e5009ae57120854c2e8c64670ac01358cf4c1baf89447a724234dc7ced74");
}

#[test]
fn kangaroo_twelve_with_customization_of_41_pow_3() {
    let mut k12 = KangarooTwelve::new(&pattern(68921));
    k12.update(&[0xffu8; 7]);
    let mut output = [0u8; 32];
    k12.finalize(&mut output);
    assert_eq!(hex(&output), "75d2f86a2e644566726b4fbcfc5657b9dbcf070c7b0dca06450ab291d7443bcf");
}
