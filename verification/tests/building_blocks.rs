use fast_keccak::encoding::{left_encode, length_encode, right_encode};
use fast_keccak::keccakf::{keccakf, keccakp};
use fast_keccak::sponge::{Buffer, KeccakF, KeccakP, KeccakState, Permutation};
use fast_keccak::bits_to_rate;

#[test]
fn keccakf_of_the_zero_state() {
    let mut state = [0u64; 25];
    keccakf(&mut state);
    let first: [u64; 25] = [
        0xf1258f7940e1dde7,
        0x84d5ccf933c0478a,
        0xd598261ea65aa9ee,
        0xbd1547306f80494d,
        0x8b284e056253d057,
        0xff97a42d7f8e6fd4,
        0x90fee5a0a44647c4,
        0x8c5bda0cd6192e76,
        0xad30a6f71b19059c,
        0x30935ab7d08ffc64,
        0xeb5aa93f2317d635,
        0xa9a6e6260d712103,
        0x81a57c16dbcf555f,
        0x43b831cd0347c826,
        0x01f22f1a11a5569f,
        0x05e5635a21d9ae61,
        0x64befef28cc970f2,
        0x613670957bc46611,
        0xb87c5a554fd00ecb,
        0x8c3ee88a1ccf32c8,
        0x940c7922ae3a2614,
        0x1841f924a2c509e4,
        0x16f53526e70465c2,
        0x75f644e97f30a13b,
        0xeaf1ff7b5ceca249,
    ];
    assert_eq!(state, first);
    keccakf(&mut state);
    let second: [u64; 25] = [
        0x2d5c954df96ecb3c,
        0x6a332cd07057b56d,
        0x093d8d1270d76b6c,
        0x8a20d9b25569d094,
        0x4f9c4f99e5e7f156,
        0xf957b9a2da65fb38,
        0x85773dae1275af0d,
        0xfaf4f247c3d810f7,
        0x1f1b9ee6f79a8759,
        0xe4fecc0fee98b425,
        0x68ce61b6b9ce68a1,
        0xdeea66c4ba8f974f,
        0x33c43d836eafb1f5,
        0xe00654042719dbd9,
        0x7cf8a9f009831265,
        0xfd5449a6bf174743,
        0x97ddad33d8994b40,
        0x48ead5fc5d0be774,
        0xe3b8c8ee55b7b03c,
        0x91a0226e649e42e9,
        0x900e3129e7badd7b,
        0x202a9ec5faa3cce8,
        0x5b3402464e1c3db6,
        0x609f4e62a44c1059,
        0x20d06cd26a8fbf5c,
    ];
    assert_eq!(state, second);
}

#[test]
fn keccakp_of_the_zero_state() {
    let mut state = [0u64; 25];
    keccakp(&mut state);
    let want: [u64; 25] = [
        0x8e5e5438b9a78617,
        0xd9cd6a50f259d01e,
        0x87b8e7c652a91f35,
        0x1093e067cde4e0c5,
        0xb033ab90f2d95a45,
        0xe0a72f72a8dd1a45,
        0xc53780aa14672f9c,
        0x3edd47f50051071d,
        0xb3a31d310c178acc,
        0x79b586a59257aaa0,
        0xbc4a7c3db3b1f99b,
        0x68874063e68a6793,
        0x5c6c03332e0e2566,
        0x9caa1202b9f030da,
        0x5f3b9a782bcf7a9f,
        0xe536c1e061ae7923,
        0x6de9b618b73c87ec,
        0x2abed1f170918ac2,
        0x6aabbd53daed24b7,
        0xbfc1416a2c2ee15a,
        0xc6cfe036b90952af,
        0x45503617dc7060d7,
        0x625611b2c29f7ae4,
        0xd43671db2c30647a,
        0xcffd0d76222ca01c,
    ];
    assert_eq!(state, want);
}

#[test]
fn permutations_execute_on_a_buffer() {
    let mut a = Buffer::new();
    let mut b = [0u64; 25];
    KeccakF::execute(&mut a);
    keccakf(&mut b);
    assert_eq!(a.lanes, b);
    let mut a = Buffer::new();
    let mut b = [0u64; 25];
    KeccakP::execute(&mut a);
    keccakp(&mut b);
    assert_eq!(a.lanes, b);
}

#[test]
fn buffer_bytes_are_little_endian_within_lanes() {
    let mut buffer = Buffer::new();
    buffer.xorin(&[0xaa, 0x01, 0x02, 0x03], 1, 7, 3);
    assert_eq!(buffer.lanes[0], 0x0100_0000_0000_0000);
    assert_eq!(buffer.lanes[1], 0x0302);
    buffer.xorin(&[0xff], 0, 8, 1);
    assert_eq!(buffer.lanes[1], 0x03fd);
    let mut out = [0x55u8; 6];
    buffer.setout(&mut out, 1, 6, 4);
    assert_eq!(out, [0x55, 0x00, 0x01, 0xfd, 0x03, 0x55]);
}

#[test]
fn buffer_pad_marks_the_cursor_and_the_end_of_the_rate() {
    let mut buffer = Buffer::new();
    buffer.pad(3, 0x06, 136);
    assert_eq!(buffer.lanes[0], 0x0600_0000);
    assert_eq!(buffer.lanes[16], 0x8000_0000_0000_0000);
    let mut buffer = Buffer::new();
    buffer.pad(135, 0x06, 136);
    assert_eq!(buffer.lanes[16], 0x8600_0000_0000_0000);
    let mut buffer = Buffer::new();
    buffer.pad(0, 0x1f, 1);
    assert_eq!(buffer.lanes[0], 0x9f);
}

#[test]
fn sponge_state_machine() {
    let mut state: KeccakState<KeccakF> = KeccakState::new(136, 0x06);
    assert!(!state.is_squeezing());
    assert_eq!(state.offset(), 0);
    state.update(&[0u8; 135]);
    assert_eq!(state.offset(), 135);
    state.update(&[0u8; 1]);
    assert_eq!(state.offset(), 0);
    state.update(&[0u8; 300]);
    assert_eq!(state.offset(), 300 - 2 * 136);
    state.pad();
    assert!(state.is_squeezing());
    assert_eq!(state.offset(), 0);
    let mut out = [0u8; 137];
    state.squeeze(&mut out);
    assert_eq!(state.offset(), 1);
}

#[test]
fn fill_block_equals_absorbing_zero_bytes_to_the_end_of_the_block() {
    let mut a: KeccakState<KeccakF> = KeccakState::new(168, 0x1f);
    a.update(b"abc");
    a.fill_block();
    let mut b: KeccakState<KeccakF> = KeccakState::new(168, 0x1f);
    b.update(b"abc");
    b.update(&[0u8; 165]);
    let mut x = [0u8; 32];
    let mut y = [0u8; 32];
    a.finalize(&mut x);
    b.finalize(&mut y);
    assert_eq!(x, y);
}

#[test]
fn rates_of_the_security_levels() {
    assert_eq!(bits_to_rate(128), 168);
    assert_eq!(bits_to_rate(224), 144);
    assert_eq!(bits_to_rate(256), 136);
    assert_eq!(bits_to_rate(384), 104);
    assert_eq!(bits_to_rate(512), 72);
}

#[test]
fn left_encode_puts_the_count_in_front() {
    assert_eq!(left_encode(0).value(), &[1, 0]);
    assert_eq!(left_encode(1).value(), &[1, 1]);
    assert_eq!(left_encode(168).value(), &[1, 168]);
    assert_eq!(left_encode(255).value(), &[1, 255]);
    assert_eq!(left_encode(256).value(), &[2, 1, 0]);
    assert_eq!(left_encode(0x010203).value(), &[3, 1, 2, 3]);
    assert_eq!(
        left_encode(0xffff_ffff_ffff_ffff).value(),
        &[8, 255, 255, 255, 255, 255, 255, 255, 255]
    );
}

#[test]
fn right_encode_puts_the_count_behind() {
    assert_eq!(right_encode(0).value(), &[0, 1]);
    assert_eq!(right_encode(1).value(), &[1, 1]);
    assert_eq!(right_encode(256).value(), &[1, 0, 2]);
    assert_eq!(right_encode(0x0102030405).value(), &[1, 2, 3, 4, 5, 5]);
    assert_eq!(
        right_encode(0xffff_ffff_ffff_ffff).value(),
        &[255, 255, 255, 255, 255, 255, 255, 255, 8]
    );
}

#[test]
fn length_encode_of_zero_is_one_zero_byte() {
    assert_eq!(length_encode(0).value(), &[0]);
    assert_eq!(length_encode(1).value(), &[1, 1]);
    assert_eq!(length_encode(12).value(), &[12, 1]);
    assert_eq!(length_encode(65538).value(), &[1, 0, 2, 3]);
    assert_eq!(
        length_encode(0xffff_ffff_ffff_ffff).value(),
        &[255, 255, 255, 255, 255, 255, 255, 255, 8]
    );
}
