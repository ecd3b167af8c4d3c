use highway::{HighwayHash, HighwayHasher, Key};
use ocaml_lwt_interop::promise::{
    combine_halves, promise_ocaml_desc, promise_unique_id, u128_le_bytes,
};
use std::hash::{Hash, Hasher};

const KEY: [u64; 4] = [
    0x0706_0504_0302_0100,
    0x0f0e_0d0c_0b0a_0908,
    0x1716_1514_1312_1110,
    0x1f1e_1d1c_1b1a_1918,
];

#[test]
fn promise_type_text_wraps_the_value_type() {
    assert_eq!(promise_ocaml_desc("int"), "((int) Lwt.t)");
    assert_eq!(promise_ocaml_desc("'a list"), "(('a list) Lwt.t)");
    assert_eq!(promise_ocaml_desc(""), "(() Lwt.t)");
}

#[test]
fn le_bytes_least_significant_first() {
    let b = u128_le_bytes(0x0f0e_0d0c_0b0a_0908_0706_0504_0302_0100);
    assert_eq!(b, (0u8..16).collect::<Vec<u8>>());
    assert_eq!(u128_le_bytes(0), vec![0u8; 16]);
    assert_eq!(u128_le_bytes(u128::MAX), vec![0xffu8; 16]);
    assert_eq!(u128_le_bytes(258), {
        let mut v = vec![0u8; 16];
        v[0] = 2;
        v[1] = 1;
        v
    });
}

#[test]
fn halves_join_low_first() {
    assert_eq!(combine_halves([1, 2]), 1 + (2u128 << 64));
    assert_eq!(combine_halves([u64::MAX, u64::MAX]), u128::MAX);
    assert_eq!(combine_halves([0, 0]), 0);
}

#[test]
fn unique_id_is_highway_of_the_inner_id() {
    let inner: u128 = 0x1234_5678_9abc_def0_0fed_cba9_8765_4321;
    let expected = HighwayHasher::new(Key(KEY)).hash128(&inner.to_le_bytes());
    let id = promise_unique_id(KEY, inner);
    assert_eq!(id, combine_halves(expected));
    assert_ne!(id, inner);
    // Same as feeding the value through `Hash` on this little-endian target.
    let mut h = HighwayHasher::new(Key(KEY));
    inner.hash(&mut h);
    assert_ne!(h.finish(), 0);
    assert_eq!(id, combine_halves(h.finalize128()));
}

#[test]
fn unique_id_depends_on_key_and_inner_id() {
    let a = promise_unique_id(KEY, 1);
    assert_eq!(a, promise_unique_id(KEY, 1));
    assert_ne!(a, promise_unique_id(KEY, 2));
    assert_ne!(a, promise_unique_id([0, 0, 0, 0], 1));
}
