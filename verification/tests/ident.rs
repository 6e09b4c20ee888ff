use sitcom::ident::{derive_activity_id, derive_auto_id, derive_staff_id, same_id};

fn counting_seed() -> [u8; 32] {
    let mut seed = [0u8; 32];
    for (i, byte) in seed.iter_mut().enumerate() {
        *byte = (i + 1) as u8;
    }
    seed
}

#[test]
fn staff_id_is_the_digest_of_seed_and_fields() {
    let id = derive_staff_id(&counting_seed(), 1, 1001, 30001, 12019);
    assert_eq!(
        id,
        [
            182, 71, 184, 251, 234, 200, 161, 36, 218, 38, 209, 243, 53, 76, 182, 220, 94, 59,
            157, 166, 184, 40, 138, 75, 81, 195, 19, 148, 60, 143, 21, 145
        ]
    );
}

#[test]
fn staff_id_takes_each_field_least_significant_byte_first() {
    let id = derive_staff_id(&[0u8; 32], 0x0102030405060708, 0x1112131415161718, 0x2122, 0x3132);
    assert_eq!(
        id,
        [
            103, 88, 55, 21, 124, 112, 23, 109, 232, 200, 54, 34, 62, 20, 180, 14, 143, 95, 174,
            52, 87, 90, 225, 137, 109, 104, 198, 171, 63, 25, 175, 21
        ]
    );
}

#[test]
fn activity_id_is_the_digest_of_seed_and_fields() {
    let id = derive_activity_id(&[0u8; 32], 7, 42, 4000000001, 22020);
    assert_eq!(
        id,
        [
            151, 125, 130, 64, 127, 80, 164, 1, 194, 30, 203, 243, 109, 147, 124, 51, 218, 1, 36,
            254, 75, 134, 224, 100, 24, 219, 69, 63, 251, 227, 38, 195
        ]
    );
}

#[test]
fn activity_id_takes_the_activity_in_four_bytes() {
    let id = derive_activity_id(
        &[0u8; 32],
        0x0102030405060708,
        0x1112131415161718,
        0x41424344,
        0x3132,
    );
    assert_eq!(
        id,
        [
            8, 128, 181, 82, 246, 53, 4, 225, 7, 91, 128, 34, 200, 96, 121, 250, 239, 64, 23, 5,
            101, 6, 249, 68, 92, 28, 175, 15, 200, 158, 7, 216
        ]
    );
}

#[test]
fn auto_id_is_the_digest_of_seed_and_fields() {
    let id = derive_auto_id(&counting_seed(), 5, 30002, 12019);
    assert_eq!(
        id,
        [
            49, 85, 188, 76, 209, 134, 169, 4, 89, 252, 148, 154, 176, 178, 55, 112, 129, 145, 167,
            206, 167, 183, 165, 25, 18, 202, 205, 5, 51, 64, 1, 248
        ]
    );
}

#[test]
fn auto_id_has_no_caller_among_its_fields() {
    let id = derive_auto_id(&[0u8; 32], 0x1112131415161718, 0x2122, 0x3132);
    assert_eq!(
        id,
        [
            249, 163, 8, 200, 45, 29, 45, 81, 212, 41, 175, 131, 149, 72, 50, 120, 27, 166, 241,
            75, 109, 140, 40, 238, 66, 10, 144, 89, 157, 124, 67, 43
        ]
    );
}

#[test]
fn the_seed_tells_identifiers_apart() {
    let first = derive_staff_id(&counting_seed(), 1, 1001, 30001, 12019);
    let second = derive_staff_id(&[0xAB; 32], 1, 1001, 30001, 12019);
    assert_eq!(
        second,
        [
            194, 55, 232, 69, 89, 170, 9, 244, 247, 234, 254, 79, 151, 126, 24, 241, 110, 216,
            145, 37, 7, 82, 232, 74, 76, 173, 99, 185, 197, 220, 184, 24
        ]
    );
    assert_ne!(first, second);
}

#[test]
fn derivation_is_repeatable() {
    let seed = counting_seed();
    assert_eq!(
        derive_activity_id(&seed, 7, 42, 4000000001, 22020),
        derive_activity_id(&seed, 7, 42, 4000000001, 22020)
    );
}

#[test]
fn each_field_reaches_the_identifier() {
    let seed = counting_seed();
    let base = derive_staff_id(&seed, 1, 2, 3, 4);
    assert_ne!(base, derive_staff_id(&seed, 9, 2, 3, 4));
    assert_ne!(base, derive_staff_id(&seed, 1, 9, 3, 4));
    assert_ne!(base, derive_staff_id(&seed, 1, 2, 9, 4));
    assert_ne!(base, derive_staff_id(&seed, 1, 2, 3, 9));
}

#[test]
fn same_id_compares_every_byte() {
    let a = [7u8; 32];
    let mut b = [7u8; 32];
    assert!(same_id(&a, &b));
    b[31] = 8;
    assert!(!same_id(&a, &b));
    b[31] = 7;
    b[0] = 6;
    assert!(!same_id(&a, &b));
}
