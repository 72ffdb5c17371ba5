use spotify_backup::request_id::RequestId;
use spotify_backup::shard::{thread_id, thread_of};

#[test]
fn known_identifiers_have_known_threads() {
    let id_1 = RequestId::parse_str("35027614-7cc0-4d51-81f5-fbcc5eeae2e5").unwrap();
    let id_2 = RequestId::parse_str("d2c70a33-c1a2-4ee1-9061-f8aa80262466").unwrap();
    assert_eq!(thread_id(&id_1, 3), 1);
    assert_eq!(thread_id(&id_2, 3), 2);
    assert_eq!(id_1.text(), "35027614-7cc0-4d51-81f5-fbcc5eeae2e5");
    assert_eq!(id_1.as_u128(), 0x350276147cc04d5181f5fbcc5eeae2e5u128);
}

#[test]
fn a_hash_belongs_to_the_thread_of_its_remainder() {
    assert_eq!(thread_of(0, 3), 0);
    assert_eq!(thread_of(7, 3), 1);
    assert_eq!(thread_of(8, 3), 2);
    assert_eq!(thread_of(u64::MAX, 1), 0);
    assert_eq!(thread_of(u64::MAX, u32::MAX), (u64::MAX % (u32::MAX as u64)) as u32);
    assert_eq!(thread_of(5, u32::MAX), 5);
}

#[test]
fn every_identifier_belongs_to_one_thread_and_stays_there() {
    for total in [1u32, 2, 3, 7, 64] {
        for n in 0..50u128 {
            let id = RequestId::from_u128(n * 0x0123_4567_89ab_cdef_0011_2233_4455_6677 + n);
            let thread = thread_id(&id, total);
            assert!(thread < total);
            assert_eq!(thread_id(&id, total), thread);
        }
    }
}
