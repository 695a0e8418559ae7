use fleetfs::checksum::{checksums_agree, data_checksum};
use fleetfs::types::ErrorCode;

fn hex(b: &[u8]) -> String {
    b.iter().map(|x| format!("{:02x}", x)).collect()
}

#[test]
fn checksum_hashes_files_in_order() {
    let files = vec![b"a".to_vec(), b"bc".to_vec()];
    assert_eq!(hex(&data_checksum(&files)), "ba7816bf8f01cfea414140de5dae2223b00361a396177a9cb410ff61f20015ad");
    let swapped = vec![b"bc".to_vec(), b"a".to_vec()];
    assert_ne!(data_checksum(&swapped), data_checksum(&files));
}

#[test]
fn checksum_of_empty_data() {
    assert_eq!(hex(&data_checksum(&vec![])), "e3b0c44298fc1c149afbf4c8996fb92427ae41e4649b934ca495991b7852b855");
}

#[test]
fn fsck_compares_checksums() {
    let local = data_checksum(&vec![b"x".to_vec()]);
    assert_eq!(checksums_agree(&local, &vec![local.clone(), local.clone()]), Ok(()));
    assert_eq!(checksums_agree(&local, &vec![]), Ok(()));
    let other = data_checksum(&vec![b"y".to_vec()]);
    assert_eq!(checksums_agree(&local, &vec![local.clone(), other]), Err(ErrorCode::Corrupted));
}
