use rgbpp_lock::error::Error;
use rgbpp_lock::schemas::{ExtraCommitmentData, RGBPPUnlock};
use rgbpp_lock::unlock::{fetch_unlock_from_witness, load_unlock};

fn unlock(tag: u8) -> RGBPPUnlock {
    RGBPPUnlock {
        version: 0,
        extra_data: ExtraCommitmentData { input_len: 1, output_len: 2 },
        btc_tx: vec![tag; 10],
        btc_tx_proof: vec![tag, tag],
    }
}

#[test]
fn proof_in_the_first_witness_is_read_directly() {
    let field = Some(unlock(7).as_bytes());
    assert_eq!(fetch_unlock_from_witness(&field, &vec![]), Ok(unlock(7)));
    let others = vec![Some(unlock(1).as_bytes()), Some(unlock(2).as_bytes())];
    assert_eq!(fetch_unlock_from_witness(&field, &others), Ok(unlock(7)));
}

#[test]
fn missing_first_witness_field_is_item_missing() {
    assert_eq!(fetch_unlock_from_witness(&None, &vec![]), Err(Error::ItemMissing));
    let others = vec![Some(unlock(1).as_bytes())];
    assert_eq!(fetch_unlock_from_witness(&None, &others), Err(Error::ItemMissing));
}

#[test]
fn four_bytes_redirect_to_the_input_they_name() {
    let fields = vec![
        Some(vec![2, 0, 0, 0]),
        Some(unlock(1).as_bytes()),
        Some(unlock(2).as_bytes()),
        Some(unlock(3).as_bytes()),
    ];
    assert_eq!(fetch_unlock_from_witness(&Some(vec![2, 0, 0, 0]), &fields), Ok(unlock(2)));
    assert_eq!(fetch_unlock_from_witness(&Some(vec![3, 0, 0, 0]), &fields), Ok(unlock(3)));
    assert_eq!(fetch_unlock_from_witness(&Some(vec![1, 0, 0, 0]), &fields), Ok(unlock(1)));
}

#[test]
fn redirect_index_is_little_endian() {
    let mut fields: Vec<Option<Vec<u8>>> = vec![None; 258];
    fields[1] = Some(unlock(1).as_bytes());
    fields[256] = Some(unlock(9).as_bytes());
    assert_eq!(fetch_unlock_from_witness(&Some(vec![0, 1, 0, 0]), &fields), Ok(unlock(9)));
    assert_eq!(fetch_unlock_from_witness(&Some(vec![1, 0, 0, 0]), &fields), Ok(unlock(1)));
}

#[test]
fn redirect_to_nothing_is_a_bad_unlock() {
    let fields = vec![Some(vec![0, 0, 0, 0]), None, Some(vec![1, 2, 3])];
    assert_eq!(
        fetch_unlock_from_witness(&Some(vec![1, 0, 0, 0]), &fields),
        Err(Error::BadRGBPPUnlock)
    );
    assert_eq!(
        fetch_unlock_from_witness(&Some(vec![2, 0, 0, 0]), &fields),
        Err(Error::BadRGBPPUnlock)
    );
    assert_eq!(
        fetch_unlock_from_witness(&Some(vec![3, 0, 0, 0]), &fields),
        Err(Error::BadRGBPPUnlock)
    );
    assert_eq!(
        fetch_unlock_from_witness(&Some(vec![0xff, 0xff, 0xff, 0xff]), &fields),
        Err(Error::BadRGBPPUnlock)
    );
}

#[test]
fn redirect_is_followed_once_only() {
    let fields = vec![Some(vec![1, 0, 0, 0]), Some(vec![2, 0, 0, 0]), Some(unlock(5).as_bytes())];
    assert_eq!(
        fetch_unlock_from_witness(&Some(vec![1, 0, 0, 0]), &fields),
        Err(Error::BadRGBPPUnlock)
    );
}

#[test]
fn field_of_another_length_is_never_a_redirect() {
    let fields = vec![Some(unlock(1).as_bytes()), Some(unlock(2).as_bytes())];
    assert_eq!(
        fetch_unlock_from_witness(&Some(vec![1, 0, 0]), &fields),
        Err(Error::BadRGBPPUnlock)
    );
    assert_eq!(
        fetch_unlock_from_witness(&Some(vec![1, 0, 0, 0, 0]), &fields),
        Err(Error::BadRGBPPUnlock)
    );
    assert_eq!(fetch_unlock_from_witness(&Some(vec![]), &fields), Err(Error::BadRGBPPUnlock));
}

#[test]
fn load_unlock_reads_the_witness_at_the_index() {
    let fields = vec![None, Some(unlock(4).as_bytes()), Some(vec![9; 40])];
    assert_eq!(load_unlock(1, &fields), Ok(unlock(4)));
    assert_eq!(load_unlock(0, &fields), Err(Error::BadRGBPPUnlock));
    assert_eq!(load_unlock(2, &fields), Err(Error::BadRGBPPUnlock));
    assert_eq!(load_unlock(3, &fields), Err(Error::BadRGBPPUnlock));
}
