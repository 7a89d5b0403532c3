use purple_core::crypto::hash_slice;
use purple_core::downloader::{Downloader, DownloaderErr, PieceState};

fn checksum_of(data: &[u8]) -> Vec<u8> {
    hash_slice(data).to_vec()
}

fn block_hash(tag: &[u8]) -> Vec<u8> {
    hash_slice(tag).to_vec()
}

#[test]
fn dedupe_lifecycle() {
    let mut d = Downloader::new(16);
    let h = block_hash(b"block 1");
    let data = vec![1, 2, 3, 4];
    let sum = checksum_of(&data);

    d.register_block(h.clone(), 1).unwrap();
    assert_eq!(d.schedule_piece(h.clone(), 0, 0, 4, sum.clone()), Ok(()));

    // Scheduling the same piece again: the download is already scheduled.
    assert_eq!(
        d.schedule_piece(h.clone(), 0, 0, 4, sum.clone()),
        Err(DownloaderErr::AlreadyHaveDownload)
    );

    // Deliver the correct bytes: the piece becomes verified.
    d.dispatch_piece(&h, 0).unwrap();
    assert_eq!(d.deliver_piece(&h, 0, data), Ok(()));
    assert_eq!(d.piece_state(&h, 0), Some(PieceState::Verified));

    // Scheduling once more: we already have the data.
    assert_eq!(
        d.schedule_piece(h.clone(), 0, 0, 4, sum),
        Err(DownloaderErr::AlreadyHaveData)
    );
}

#[test]
fn admission_errors() {
    let mut d = Downloader::new(1);
    let h = block_hash(b"block 1");
    let other = block_hash(b"block 2");

    // A malformed header and a duplicate registration.
    assert_eq!(d.register_block(vec![1, 2, 3], 4), Err(DownloaderErr::InvalidBlockHeader));
    assert_eq!(d.register_block(h.clone(), 0), Err(DownloaderErr::InvalidBlockHeader));
    assert_eq!(d.register_block(h.clone(), 4), Ok(()));
    assert_eq!(d.register_block(h.clone(), 4), Err(DownloaderErr::AlreadyHaveInfo));

    // Structural piece checks.
    assert_eq!(
        d.schedule_piece(vec![1], 0, 0, 4, checksum_of(b"a")),
        Err(DownloaderErr::InvalidInfo)
    );
    assert_eq!(
        d.schedule_piece(other.clone(), 0, 0, 4, checksum_of(b"a")),
        Err(DownloaderErr::InvalidInfo)
    );
    assert_eq!(
        d.schedule_piece(h.clone(), 9, 0, 4, checksum_of(b"a")),
        Err(DownloaderErr::InvalidInfo)
    );
    assert_eq!(
        d.schedule_piece(h.clone(), 0, 0, 0, checksum_of(b"a")),
        Err(DownloaderErr::InvalidSize)
    );

    // A checksum another piece already carries, and a full buffer.
    assert_eq!(d.schedule_piece(h.clone(), 0, 0, 4, checksum_of(b"a")), Ok(()));
    assert_eq!(
        d.schedule_piece(h.clone(), 1, 4, 4, checksum_of(b"a")),
        Err(DownloaderErr::DuplicateChecksum)
    );
    assert_eq!(
        d.schedule_piece(h.clone(), 1, 4, 4, checksum_of(b"b")),
        Err(DownloaderErr::Full)
    );
}

#[test]
fn checksum_failure_reverts_to_pending() {
    let mut d = Downloader::new(16);
    let h = block_hash(b"block 1");
    let data = vec![1, 2, 3, 4];
    let sum = checksum_of(&data);

    d.register_block(h.clone(), 1).unwrap();
    d.schedule_piece(h.clone(), 0, 0, 4, sum).unwrap();
    d.dispatch_piece(&h, 0).unwrap();
    assert_eq!(d.piece_state(&h, 0), Some(PieceState::InFlight));

    // Wrong bytes: the piece reverts to pending and can be dispatched to
    // another peer.
    assert_eq!(
        d.deliver_piece(&h, 0, vec![9, 9, 9, 9]),
        Err(DownloaderErr::InvalidChecksum)
    );
    assert_eq!(d.piece_state(&h, 0), Some(PieceState::Pending));
    assert_eq!(d.dispatch_piece(&h, 0), Ok(()));
    assert_eq!(d.deliver_piece(&h, 0, data), Ok(()));
}

#[test]
fn timeouts_and_not_found() {
    let mut d = Downloader::new(16);
    let h = block_hash(b"block 1");
    d.register_block(h.clone(), 2).unwrap();
    d.schedule_piece(h.clone(), 0, 0, 4, checksum_of(b"a")).unwrap();

    assert_eq!(d.timeout_piece(&h, 0), Err(DownloaderErr::NotFound));
    d.dispatch_piece(&h, 0).unwrap();
    assert_eq!(d.dispatch_piece(&h, 0), Err(DownloaderErr::AlreadyHaveDownload));
    assert_eq!(d.timeout_piece(&h, 0), Ok(()));
    assert_eq!(d.piece_state(&h, 0), Some(PieceState::Pending));

    assert_eq!(d.dispatch_piece(&h, 1), Err(DownloaderErr::NotFound));
    assert_eq!(d.deliver_piece(&h, 1, vec![]), Err(DownloaderErr::NotFound));
    assert_eq!(d.piece_state(&h, 1), None);
}
