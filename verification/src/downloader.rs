//! The block-piece downloader: schedules pieces of blocks for download,
//! deduplicates requests, verifies checksums on receipt, and reverts timed
//! out pieces so they can be dispatched again. At most one entry ever
//! exists per `(block, piece)` pair, so no two downloads of the same piece
//! can be in flight at once.

use vstd::prelude::*;

use crate::crypto::hash_bytes;

verus! {

/// Why a downloader operation was refused.
#[derive(Clone, Copy, Debug, PartialEq, Eq, Structural)]
pub enum DownloaderErr {
    /// The downloader buffer is full.
    Full,
    /// We already have info about the block.
    AlreadyHaveInfo,
    /// The provided info is invalid.
    InvalidInfo,
    /// Checksum validation failed; the piece was reverted to pending.
    InvalidChecksum,
    /// Received a checksum that another piece already carries.
    DuplicateChecksum,
    /// The provided size is invalid.
    InvalidSize,
    /// The block header is invalid.
    InvalidBlockHeader,
    /// No piece matches the given query.
    NotFound,
    /// We already have the piece's data.
    AlreadyHaveData,
    /// The download for the given piece is already scheduled.
    AlreadyHaveDownload,
}

/// The lifecycle of a piece: created pending, in flight once dispatched,
/// verified once its bytes matched the checksum.
#[derive(Clone, Copy, Debug, PartialEq, Eq, Structural)]
pub enum PieceState {
    Pending,
    InFlight,
    Verified,
}

/// A scheduled piece of a block.
#[derive(Debug)]
pub struct Piece {
    /// The hash of the block the piece belongs to.
    pub block: Vec<u8>,
    /// The piece's index within the block.
    pub piece_id: u64,
    /// The piece's byte offset within the block.
    pub offset: u64,
    /// The piece's declared size in bytes.
    pub size: u64,
    /// The declared digest of the piece's bytes.
    pub checksum: Vec<u8>,
    /// Where the piece stands.
    pub state: PieceState,
    /// The verified bytes, once delivered.
    pub data: Option<Vec<u8>>,
}

/// The registered header of a block whose pieces may be scheduled.
#[derive(Debug)]
pub struct BlockInfo {
    /// The block's hash.
    pub block: Vec<u8>,
    /// How many pieces the block splits into.
    pub piece_count: u64,
}

/// The largest piece size the downloader accepts.
pub const MAX_PIECE_SIZE: u64 = 0x100000;

/// The index of the piece for `(block, piece_id)`, if one is scheduled.
pub open spec fn spec_find_piece(pieces: Seq<Piece>, block: Seq<u8>, piece_id: u64) -> Option<
    int,
>
    decreases pieces.len(),
{
    if pieces.len() == 0 {
        None
    } else if pieces[0].block@ == block && pieces[0].piece_id == piece_id {
        Some(0)
    } else {
        match spec_find_piece(pieces.subrange(1, pieces.len() as int), block, piece_id) {
            Some(i) => Some(i + 1),
            None => None,
        }
    }
}

/// The index of the registered block `block`, if any.
pub open spec fn spec_find_block(blocks: Seq<BlockInfo>, block: Seq<u8>) -> Option<int>
    decreases blocks.len(),
{
    if blocks.len() == 0 {
        None
    } else if blocks[0].block@ == block {
        Some(0)
    } else {
        match spec_find_block(blocks.subrange(1, blocks.len() as int), block) {
            Some(i) => Some(i + 1),
            None => None,
        }
    }
}

/// The downloader: the registered blocks and the scheduled pieces, behind
/// one shared store.
#[derive(Debug)]
pub struct Downloader {
    /// The registered block headers.
    pub blocks: Vec<BlockInfo>,
    /// The scheduled pieces.
    pub pieces: Vec<Piece>,
    /// The piece-buffer capacity.
    pub max_pieces: usize,
}

impl Downloader {
    /// Well-formed: `(block, piece)` keys are unique, checksums are
    /// unique, registered blocks are unique, and verified pieces hold
    /// their data.
    pub open spec fn wf(&self) -> bool {
        &&& forall|i: int, j: int|
            0 <= i < j < self.pieces@.len() ==> !((#[trigger] self.pieces@[i]).block@ == (
            #[trigger] self.pieces@[j]).block@ && self.pieces@[i].piece_id
                == self.pieces@[j].piece_id)
        &&& forall|i: int, j: int|
            0 <= i < j < self.pieces@.len() ==> (#[trigger] self.pieces@[i]).checksum@ != (
            #[trigger] self.pieces@[j]).checksum@
        &&& forall|i: int, j: int|
            0 <= i < j < self.blocks@.len() ==> (#[trigger] self.blocks@[i]).block@ != (
            #[trigger] self.blocks@[j]).block@
        &&& forall|i: int|
            0 <= i < self.pieces@.len() ==> ((#[trigger] self.pieces@[i]).state
                is Verified <==> self.pieces@[i].data is Some)
    }

    /// A downloader with an empty store.
    pub fn new(max_pieces: usize) -> (r: Downloader)
        ensures
            r.wf(),
            r.blocks@.len() == 0,
            r.pieces@.len() == 0,
            r.max_pieces == max_pieces,
    {
        Downloader { blocks: Vec::new(), pieces: Vec::new(), max_pieces }
    }

    /// Finds the scheduled piece for `(block, piece_id)`.
    fn find_piece(&self, block: &[u8], piece_id: u64) -> (r: Option<usize>)
        ensures
            r is Some <==> spec_find_piece(self.pieces@, block@, piece_id) is Some,
            r is Some ==> spec_find_piece(self.pieces@, block@, piece_id) == Some(r->0 as int)
                && 0 <= r->0 < self.pieces@.len() && self.pieces@[r->0 as int].block@ == block@
                && self.pieces@[r->0 as int].piece_id == piece_id,
    {
        let n = self.pieces.len();
        proof {
            assert(self.pieces@.subrange(0, n as int) =~= self.pieces@);
            if spec_find_piece(self.pieces@, block@, piece_id) is Some {
                lemma_find_piece_some(self.pieces@, block@, piece_id);
            }
        }
        let mut i: usize = 0;
        while i < n
            invariant
                0 <= i <= n == self.pieces@.len(),
                spec_find_piece(self.pieces@, block@, piece_id) == match spec_find_piece(
                    self.pieces@.subrange(i as int, n as int),
                    block@,
                    piece_id,
                ) {
                    Some(k) => Some(k + i),
                    None => None::<int>,
                },
            decreases n - i,
        {
            proof {
                let rest = self.pieces@.subrange(i as int, n as int);
                assert(rest[0] == self.pieces@[i as int]);
                assert(rest.subrange(1, rest.len() as int) =~= self.pieces@.subrange(
                    i + 1,
                    n as int,
                ));
            }
            if crate::codec::bytes_eq(self.pieces[i].block.as_slice(), block)
                && self.pieces[i].piece_id == piece_id {
                return Some(i);
            }
            i = i + 1;
        }
        proof {
            assert(self.pieces@.subrange(n as int, n as int) =~= Seq::<Piece>::empty());
        }
        None
    }

    /// Whether a piece with this checksum is already scheduled.
    fn has_checksum(&self, checksum: &[u8]) -> (r: bool)
        ensures
            r == exists|i: int|
                0 <= i < self.pieces@.len() && (#[trigger] self.pieces@[i]).checksum@
                    == checksum@,
    {
        let n = self.pieces.len();
        let mut i: usize = 0;
        while i < n
            invariant
                0 <= i <= n == self.pieces@.len(),
                forall|j: int| 0 <= j < i ==> (#[trigger] self.pieces@[j]).checksum@ != checksum@,
            decreases n - i,
        {
            if crate::codec::bytes_eq(self.pieces[i].checksum.as_slice(), checksum) {
                return true;
            }
            i = i + 1;
        }
        false
    }

    /// Whether the block is registered.
    fn find_block(&self, block: &[u8]) -> (r: Option<usize>)
        ensures
            r is Some <==> spec_find_block(self.blocks@, block@) is Some,
            r is Some ==> spec_find_block(self.blocks@, block@) == Some(r->0 as int) && 0 <= r->0
                < self.blocks@.len() && self.blocks@[r->0 as int].block@ == block@,
    {
        let n = self.blocks.len();
        proof {
            assert(self.blocks@.subrange(0, n as int) =~= self.blocks@);
            if spec_find_block(self.blocks@, block@) is Some {
                lemma_find_block_some(self.blocks@, block@);
            }
        }
        let mut i: usize = 0;
        while i < n
            invariant
                0 <= i <= n == self.blocks@.len(),
                spec_find_block(self.blocks@, block@) == match spec_find_block(
                    self.blocks@.subrange(i as int, n as int),
                    block@,
                ) {
                    Some(k) => Some(k + i),
                    None => None::<int>,
                },
            decreases n - i,
        {
            proof {
                let rest = self.blocks@.subrange(i as int, n as int);
                assert(rest[0] == self.blocks@[i as int]);
                assert(rest.subrange(1, rest.len() as int) =~= self.blocks@.subrange(
                    i + 1,
                    n as int,
                ));
            }
            if crate::codec::bytes_eq(self.blocks[i].block.as_slice(), block) {
                return Some(i);
            }
            i = i + 1;
        }
        proof {
            assert(self.blocks@.subrange(n as int, n as int) =~= Seq::<BlockInfo>::empty());
        }
        None
    }

    /// Registers a block header so its pieces can be scheduled. A header
    /// of an already-known block is `AlreadyHaveInfo`; a malformed header
    /// is `InvalidBlockHeader`.
    pub fn register_block(&mut self, block: Vec<u8>, piece_count: u64) -> (r: Result<
        (),
        DownloaderErr,
    >)
        requires
            old(self).wf(),
        ensures
            final(self).wf(),
            final(self).pieces@ == old(self).pieces@,
            final(self).max_pieces == old(self).max_pieces,
            r == spec_register_block_result(*old(self), block@, piece_count),
            r is Ok ==> final(self).blocks@ == old(self).blocks@.push(
                BlockInfo { block, piece_count },
            ),
            r is Err ==> final(self).blocks@ == old(self).blocks@,
    {
        if block.len() != 32 {
            return Err(DownloaderErr::InvalidBlockHeader);
        }
        if piece_count == 0 {
            return Err(DownloaderErr::InvalidBlockHeader);
        }
        match self.find_block(block.as_slice()) {
            Some(_) => Err(DownloaderErr::AlreadyHaveInfo),
            None => {
                let ghost olds = self.blocks@;
                self.blocks.push(BlockInfo { block, piece_count });
                proof {
                    assert(forall|j: int| 0 <= j < olds.len() ==> self.blocks@[j] == olds[j]);
                    if spec_find_block(olds, self.blocks@.last().block@) is None {
                        lemma_find_block_none(olds, self.blocks@.last().block@);
                    }
                }
                Ok(())
            },
        }
    }

    /// Schedules a piece of a registered block for download. The piece
    /// starts pending.
    pub fn schedule_piece(
        &mut self,
        block: Vec<u8>,
        piece_id: u64,
        offset: u64,
        size: u64,
        checksum: Vec<u8>,
    ) -> (r: Result<(), DownloaderErr>)
        requires
            old(self).wf(),
        ensures
            final(self).wf(),
            final(self).blocks@ == old(self).blocks@,
            final(self).max_pieces == old(self).max_pieces,
            r is Ok ==> final(self).pieces@ == old(self).pieces@.push(
                Piece {
                    block,
                    piece_id,
                    offset,
                    size,
                    checksum,
                    state: PieceState::Pending,
                    data: None,
                },
            ),
            r is Err ==> final(self).pieces@ == old(self).pieces@,
            r == spec_schedule_result(*old(self), block@, piece_id, size, checksum@),
    {
        if block.len() != 32 || checksum.len() != 32 {
            return Err(DownloaderErr::InvalidInfo);
        }
        let registered = match self.find_block(block.as_slice()) {
            Some(i) => self.blocks[i].piece_count,
            None => {
                return Err(DownloaderErr::InvalidInfo);
            },
        };
        if piece_id >= registered {
            return Err(DownloaderErr::InvalidInfo);
        }
        if size == 0 || size > MAX_PIECE_SIZE {
            return Err(DownloaderErr::InvalidSize);
        }
        match self.find_piece(block.as_slice(), piece_id) {
            Some(i) => {
                match self.pieces[i].state {
                    PieceState::Verified => Err(DownloaderErr::AlreadyHaveData),
                    _ => Err(DownloaderErr::AlreadyHaveDownload),
                }
            },
            None => {
                if self.has_checksum(checksum.as_slice()) {
                    return Err(DownloaderErr::DuplicateChecksum);
                }
                if self.pieces.len() >= self.max_pieces {
                    return Err(DownloaderErr::Full);
                }
                let ghost olds = self.pieces@;
                self.pieces.push(
                    Piece {
                        block,
                        piece_id,
                        offset,
                        size,
                        checksum,
                        state: PieceState::Pending,
                        data: None,
                    },
                );
                proof {
                    assert(forall|j: int| 0 <= j < olds.len() ==> self.pieces@[j] == olds[j]);
                    if spec_find_piece(
                        olds,
                        self.pieces@.last().block@,
                        self.pieces@.last().piece_id,
                    ) is None {
                        lemma_find_piece_none(
                            olds,
                            self.pieces@.last().block@,
                            self.pieces@.last().piece_id,
                        );
                    }
                }
                Ok(())
            },
        }
    }

    /// Marks a pending piece as dispatched to a peer: it is now in flight.
    pub fn dispatch_piece(&mut self, block: &[u8], piece_id: u64) -> (r: Result<
        (),
        DownloaderErr,
    >)
        requires
            old(self).wf(),
        ensures
            final(self).wf(),
            final(self).blocks@ == old(self).blocks@,
            final(self).max_pieces == old(self).max_pieces,
            r == spec_dispatch_result(*old(self), block@, piece_id),
            r is Err ==> final(self).pieces@ == old(self).pieces@,
            r is Ok ==> {
                let i = spec_find_piece(old(self).pieces@, block@, piece_id)->0;
                final(self).pieces@ == old(self).pieces@.update(
                    i,
                    Piece { state: PieceState::InFlight, ..old(self).pieces@[i] },
                )
            },
    {
        let i = match self.find_piece(block, piece_id) {
            Some(i) => i,
            None => {
                return Err(DownloaderErr::NotFound);
            },
        };
        match self.pieces[i].state {
            PieceState::Pending => {
                let ghost olds = self.pieces@;
                let piece = &mut self.pieces[i];
                piece.state = PieceState::InFlight;
                proof {
                    lemma_pieces_update_keys(olds, self.pieces@, i as int);
                }
                Ok(())
            },
            PieceState::InFlight => Err(DownloaderErr::AlreadyHaveDownload),
            PieceState::Verified => Err(DownloaderErr::AlreadyHaveData),
        }
    }

    /// Delivers a piece's bytes. When their digest matches the declared
    /// checksum the piece becomes verified and keeps the bytes; otherwise
    /// the piece reverts to pending so it can be dispatched to another
    /// peer.
    pub fn deliver_piece(&mut self, block: &[u8], piece_id: u64, data: Vec<u8>) -> (r: Result<
        (),
        DownloaderErr,
    >)
        requires
            old(self).wf(),
        ensures
            final(self).wf(),
            final(self).blocks@ == old(self).blocks@,
            final(self).max_pieces == old(self).max_pieces,
            spec_find_piece(old(self).pieces@, block@, piece_id) is None ==> r == Err::<
                (),
                DownloaderErr,
            >(DownloaderErr::NotFound) && final(self).pieces@ == old(self).pieces@,
            spec_find_piece(old(self).pieces@, block@, piece_id) is Some ==> {
                let i = spec_find_piece(old(self).pieces@, block@, piece_id)->0;
                if old(self).pieces@[i].state is Verified {
                    r == Err::<(), DownloaderErr>(DownloaderErr::AlreadyHaveData)
                        && final(self).pieces@ == old(self).pieces@
                } else if hash_bytes(data@) == old(self).pieces@[i].checksum@ {
                    r is Ok && final(self).pieces@ == old(self).pieces@.update(
                        i,
                        Piece {
                            state: PieceState::Verified,
                            data: Some(data),
                            ..old(self).pieces@[i]
                        },
                    )
                } else {
                    r == Err::<(), DownloaderErr>(DownloaderErr::InvalidChecksum)
                        && final(self).pieces@ == old(self).pieces@.update(
                        i,
                        Piece { state: PieceState::Pending, data: None, ..old(self).pieces@[i] },
                    )
                }
            },
    {
        let i = match self.find_piece(block, piece_id) {
            Some(i) => i,
            None => {
                return Err(DownloaderErr::NotFound);
            },
        };
        match self.pieces[i].state {
            PieceState::Verified => Err(DownloaderErr::AlreadyHaveData),
            _ => {
                let digest = crate::crypto::hash_slice(data.as_slice());
                let matches = crate::codec::bytes_eq(
                    digest.bytes.as_slice(),
                    self.pieces[i].checksum.as_slice(),
                );
                let ghost olds = self.pieces@;
                let piece = &mut self.pieces[i];
                if matches {
                    piece.state = PieceState::Verified;
                    piece.data = Some(data);
                } else {
                    piece.state = PieceState::Pending;
                    piece.data = None;
                }
                proof {
                    lemma_pieces_update_keys(olds, self.pieces@, i as int);
                }
                if matches {
                    Ok(())
                } else {
                    Err(DownloaderErr::InvalidChecksum)
                }
            },
        }
    }

    /// Reverts an in-flight piece that timed out to pending, so it can be
    /// dispatched to another peer.
    pub fn timeout_piece(&mut self, block: &[u8], piece_id: u64) -> (r: Result<
        (),
        DownloaderErr,
    >)
        requires
            old(self).wf(),
        ensures
            final(self).wf(),
            final(self).blocks@ == old(self).blocks@,
            final(self).max_pieces == old(self).max_pieces,
            spec_find_piece(old(self).pieces@, block@, piece_id) is None ==> r == Err::<
                (),
                DownloaderErr,
            >(DownloaderErr::NotFound) && final(self).pieces@ == old(self).pieces@,
            spec_find_piece(old(self).pieces@, block@, piece_id) is Some ==> {
                let i = spec_find_piece(old(self).pieces@, block@, piece_id)->0;
                if old(self).pieces@[i].state is InFlight {
                    r is Ok && final(self).pieces@ == old(self).pieces@.update(
                        i,
                        Piece { state: PieceState::Pending, ..old(self).pieces@[i] },
                    )
                } else {
                    r == Err::<(), DownloaderErr>(DownloaderErr::NotFound) && final(self).pieces@
                        == old(self).pieces@
                }
            },
    {
        let i = match self.find_piece(block, piece_id) {
            Some(i) => i,
            None => {
                return Err(DownloaderErr::NotFound);
            },
        };
        match self.pieces[i].state {
            PieceState::InFlight => {
                let ghost olds = self.pieces@;
                let piece = &mut self.pieces[i];
                piece.state = PieceState::Pending;
                proof {
                    lemma_pieces_update_keys(olds, self.pieces@, i as int);
                }
                Ok(())
            },
            _ => Err(DownloaderErr::NotFound),
        }
    }

    /// The state of the scheduled piece for `(block, piece_id)`, if any.
    pub fn piece_state(&self, block: &[u8], piece_id: u64) -> (r: Option<PieceState>)
        ensures
            match spec_find_piece(self.pieces@, block@, piece_id) {
                Some(i) => r == Some(self.pieces@[i].state),
                None => r is None,
            },
    {
        match self.find_piece(block, piece_id) {
            Some(i) => Some(self.pieces[i].state),
            None => None,
        }
    }
}

/// What `register_block` returns, by case.
pub open spec fn spec_register_block_result(
    d: Downloader,
    block: Seq<u8>,
    piece_count: u64,
) -> Result<(), DownloaderErr> {
    if block.len() != 32 || piece_count == 0 {
        Err(DownloaderErr::InvalidBlockHeader)
    } else if spec_find_block(d.blocks@, block) is Some {
        Err(DownloaderErr::AlreadyHaveInfo)
    } else {
        Ok(())
    }
}

/// What `schedule_piece` returns, by case.
pub open spec fn spec_schedule_result(
    d: Downloader,
    block: Seq<u8>,
    piece_id: u64,
    size: u64,
    checksum: Seq<u8>,
) -> Result<(), DownloaderErr> {
    if block.len() != 32 || checksum.len() != 32 {
        Err(DownloaderErr::InvalidInfo)
    } else if spec_find_block(d.blocks@, block) is None {
        Err(DownloaderErr::InvalidInfo)
    } else if piece_id >= d.blocks@[spec_find_block(d.blocks@, block)->0].piece_count {
        Err(DownloaderErr::InvalidInfo)
    } else if size == 0 || size > MAX_PIECE_SIZE {
        Err(DownloaderErr::InvalidSize)
    } else if spec_find_piece(d.pieces@, block, piece_id) is Some {
        if d.pieces@[spec_find_piece(d.pieces@, block, piece_id)->0].state is Verified {
            Err(DownloaderErr::AlreadyHaveData)
        } else {
            Err(DownloaderErr::AlreadyHaveDownload)
        }
    } else if exists|i: int|
        0 <= i < d.pieces@.len() && (#[trigger] d.pieces@[i]).checksum@ == checksum {
        Err(DownloaderErr::DuplicateChecksum)
    } else if d.pieces@.len() >= d.max_pieces {
        Err(DownloaderErr::Full)
    } else {
        Ok(())
    }
}

/// What `dispatch_piece` returns, by case.
pub open spec fn spec_dispatch_result(d: Downloader, block: Seq<u8>, piece_id: u64) -> Result<
    (),
    DownloaderErr,
> {
    match spec_find_piece(d.pieces@, block, piece_id) {
        None => Err(DownloaderErr::NotFound),
        Some(i) => match d.pieces@[i].state {
            PieceState::Pending => Ok(()),
            PieceState::InFlight => Err(DownloaderErr::AlreadyHaveDownload),
            PieceState::Verified => Err(DownloaderErr::AlreadyHaveData),
        },
    }
}

/// A found piece index is in range and names the key.
pub proof fn lemma_find_piece_some(pieces: Seq<Piece>, block: Seq<u8>, piece_id: u64)
    requires
        spec_find_piece(pieces, block, piece_id) is Some,
    ensures
        0 <= spec_find_piece(pieces, block, piece_id)->0 < pieces.len(),
        pieces[spec_find_piece(pieces, block, piece_id)->0].block@ == block,
        pieces[spec_find_piece(pieces, block, piece_id)->0].piece_id == piece_id,
    decreases pieces.len(),
{
    if pieces.len() > 0 && !(pieces[0].block@ == block && pieces[0].piece_id == piece_id) {
        let rest = pieces.subrange(1, pieces.len() as int);
        lemma_find_piece_some(rest, block, piece_id);
    }
}

/// A found block index is in range and names the block.
pub proof fn lemma_find_block_some(blocks: Seq<BlockInfo>, block: Seq<u8>)
    requires
        spec_find_block(blocks, block) is Some,
    ensures
        0 <= spec_find_block(blocks, block)->0 < blocks.len(),
        blocks[spec_find_block(blocks, block)->0].block@ == block,
    decreases blocks.len(),
{
    if blocks.len() > 0 && blocks[0].block@ != block {
        let rest = blocks.subrange(1, blocks.len() as int);
        lemma_find_block_some(rest, block);
    }
}

/// An absent key is absent at every index.
proof fn lemma_find_piece_none(pieces: Seq<Piece>, block: Seq<u8>, piece_id: u64)
    requires
        spec_find_piece(pieces, block, piece_id) is None,
    ensures
        forall|i: int|
            0 <= i < pieces.len() ==> !((#[trigger] pieces[i]).block@ == block
                && pieces[i].piece_id == piece_id),
    decreases pieces.len(),
{
    if pieces.len() > 0 {
        let rest = pieces.subrange(1, pieces.len() as int);
        lemma_find_piece_none(rest, block, piece_id);
        assert(forall|i: int| 1 <= i < pieces.len() ==> pieces[i] == rest[i - 1]);
    }
}

/// An absent block is absent at every index.
proof fn lemma_find_block_none(blocks: Seq<BlockInfo>, block: Seq<u8>)
    requires
        spec_find_block(blocks, block) is None,
    ensures
        forall|i: int| 0 <= i < blocks.len() ==> (#[trigger] blocks[i]).block@ != block,
    decreases blocks.len(),
{
    if blocks.len() > 0 {
        let rest = blocks.subrange(1, blocks.len() as int);
        lemma_find_block_none(rest, block);
        assert(forall|i: int| 1 <= i < blocks.len() ==> blocks[i] == rest[i - 1]);
    }
}

/// Updating one piece's state or data leaves every key and checksum in
/// place, so the store stays well-formed as long as the verified-data link
/// is kept.
proof fn lemma_pieces_update_keys(olds: Seq<Piece>, news: Seq<Piece>, i: int)
    requires
        0 <= i < olds.len(),
        news.len() == olds.len(),
        forall|j: int| 0 <= j < olds.len() && j != i ==> news[j] == olds[j],
        news[i].block@ == olds[i].block@,
        news[i].piece_id == olds[i].piece_id,
        news[i].checksum@ == olds[i].checksum@,
    ensures
        forall|j: int| 0 <= j < news.len() ==> (#[trigger] news[j]).block@ == olds[j].block@
            && news[j].piece_id == olds[j].piece_id && news[j].checksum@ == olds[j].checksum@,
{
}

/// Downloader exclusivity: the store never holds two entries for the same
/// `(block, piece)` pair, so no two download requests for the same piece
/// can both be in flight.
pub proof fn lemma_downloader_exclusivity(d: Downloader, i: int, j: int)
    requires
        d.wf(),
        0 <= i < d.pieces@.len(),
        0 <= j < d.pieces@.len(),
        i != j,
        d.pieces@[i].state is InFlight,
        d.pieces@[j].state is InFlight,
    ensures
        !(d.pieces@[i].block@ == d.pieces@[j].block@ && d.pieces@[i].piece_id
            == d.pieces@[j].piece_id),
{
    if i < j {
    } else {
    }
}

} // verus!
