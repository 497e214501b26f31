//! Sending and receiving files, one packet and one answer at a time.
//!
//! A transfer starts with a list of what is coming. Then the contents follow, file after
//! file in pieces, each file closed by its digest, and a last packet asks to keep what was
//! received. Whoever drives a transfer reads and writes the files.

use sha2::Digest;
use vstd::prelude::*;
use vstd::utf8::encode_utf8;

use crate::encryption::sha256_digest;
use crate::types::DeviceId;

verus! {

/// How many files and directories a transfer may have.
pub const MAX_FILE_ENTRIES: usize = 1024;

/// The longest piece of a file.
pub const FILE_CHUNK_BYTES: usize = 65536;

/// The longest path within a transfer, in bytes.
pub const MAX_PATH_BYTES: usize = 1024;

/// A file or a directory within a transfer.
#[derive(Debug, PartialEq, Eq)]
pub struct FileEntry {
    /// Where it stands, from the top of the transfer, with slashes in between.
    pub path: String,
    pub size: u64,
    pub directory: bool,
}

impl Clone for FileEntry {
    fn clone(&self) -> (copy: Self)
        ensures
            copy == *self,
    {
        FileEntry { path: self.path.clone(), size: self.size, directory: self.directory }
    }
}

/// Where on the peer's screen files were dropped.
#[derive(Debug, Clone, Copy, PartialEq, Eq, Structural)]
pub struct FolderDropPoint {
    pub x: i32,
    pub y: i32,
}

/// What a packet says.
#[derive(Debug)]
#[allow(inconsistent_fields)]
pub enum FileTransferBody {
    Offer { entries: Vec<FileEntry> },
    OfferToFolder { entries: Vec<FileEntry>, drop: FolderDropPoint },
    Accepted,
    Chunk { index: u32, offset: u64, data: Vec<u8> },
    FileEnd { index: u32, sha256: Vec<u8> },
    Received,
    Complete,
    Completed,
    Cancel { reason: String },
}

/// A packet of a transfer.
#[derive(Debug)]
pub struct FileTransferPacket {
    pub transfer_id: DeviceId,
    pub sequence: u64,
    pub body: FileTransferBody,
}

/// What a packet says, as a value.
pub enum BodyView {
    Offer { entries: Seq<FileEntry>, drop: Option<FolderDropPoint> },
    Accepted,
    Chunk { index: u32, offset: u64, data: Seq<u8> },
    FileEnd { index: u32, sha256: Seq<u8> },
    Received,
    Complete,
    Completed,
    Cancel { reason: Seq<char> },
}

/// A packet, as a value.
pub struct PacketView {
    pub sequence: u64,
    pub body: BodyView,
}

impl View for FileTransferBody {
    type V = BodyView;

    open spec fn view(&self) -> BodyView {
        match *self {
            FileTransferBody::Offer { entries } => BodyView::Offer { entries: entries@, drop: None },
            FileTransferBody::OfferToFolder { entries, drop } => BodyView::Offer {
                entries: entries@,
                drop: Some(drop),
            },
            FileTransferBody::Accepted => BodyView::Accepted,
            FileTransferBody::Chunk { index, offset, data } => BodyView::Chunk {
                index,
                offset,
                data: data@,
            },
            FileTransferBody::FileEnd { index, sha256 } => BodyView::FileEnd {
                index,
                sha256: sha256@,
            },
            FileTransferBody::Received => BodyView::Received,
            FileTransferBody::Complete => BodyView::Complete,
            FileTransferBody::Completed => BodyView::Completed,
            FileTransferBody::Cancel { reason } => BodyView::Cancel { reason: reason@ },
        }
    }
}

impl View for FileTransferPacket {
    type V = PacketView;

    open spec fn view(&self) -> PacketView {
        PacketView { sequence: self.sequence, body: self.body@ }
    }
}

/// Why a transfer comes to nothing.
#[derive(Debug, Clone, Copy, PartialEq, Eq, Structural)]
pub enum TransferError {
    /// The list is empty or too long.
    EntryCount,
    /// A path leads out of the transfer, or is none.
    UnsafePath,
    /// A directory has a size.
    SizedDirectory,
    /// The sizes together are beyond counting.
    TotalTooLarge,
    /// There is no list where one belongs.
    MissingManifest,
    /// The peer has refused.
    RefusedByPeer,
    /// The peer's answer is not the one that belongs here.
    InvalidReply,
    /// A file is not any more what the list says.
    SourceChanged,
    /// A packet is out of order.
    WrongOrder,
    /// A piece does not belong where it says.
    ChunkOutOfRange,
    /// A file is not what its sender has read.
    IntegrityMismatch,
    /// A packet has no place here.
    IllegalState,
    /// The transfer does not end where it should.
    NotFinished,
    /// Too many transfers are going on.
    TooManyTransfers,
    /// A transfer of that identifier is known.
    DuplicateTransfer,
    /// No transfer of that identifier is known.
    UnknownTransfer,
    /// The peer is not connected.
    NotConnected,
    /// The peer takes no files.
    Unsupported,
    /// Files cannot be dropped into a folder here.
    FolderUnsupported,
    /// Files cannot be dropped into a folder there.
    FolderUnsupportedByPeer,
    /// A transfer does not start with its first packet.
    InvalidStart,
    /// A path is not absolute.
    RelativeSource,
    /// Something is neither a file nor a directory.
    NotRegular,
    /// Directories lie too deep in each other.
    TooDeep,
    /// There are more files and directories than a transfer may have.
    TooManyEntries,
    /// A name cannot be written in the list.
    InvalidName,
    /// The connection that the transfer goes over is gone.
    ConnectionLost,
    /// The peer is reached through another connection by now.
    ConnectionReplaced,
}

impl TransferError {
    /// The error in the words that the user is shown.
    pub open spec fn words(self) -> Seq<char> {
        match self {
            TransferError::EntryCount => "请拖入 1–1024 个文件或目录"@,
            TransferError::UnsafePath => "文件路径不合法"@,
            TransferError::SizedDirectory => "目录不能带有大小"@,
            TransferError::TotalTooLarge => "文件总大小超出范围"@,
            TransferError::MissingManifest => "缺少文件清单"@,
            TransferError::RefusedByPeer => "远端拒绝文件投放"@,
            TransferError::InvalidReply => "无效的文件传输确认"@,
            TransferError::SourceChanged => "源文件在传输期间发生变化"@,
            TransferError::WrongOrder => "文件块顺序错误"@,
            TransferError::ChunkOutOfRange => "文件块超出声明范围"@,
            TransferError::IntegrityMismatch => "文件完整性校验失败"@,
            TransferError::IllegalState => "不合法的文件传输状态"@,
            TransferError::NotFinished => "文件传输未完整结束"@,
            TransferError::TooManyTransfers => "最多同时进行 4 个文件传输"@,
            TransferError::DuplicateTransfer => "重复的文件传输标识"@,
            TransferError::UnknownTransfer => "传输不存在"@,
            TransferError::NotConnected => "目标设备尚未连接"@,
            TransferError::Unsupported => "目标设备不支持文件拖拽，请先更新远端 R-ShareMouse"@,
            TransferError::FolderUnsupported => "此设备没有可用的文件夹落点识别服务"@,
            TransferError::FolderUnsupportedByPeer => "远端不支持文件夹跨屏拖拽，请更新远端或检查平台支持"@,
            TransferError::InvalidStart => "无效的文件传输起始序号"@,
            TransferError::RelativeSource => "拖入文件必须使用绝对路径"@,
            TransferError::NotRegular => "只支持普通文件和目录，不发送符号链接"@,
            TransferError::TooDeep => "目录嵌套过深"@,
            TransferError::TooManyEntries => "文件和目录总数不能超过 1024"@,
            TransferError::InvalidName => "文件名不是有效的 Unicode"@,
            TransferError::ConnectionLost => "设备连接已断开"@,
            TransferError::ConnectionReplaced => "设备连接已更换，请重新拖入文件"@,
        }
    }

    /// The error in the words that the user is shown.
    pub fn text(self) -> (text: &'static str)
        ensures
            text@ == self.words(),
    {
        match self {
            TransferError::EntryCount => "请拖入 1–1024 个文件或目录",
            TransferError::UnsafePath => "文件路径不合法",
            TransferError::SizedDirectory => "目录不能带有大小",
            TransferError::TotalTooLarge => "文件总大小超出范围",
            TransferError::MissingManifest => "缺少文件清单",
            TransferError::RefusedByPeer => "远端拒绝文件投放",
            TransferError::InvalidReply => "无效的文件传输确认",
            TransferError::SourceChanged => "源文件在传输期间发生变化",
            TransferError::WrongOrder => "文件块顺序错误",
            TransferError::ChunkOutOfRange => "文件块超出声明范围",
            TransferError::IntegrityMismatch => "文件完整性校验失败",
            TransferError::IllegalState => "不合法的文件传输状态",
            TransferError::NotFinished => "文件传输未完整结束",
            TransferError::TooManyTransfers => "最多同时进行 4 个文件传输",
            TransferError::DuplicateTransfer => "重复的文件传输标识",
            TransferError::UnknownTransfer => "传输不存在",
            TransferError::NotConnected => "目标设备尚未连接",
            TransferError::Unsupported => "目标设备不支持文件拖拽，请先更新远端 R-ShareMouse",
            TransferError::FolderUnsupported => "此设备没有可用的文件夹落点识别服务",
            TransferError::FolderUnsupportedByPeer => "远端不支持文件夹跨屏拖拽，请更新远端或检查平台支持",
            TransferError::InvalidStart => "无效的文件传输起始序号",
            TransferError::RelativeSource => "拖入文件必须使用绝对路径",
            TransferError::NotRegular => "只支持普通文件和目录，不发送符号链接",
            TransferError::TooDeep => "目录嵌套过深",
            TransferError::TooManyEntries => "文件和目录总数不能超过 1024",
            TransferError::InvalidName => "文件名不是有效的 Unicode",
            TransferError::ConnectionLost => "设备连接已断开",
            TransferError::ConnectionReplaced => "设备连接已更换，请重新拖入文件",
        }
    }
}

/// The digest of a file that is read piece by piece.
#[verifier::external_body]
pub struct ContentDigest {
    hasher: sha2::Sha256,
}

/// What a digest has read so far.
pub uninterp spec fn absorbed(digest: ContentDigest) -> Seq<u8>;

/// `sha2::Sha256::new`: a digest that has read nothing.
#[verifier::external_body]
fn start_digest() -> (digest: ContentDigest)
    ensures
        absorbed(digest) == Seq::<u8>::empty(),
{
    ContentDigest { hasher: sha2::Sha256::new() }
}

/// `sha2::Sha256::update`: the digest has read these bytes too, behind what it had read.
#[verifier::external_body]
fn absorb(digest: &mut ContentDigest, data: &[u8])
    ensures
        absorbed(*final(digest)) == absorbed(*old(digest)) + data@,
{
    digest.hasher.update(data);
}

/// `sha2::Sha256::finalize_reset`: the digest of everything that was read, the same as that
/// of the bytes in one piece; the digest starts over.
#[verifier::external_body]
fn finish_digest(digest: &mut ContentDigest) -> (bytes: Vec<u8>)
    ensures
        bytes@ == sha256_digest(absorbed(*old(digest))),
        absorbed(*final(digest)) == Seq::<u8>::empty(),
{
    digest.hasher.finalize_reset().to_vec()
}

/// Whether a part of a path starts at `i` that leads nowhere or elsewhere: an empty one,
/// `.` or `..`.
pub open spec fn bad_part_at(path: Seq<u8>, i: int) -> bool {
    let starts = i == 0 || path[i - 1] == 47;
    let ends = |k: int| k == path.len() || path[k] == 47;
    starts && (ends(i) || (path[i] == 46 && (ends(i + 1) || (path[i + 1] == 46 && ends(i + 2)))))
}

/// Whether a path stays inside its transfer: parts with single slashes between them, none
/// of them `.` or `..`, and nothing in them that some system takes for a separator.
pub open spec fn safe_path(path: Seq<u8>) -> bool {
    &&& 0 < path.len() <= MAX_PATH_BYTES
    &&& forall|i: int| 0 <= i < path.len() ==> path[i] != 0 && path[i] != 92 && path[i] != 58
    &&& forall|i: int| 0 <= i <= path.len() ==> !#[trigger] bad_part_at(path, i)
}

fn part_ends(path: &[u8], k: usize) -> (ends: bool)
    requires
        k <= path@.len(),
    ensures
        ends == (k == path@.len() || path@[k as int] == 47),
{
    k == path.len() || path[k] == 47
}

/// Whether a path stays inside its transfer.
pub fn is_safe_path(path: &str) -> (safe: bool)
    ensures
        safe == safe_path(encode_utf8(path@)),
{
    let bytes = path.as_bytes();
    let len: usize = bytes.len();
    if len == 0 || len > MAX_PATH_BYTES {
        return false;
    }
    let mut i: usize = 0;
    while i <= len
        invariant
            len == bytes@.len(),
            bytes@ == encode_utf8(path@),
            0 < len <= MAX_PATH_BYTES,
            i <= len + 1,
            forall|k: int|
                0 <= k < i && k < len ==> bytes@[k] != 0 && bytes@[k] != 92 && bytes@[k] != 58,
            forall|k: int| 0 <= k < i ==> !#[trigger] bad_part_at(bytes@, k),
        decreases len + 1 - i,
    {
        if i < len && (bytes[i] == 0 || bytes[i] == 92 || bytes[i] == 58) {
            return false;
        }
        if i == 0 || bytes[i - 1] == 47 {
            let empty = part_ends(bytes, i);
            let dots = !empty && bytes[i] == 46 && (part_ends(bytes, i + 1) || (bytes[i + 1] == 46
                && part_ends(bytes, i + 2)));
            if empty || dots {
                assert(bad_part_at(bytes@, i as int));
                return false;
            }
        }
        assert(!bad_part_at(bytes@, i as int));
        i += 1;
    }
    true
}

/// The sizes of all entries together.
pub open spec fn total_size(entries: Seq<FileEntry>) -> nat
    decreases entries.len(),
{
    if entries.len() == 0 {
        0
    } else {
        total_size(entries.drop_last()) + entries.last().size as nat
    }
}

/// Why an entry cannot be transferred.
pub open spec fn entry_fault(entry: FileEntry) -> Option<TransferError> {
    if !safe_path(encode_utf8(entry.path@)) {
        Some(TransferError::UnsafePath)
    } else if entry.directory && entry.size != 0 {
        Some(TransferError::SizedDirectory)
    } else {
        None
    }
}

/// Whether a list can be transferred.
pub open spec fn valid_manifest(entries: Seq<FileEntry>) -> bool {
    &&& 0 < entries.len() <= MAX_FILE_ENTRIES
    &&& forall|i: int| 0 <= i < entries.len() ==> entry_fault(#[trigger] entries[i]) is None
    &&& total_size(entries) <= u64::MAX
}

/// Why the first entries of a list cannot be transferred: what is wrong with the first of
/// them that is wrong, or that brings the sizes together beyond counting.
pub open spec fn entries_fault(entries: Seq<FileEntry>) -> Option<TransferError>
    decreases entries.len(),
{
    if entries.len() == 0 {
        None
    } else if entries_fault(entries.drop_last()) is Some {
        entries_fault(entries.drop_last())
    } else if entry_fault(entries.last()) is Some {
        entry_fault(entries.last())
    } else if total_size(entries) > u64::MAX {
        Some(TransferError::TotalTooLarge)
    } else {
        None
    }
}

/// Why a list cannot be transferred.
pub open spec fn manifest_fault(entries: Seq<FileEntry>) -> Option<TransferError> {
    if entries.len() == 0 || entries.len() > MAX_FILE_ENTRIES {
        Some(TransferError::EntryCount)
    } else {
        entries_fault(entries)
    }
}

proof fn lemma_entries_fault(entries: Seq<FileEntry>)
    ensures
        entries_fault(entries) is None <==> total_size(entries) <= u64::MAX && forall|i: int|
            0 <= i < entries.len() ==> entry_fault(#[trigger] entries[i]) is None,
    decreases entries.len(),
{
    if entries.len() > 0 {
        let rest = entries.drop_last();
        lemma_entries_fault(rest);
        assert(forall|i: int| 0 <= i < rest.len() ==> rest[i] == #[trigger] entries[i]);
        if entries_fault(entries) is None {
            assert forall|i: int| 0 <= i < entries.len() implies entry_fault(
                #[trigger] entries[i],
            ) is None by {
                if i < rest.len() {
                    assert(rest[i] == entries[i]);
                }
            }
        } else if total_size(entries) <= u64::MAX && entries_fault(rest) is Some {
            let i = choose|i: int| 0 <= i < rest.len() && entry_fault(#[trigger] rest[i]) is Some;
            assert(rest[i] == entries[i]);
        }
    }
}

proof fn lemma_entries_are_there(entries: Seq<FileEntry>)
    ensures
        entries_fault(entries) != Some(TransferError::MissingManifest),
    decreases entries.len(),
{
    if entries.len() > 0 {
        lemma_entries_are_there(entries.drop_last());
    }
}

proof fn lemma_entries_fault_stays(entries: Seq<FileEntry>, n: int)
    requires
        0 <= n <= entries.len(),
        entries_fault(entries.take(n)) is Some,
    ensures
        entries_fault(entries) == entries_fault(entries.take(n)),
    decreases entries.len() - n,
{
    if n < entries.len() {
        assert(entries.take(n + 1).drop_last() =~= entries.take(n));
        lemma_entries_fault_stays(entries, n + 1);
    } else {
        assert(entries.take(n) =~= entries);
    }
}

/// Looks a list over, and counts the bytes that it stands for.
pub fn validate_manifest(entries: &Vec<FileEntry>) -> (total: Result<u64, TransferError>)
    ensures
        match total {
            Ok(bytes) => valid_manifest(entries@) && manifest_fault(entries@) is None && bytes
                == total_size(entries@),
            Err(error) => !valid_manifest(entries@) && manifest_fault(entries@) == Some(error),
        },
{
    proof {
        lemma_entries_fault(entries@);
    }
    let len: usize = entries.len();
    if len == 0 || len > MAX_FILE_ENTRIES {
        return Err(TransferError::EntryCount);
    }
    let mut total: u64 = 0;
    let mut i: usize = 0;
    while i < len
        invariant
            i <= len,
            len == entries@.len(),
            0 < len <= MAX_FILE_ENTRIES,
            total == total_size(entries@.take(i as int)),
            entries_fault(entries@.take(i as int)) is None,
            entries_fault(entries@) is None ==> valid_manifest(entries@),
            valid_manifest(entries@) ==> entries_fault(entries@) is None,
        decreases len - i,
    {
        let entry = &entries[i];
        proof {
            assert(entries@.take(i + 1).drop_last() =~= entries@.take(i as int));
            if entries_fault(entries@.take(i + 1)) is Some {
                lemma_entries_fault_stays(entries@, i + 1);
            }
        }
        if !is_safe_path(entry.path.as_str()) {
            assert(entry_fault(entries@[i as int]) == Some(TransferError::UnsafePath));
            return Err(TransferError::UnsafePath);
        }
        if entry.directory && entry.size != 0 {
            assert(entry_fault(entries@[i as int]) == Some(TransferError::SizedDirectory));
            return Err(TransferError::SizedDirectory);
        }
        match total.checked_add(entry.size) {
            Some(sum) => {
                total = sum;
            },
            None => {
                return Err(TransferError::TotalTooLarge);
            },
        }
        i += 1;
    }
    assert(entries@.take(i as int) =~= entries@);
    Ok(total)
}

/// The first file of a list at or behind `from`; the end of the list where there is none.
pub open spec fn next_file(entries: Seq<FileEntry>, from: nat) -> nat
    decreases entries.len() - from,
{
    if from >= entries.len() {
        entries.len()
    } else if entries[from as int].directory {
        next_file(entries, from + 1)
    } else {
        from
    }
}

proof fn lemma_next_file(entries: Seq<FileEntry>, from: nat)
    requires
        from <= entries.len(),
    ensures
        from <= next_file(entries, from) <= entries.len(),
        next_file(entries, from) < entries.len() ==> !entries[next_file(
            entries,
            from,
        ) as int].directory,
    decreases entries.len() - from,
{
    if from < entries.len() && entries[from as int].directory {
        lemma_next_file(entries, from + 1);
    }
}

fn find_next_file(entries: &Vec<FileEntry>, from: usize) -> (index: usize)
    requires
        from <= entries@.len(),
    ensures
        index == next_file(entries@, from as nat),
        from <= index <= entries@.len(),
        index < entries@.len() ==> !entries@[index as int].directory,
{
    let mut index: usize = from;
    while index < entries.len() && entries[index].directory
        invariant
            from <= index <= entries@.len(),
            next_file(entries@, from as nat) == next_file(entries@, index as nat),
        decreases entries@.len() - index,
    {
        index += 1;
    }
    index
}

/// Where a transfer stands, at either end: which file of the list, how much of it, and the
/// number of the next packet.
pub struct TransferState {
    pub entries: Seq<FileEntry>,
    pub index: nat,
    pub offset: u64,
    pub sequence: u64,
    /// What was read or written of the file so far.
    pub content: Seq<u8>,
}

/// What the receiving end does with a packet.
pub enum ReceiveStepView {
    /// These bytes are written at the end of the file.
    Write { data: Seq<u8> },
    /// The file is whole.
    EndFile,
    /// Everything is whole, and kept.
    Commit,
}

impl TransferState {
    /// What holds of every transfer.
    pub open spec fn well_formed(self) -> bool {
        &&& valid_manifest(self.entries)
        &&& self.index <= self.entries.len()
        &&& self.offset == self.content.len()
        &&& self.index < self.entries.len() ==> !self.entries[self.index as int].directory
            && self.offset <= self.entries[self.index as int].size
        &&& self.index == self.entries.len() ==> self.offset == 0
    }

    /// The start of a transfer: the first packet was the list.
    pub open spec fn start(entries: Seq<FileEntry>) -> TransferState {
        TransferState {
            entries,
            index: next_file(entries, 0),
            offset: 0,
            sequence: 1,
            content: seq![],
        }
    }

    /// The transfer after a piece of the file.
    pub open spec fn with_piece(self, data: Seq<u8>) -> TransferState {
        TransferState {
            offset: (self.offset + data.len()) as u64,
            sequence: (self.sequence + 1) as u64,
            content: self.content + data,
            ..self
        }
    }

    /// The transfer at the start of the next file.
    pub open spec fn with_file_done(self) -> TransferState {
        TransferState {
            index: next_file(self.entries, self.index + 1),
            offset: 0,
            sequence: (self.sequence + 1) as u64,
            content: seq![],
            ..self
        }
    }

    /// What the sending end makes of the bytes that were read next; no bytes are the end
    /// of the file.
    pub open spec fn after_read(self, data: Seq<u8>) -> Result<
        (TransferState, PacketView),
        TransferError,
    > {
        let size = self.entries[self.index as int].size;
        if data.len() == 0 {
            if self.offset != size {
                Err(TransferError::SourceChanged)
            } else {
                Ok(
                    (
                        self.with_file_done(),
                        PacketView {
                            sequence: self.sequence,
                            body: BodyView::FileEnd {
                                index: self.index as u32,
                                sha256: sha256_digest(self.content),
                            },
                        },
                    ),
                )
            }
        } else if self.offset + data.len() > size {
            Err(TransferError::SourceChanged)
        } else {
            Ok(
                (
                    self.with_piece(data),
                    PacketView {
                        sequence: self.sequence,
                        body: BodyView::Chunk {
                            index: self.index as u32,
                            offset: self.offset,
                            data,
                        },
                    },
                ),
            )
        }
    }

    /// What the receiving end makes of a packet.
    pub open spec fn after_packet(self, packet: PacketView) -> Result<
        (TransferState, ReceiveStepView),
        TransferError,
    > {
        if self.index == self.entries.len() {
            if packet.sequence == self.sequence && packet.body is Complete {
                Ok(
                    (
                        TransferState { sequence: (self.sequence + 1) as u64, ..self },
                        ReceiveStepView::Commit,
                    ),
                )
            } else {
                Err(TransferError::NotFinished)
            }
        } else if packet.sequence != self.sequence {
            Err(TransferError::WrongOrder)
        } else {
            let size = self.entries[self.index as int].size;
            match packet.body {
                BodyView::Chunk { index, offset, data } => if index != self.index || offset
                    != self.offset || data.len() == 0 || data.len() > FILE_CHUNK_BYTES
                    || self.offset + data.len() > size {
                    Err(TransferError::ChunkOutOfRange)
                } else {
                    Ok((self.with_piece(data), ReceiveStepView::Write { data }))
                },
                BodyView::FileEnd { index, sha256 } => if index != self.index || self.offset
                    != size || sha256_digest(self.content) != sha256 {
                    Err(TransferError::IntegrityMismatch)
                } else {
                    Ok((self.with_file_done(), ReceiveStepView::EndFile))
                },
                _ => Err(TransferError::IllegalState),
            }
        }
    }
}

impl TransferState {
    /// What the sending end makes of pieces that were read one after the other: where it
    /// stands then, and the packets. `None` where one of them cannot be sent.
    pub open spec fn sent(self, reads: Seq<Seq<u8>>) -> Option<(TransferState, Seq<PacketView>)>
        decreases reads.len(),
    {
        if reads.len() == 0 {
            Some((self, seq![]))
        } else {
            match self.sent(reads.drop_last()) {
                None => None,
                Some((state, packets)) => if state.index < state.entries.len()
                    && reads.last().len() <= FILE_CHUNK_BYTES {
                    match state.after_read(reads.last()) {
                        Ok((next, packet)) => Some((next, packets.push(packet))),
                        Err(_) => None,
                    }
                } else {
                    None
                },
            }
        }
    }

    /// What the receiving end makes of packets that came one after the other: where it
    /// stands then, and what it has done. `None` where one of them is not taken.
    pub open spec fn taken(self, packets: Seq<PacketView>) -> Option<
        (TransferState, Seq<ReceiveStepView>),
    >
        decreases packets.len(),
    {
        if packets.len() == 0 {
            Some((self, seq![]))
        } else {
            match self.taken(packets.drop_last()) {
                None => None,
                Some((state, steps)) => match state.after_packet(packets.last()) {
                    Ok((next, step)) => Some((next, steps.push(step))),
                    Err(_) => None,
                },
            }
        }
    }
}

/// What the receiving end does with a piece that was read: it is written, or it was the end
/// of its file.
pub open spec fn step_for(data: Seq<u8>) -> ReceiveStepView {
    if data.len() == 0 {
        ReceiveStepView::EndFile
    } else {
        ReceiveStepView::Write { data }
    }
}

/// One end of a transfer.
pub struct FileTransfer {
    pub transfer_id: DeviceId,
    pub entries: Vec<FileEntry>,
    pub index: usize,
    pub offset: u64,
    pub sequence: u64,
    pub digest: ContentDigest,
}

impl View for FileTransfer {
    type V = TransferState;

    open spec fn view(&self) -> TransferState {
        TransferState {
            entries: self.entries@,
            index: self.index as nat,
            offset: self.offset,
            sequence: self.sequence,
            content: absorbed(self.digest),
        }
    }
}

/// What the receiving end does with a packet, and the number of the answer.
#[derive(Debug)]
pub enum ReceiveStep {
    Write { data: Vec<u8>, ack: u64 },
    EndFile { ack: u64 },
    Commit { ack: u64 },
}

impl View for ReceiveStep {
    type V = ReceiveStepView;

    open spec fn view(&self) -> ReceiveStepView {
        match *self {
            ReceiveStep::Write { data, .. } => ReceiveStepView::Write { data: data@ },
            ReceiveStep::EndFile { .. } => ReceiveStepView::EndFile,
            ReceiveStep::Commit { .. } => ReceiveStepView::Commit,
        }
    }
}

/// Whether bytes are the same.
fn same_bytes(a: &Vec<u8>, b: &Vec<u8>) -> (same: bool)
    ensures
        same == (a@ == b@),
{
    if a.len() != b.len() {
        return false;
    }
    let mut i: usize = 0;
    while i < a.len()
        invariant
            i <= a@.len(),
            a@.len() == b@.len(),
            forall|k: int| 0 <= k < i ==> a@[k] == b@[k],
        decreases a@.len() - i,
    {
        if a[i] != b[i] {
            return false;
        }
        i += 1;
    }
    assert(a@ =~= b@);
    true
}

/// The answer that an end waits for.
#[derive(Debug, Clone, Copy, PartialEq, Eq, Structural)]
pub enum ExpectedReply {
    Accepted,
    Received,
    Completed,
}

/// Looks at the answer to packet `sequence`.
pub fn check_reply(
    sequence: u64,
    reply: &FileTransferPacket,
    expected: ExpectedReply,
) -> (checked: Result<(), TransferError>)
    ensures
        checked == (if reply@.body is Cancel {
            Err(TransferError::RefusedByPeer)
        } else if reply@.sequence == sequence && (match expected {
            ExpectedReply::Accepted => reply@.body is Accepted,
            ExpectedReply::Received => reply@.body is Received,
            ExpectedReply::Completed => reply@.body is Completed,
        }) {
            Ok(())
        } else {
            Err(TransferError::InvalidReply)
        }),
{
    let matched = match (&reply.body, expected) {
        (FileTransferBody::Cancel { .. }, _) => {
            return Err(TransferError::RefusedByPeer);
        },
        (FileTransferBody::Accepted, ExpectedReply::Accepted) => true,
        (FileTransferBody::Received, ExpectedReply::Received) => true,
        (FileTransferBody::Completed, ExpectedReply::Completed) => true,
        _ => false,
    };
    if reply.sequence != sequence || !matched {
        return Err(TransferError::InvalidReply);
    }
    Ok(())
}

impl FileTransfer {
    /// One end of a transfer that starts now, and the bytes that it stands for.
    pub fn new(transfer_id: DeviceId, entries: Vec<FileEntry>) -> (transfer: Result<
        (FileTransfer, u64),
        TransferError,
    >)
        ensures
            match transfer {
                Ok((started, total)) => {
                    &&& valid_manifest(entries@)
                    &&& manifest_fault(entries@) is None
                    &&& started@ == TransferState::start(entries@)
                    &&& started@.well_formed()
                    &&& started.transfer_id == transfer_id
                    &&& total == total_size(entries@)
                },
                Err(error) => manifest_fault(entries@) == Some(error),
            },
    {
        let total = match validate_manifest(&entries) {
            Ok(total) => total,
            Err(error) => {
                return Err(error);
            },
        };
        let index = find_next_file(&entries, 0);
        Ok(
            (
                FileTransfer {
                    transfer_id,
                    entries,
                    index,
                    offset: 0,
                    sequence: 1,
                    digest: start_digest(),
                },
                total,
            ),
        )
    }

    /// The receiving end of a transfer that a packet offers.
    pub fn from_offer(packet: FileTransferPacket) -> (transfer: Result<
        (FileTransfer, u64, Option<FolderDropPoint>),
        TransferError,
    >)
        ensures
            match transfer {
                Ok((started, total, drop)) => {
                    &&& packet@.body matches BodyView::Offer { entries, drop: asked }
                        && valid_manifest(entries) && manifest_fault(entries) is None && started@
                        == TransferState::start(entries) && total == total_size(entries) && drop == asked
                    &&& started@.well_formed()
                    &&& started.transfer_id == packet.transfer_id
                },
                Err(TransferError::MissingManifest) => !(packet@.body is Offer),
                Err(error) => packet@.body matches BodyView::Offer { entries, .. }
                    && manifest_fault(entries) == Some(error),
            },
    {
        let (entries, drop) = match packet.body {
            FileTransferBody::Offer { entries } => (entries, None),
            FileTransferBody::OfferToFolder { entries, drop } => (entries, Some(drop)),
            _ => {
                return Err(TransferError::MissingManifest);
            },
        };
        proof {
            lemma_entries_are_there(entries@);
        }
        match FileTransfer::new(packet.transfer_id, entries) {
            Ok((transfer, total)) => Ok((transfer, total, drop)),
            Err(error) => Err(error),
        }
    }

    /// The packet that offers this transfer.
    pub fn offer(&self, drop: Option<FolderDropPoint>) -> (packet: FileTransferPacket)
        ensures
            packet.transfer_id == self.transfer_id,
            packet@ == (PacketView {
                sequence: 0,
                body: BodyView::Offer { entries: self@.entries, drop },
            }),
    {
        let mut entries: Vec<FileEntry> = Vec::new();
        let mut i: usize = 0;
        while i < self.entries.len()
            invariant
                i <= self.entries@.len(),
                entries@ == self.entries@.take(i as int),
            decreases self.entries@.len() - i,
        {
            entries.push(self.entries[i].clone());
            assert(self.entries@.take(i + 1) =~= self.entries@.take(i as int).push(
                self.entries@[i as int],
            ));
            i += 1;
        }
        assert(self.entries@.take(i as int) =~= self.entries@);
        let body = match drop {
            Some(drop) => FileTransferBody::OfferToFolder { entries, drop },
            None => FileTransferBody::Offer { entries },
        };
        FileTransferPacket { transfer_id: self.transfer_id, sequence: 0, body }
    }

    /// The file that comes next; `None` where all are through.
    pub fn current(&self) -> (index: Option<usize>)
        requires
            self@.well_formed(),
        ensures
            index == (if self@.index < self@.entries.len() {
                Some(self.index)
            } else {
                None
            }),
    {
        if self.index < self.entries.len() {
            Some(self.index)
        } else {
            None
        }
    }

    fn file_done(&mut self)
        requires
            old(self)@.well_formed(),
            old(self)@.index < old(self)@.entries.len(),
            old(self)@.sequence < u64::MAX,
            absorbed(old(self).digest) == Seq::<u8>::empty(),
        ensures
            final(self)@ == old(self)@.with_file_done(),
            final(self)@.well_formed(),
            final(self).transfer_id == old(self).transfer_id,
    {
        self.index = find_next_file(&self.entries, self.index + 1);
        self.offset = 0;
        self.sequence = self.sequence + 1;
    }

    /// The packet for the bytes that were read next of the current file; no bytes are its
    /// end. A file that is not as long as the list says stops the transfer.
    pub fn read(&mut self, data: Vec<u8>) -> (packet: Result<FileTransferPacket, TransferError>)
        requires
            old(self)@.well_formed(),
            old(self)@.index < old(self)@.entries.len(),
            old(self)@.sequence < u64::MAX,
            data@.len() <= FILE_CHUNK_BYTES,
        ensures
            final(self)@.well_formed(),
            final(self).transfer_id == old(self).transfer_id,
            match packet {
                Ok(sent) => sent.transfer_id == old(self).transfer_id && old(self)@.after_read(
                    data@,
                ) == Ok::<_, TransferError>((final(self)@, sent@)),
                Err(error) => old(self)@.after_read(data@) == Err::<(TransferState, PacketView), _>(
                    error,
                ) && final(self)@ == old(self)@,
            },
    {
        let size: u64 = self.entries[self.index].size;
        let index: u32 = self.index as u32;
        let sequence: u64 = self.sequence;
        let offset: u64 = self.offset;
        let count: usize = data.len();
        if count == 0 {
            if offset != size {
                return Err(TransferError::SourceChanged);
            }
            let sha256 = finish_digest(&mut self.digest);
            self.offset = 0;
            self.file_done();
            return Ok(
                FileTransferPacket {
                    transfer_id: self.transfer_id,
                    sequence,
                    body: FileTransferBody::FileEnd { index, sha256 },
                },
            );
        }
        if count as u64 > size - offset {
            return Err(TransferError::SourceChanged);
        }
        absorb(&mut self.digest, data.as_slice());
        self.offset = offset + count as u64;
        self.sequence = sequence + 1;
        Ok(
            FileTransferPacket {
                transfer_id: self.transfer_id,
                sequence,
                body: FileTransferBody::Chunk { index, offset, data },
            },
        )
    }

    /// The packet that asks to keep what was sent, once everything was.
    pub fn complete(&self) -> (packet: FileTransferPacket)
        requires
            self@.well_formed(),
            self@.index == self@.entries.len(),
        ensures
            packet.transfer_id == self.transfer_id,
            packet@ == (PacketView { sequence: self@.sequence, body: BodyView::Complete }),
    {
        FileTransferPacket {
            transfer_id: self.transfer_id,
            sequence: self.sequence,
            body: FileTransferBody::Complete,
        }
    }

    /// Looks at a packet at the receiving end. Every packet that is taken is answered with
    /// its own number. A digest that does not agree is not looked at twice.
    pub fn accept(&mut self, packet: FileTransferPacket) -> (step: Result<
        ReceiveStep,
        TransferError,
    >)
        requires
            old(self)@.well_formed(),
            old(self)@.sequence < u64::MAX,
        ensures
            final(self).transfer_id == old(self).transfer_id,
            match step {
                Ok(taken) => {
                    &&& old(self)@.after_packet(packet@) == Ok::<_, TransferError>(
                        (final(self)@, taken@),
                    )
                    &&& final(self)@.well_formed()
                    &&& match taken {
                        ReceiveStep::Write { ack, .. } => ack == packet.sequence,
                        ReceiveStep::EndFile { ack } => ack == packet.sequence,
                        ReceiveStep::Commit { ack } => ack == packet.sequence,
                    }
                },
                Err(error) => {
                    &&& old(self)@.after_packet(packet@) == Err::<
                        (TransferState, ReceiveStepView),
                        _,
                    >(error)
                    &&& final(self)@ == (TransferState {
                        content: final(self)@.content,
                        ..old(self)@
                    })
                    &&& error != TransferError::IntegrityMismatch ==> final(self)@ == old(self)@
                },
            },
    {
        let ack: u64 = packet.sequence;
        if self.index == self.entries.len() {
            return match packet.body {
                FileTransferBody::Complete => {
                    if packet.sequence != self.sequence {
                        return Err(TransferError::NotFinished);
                    }
                    self.sequence = self.sequence + 1;
                    Ok(ReceiveStep::Commit { ack })
                },
                _ => Err(TransferError::NotFinished),
            };
        }
        if packet.sequence != self.sequence {
            return Err(TransferError::WrongOrder);
        }
        let size: u64 = self.entries[self.index].size;
        match packet.body {
            FileTransferBody::Chunk { index, offset, data } => {
                let count: usize = data.len();
                if index as usize != self.index || offset != self.offset || count == 0 || count
                    > FILE_CHUNK_BYTES || count as u64 > size - self.offset {
                    return Err(TransferError::ChunkOutOfRange);
                }
                absorb(&mut self.digest, data.as_slice());
                self.offset = self.offset + count as u64;
                self.sequence = self.sequence + 1;
                Ok(ReceiveStep::Write { data, ack })
            },
            FileTransferBody::FileEnd { index, sha256 } => {
                if index as usize != self.index || self.offset != size {
                    return Err(TransferError::IntegrityMismatch);
                }
                let actual = finish_digest(&mut self.digest);
                if !same_bytes(&actual, &sha256) {
                    return Err(TransferError::IntegrityMismatch);
                }
                self.offset = 0;
                self.file_done();
                Ok(ReceiveStep::EndFile { ack })
            },
            _ => Err(TransferError::IllegalState),
        }
    }
}

/// What the sending end reads, the receiving end writes: as long as both stand at the same
/// place, every packet that is sent is taken, the same bytes are written that were read,
/// and both stand at the same place again.
pub proof fn what_is_read_is_written(state: TransferState, data: Seq<u8>)
    requires
        state.well_formed(),
        state.index < state.entries.len(),
        data.len() <= FILE_CHUNK_BYTES,
        state.after_read(data) is Ok,
    ensures
        ({
            let (sent, packet) = state.after_read(data)->Ok_0;
            &&& sent.well_formed()
            &&& state.after_packet(packet) == Ok::<_, TransferError>((sent, step_for(data)))
        }),
{
    assert(state.index as u32 == state.index);
    lemma_next_file(state.entries, state.index + 1);
}

/// A transfer arrives as it was read: the receiving end takes every packet that the sending
/// end makes of the pieces that it reads, writes those very pieces in the same order, ends
/// each file where it has ended, and both ends stand at the same place then.
pub proof fn transfers_arrive_as_they_were_read(state: TransferState, reads: Seq<Seq<u8>>)
    requires
        state.well_formed(),
        state.sent(reads) is Some,
    ensures
        ({
            let (end, packets) = state.sent(reads)->Some_0;
            &&& end.well_formed()
            &&& packets.len() == reads.len()
            &&& state.taken(packets) == Some(
                (end, reads.map_values(|data: Seq<u8>| step_for(data))),
            )
        }),
    decreases reads.len(),
{
    let steps = |data: Seq<u8>| step_for(data);
    if reads.len() == 0 {
        assert(reads.map_values(steps) =~= seq![]);
    } else {
        transfers_arrive_as_they_were_read(state, reads.drop_last());
        let (before, packets) = state.sent(reads.drop_last())->Some_0;
        what_is_read_is_written(before, reads.last());
        let packet = before.after_read(reads.last())->Ok_0.1;
        assert(packets.push(packet).drop_last() =~= packets);
        assert(reads.map_values(steps) =~= reads.drop_last().map_values(steps).push(
            step_for(reads.last()),
        ));
    }
}

/// The file that comes first is the first entry that is no directory. After a file has ended,
/// the next one is the first entry behind it that is no directory. The end of the list is
/// reached only where directories alone are left.
pub proof fn no_file_is_passed_over(state: TransferState)
    requires
        state.well_formed(),
    ensures
        ({
            let first = TransferState::start(state.entries);
            &&& first.index <= state.entries.len()
            &&& forall|k: int| 0 <= k < first.index ==> (#[trigger] state.entries[k]).directory
            &&& first.index < state.entries.len()
                ==> !state.entries[first.index as int].directory
            &&& first.offset == 0 && first.content.len() == 0 && first.sequence == 1
            &&& first.well_formed()
        }),
        state.index < state.entries.len() ==> {
            let next = state.with_file_done();
            &&& state.index < next.index <= state.entries.len()
            &&& forall|k: int|
                state.index < k < next.index ==> (#[trigger] state.entries[k]).directory
            &&& next.index < state.entries.len() ==> !state.entries[next.index as int].directory
            &&& next.offset == 0 && next.content.len() == 0
            &&& next.entries == state.entries
        },
{
    lemma_next_file(state.entries, 0);
    lemma_next_file_passes_directories(state.entries, 0);
    if state.index < state.entries.len() {
        lemma_next_file(state.entries, state.index + 1);
        lemma_next_file_passes_directories(state.entries, state.index + 1);
    }
}

proof fn lemma_next_file_passes_directories(entries: Seq<FileEntry>, from: nat)
    requires
        from <= entries.len(),
    ensures
        forall|k: int|
            from <= k < next_file(entries, from) ==> (#[trigger] entries[k]).directory,
    decreases entries.len() - from,
{
    if from < entries.len() && entries[from as int].directory {
        lemma_next_file_passes_directories(entries, from + 1);
    }
}

/// The places of the files among the first `n` entries of a list, in order.
pub open spec fn files_among(entries: Seq<FileEntry>, n: nat) -> Seq<int>
    decreases n,
{
    if n == 0 {
        seq![]
    } else {
        let earlier = files_among(entries, (n - 1) as nat);
        if entries[n - 1].directory {
            earlier
        } else {
            earlier.push(n - 1)
        }
    }
}

/// The places of the files whose ends some packets tell of, in order.
pub open spec fn ended_files(packets: Seq<PacketView>) -> Seq<int>
    decreases packets.len(),
{
    if packets.len() == 0 {
        seq![]
    } else {
        let earlier = ended_files(packets.drop_last());
        match packets.last().body {
            BodyView::FileEnd { index, .. } => earlier.push(index as int),
            _ => earlier,
        }
    }
}

/// How many bytes some packets carry.
pub open spec fn carried(packets: Seq<PacketView>) -> nat
    decreases packets.len(),
{
    if packets.len() == 0 {
        0
    } else {
        carried(packets.drop_last()) + match packets.last().body {
            BodyView::Chunk { data, .. } => data.len(),
            _ => 0,
        }
    }
}

proof fn lemma_files_between(entries: Seq<FileEntry>, from: nat, to: nat)
    requires
        from <= to <= entries.len(),
        forall|k: int| from <= k < to ==> (#[trigger] entries[k]).directory,
    ensures
        files_among(entries, to) == files_among(entries, from),
    decreases to - from,
{
    if from < to {
        lemma_files_between(entries, from, (to - 1) as nat);
        assert(entries[to - 1].directory);
    }
}

proof fn lemma_sizes_between(entries: Seq<FileEntry>, from: nat, to: nat)
    requires
        valid_manifest(entries),
        from <= to <= entries.len(),
        forall|k: int| from <= k < to ==> (#[trigger] entries[k]).directory,
    ensures
        total_size(entries.take(to as int)) == total_size(entries.take(from as int)),
    decreases to - from,
{
    if from < to {
        lemma_sizes_between(entries, from, (to - 1) as nat);
        assert(entry_fault(entries[to - 1]) is None);
        assert(entries.take(to as int).drop_last() =~= entries.take(to - 1));
        assert(entries[to - 1].directory);
    }
}

/// Every file of the list is transferred, in the order of the list: whatever was read so far,
/// the files whose ends were sent are those that stand before the current one, and the bytes
/// that were sent are their sizes together and what was read of the current one.
pub proof fn every_file_is_transferred_in_order(
    entries: Seq<FileEntry>,
    reads: Seq<Seq<u8>>,
)
    requires
        valid_manifest(entries),
        TransferState::start(entries).sent(reads) is Some,
    ensures
        ({
            let (end, packets) = TransferState::start(entries).sent(reads)->Some_0;
            &&& end.entries == entries
            &&& end.well_formed()
            &&& ended_files(packets) == files_among(entries, end.index)
            &&& carried(packets) == total_size(entries.take(end.index as int)) + end.offset
        }),
    decreases reads.len(),
{
    let start = TransferState::start(entries);
    lemma_next_file(entries, 0);
    lemma_next_file_passes_directories(entries, 0);
    if reads.len() == 0 {
        lemma_files_between(entries, 0, start.index);
        lemma_sizes_between(entries, 0, start.index);
        assert(entries.take(0) =~= seq![]);
    } else {
        every_file_is_transferred_in_order(entries, reads.drop_last());
        let (before, packets) = start.sent(reads.drop_last())->Some_0;
        let data = reads.last();
        let (after, packet) = before.after_read(data)->Ok_0;
        what_is_read_is_written(before, data);
        assert(packets.push(packet).drop_last() =~= packets);
        assert(before.index as u32 == before.index);
        if data.len() == 0 {
            let i = before.index;
            lemma_next_file(entries, i + 1);
            lemma_next_file_passes_directories(entries, i + 1);
            lemma_files_between(entries, i + 1, after.index);
            lemma_sizes_between(entries, i + 1, after.index);
            assert(files_among(entries, i + 1) == files_among(entries, i).push(i as int));
            assert(entries.take((i + 1) as int).drop_last() =~= entries.take(i as int));
            assert(entries.take((i + 1) as int).last() == entries[i as int]);
        }
    }
}

/// A transfer that has come to the end of its list has ended every file of it, each once and in
/// order, and has sent exactly as many bytes as were announced.
pub proof fn finished_transfers_are_complete(entries: Seq<FileEntry>, reads: Seq<Seq<u8>>)
    requires
        valid_manifest(entries),
        TransferState::start(entries).sent(reads) matches Some((end, _)) && end.index
            == entries.len(),
    ensures
        ({
            let packets = TransferState::start(entries).sent(reads)->Some_0.1;
            &&& ended_files(packets) == files_among(entries, entries.len())
            &&& forall|i: int|
                0 <= i < entries.len() ==> (!(#[trigger] entries[i]).directory
                    <==> ended_files(packets).contains(i))
            &&& carried(packets) == total_size(entries)
        }),
{
    every_file_is_transferred_in_order(entries, reads);
    assert(entries.take(entries.len() as int) =~= entries);
    assert forall|i: int| 0 <= i < entries.len() implies (!(#[trigger] entries[i]).directory
        <==> files_among(entries, entries.len()).contains(i)) by {
        lemma_files_among(entries, entries.len(), i);
    }
}

proof fn lemma_files_among(entries: Seq<FileEntry>, n: nat, i: int)
    requires
        n <= entries.len(),
    ensures
        files_among(entries, n).contains(i) <==> 0 <= i < n && !entries[i].directory,
    decreases n,
{
    if n > 0 {
        lemma_files_among(entries, (n - 1) as nat, i);
        vstd::seq_lib::lemma_seq_contains_after_push(
            files_among(entries, (n - 1) as nat),
            n - 1,
            i,
        );
    }
}

/// What is sent says where it belongs: the packet has the next number, and carries the bytes
/// that were read with the file's place and the number of bytes before them; the end of a file
/// carries the digest of everything that was read of it. A file is sent exactly as far as the
/// list says.
pub proof fn packets_say_where_they_belong(state: TransferState, data: Seq<u8>)
    requires
        state.well_formed(),
        state.index < state.entries.len(),
    ensures
        ({
            let size = state.entries[state.index as int].size;
            match state.after_read(data) {
                Ok((after, packet)) => {
                    &&& packet.sequence == state.sequence
                    &&& state.sequence < u64::MAX ==> after.sequence == state.sequence + 1
                    &&& after.entries == state.entries
                    &&& data.len() > 0 ==> {
                        &&& packet.body matches BodyView::Chunk { index, offset, data: sent }
                            && index == state.index && offset == state.content.len() && sent
                            == data
                        &&& state.content.len() + data.len() <= size
                        &&& after.index == state.index
                        &&& after.content == state.content + data
                    }
                    &&& data.len() == 0 ==> {
                        &&& packet.body matches BodyView::FileEnd { index, sha256 } && index
                            == state.index && sha256 == sha256_digest(state.content)
                        &&& state.content.len() == size
                    }
                },
                Err(error) => error == TransferError::SourceChanged && (if data.len() == 0 {
                    state.content.len() != size
                } else {
                    state.content.len() + data.len() > size
                }),
            }
        }),
{
    assert(state.index as u32 == state.index);
}

/// What is taken belongs where the transfer stands: nothing is written but the next bytes of
/// the current file, no more than the list says, and a file ends only where it is.
pub proof fn only_what_belongs_is_taken(state: TransferState, packet: PacketView)
    requires
        state.well_formed(),
    ensures
        match state.after_packet(packet) {
            Ok((after, ReceiveStepView::Write { data })) => {
                &&& packet.sequence == state.sequence
                &&& packet.body matches BodyView::Chunk { index, offset, data: came } && index
                    == state.index && offset == state.content.len() && came == data
                &&& 0 < data.len() <= FILE_CHUNK_BYTES
                &&& state.index < state.entries.len()
                &&& state.content.len() + data.len() <= state.entries[state.index as int].size
                &&& after.content == state.content + data
                &&& after.index == state.index
                &&& after.entries == state.entries
            },
            Ok((after, ReceiveStepView::EndFile)) => {
                &&& packet.sequence == state.sequence
                &&& packet.body matches BodyView::FileEnd { index, sha256 } && index == state.index
                    && sha256 == sha256_digest(state.content)
                &&& state.index < state.entries.len()
                &&& state.content.len() == state.entries[state.index as int].size
                &&& after.index > state.index
                &&& after.content.len() == 0
                &&& after.entries == state.entries
            },
            Ok((_, ReceiveStepView::Commit)) => {
                &&& packet.sequence == state.sequence
                &&& packet.body is Complete
                &&& state.index == state.entries.len()
            },
            Err(_) => true,
        },
{
    if state.index < state.entries.len() {
        lemma_next_file(state.entries, state.index + 1);
    }
}

/// A list can be transferred exactly if it is neither empty nor too long, every path stays
/// inside, no directory has a size and the sizes together can be counted. Nothing else is a
/// fault.
pub proof fn lists_are_refused_for_a_fault(entries: Seq<FileEntry>)
    ensures
        manifest_fault(entries) is None <==> {
            &&& 0 < entries.len() <= 1024
            &&& forall|i: int|
                0 <= i < entries.len() ==> safe_path(encode_utf8((#[trigger] entries[i]).path@))
            &&& forall|i: int|
                0 <= i < entries.len() ==> ((#[trigger] entries[i]).directory ==> entries[i].size
                    == 0)
            &&& total_size(entries) <= u64::MAX
        },
{
    lemma_entries_fault(entries);
    assert(forall|i: int|
        0 <= i < entries.len() ==> (entry_fault(#[trigger] entries[i]) is None <==> safe_path(
            encode_utf8(entries[i].path@),
        ) && (entries[i].directory ==> entries[i].size == 0)));
}

/// The last packet is taken where everything was sent.
pub proof fn a_finished_transfer_is_kept(state: TransferState)
    requires
        state.well_formed(),
        state.index == state.entries.len(),
    ensures
        state.after_packet(
            PacketView { sequence: state.sequence, body: BodyView::Complete },
        ) matches Ok((_, ReceiveStepView::Commit)),
{
}

/// A file counts as whole only if exactly as many bytes were written as the list says, and
/// their digest is the one that the sender has sent.
pub proof fn whole_files_are_intact(state: TransferState, packet: PacketView)
    requires
        state.well_formed(),
        state.after_packet(packet) matches Ok((_, ReceiveStepView::EndFile)),
    ensures
        state.content.len() == state.entries[state.index as int].size,
        packet.body matches BodyView::FileEnd { sha256, .. } && sha256 == sha256_digest(
            state.content,
        ),
{
}

/// Nothing is kept before every file is whole.
pub proof fn nothing_is_kept_too_early(state: TransferState, packet: PacketView)
    requires
        state.after_packet(packet) matches Ok((_, ReceiveStepView::Commit)),
    ensures
        state.index == state.entries.len(),
{
}

/// A packet that comes twice, or before its time, is not taken.
pub proof fn packets_are_taken_in_order(state: TransferState, packet: PacketView)
    requires
        packet.sequence != state.sequence,
    ensures
        state.after_packet(packet) is Err,
{
}

/// Every file of the list is received, in the order of the list: whatever packets were taken so
/// far, the files that they ended are those that stand before the current one, and the bytes
/// that they carried are their sizes together and what was written of the current one.
pub proof fn every_file_is_received_in_order(entries: Seq<FileEntry>, packets: Seq<PacketView>)
    requires
        valid_manifest(entries),
        TransferState::start(entries).taken(packets) is Some,
    ensures
        ({
            let (end, steps) = TransferState::start(entries).taken(packets)->Some_0;
            &&& end.entries == entries
            &&& end.well_formed()
            &&& steps.len() == packets.len()
            &&& ended_files(packets) == files_among(entries, end.index)
            &&& carried(packets) == total_size(entries.take(end.index as int)) + end.offset
        }),
    decreases packets.len(),
{
    let start = TransferState::start(entries);
    lemma_next_file(entries, 0);
    lemma_next_file_passes_directories(entries, 0);
    if packets.len() == 0 {
        lemma_files_between(entries, 0, start.index);
        lemma_sizes_between(entries, 0, start.index);
        assert(entries.take(0) =~= seq![]);
    } else {
        every_file_is_received_in_order(entries, packets.drop_last());
        let (before, steps) = start.taken(packets.drop_last())->Some_0;
        let packet = packets.last();
        let (after, step) = before.after_packet(packet)->Ok_0;
        if packet.body is FileEnd {
            let i = before.index;
            lemma_next_file(entries, i + 1);
            lemma_next_file_passes_directories(entries, i + 1);
            lemma_files_between(entries, i + 1, after.index);
            lemma_sizes_between(entries, i + 1, after.index);
            assert(files_among(entries, i + 1) == files_among(entries, i).push(i as int));
            assert(entries.take((i + 1) as int).drop_last() =~= entries.take(i as int));
            assert(entries.take((i + 1) as int).last() == entries[i as int]);
        }
    }
}

/// A transfer is kept only if every file of the list was ended, each once and in order, and
/// exactly as many bytes came as were announced.
pub proof fn kept_transfers_are_complete(entries: Seq<FileEntry>, packets: Seq<PacketView>)
    requires
        valid_manifest(entries),
        TransferState::start(entries).taken(packets) matches Some((_, steps)) && steps.len() > 0
            && steps.last() == ReceiveStepView::Commit,
    ensures
        packets.last().body is Complete,
        ended_files(packets) == files_among(entries, entries.len()),
        forall|i: int|
            0 <= i < entries.len() ==> (!(#[trigger] entries[i]).directory <==> ended_files(
                packets,
            ).contains(i)),
        carried(packets) == total_size(entries),
{
    every_file_is_received_in_order(entries, packets);
    every_file_is_received_in_order(entries, packets.drop_last());
    let before = TransferState::start(entries).taken(packets.drop_last())->Some_0.0;
    only_what_belongs_is_taken(before, packets.last());
    assert(entries.take(entries.len() as int) =~= entries);
    assert forall|i: int| 0 <= i < entries.len() implies (!(#[trigger] entries[i]).directory
        <==> files_among(entries, entries.len()).contains(i)) by {
        lemma_files_among(entries, entries.len(), i);
    }
}

/// What does not belong is refused, and why: something other than the end once everything has
/// come, a packet out of turn, bytes that are not the next ones, the end of a file that is not
/// what was sent, and whatever else has no place here.
pub proof fn what_does_not_belong_is_refused(state: TransferState, packet: PacketView)
    requires
        state.well_formed(),
    ensures
        state.index == state.entries.len() && !(packet.body is Complete && packet.sequence
            == state.sequence) ==> state.after_packet(packet) == Err::<
            (TransferState, ReceiveStepView),
            _,
        >(TransferError::NotFinished),
        state.index < state.entries.len() && packet.sequence != state.sequence
            ==> state.after_packet(packet) == Err::<(TransferState, ReceiveStepView), _>(
            TransferError::WrongOrder,
        ),
        state.index < state.entries.len() && packet.sequence == state.sequence ==> {
            let size = state.entries[state.index as int].size;
            match packet.body {
                BodyView::Chunk { index, offset, data } => index != state.index || offset
                    != state.content.len() || data.len() == 0 || data.len() > 64 * 1024
                    || state.content.len() + data.len() > size ==> state.after_packet(packet)
                    == Err::<(TransferState, ReceiveStepView), _>(TransferError::ChunkOutOfRange),
                BodyView::FileEnd { index, sha256 } => index != state.index || state.content.len()
                    != size || sha256 != sha256_digest(state.content) ==> state.after_packet(packet)
                    == Err::<(TransferState, ReceiveStepView), _>(TransferError::IntegrityMismatch),
                _ => state.after_packet(packet) == Err::<(TransferState, ReceiveStepView), _>(
                    TransferError::IllegalState,
                ),
            }
        },
{
}

/// No path leads out of where it is put: none has an empty part, so none starts or ends with a
/// slash, none has a part that is one dot or two, and none holds a zero, a backslash or a colon.
pub proof fn paths_stay_inside(before: Seq<u8>, behind: Seq<u8>, byte: u8)
    ensures
        !safe_path(seq![]),
        !safe_path(seq![47] + behind),
        !safe_path(before + seq![47]),
        !safe_path(before + seq![47, 47] + behind),
        !safe_path(seq![46]) && !safe_path(seq![46, 46]),
        !safe_path(seq![46, 47] + behind) && !safe_path(seq![46, 46, 47] + behind),
        !safe_path(before + seq![47, 46]) && !safe_path(before + seq![47, 46, 46]),
        !safe_path(before + seq![47, 46, 47] + behind),
        !safe_path(before + seq![47, 46, 46, 47] + behind),
        byte == 0 || byte == 92 || byte == 58 ==> !safe_path(before + seq![byte] + behind),
{
    let n = before.len() as int;
    assert(bad_part_at(seq![47u8] + behind, 0));
    assert(bad_part_at(before + seq![47u8], n + 1));
    assert(bad_part_at(before + seq![47u8, 47] + behind, n + 1));
    assert(bad_part_at(seq![46u8], 0));
    assert(bad_part_at(seq![46u8, 46], 0));
    assert(bad_part_at(seq![46u8, 47] + behind, 0));
    assert(bad_part_at(seq![46u8, 46, 47] + behind, 0));
    assert(bad_part_at(before + seq![47u8, 46], n + 1));
    assert(bad_part_at(before + seq![47u8, 46, 46], n + 1));
    assert(bad_part_at(before + seq![47u8, 46, 47] + behind, n + 1));
    assert(bad_part_at(before + seq![47u8, 46, 46, 47] + behind, n + 1));
    assert((before + seq![byte] + behind)[n] == byte);
}

/// A name is a path of its own, unless it is one dot or two; and a path can be put inside
/// another, as long as there is room for both.
pub proof fn names_and_paths_can_be_joined(name: Seq<u8>, outer: Seq<u8>, inner: Seq<u8>)
    ensures
        0 < name.len() <= MAX_PATH_BYTES && name != seq![46u8] && name != seq![46u8, 46] && (forall|
            i: int,
        |
            0 <= i < name.len() ==> name[i] != 0 && name[i] != 92 && name[i] != 58 && name[i] != 47)
            ==> safe_path(name),
        safe_path(outer) && safe_path(inner) && outer.len() + 1 + inner.len() <= MAX_PATH_BYTES
            ==> safe_path(outer + seq![47] + inner),
{
    if 0 < name.len() <= MAX_PATH_BYTES && name != seq![46u8] && name != seq![46u8, 46] && (forall|
        i: int,
    |
        0 <= i < name.len() ==> name[i] != 0 && name[i] != 92 && name[i] != 58 && name[i] != 47) {
        assert forall|i: int| 0 <= i <= name.len() implies !#[trigger] bad_part_at(name, i) by {
            if i == 0 && name[0] == 46 {
                if name.len() == 1 {
                    assert(name =~= seq![46u8]);
                } else if name.len() == 2 && name[1] == 46 {
                    assert(name =~= seq![46u8, 46]);
                }
            }
        }
    }
    if safe_path(outer) && safe_path(inner) && outer.len() + 1 + inner.len() <= MAX_PATH_BYTES {
        let path = outer + seq![47u8] + inner;
        let n = outer.len() as int;
        assert(forall|k: int| 0 <= k < n ==> path[k] == outer[k]);
        assert(path[n] == 47);
        assert(forall|k: int| n < k < path.len() ==> path[k] == inner[k - n - 1]);
        assert forall|i: int| 0 <= i <= path.len() implies !#[trigger] bad_part_at(path, i) by {
            if i <= n {
                assert(!bad_part_at(outer, i));
            } else {
                assert(!bad_part_at(inner, i - n - 1));
            }
        }
    }
}

/// The first fault of a list is the one that is named. Up to an entry that has a fault, or with
/// which there are too many bytes to count, everything was in order.
pub proof fn the_first_fault_of_a_list_is_named(entries: Seq<FileEntry>, i: int)
    requires
        0 < entries.len() <= 1024,
        0 <= i < entries.len(),
        total_size(entries.take(i)) <= u64::MAX,
        forall|k: int|
            0 <= k < i ==> safe_path(encode_utf8((#[trigger] entries[k]).path@)) && (
            entries[k].directory ==> entries[k].size == 0),
    ensures
        ({
            let safe = safe_path(encode_utf8(entries[i].path@));
            let sized = entries[i].directory && entries[i].size != 0;
            &&& !safe ==> manifest_fault(entries) == Some(TransferError::UnsafePath)
            &&& safe && sized ==> manifest_fault(entries) == Some(TransferError::SizedDirectory)
            &&& safe && !sized && total_size(entries.take(i)) + entries[i].size > u64::MAX
                ==> manifest_fault(entries) == Some(TransferError::TotalTooLarge)
        }),
{
    let earlier = entries.take(i);
    let some = entries.take(i + 1);
    lemma_entries_fault(earlier);
    assert forall|k: int| 0 <= k < earlier.len() implies entry_fault(
        #[trigger] earlier[k],
    ) is None by {
        assert(earlier[k] == entries[k]);
    }
    assert(some.drop_last() =~= earlier);
    assert(some.last() == entries[i]);
    if entries_fault(some) is Some {
        lemma_entries_fault_stays(entries, i + 1);
    }
}

/// A list has to have an entry, and no more than 1024 of them.
pub proof fn lists_have_to_have_a_size(entries: Seq<FileEntry>)
    requires
        entries.len() == 0 || entries.len() > 1024,
    ensures
        manifest_fault(entries) == Some(TransferError::EntryCount),
        !valid_manifest(entries),
{
}

} // verus!
