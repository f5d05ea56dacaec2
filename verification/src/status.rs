//! The status records that aria2 reports about downloads and about itself.
use vstd::prelude::*;

verus! {

/// What `std::time::SystemTime` is to this library: a point in time carried
/// through unchanged.
#[verifier::external_type_specification]
#[verifier::external_body]
pub struct ExSystemTime(std::time::SystemTime);

/// A field of a download's status that `aria2.tellStatus` and its kin may
/// be asked for.
#[derive(Debug, Clone, Copy, PartialEq, Eq)]
pub enum StatusKey {
    Gid,
    Status,
    TotalLength,
    CompletedLength,
    UploadLength,
    Bitfield,
    DownloadSpeed,
    UploadSpeed,
    InfoHash,
    NumSeeders,
    Seeder,
    PieceLength,
    NumPieces,
    Connections,
    ErrorCode,
    ErrorMessage,
    FollowedBy,
    Following,
    BelongsTo,
    Dir,
    Files,
    Bittorrent,
    VerifiedLength,
    VerifyIntegrityPending,
}

/// The name by which aria2 knows a status field.
pub open spec fn status_key_name(k: StatusKey) -> Seq<char> {
    match k {
        StatusKey::Gid => "gid"@,
        StatusKey::Status => "status"@,
        StatusKey::TotalLength => "totalLength"@,
        StatusKey::CompletedLength => "completedLength"@,
        StatusKey::UploadLength => "uploadLength"@,
        StatusKey::Bitfield => "bitfield"@,
        StatusKey::DownloadSpeed => "downloadSpeed"@,
        StatusKey::UploadSpeed => "uploadSpeed"@,
        StatusKey::InfoHash => "infoHash"@,
        StatusKey::NumSeeders => "numSeeders"@,
        StatusKey::Seeder => "seeder"@,
        StatusKey::PieceLength => "pieceLength"@,
        StatusKey::NumPieces => "numPieces"@,
        StatusKey::Connections => "connections"@,
        StatusKey::ErrorCode => "errorCode"@,
        StatusKey::ErrorMessage => "errorMessage"@,
        StatusKey::FollowedBy => "followedBy"@,
        StatusKey::Following => "following"@,
        StatusKey::BelongsTo => "belongsTo"@,
        StatusKey::Dir => "dir"@,
        StatusKey::Files => "files"@,
        StatusKey::Bittorrent => "bittorrent"@,
        StatusKey::VerifiedLength => "verifiedLength"@,
        StatusKey::VerifyIntegrityPending => "verifyIntegrityPending"@,
    }
}

impl StatusKey {
    /// The name by which aria2 knows this field.
    pub fn as_str(&self) -> (name: &'static str)
        ensures
            name@ == status_key_name(*self),
    {
        match self {
            StatusKey::Gid => "gid",
            StatusKey::Status => "status",
            StatusKey::TotalLength => "totalLength",
            StatusKey::CompletedLength => "completedLength",
            StatusKey::UploadLength => "uploadLength",
            StatusKey::Bitfield => "bitfield",
            StatusKey::DownloadSpeed => "downloadSpeed",
            StatusKey::UploadSpeed => "uploadSpeed",
            StatusKey::InfoHash => "infoHash",
            StatusKey::NumSeeders => "numSeeders",
            StatusKey::Seeder => "seeder",
            StatusKey::PieceLength => "pieceLength",
            StatusKey::NumPieces => "numPieces",
            StatusKey::Connections => "connections",
            StatusKey::ErrorCode => "errorCode",
            StatusKey::ErrorMessage => "errorMessage",
            StatusKey::FollowedBy => "followedBy",
            StatusKey::Following => "following",
            StatusKey::BelongsTo => "belongsTo",
            StatusKey::Dir => "dir",
            StatusKey::Files => "files",
            StatusKey::Bittorrent => "bittorrent",
            StatusKey::VerifiedLength => "verifiedLength",
            StatusKey::VerifyIntegrityPending => "verifyIntegrityPending",
        }
    }
}

/// The status of one download, holding the fields that were asked for.
#[derive(Debug, Clone)]
pub struct Status {
    pub gid: Option<String>,
    pub status: Option<TaskStatus>,
    pub total_length: Option<u64>,
    pub completed_length: Option<u64>,
    pub upload_length: Option<u64>,
    pub bitfield: Option<String>,
    pub download_speed: Option<u64>,
    pub upload_speed: Option<u64>,
    pub info_hash: Option<String>,
    pub num_seeders: Option<u64>,
    pub seeder: Option<bool>,
    pub piece_length: Option<u64>,
    pub num_pieces: Option<u64>,
    pub connections: Option<u64>,
    pub error_code: Option<String>,
    pub error_message: Option<String>,
    pub followed_by: Option<Vec<String>>,
    pub following: Option<String>,
    pub belongs_to: Option<String>,
    pub dir: Option<String>,
    pub files: Option<Vec<File>>,
    pub bittorrent: Option<BittorrentStatus>,
}

/// The state a download is in.
#[derive(Debug, Clone, PartialEq, Eq, PartialOrd, Ord)]
pub enum TaskStatus {
    Active,
    Waiting,
    Paused,
    Error,
    Complete,
    Removed,
}

/// One file of a download.
#[derive(Debug, Clone, PartialEq, Eq)]
pub struct File {
    pub index: u64,
    pub path: String,
    pub length: u64,
    pub completed_length: u64,
    pub selected: bool,
    pub uris: Vec<Uri>,
}

/// A source of a file.
#[derive(Debug, Clone, PartialEq, Eq)]
pub struct Uri {
    pub uri: String,
    pub status: UriStatus,
}

/// Whether a source is in use.
#[derive(Debug, Clone, PartialEq, Eq)]
pub enum UriStatus {
    Used,
    Waiting,
}

/// What a BitTorrent download reports about its torrent.
#[derive(Debug, Clone)]
pub struct BittorrentStatus {
    pub announce_list: Vec<Vec<String>>,
    pub comment: Option<String>,
    pub creation_date: Option<std::time::SystemTime>,
    pub mode: Option<BitTorrentMode>,
    pub info: Option<BittorrentInfo>,
}

/// The file mode of a torrent.
#[derive(Debug, Clone, PartialEq, Eq)]
pub enum BitTorrentMode {
    Single,
    Multi,
}

/// The info dictionary of a torrent, as far as aria2 reports it.
#[derive(Debug, Clone, PartialEq, Eq)]
pub struct BittorrentInfo {
    pub name: String,
}

/// A field of the global statistics that `aria2.getGlobalStat` may be asked for.
#[derive(Debug, Clone, Copy, PartialEq, Eq)]
pub enum StatKey {
    DownloadSpeed,
    UploadSpeed,
    NumActive,
    NumWaiting,
    NumStopped,
    NumStoppedTotal,
}

/// The name by which aria2 knows a statistics field.
pub open spec fn stat_key_name(k: StatKey) -> Seq<char> {
    match k {
        StatKey::DownloadSpeed => "downloadSpeed"@,
        StatKey::UploadSpeed => "uploadSpeed"@,
        StatKey::NumActive => "numActive"@,
        StatKey::NumWaiting => "numWaiting"@,
        StatKey::NumStopped => "numStopped"@,
        StatKey::NumStoppedTotal => "numStoppedTotal"@,
    }
}

impl StatKey {
    /// The name by which aria2 knows this field.
    pub fn as_str(&self) -> (name: &'static str)
        ensures
            name@ == stat_key_name(*self),
    {
        match self {
            StatKey::DownloadSpeed => "downloadSpeed",
            StatKey::UploadSpeed => "uploadSpeed",
            StatKey::NumActive => "numActive",
            StatKey::NumWaiting => "numWaiting",
            StatKey::NumStopped => "numStopped",
            StatKey::NumStoppedTotal => "numStoppedTotal",
        }
    }
}

/// The global statistics of aria2, holding the fields that were asked for.
#[derive(Debug, Clone)]
pub struct Stat {
    pub download_speed: Option<u64>,
    pub upload_speed: Option<u64>,
    pub num_active: Option<u32>,
    pub num_waiting: Option<u32>,
    pub num_stopped: Option<u32>,
    pub num_stopped_total: Option<u32>,
}

} // verus!
