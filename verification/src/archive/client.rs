//! Fetching checkpoints: which file to ask for next, and what the replies amount to.
//!
//! The requests themselves are made by the caller. [`ArchiveClient::fetch_checkpoint`]
//! gives the first request; [`CheckpointFetch::resume`] takes its outcome and gives the
//! next one, or the result.

use vstd::prelude::*;
use std::io::Read;

use crate::archive::header::{
    history_models, HistoryEntryModel, LedgerHeader, LedgerHeaderHistoryEntry, LedgerHeaderModel,
};
use crate::archive::path::{
    archive_path, checkpoint_of, format_archive_path, get_checkpoint_seq, join_url, joined_url,
    ArchiveCategory,
};
use crate::archive::stream::{parse_ledger_header_stream, parsed_stream};
use crate::error::{ArchiveErrorKind, ArchiveErrorModel, GratError, GratErrorModel, GratResult};
use crate::network::NetworkConfig;
use crate::text::{append, append_decimal, copy_texts, decimal, owned, texts};

verus! {

/// The decompressed files of one checkpoint.
#[derive(Debug, Clone, PartialEq, Eq)]
pub struct ArchiveCheckpoint {
    pub ledger_sequence: u32,
    pub ledger_header: Vec<u8>,
    pub transaction_set: Vec<u8>,
    pub transaction_results: Vec<u8>,
}

/// The model of [`ArchiveCheckpoint`].
pub struct CheckpointModel {
    pub ledger_sequence: u32,
    pub ledger_header: Seq<u8>,
    pub transaction_set: Seq<u8>,
    pub transaction_results: Seq<u8>,
}

impl View for ArchiveCheckpoint {
    type V = CheckpointModel;

    open spec fn view(&self) -> CheckpointModel {
        CheckpointModel {
            ledger_sequence: self.ledger_sequence,
            ledger_header: self.ledger_header@,
            transaction_set: self.transaction_set@,
            transaction_results: self.transaction_results@,
        }
    }
}

/// The outcome of one HTTP request.
#[derive(Debug, PartialEq, Eq)]
pub enum HttpReply {
    /// No answer came.
    Unsent { reason: String },
    /// An answer came. Of an answer whose status is no success, the body does not count.
    Answered { status: u16, status_text: String, body: Result<Vec<u8>, String> },
}

/// The model of [`HttpReply`].
pub enum HttpReplyModel {
    Unsent { reason: Seq<char> },
    Answered { status: u16, status_text: Seq<char>, body: Result<Seq<u8>, Seq<char>> },
}

impl View for HttpReply {
    type V = HttpReplyModel;

    open spec fn view(&self) -> HttpReplyModel {
        match *self {
            HttpReply::Unsent { reason } => HttpReplyModel::Unsent { reason: reason@ },
            HttpReply::Answered { status, status_text, body } => HttpReplyModel::Answered {
                status,
                status_text: status_text@,
                body: bytes_or_text(body),
            },
        }
    }
}

/// The model of bytes, or of a text where they could not be had.
pub open spec fn bytes_or_text(bytes: Result<Vec<u8>, String>) -> Result<Seq<u8>, Seq<char>> {
    match bytes {
        Ok(bytes) => Ok(bytes@),
        Err(text) => Err(text@),
    }
}

/// The model of a file, or of the error where it could not be had.
pub open spec fn file_model(file: Result<Vec<u8>, ArchiveErrorKind>) -> Result<
    Seq<u8>,
    ArchiveErrorModel,
> {
    match file {
        Ok(bytes) => Ok(bytes@),
        Err(error) => Err(error@),
    }
}

/// What reading `bytes` to the end through `flate2::read::GzDecoder` gives: the
/// decompressed bytes, or the text of the error.
pub uninterp spec fn gunzipped(bytes: Seq<u8>) -> Result<Seq<u8>, Seq<char>>;

/// Whether an HTTP status stands for success.
pub open spec fn is_success(status: int) -> bool {
    200 <= status < 300
}

/// The compressed file that a reply brings.
pub open spec fn reply_body(reply: HttpReplyModel, file: Seq<char>) -> Result<
    Seq<u8>,
    ArchiveErrorModel,
> {
    match reply {
        HttpReplyModel::Unsent { reason } => Err(ArchiveErrorModel::FetchFailed { file, reason }),
        HttpReplyModel::Answered { status, status_text, body } => if !is_success(status as int) {
            Err(ArchiveErrorModel::FetchFailed { file, reason: "HTTP status "@ + status_text })
        } else {
            match body {
                Ok(bytes) => Ok(bytes),
                Err(text) => Err(
                    ArchiveErrorModel::FetchFailed {
                        file,
                        reason: "failed to read response bytes: "@ + text,
                    },
                ),
            }
        },
    }
}

/// The file that decompression gave.
pub open spec fn unpacked(decompressed: Result<Seq<u8>, Seq<char>>, file: Seq<char>) -> Result<
    Seq<u8>,
    ArchiveErrorModel,
> {
    match decompressed {
        Ok(bytes) => Ok(bytes),
        Err(reason) => Err(ArchiveErrorModel::DecompressionFailed { file, reason }),
    }
}

/// The file that a reply brings, decompressed.
pub open spec fn fetched(reply: HttpReplyModel, file: Seq<char>) -> Result<
    Seq<u8>,
    ArchiveErrorModel,
> {
    match reply_body(reply, file) {
        Ok(bytes) => unpacked(gunzipped(bytes), file),
        Err(error) => Err(error),
    }
}

/// Decompresses `bytes`.
///
/// Reads to the end of `flate2::read::GzDecoder` over `bytes`; an error is given as it
/// is displayed. Claimed: the outcome depends on `bytes` alone.
#[verifier::external_body]
fn gunzip(bytes: &[u8]) -> (decompressed: Result<Vec<u8>, String>)
    ensures
        bytes_or_text(decompressed) == gunzipped(bytes@),
{
    let mut decompressed = Vec::new();
    match flate2::read::GzDecoder::new(bytes).read_to_end(&mut decompressed) {
        Ok(_) => Ok(decompressed),
        Err(error) => Err(error.to_string()),
    }
}

/// Whether an HTTP status stands for success.
pub fn is_success_status(status: u16) -> (success: bool)
    ensures
        success == is_success(status as int),
{
    200 <= status && status < 300
}

/// The compressed file that a reply brings.
pub fn accept_reply(reply: HttpReply, file_name: &str) -> (body: Result<Vec<u8>, ArchiveErrorKind>)
    ensures
        file_model(body) == reply_body(reply@, file_name@),
{
    match reply {
        HttpReply::Unsent { reason } => Err(
            ArchiveErrorKind::FetchFailed { file: owned(file_name), reason },
        ),
        HttpReply::Answered { status, status_text, body } => if !is_success_status(status) {
            let mut reason = owned("HTTP status ");
            append(&mut reason, status_text.as_str());
            Err(ArchiveErrorKind::FetchFailed { file: owned(file_name), reason })
        } else {
            match body {
                Ok(bytes) => Ok(bytes),
                Err(text) => {
                    let mut reason = owned("failed to read response bytes: ");
                    append(&mut reason, text.as_str());
                    Err(ArchiveErrorKind::FetchFailed { file: owned(file_name), reason })
                },
            }
        },
    }
}

/// The file that decompression gave.
pub fn accept_decompressed(decompressed: Result<Vec<u8>, String>, file_name: &str) -> (file: Result<
    Vec<u8>,
    ArchiveErrorKind,
>)
    ensures
        file_model(file) == unpacked(bytes_or_text(decompressed), file_name@),
{
    match decompressed {
        Ok(bytes) => Ok(bytes),
        Err(reason) => Err(
            ArchiveErrorKind::DecompressionFailed { file: owned(file_name), reason },
        ),
    }
}

/// The file that a reply brings, decompressed.
pub fn fetch_and_decompress(reply: HttpReply, file_name: &str) -> (file: Result<
    Vec<u8>,
    ArchiveErrorKind,
>)
    ensures
        file_model(file) == fetched(reply@, file_name@),
{
    match accept_reply(reply, file_name) {
        Ok(bytes) => accept_decompressed(gunzip(bytes.as_slice()), file_name),
        Err(error) => Err(error),
    }
}

/// Which files of an archive's checkpoint are there already.
#[derive(Debug, PartialEq, Eq)]
enum FetchStage {
    Nothing,
    Ledger { ledger_header: Vec<u8> },
    LedgerAndTransactions { ledger_header: Vec<u8>, transaction_set: Vec<u8> },
}

/// The model of what an archive has delivered so far.
pub enum StageModel {
    Nothing,
    Ledger { ledger_header: Seq<u8> },
    LedgerAndTransactions { ledger_header: Seq<u8>, transaction_set: Seq<u8> },
}

/// A checkpoint that is being fetched: it waits for the outcome of one request.
#[derive(Debug, PartialEq, Eq)]
pub struct CheckpointFetch {
    archive_urls: Vec<String>,
    checkpoint_seq: u32,
    at: usize,
    stage: FetchStage,
}

/// The model of [`CheckpointFetch`].
pub struct FetchModel {
    /// The archives, in the order in which they are tried.
    pub archive_urls: Seq<Seq<char>>,
    pub checkpoint_seq: u32,
    /// The archive that is asked.
    pub at: int,
    /// What that archive has delivered.
    pub stage: StageModel,
}

/// Where fetching a checkpoint stands.
#[derive(Debug, PartialEq, Eq)]
pub enum FetchProgress {
    /// `url` is to be requested, and its outcome, as the outcome of `file`, handed to
    /// `pending`.
    Request { url: String, file: String, pending: CheckpointFetch },
    /// There is nothing more to request.
    Finished(GratResult<ArchiveCheckpoint>),
}

/// The model of [`FetchProgress`].
pub enum ProgressModel {
    Request { url: Seq<char>, file: Seq<char>, pending: FetchModel },
    Finished(Result<CheckpointModel, GratErrorModel>),
}

impl FetchStage {
    spec fn model(self) -> StageModel {
        match self {
            FetchStage::Nothing => StageModel::Nothing,
            FetchStage::Ledger { ledger_header } => StageModel::Ledger {
                ledger_header: ledger_header@,
            },
            FetchStage::LedgerAndTransactions { ledger_header, transaction_set } =>
                StageModel::LedgerAndTransactions {
                ledger_header: ledger_header@,
                transaction_set: transaction_set@,
            },
        }
    }
}

impl View for CheckpointFetch {
    type V = FetchModel;

    closed spec fn view(&self) -> FetchModel {
        FetchModel {
            archive_urls: texts(self.archive_urls@),
            checkpoint_seq: self.checkpoint_seq,
            at: self.at as int,
            stage: self.stage.model(),
        }
    }
}

/// The model of a checkpoint, or of the error where it could not be had.
pub open spec fn checkpoint_result(result: GratResult<ArchiveCheckpoint>) -> Result<
    CheckpointModel,
    GratErrorModel,
> {
    match result {
        Ok(checkpoint) => Ok(checkpoint@),
        Err(error) => Err(error@),
    }
}

impl View for FetchProgress {
    type V = ProgressModel;

    open spec fn view(&self) -> ProgressModel {
        match *self {
            FetchProgress::Request { url, file, pending } => ProgressModel::Request {
                url: url@,
                file: file@,
                pending: pending@,
            },
            FetchProgress::Finished(result) => ProgressModel::Finished(checkpoint_result(result)),
        }
    }
}

impl StageModel {
    /// The file that is asked for next.
    pub open spec fn category(self) -> ArchiveCategory {
        match self {
            StageModel::Nothing => ArchiveCategory::Ledger,
            StageModel::Ledger { .. } => ArchiveCategory::Transactions,
            StageModel::LedgerAndTransactions { .. } => ArchiveCategory::Results,
        }
    }
}

/// The progress in which `pending` waits for the file that it needs next.
pub open spec fn asking(pending: FetchModel) -> ProgressModel {
    let file = archive_path(pending.stage.category(), pending.checkpoint_seq);
    ProgressModel::Request {
        url: joined_url(pending.archive_urls[pending.at], file),
        file,
        pending,
    }
}

/// The error for a checkpoint that no archive delivers; `last_error` is that of the last
/// archive.
pub open spec fn checkpoint_missing(
    checkpoint_seq: u32,
    last_error: Option<ArchiveErrorModel>,
) -> GratErrorModel {
    GratErrorModel::ArchiveError(
        ArchiveErrorModel::FetchFailed {
            file: "checkpoint-"@ + decimal(checkpoint_seq as nat),
            reason: match last_error {
                Some(error) => error.message(),
                None => "no archive URLs configured"@,
            },
        },
    )
}

/// Where fetching stands when the archives from `at` on are left to try.
pub open spec fn from_archive(
    archive_urls: Seq<Seq<char>>,
    checkpoint_seq: u32,
    at: int,
    last_error: Option<ArchiveErrorModel>,
) -> ProgressModel {
    if at < archive_urls.len() {
        asking(FetchModel { archive_urls, checkpoint_seq, at, stage: StageModel::Nothing })
    } else {
        ProgressModel::Finished(Err(checkpoint_missing(checkpoint_seq, last_error)))
    }
}

/// Where fetching stands after the outcome that `pending` waits for: an archive that
/// fails to deliver a file is left for the next one, and nothing of it is kept.
pub open spec fn resumed(
    pending: FetchModel,
    outcome: Result<Seq<u8>, ArchiveErrorModel>,
) -> ProgressModel {
    match outcome {
        Err(error) => from_archive(
            pending.archive_urls,
            pending.checkpoint_seq,
            pending.at + 1,
            Some(error),
        ),
        Ok(bytes) => match pending.stage {
            StageModel::Nothing => asking(
                FetchModel { stage: StageModel::Ledger { ledger_header: bytes }, ..pending },
            ),
            StageModel::Ledger { ledger_header } => asking(
                FetchModel {
                    stage: StageModel::LedgerAndTransactions {
                        ledger_header,
                        transaction_set: bytes,
                    },
                    ..pending
                },
            ),
            StageModel::LedgerAndTransactions { ledger_header, transaction_set } =>
                ProgressModel::Finished(
                Ok(
                    CheckpointModel {
                        ledger_sequence: pending.checkpoint_seq,
                        ledger_header,
                        transaction_set,
                        transaction_results: bytes,
                    },
                ),
            ),
        },
    }
}

/// A reader of a network's history archives.
#[derive(Debug, PartialEq, Eq)]
pub struct ArchiveClient {
    archive_urls: Vec<String>,
}

impl View for ArchiveClient {
    type V = Seq<Seq<char>>;

    /// The archives, in the order in which they are tried.
    closed spec fn view(&self) -> Seq<Seq<char>> {
        texts(self.archive_urls@)
    }
}

/// The name under which a checkpoint as a whole is reported.
fn checkpoint_name(checkpoint_seq: u32) -> (name: String)
    ensures
        name@ == "checkpoint-"@ + decimal(checkpoint_seq as nat),
{
    let mut name = owned("checkpoint-");
    append_decimal(&mut name, checkpoint_seq as u64);
    name
}

impl CheckpointFetch {
    /// An archive is being asked.
    #[verifier::type_invariant]
    spec fn well_formed(&self) -> bool {
        self.at < self.archive_urls@.len()
    }

    /// The request that brings the next file.
    fn ask(self) -> (progress: FetchProgress)
        ensures
            progress@ == asking(self@),
    {
        proof {
            use_type_invariant(&self);
        }
        let category = match self.stage {
            FetchStage::Nothing => ArchiveCategory::Ledger,
            FetchStage::Ledger { .. } => ArchiveCategory::Transactions,
            FetchStage::LedgerAndTransactions { .. } => ArchiveCategory::Results,
        };
        let file = format_archive_path(category, self.checkpoint_seq);
        let url = join_url(self.archive_urls[self.at].as_str(), file.as_str());
        FetchProgress::Request { url, file, pending: self }
    }

    /// Where fetching stands when the archives from `at` on are left to try.
    fn try_archive(
        archive_urls: Vec<String>,
        checkpoint_seq: u32,
        at: usize,
        last_error: Option<ArchiveErrorKind>,
    ) -> (progress: FetchProgress)
        ensures
            progress@ == from_archive(
                texts(archive_urls@),
                checkpoint_seq,
                at as int,
                match last_error {
                    Some(error) => Some(error@),
                    None => None,
                },
            ),
    {
        if at < archive_urls.len() {
            let pending = CheckpointFetch {
                archive_urls,
                checkpoint_seq,
                at,
                stage: FetchStage::Nothing,
            };
            pending.ask()
        } else {
            let reason = match last_error {
                Some(error) => error.message(),
                None => owned("no archive URLs configured"),
            };
            FetchProgress::Finished(
                Err(
                    GratError::ArchiveError(
                        ArchiveErrorKind::FetchFailed {
                            file: checkpoint_name(checkpoint_seq),
                            reason,
                        },
                    ),
                ),
            )
        }
    }

    /// Takes the outcome of the request that was waited for.
    pub fn resume(self, outcome: Result<Vec<u8>, ArchiveErrorKind>) -> (progress: FetchProgress)
        ensures
            progress@ == resumed(self@, file_model(outcome)),
    {
        proof {
            use_type_invariant(&self);
            assert(self.at < self.archive_urls.len());
        }
        match outcome {
            Err(error) => CheckpointFetch::try_archive(
                self.archive_urls,
                self.checkpoint_seq,
                self.at + 1,
                Some(error),
            ),
            Ok(bytes) => {
                let stage = match self.stage {
                    FetchStage::Nothing => FetchStage::Ledger { ledger_header: bytes },
                    FetchStage::Ledger { ledger_header } => FetchStage::LedgerAndTransactions {
                        ledger_header,
                        transaction_set: bytes,
                    },
                    FetchStage::LedgerAndTransactions { ledger_header, transaction_set } => {
                        return FetchProgress::Finished(
                            Ok(
                                ArchiveCheckpoint {
                                    ledger_sequence: self.checkpoint_seq,
                                    ledger_header,
                                    transaction_set,
                                    transaction_results: bytes,
                                },
                            ),
                        );
                    },
                };
                let pending = CheckpointFetch {
                    archive_urls: self.archive_urls,
                    checkpoint_seq: self.checkpoint_seq,
                    at: self.at,
                    stage,
                };
                pending.ask()
            },
        }
    }
}

/// The header of the first of `entries` that is of the given ledger.
pub open spec fn header_of(entries: Seq<HistoryEntryModel>, ledger_sequence: u32) -> Option<
    LedgerHeaderModel,
>
    decreases entries.len(),
{
    if entries.len() == 0 {
        None
    } else if entries[0].header.ledger_seq == ledger_sequence {
        Some(entries[0].header)
    } else {
        header_of(entries.drop_first(), ledger_sequence)
    }
}

/// The header of the given ledger among `entries`, or the error where there is none.
pub open spec fn selected_header(entries: Seq<HistoryEntryModel>, ledger_sequence: u32) -> Result<
    LedgerHeaderModel,
    GratErrorModel,
> {
    match header_of(entries, ledger_sequence) {
        Some(header) => Ok(header),
        None => Err(
            GratErrorModel::ArchiveError(
                ArchiveErrorModel::FetchFailed {
                    file: "checkpoint-"@ + decimal(checkpoint_of(ledger_sequence as int) as nat),
                    reason: "ledger sequence "@ + decimal(ledger_sequence as nat)
                        + " not found in checkpoint stream"@,
                },
            ),
        ),
    }
}

/// The header of the given ledger in what fetching its checkpoint gave.
pub open spec fn ledger_header_in(
    fetched_checkpoint: Result<CheckpointModel, GratErrorModel>,
    ledger_sequence: u32,
) -> Result<LedgerHeaderModel, GratErrorModel> {
    match fetched_checkpoint {
        Err(error) => Err(error),
        Ok(checkpoint) => match parsed_stream(
            checkpoint.ledger_header,
            "checkpoint-"@ + decimal(checkpoint_of(ledger_sequence as int) as nat),
        ) {
            Err(error) => Err(error),
            Ok(entries) => selected_header(entries, ledger_sequence),
        },
    }
}

/// The model of a header, or of the error where it could not be had.
pub open spec fn header_result(result: GratResult<LedgerHeader>) -> Result<
    LedgerHeaderModel,
    GratErrorModel,
> {
    match result {
        Ok(header) => Ok(header@),
        Err(error) => Err(error@),
    }
}

/// The header of the given ledger among the entries of its checkpoint.
pub fn select_header(entries: Vec<LedgerHeaderHistoryEntry>, ledger_sequence: u32) -> (header:
    GratResult<LedgerHeader>)
    ensures
        header_result(header) == selected_header(history_models(entries@), ledger_sequence),
{
    let ghost models = history_models(entries@);
    assert(models.skip(0) =~= models);
    for entry in items: entries
        invariant
            items.seq() == entries@,
            models == history_models(entries@),
            header_of(models, ledger_sequence) == header_of(
                models.skip(items.index() as int),
                ledger_sequence,
            ),
    {
        let ghost rest = models.skip(items.index() as int);
        assert(rest[0] == entry@);
        assert(rest.drop_first() =~= models.skip(items.index() + 1));
        if entry.header.ledger_seq == ledger_sequence {
            return Ok(entry.header);
        }
    }
    let mut reason = owned("ledger sequence ");
    append_decimal(&mut reason, ledger_sequence as u64);
    append(&mut reason, " not found in checkpoint stream");
    Err(
        GratError::ArchiveError(
            ArchiveErrorKind::FetchFailed {
                file: checkpoint_name(get_checkpoint_seq(ledger_sequence)),
                reason,
            },
        ),
    )
}

/// The error for a single ledger entry, which cannot be fetched.
pub open spec fn entry_refused(ledger_sequence: u32, key: Seq<char>) -> GratErrorModel {
    GratErrorModel::ArchiveError(
        ArchiveErrorModel::FetchFailed {
            file: "ledger-entry-"@ + decimal(ledger_sequence as nat) + "-"@ + key,
            reason: "Ledger entry fetch not yet implemented"@,
        },
    )
}

impl ArchiveClient {
    /// A reader of the archives of the given network.
    pub fn new(config: &NetworkConfig) -> (client: ArchiveClient)
        ensures
            client@ == texts(config.archive_urls@),
    {
        ArchiveClient { archive_urls: copy_texts(&config.archive_urls) }
    }

    /// Begins to fetch the checkpoint that the given ledger belongs to.
    ///
    /// The archives are tried in order. The checkpoint is that of the first archive that
    /// delivers all three files; files of different archives are never combined.
    pub fn fetch_checkpoint(&self, ledger_sequence: u32) -> (progress: FetchProgress)
        ensures
            progress@ == from_archive(
                self@,
                checkpoint_of(ledger_sequence as int) as u32,
                0,
                None,
            ),
    {
        CheckpointFetch::try_archive(
            copy_texts(&self.archive_urls),
            get_checkpoint_seq(ledger_sequence),
            0,
            None,
        )
    }

    /// Fetching a single ledger entry is not supported: it always fails.
    pub fn fetch_ledger_entry(&self, ledger_sequence: u32, key: &str) -> (entry: GratResult<
        Vec<u8>,
    >)
        ensures
            entry matches Err(error) && error@ == entry_refused(ledger_sequence, key@),
            entry matches Err(error) && error@ == GratErrorModel::ArchiveError(
                ArchiveErrorModel::FetchFailed {
                    file: "ledger-entry-"@ + decimal(ledger_sequence as nat) + "-"@ + key@,
                    reason: "Ledger entry fetch not yet implemented"@,
                },
            ),
    {
        let mut file = owned("ledger-entry-");
        append_decimal(&mut file, ledger_sequence as u64);
        append(&mut file, "-");
        append(&mut file, key);
        Err(
            GratError::ArchiveError(
                ArchiveErrorKind::FetchFailed {
                    file,
                    reason: owned("Ledger entry fetch not yet implemented"),
                },
            ),
        )
    }

    /// The header of the given ledger, out of what fetching its checkpoint gave.
    pub fn get_ledger_header(
        &self,
        fetched_checkpoint: GratResult<ArchiveCheckpoint>,
        ledger_sequence: u32,
    ) -> (header: GratResult<LedgerHeader>)
        ensures
            header_result(header) == ledger_header_in(
                checkpoint_result(fetched_checkpoint),
                ledger_sequence,
            ),
    {
        match fetched_checkpoint {
            Err(error) => Err(error),
            Ok(checkpoint) => {
                let name = checkpoint_name(get_checkpoint_seq(ledger_sequence));
                match parse_ledger_header_stream(
                    checkpoint.ledger_header.as_slice(),
                    name.as_str(),
                ) {
                    Err(error) => Err(error),
                    Ok(entries) => select_header(entries, ledger_sequence),
                }
            },
        }
    }
}

/// How many archives are left to try, the one that is asked among them.
pub open spec fn archives_left(progress: ProgressModel) -> nat {
    match progress {
        ProgressModel::Request { pending, .. } => if pending.at < pending.archive_urls.len() {
            (pending.archive_urls.len() - pending.at) as nat
        } else {
            0
        },
        ProgressModel::Finished(_) => 0,
    }
}

/// How many files are to be had from the archive that is asked.
pub open spec fn files_left(progress: ProgressModel) -> nat {
    match progress {
        ProgressModel::Request { pending, .. } => match pending.stage {
            StageModel::Nothing => 3,
            StageModel::Ledger { .. } => 2,
            StageModel::LedgerAndTransactions { .. } => 1,
        },
        ProgressModel::Finished(_) => 0,
    }
}

/// What fetching comes to where `files` says what each archive delivers.
pub open spec fn fetch_outcome(
    progress: ProgressModel,
    files: spec_fn(int, ArchiveCategory) -> Result<Seq<u8>, ArchiveErrorModel>,
) -> Result<CheckpointModel, GratErrorModel>
    decreases archives_left(progress), files_left(progress),
{
    match progress {
        ProgressModel::Finished(result) => result,
        ProgressModel::Request { pending, .. } => fetch_outcome(
            resumed(pending, files(pending.at, pending.stage.category())),
            files,
        ),
    }
}

/// Whether an archive delivers all three files.
pub open spec fn delivers(
    files: spec_fn(int, ArchiveCategory) -> Result<Seq<u8>, ArchiveErrorModel>,
    archive: int,
) -> bool {
    &&& files(archive, ArchiveCategory::Ledger) is Ok
    &&& files(archive, ArchiveCategory::Transactions) is Ok
    &&& files(archive, ArchiveCategory::Results) is Ok
}

/// The checkpoint that an archive delivers.
pub open spec fn delivered(
    files: spec_fn(int, ArchiveCategory) -> Result<Seq<u8>, ArchiveErrorModel>,
    archive: int,
    checkpoint_seq: u32,
) -> CheckpointModel {
    CheckpointModel {
        ledger_sequence: checkpoint_seq,
        ledger_header: files(archive, ArchiveCategory::Ledger)->Ok_0,
        transaction_set: files(archive, ArchiveCategory::Transactions)->Ok_0,
        transaction_results: files(archive, ArchiveCategory::Results)->Ok_0,
    }
}

/// The error of the first file that an archive fails to deliver.
pub open spec fn first_failure(
    files: spec_fn(int, ArchiveCategory) -> Result<Seq<u8>, ArchiveErrorModel>,
    archive: int,
) -> ArchiveErrorModel {
    if files(archive, ArchiveCategory::Ledger) is Err {
        files(archive, ArchiveCategory::Ledger)->Err_0
    } else if files(archive, ArchiveCategory::Transactions) is Err {
        files(archive, ArchiveCategory::Transactions)->Err_0
    } else {
        files(archive, ArchiveCategory::Results)->Err_0
    }
}

/// Whether `result` is the checkpoint of the first archive that delivers all three files,
/// or, where no archive does, the error with the first failure of the last archive.
pub open spec fn is_of_first_full_archive(
    archive_urls: Seq<Seq<char>>,
    checkpoint_seq: u32,
    files: spec_fn(int, ArchiveCategory) -> Result<Seq<u8>, ArchiveErrorModel>,
    result: Result<CheckpointModel, GratErrorModel>,
) -> bool {
    match result {
        Ok(checkpoint) => exists|i: int|
            0 <= i < archive_urls.len() && #[trigger] delivers(files, i) && checkpoint == delivered(
                files,
                i,
                checkpoint_seq,
            ) && forall|j: int| 0 <= j < i ==> !#[trigger] delivers(files, j),
        Err(error) => (forall|i: int|
            0 <= i < archive_urls.len() ==> !#[trigger] delivers(files, i)) && error
            == checkpoint_missing(
            checkpoint_seq,
            if archive_urls.len() == 0 {
                None
            } else {
                Some(first_failure(files, archive_urls.len() - 1))
            },
        ),
    }
}

/// One archive delivers the checkpoint, or is left for the next.
proof fn archive_decides(
    archive_urls: Seq<Seq<char>>,
    checkpoint_seq: u32,
    at: int,
    last_error: Option<ArchiveErrorModel>,
    files: spec_fn(int, ArchiveCategory) -> Result<Seq<u8>, ArchiveErrorModel>,
)
    requires
        0 <= at < archive_urls.len(),
    ensures
        fetch_outcome(from_archive(archive_urls, checkpoint_seq, at, last_error), files)
            == if delivers(files, at) {
            Ok(delivered(files, at, checkpoint_seq))
        } else {
            fetch_outcome(
                from_archive(
                    archive_urls,
                    checkpoint_seq,
                    at + 1,
                    Some(first_failure(files, at)),
                ),
                files,
            )
        },
{
    reveal_with_fuel(fetch_outcome, 4);
}

/// The checkpoint is that of the first archive that delivers all three files, and all
/// three are of that archive. Fetching fails exactly when no archive delivers all
/// three, with the first failure of the last archive as the reason.
pub proof fn first_full_archive_is_taken(
    archive_urls: Seq<Seq<char>>,
    checkpoint_seq: u32,
    files: spec_fn(int, ArchiveCategory) -> Result<Seq<u8>, ArchiveErrorModel>,
)
    ensures
        is_of_first_full_archive(
            archive_urls,
            checkpoint_seq,
            files,
            fetch_outcome(from_archive(archive_urls, checkpoint_seq, 0, None), files),
        ),
{
    rest_of_archives(archive_urls, checkpoint_seq, 0, None, files);
}

/// The same from the archive `at` on.
proof fn rest_of_archives(
    archive_urls: Seq<Seq<char>>,
    checkpoint_seq: u32,
    at: int,
    last_error: Option<ArchiveErrorModel>,
    files: spec_fn(int, ArchiveCategory) -> Result<Seq<u8>, ArchiveErrorModel>,
)
    requires
        0 <= at <= archive_urls.len(),
        last_error == if at == 0 {
            None
        } else {
            Some(first_failure(files, at - 1))
        },
        forall|j: int| 0 <= j < at ==> !#[trigger] delivers(files, j),
    ensures
        is_of_first_full_archive(
            archive_urls,
            checkpoint_seq,
            files,
            fetch_outcome(from_archive(archive_urls, checkpoint_seq, at, last_error), files),
        ),
    decreases archive_urls.len() - at,
{
    if at < archive_urls.len() {
        archive_decides(archive_urls, checkpoint_seq, at, last_error, files);
        if !delivers(files, at) {
            rest_of_archives(
                archive_urls,
                checkpoint_seq,
                at + 1,
                Some(first_failure(files, at)),
                files,
            );
        }
    }
}

/// Where the checkpoint has a header of the ledger, a header of that ledger is found;
/// otherwise the ledger is reported missing.
pub proof fn header_is_of_the_ledger(entries: Seq<HistoryEntryModel>, ledger_sequence: u32)
    ensures
        match selected_header(entries, ledger_sequence) {
            Ok(header) => header.ledger_seq == ledger_sequence && exists|i: int|
                0 <= i < entries.len() && header == (#[trigger] entries[i]).header && forall|j: int|
                    0 <= j < i ==> (#[trigger] entries[j]).header.ledger_seq != ledger_sequence,
            Err(_) => forall|i: int|
                0 <= i < entries.len() ==> (#[trigger] entries[i]).header.ledger_seq
                    != ledger_sequence,
        },
    decreases entries.len(),
{
    if entries.len() > 0 && entries[0].header.ledger_seq != ledger_sequence {
        let rest = entries.drop_first();
        header_is_of_the_ledger(rest, ledger_sequence);
        assert(forall|i: int| 0 < i < entries.len() ==> #[trigger] entries[i] == rest[i - 1]);
        if let Ok(header) = selected_header(entries, ledger_sequence) {
            let i = choose|i: int|
                0 <= i < rest.len() && header == (#[trigger] rest[i]).header && forall|j: int|
                    0 <= j < i ==> (#[trigger] rest[j]).header.ledger_seq != ledger_sequence;
            assert(entries[i + 1] == rest[i]);
        }
    }
}

/// The header that is returned for a ledger is a header of that ledger.
pub proof fn returned_header_is_of_the_ledger(
    fetched_checkpoint: Result<CheckpointModel, GratErrorModel>,
    ledger_sequence: u32,
)
    ensures
        ledger_header_in(fetched_checkpoint, ledger_sequence) matches Ok(header)
            ==> header.ledger_seq == ledger_sequence,
{
    if let Ok(checkpoint) = fetched_checkpoint {
        if let Ok(entries) = parsed_stream(
            checkpoint.ledger_header,
            "checkpoint-"@ + decimal(checkpoint_of(ledger_sequence as int) as nat),
        ) {
            header_is_of_the_ledger(entries, ledger_sequence);
        }
    }
}

} // verus!
