//! What holds of the requests for a checkpoint and of what comes of them.
//!
//! An archive is told here by its address and a file by its URL.

use vstd::prelude::*;

use crate::archive::client::{
    archives_left, asking, checkpoint_result, entry_refused, fetched, file_model, files_left,
    from_archive, gunzipped, header_is_of_the_ledger, header_of, header_result, ledger_header_in,
    reply_body, resumed, selected_header, unpacked, ArchiveCheckpoint, CheckpointModel,
    FetchModel, FetchProgress, HttpReply, ProgressModel, StageModel,
};
use crate::archive::header::{
    decoded_record, history_models, ConsensusValue, HistoryEntryModel, LedgerHeader,
    LedgerHeaderHistoryEntry,
};
use crate::archive::path::{
    archive_path, archive_url_has_no_double_slash, checkpoint_of, hex_digits_length, joined_url,
    without_slashes_after, without_slashes_before, ArchiveCategory,
};
use crate::archive::stream::{
    assembled, decoded_records, fault_text, fragment, fragment_is_read_back, framed, marker,
    outcome_models, parsed_stream, record_views, stream_of, written_stream_is_parsed, FrameFault,
};
use crate::error::{ArchiveErrorKind, ArchiveErrorModel, GratError, GratErrorModel, GratResult};
use crate::text::{decimal, digit_char, hex_digits, texts};

verus! {

/// What comes of a run of requests where `serve` says what each URL brings.
pub open spec fn served(
    progress: ProgressModel,
    serve: spec_fn(Seq<char>) -> Result<Seq<u8>, ArchiveErrorModel>,
) -> Result<CheckpointModel, GratErrorModel>
    decreases archives_left(progress), files_left(progress),
{
    match progress {
        ProgressModel::Finished(result) => result,
        ProgressModel::Request { url, file, pending } => served(
            resumed(pending, serve(url)),
            serve,
        ),
    }
}

/// The URLs that are requested in that run, in order.
pub open spec fn requested(
    progress: ProgressModel,
    serve: spec_fn(Seq<char>) -> Result<Seq<u8>, ArchiveErrorModel>,
) -> Seq<Seq<char>>
    decreases archives_left(progress), files_left(progress),
{
    match progress {
        ProgressModel::Finished(_) => Seq::empty(),
        ProgressModel::Request { url, file, pending } => seq![url] + requested(
            resumed(pending, serve(url)),
            serve,
        ),
    }
}

/// The URL of a checkpoint's file at an archive: the archive's address without slashes at
/// its end, a slash, and the path of the file.
pub open spec fn url_at(archive: Seq<char>, category: ArchiveCategory, checkpoint_seq: u32) -> Seq<
    char,
> {
    without_slashes_after(archive) + "/"@ + archive_path(category, checkpoint_seq)
}

/// Whether all three files of the checkpoint are there at an archive.
pub open spec fn has_all_files(
    serve: spec_fn(Seq<char>) -> Result<Seq<u8>, ArchiveErrorModel>,
    archive: Seq<char>,
    checkpoint_seq: u32,
) -> bool {
    &&& serve(url_at(archive, ArchiveCategory::Ledger, checkpoint_seq)) is Ok
    &&& serve(url_at(archive, ArchiveCategory::Transactions, checkpoint_seq)) is Ok
    &&& serve(url_at(archive, ArchiveCategory::Results, checkpoint_seq)) is Ok
}

/// The error of the first of the three files that is not there.
pub open spec fn first_missing(
    serve: spec_fn(Seq<char>) -> Result<Seq<u8>, ArchiveErrorModel>,
    archive: Seq<char>,
    checkpoint_seq: u32,
) -> ArchiveErrorModel {
    let ledger = serve(url_at(archive, ArchiveCategory::Ledger, checkpoint_seq));
    let transactions = serve(url_at(archive, ArchiveCategory::Transactions, checkpoint_seq));
    let results = serve(url_at(archive, ArchiveCategory::Results, checkpoint_seq));
    if ledger is Err {
        ledger->Err_0
    } else if transactions is Err {
        transactions->Err_0
    } else {
        results->Err_0
    }
}

/// One request, and what follows it.
proof fn one_request(
    pending: FetchModel,
    serve: spec_fn(Seq<char>) -> Result<Seq<u8>, ArchiveErrorModel>,
)
    requires
        0 <= pending.at < pending.archive_urls.len(),
    ensures
        ({
            let url = url_at(
                pending.archive_urls[pending.at],
                pending.stage.category(),
                pending.checkpoint_seq,
            );
            let next = resumed(pending, serve(url));
            &&& served(asking(pending), serve) == served(next, serve)
            &&& requested(asking(pending), serve) == seq![url] + requested(next, serve)
        }),
{
    archive_url_has_no_double_slash(
        pending.archive_urls[pending.at],
        pending.stage.category(),
        pending.checkpoint_seq,
    );
}

/// The run of requests at one archive.
proof fn run_at_an_archive(
    archive_urls: Seq<Seq<char>>,
    checkpoint_seq: u32,
    at: int,
    last_error: Option<ArchiveErrorModel>,
    serve: spec_fn(Seq<char>) -> Result<Seq<u8>, ArchiveErrorModel>,
)
    requires
        0 <= at < archive_urls.len(),
    ensures
        ({
            let archive = archive_urls[at];
            let ledger = url_at(archive, ArchiveCategory::Ledger, checkpoint_seq);
            let transactions = url_at(archive, ArchiveCategory::Transactions, checkpoint_seq);
            let results = url_at(archive, ArchiveCategory::Results, checkpoint_seq);
            let here = from_archive(archive_urls, checkpoint_seq, at, last_error);
            let next = from_archive(
                archive_urls,
                checkpoint_seq,
                at + 1,
                Some(first_missing(serve, archive, checkpoint_seq)),
            );
            &&& has_all_files(serve, archive, checkpoint_seq) ==> served(here, serve) == Ok::<
                CheckpointModel,
                GratErrorModel,
            >(
                CheckpointModel {
                    ledger_sequence: checkpoint_seq,
                    ledger_header: serve(ledger)->Ok_0,
                    transaction_set: serve(transactions)->Ok_0,
                    transaction_results: serve(results)->Ok_0,
                },
            )
            &&& !has_all_files(serve, archive, checkpoint_seq) ==> served(here, serve) == served(
                next,
                serve,
            ) && exists|own: Seq<Seq<char>>|
                #![trigger own + requested(next, serve)]
                own.len() > 0 && own[0] == ledger && requested(here, serve) == own + requested(
                    next,
                    serve,
                )
        }),
{
    let archive = archive_urls[at];
    let ledger = url_at(archive, ArchiveCategory::Ledger, checkpoint_seq);
    let transactions = url_at(archive, ArchiveCategory::Transactions, checkpoint_seq);
    let results = url_at(archive, ArchiveCategory::Results, checkpoint_seq);
    let here = requested(from_archive(archive_urls, checkpoint_seq, at, last_error), serve);
    let next = requested(
        from_archive(
            archive_urls,
            checkpoint_seq,
            at + 1,
            Some(first_missing(serve, archive, checkpoint_seq)),
        ),
        serve,
    );
    let nothing = FetchModel { archive_urls, checkpoint_seq, at, stage: StageModel::Nothing };
    one_request(nothing, serve);
    if serve(ledger) is Ok {
        let one = FetchModel {
            stage: StageModel::Ledger { ledger_header: serve(ledger)->Ok_0 },
            ..nothing
        };
        one_request(one, serve);
        if serve(transactions) is Ok {
            let two = FetchModel {
                stage: StageModel::LedgerAndTransactions {
                    ledger_header: serve(ledger)->Ok_0,
                    transaction_set: serve(transactions)->Ok_0,
                },
                ..nothing
            };
            one_request(two, serve);
            if serve(results) is Err {
                assert(here =~= seq![ledger, transactions, results] + next);
            }
        } else {
            assert(here =~= seq![ledger, transactions] + next);
        }
    } else {
        assert(here =~= seq![ledger] + next);
    }
}

/// The checkpoint is that of the first archive at whose address all three of its files are
/// there: each file is what its URL below that address brings.
pub proof fn checkpoint_is_of_the_first_full_address(
    archive_urls: Seq<Seq<char>>,
    checkpoint_seq: u32,
    full: int,
    serve: spec_fn(Seq<char>) -> Result<Seq<u8>, ArchiveErrorModel>,
)
    requires
        0 <= full < archive_urls.len(),
        has_all_files(serve, archive_urls[full], checkpoint_seq),
        forall|i: int|
            0 <= i < full ==> !#[trigger] has_all_files(serve, archive_urls[i], checkpoint_seq),
    ensures
        served(from_archive(archive_urls, checkpoint_seq, 0, None), serve) == Ok::<
            CheckpointModel,
            GratErrorModel,
        >(
            CheckpointModel {
                ledger_sequence: checkpoint_seq,
                ledger_header: serve(
                    url_at(archive_urls[full], ArchiveCategory::Ledger, checkpoint_seq),
                )->Ok_0,
                transaction_set: serve(
                    url_at(archive_urls[full], ArchiveCategory::Transactions, checkpoint_seq),
                )->Ok_0,
                transaction_results: serve(
                    url_at(archive_urls[full], ArchiveCategory::Results, checkpoint_seq),
                )->Ok_0,
            },
        ),
{
    archives_before_a_full_one(archive_urls, checkpoint_seq, 0, None, full, serve);
}

/// The same from the archive `at` on.
proof fn archives_before_a_full_one(
    archive_urls: Seq<Seq<char>>,
    checkpoint_seq: u32,
    at: int,
    last_error: Option<ArchiveErrorModel>,
    full: int,
    serve: spec_fn(Seq<char>) -> Result<Seq<u8>, ArchiveErrorModel>,
)
    requires
        0 <= at <= full < archive_urls.len(),
        has_all_files(serve, archive_urls[full], checkpoint_seq),
        forall|i: int|
            0 <= i < full ==> !#[trigger] has_all_files(serve, archive_urls[i], checkpoint_seq),
    ensures
        served(from_archive(archive_urls, checkpoint_seq, at, last_error), serve) == Ok::<
            CheckpointModel,
            GratErrorModel,
        >(
            CheckpointModel {
                ledger_sequence: checkpoint_seq,
                ledger_header: serve(
                    url_at(archive_urls[full], ArchiveCategory::Ledger, checkpoint_seq),
                )->Ok_0,
                transaction_set: serve(
                    url_at(archive_urls[full], ArchiveCategory::Transactions, checkpoint_seq),
                )->Ok_0,
                transaction_results: serve(
                    url_at(archive_urls[full], ArchiveCategory::Results, checkpoint_seq),
                )->Ok_0,
            },
        ),
    decreases full - at,
{
    run_at_an_archive(archive_urls, checkpoint_seq, at, last_error, serve);
    if at < full {
        let error = first_missing(serve, archive_urls[at], checkpoint_seq);
        archives_before_a_full_one(
            archive_urls,
            checkpoint_seq,
            at + 1,
            Some(error),
            full,
            serve,
        );
    }
}

/// Where no archive has all three files, fetching fails, and the reason is the first
/// failure at the last archive; without any archive, that there is none.
pub proof fn fetching_fails_after_the_last_address(
    archive_urls: Seq<Seq<char>>,
    checkpoint_seq: u32,
    serve: spec_fn(Seq<char>) -> Result<Seq<u8>, ArchiveErrorModel>,
)
    requires
        forall|i: int|
            0 <= i < archive_urls.len() ==> !#[trigger] has_all_files(
                serve,
                archive_urls[i],
                checkpoint_seq,
            ),
    ensures
        served(from_archive(archive_urls, checkpoint_seq, 0, None), serve) == Err::<
            CheckpointModel,
            GratErrorModel,
        >(
            GratErrorModel::ArchiveError(
                ArchiveErrorModel::FetchFailed {
                    file: "checkpoint-"@ + decimal(checkpoint_seq as nat),
                    reason: if archive_urls.len() == 0 {
                        "no archive URLs configured"@
                    } else {
                        first_missing(serve, archive_urls.last(), checkpoint_seq).message()
                    },
                },
            ),
        ),
        forall|i: int|
            0 <= i < archive_urls.len() ==> requested(
                from_archive(archive_urls, checkpoint_seq, 0, None),
                serve,
            ).contains(url_at(#[trigger] archive_urls[i], ArchiveCategory::Ledger, checkpoint_seq)),
{
    archives_without_a_full_one(archive_urls, checkpoint_seq, 0, None, serve);
}

/// The same from the archive `at` on.
proof fn archives_without_a_full_one(
    archive_urls: Seq<Seq<char>>,
    checkpoint_seq: u32,
    at: int,
    last_error: Option<ArchiveErrorModel>,
    serve: spec_fn(Seq<char>) -> Result<Seq<u8>, ArchiveErrorModel>,
)
    requires
        0 <= at <= archive_urls.len(),
        last_error == if at == 0 {
            None
        } else {
            Some(first_missing(serve, archive_urls[at - 1], checkpoint_seq))
        },
        forall|i: int|
            0 <= i < archive_urls.len() ==> !#[trigger] has_all_files(
                serve,
                archive_urls[i],
                checkpoint_seq,
            ),
    ensures
        served(from_archive(archive_urls, checkpoint_seq, at, last_error), serve) == Err::<
            CheckpointModel,
            GratErrorModel,
        >(
            GratErrorModel::ArchiveError(
                ArchiveErrorModel::FetchFailed {
                    file: "checkpoint-"@ + decimal(checkpoint_seq as nat),
                    reason: if archive_urls.len() == 0 {
                        "no archive URLs configured"@
                    } else {
                        first_missing(serve, archive_urls.last(), checkpoint_seq).message()
                    },
                },
            ),
        ),
        forall|i: int|
            at <= i < archive_urls.len() ==> requested(
                from_archive(archive_urls, checkpoint_seq, at, last_error),
                serve,
            ).contains(url_at(#[trigger] archive_urls[i], ArchiveCategory::Ledger, checkpoint_seq)),
    decreases archive_urls.len() - at,
{
    if at < archive_urls.len() {
        let archive = archive_urls[at];
        assert(!has_all_files(serve, archive_urls[at], checkpoint_seq));
        run_at_an_archive(archive_urls, checkpoint_seq, at, last_error, serve);
        let error = Some(first_missing(serve, archive, checkpoint_seq));
        archives_without_a_full_one(archive_urls, checkpoint_seq, at + 1, error, serve);
        let here = requested(from_archive(archive_urls, checkpoint_seq, at, last_error), serve);
        let next = requested(from_archive(archive_urls, checkpoint_seq, at + 1, error), serve);
        let own = choose|own: Seq<Seq<char>>|
            #![trigger own + next]
            own.len() > 0 && own[0] == url_at(archive, ArchiveCategory::Ledger, checkpoint_seq)
                && here == own + next;
        assert(here[0] == url_at(archive, ArchiveCategory::Ledger, checkpoint_seq));
        assert forall|i: int| at <= i < archive_urls.len() implies here.contains(
            url_at(#[trigger] archive_urls[i], ArchiveCategory::Ledger, checkpoint_seq),
        ) by {
            if i > at {
                let url = url_at(archive_urls[i], ArchiveCategory::Ledger, checkpoint_seq);
                let j = choose|j: int| 0 <= j < next.len() && next[j] == url;
                assert(here[own.len() + j] == next[j]);
            }
        }
    }
}

/// While an archive is tried, what is requested is the URL of a file of the checkpoint
/// below the address of that archive.
pub proof fn requests_go_to_the_archive_that_is_tried(pending: FetchModel)
    ensures
        asking(pending) matches ProgressModel::Request { url, file, pending: kept } && kept
            == pending && file == archive_path(
            match pending.stage {
                StageModel::Nothing => ArchiveCategory::Ledger,
                StageModel::Ledger { .. } => ArchiveCategory::Transactions,
                StageModel::LedgerAndTransactions { .. } => ArchiveCategory::Results,
            },
            pending.checkpoint_seq,
        ) && url == without_slashes_after(pending.archive_urls[pending.at]) + "/"@ + file
            && without_slashes_after(pending.archive_urls[pending.at]).is_prefix_of(url),
{
    let base = pending.archive_urls[pending.at];
    archive_url_has_no_double_slash(base, pending.stage.category(), pending.checkpoint_seq);
    let url = asking(pending)->url;
    let kept = without_slashes_after(base);
    assert(kept =~= url.subrange(0, kept.len() as int));
}

/// A file that is delivered is kept and the next one is asked for at the same archive; one
/// that is not delivered leaves the archive, with all that it delivered, for the next.
pub proof fn outcome_keeps_or_leaves_the_archive(
    pending: FetchModel,
    outcome: Result<Seq<u8>, ArchiveErrorModel>,
)
    ensures
        match resumed(pending, outcome) {
            ProgressModel::Request { url, file, pending: next } => {
                &&& next.archive_urls == pending.archive_urls
                &&& next.checkpoint_seq == pending.checkpoint_seq
                &&& match outcome {
                    Ok(bytes) => next.at == pending.at && match pending.stage {
                        StageModel::Nothing => next.stage == (StageModel::Ledger {
                            ledger_header: bytes,
                        }),
                        StageModel::Ledger { ledger_header } => next.stage
                            == (StageModel::LedgerAndTransactions {
                            ledger_header,
                            transaction_set: bytes,
                        }),
                        StageModel::LedgerAndTransactions { .. } => false,
                    },
                    Err(_) => next.at == pending.at + 1 && next.stage is Nothing && next.at
                        < next.archive_urls.len(),
                }
            },
            ProgressModel::Finished(Ok(checkpoint)) => outcome is Ok && pending.stage
                is LedgerAndTransactions && checkpoint.ledger_sequence == pending.checkpoint_seq
                && checkpoint.ledger_header == pending.stage->LedgerAndTransactions_ledger_header
                && checkpoint.transaction_set == pending.stage->transaction_set
                && checkpoint.transaction_results == outcome->Ok_0,
            ProgressModel::Finished(Err(error)) => outcome is Err && pending.at + 1
                >= pending.archive_urls.len() && error == GratErrorModel::ArchiveError(
                ArchiveErrorModel::FetchFailed {
                    file: "checkpoint-"@ + decimal(pending.checkpoint_seq as nat),
                    reason: outcome->Err_0.message(),
                },
            ),
        },
{
}

/// The progress of fetching is seen as it is.
pub proof fn progress_is_seen_as_it_is(progress: FetchProgress)
    ensures
        match progress {
            FetchProgress::Request { url, file, pending } => progress@
                matches ProgressModel::Request { url: own_url, file: own_file, pending: own }
                && own_url == url@ && own_file == file@ && own == pending@,
            FetchProgress::Finished(Ok(checkpoint)) => progress@ matches ProgressModel::Finished(
                Ok(own),
            ) && own.ledger_sequence == checkpoint.ledger_sequence && own.ledger_header
                == checkpoint.ledger_header@ && own.transaction_set == checkpoint.transaction_set@
                && own.transaction_results == checkpoint.transaction_results@,
            FetchProgress::Finished(Err(error)) => progress@ matches ProgressModel::Finished(
                Err(own),
            ) && own == error@,
        },
{
}

/// What a reply brings: the decompressed body where the status is in the two hundreds and
/// the body could be read and decompressed, and otherwise the error that says which of
/// these failed.
pub proof fn replies_bring_their_bodies(
    reply: HttpReply,
    file_name: Seq<char>,
    brought: Result<Vec<u8>, ArchiveErrorKind>,
)
    requires
        file_model(brought) == fetched(reply@, file_name),
    ensures
        match reply {
            HttpReply::Unsent { reason } => brought matches Err(
                ArchiveErrorKind::FetchFailed { file, reason: own },
            ) && file@ == file_name && own@ == reason@,
            HttpReply::Answered { status, status_text, body } => if status < 200 || status >= 300 {
                brought matches Err(ArchiveErrorKind::FetchFailed { file, reason }) && file@
                    == file_name && reason@ == "HTTP status "@ + status_text@
            } else {
                match body {
                    Err(text) => brought matches Err(
                        ArchiveErrorKind::FetchFailed { file, reason },
                    ) && file@ == file_name && reason@ == "failed to read response bytes: "@
                        + text@,
                    Ok(bytes) => match gunzipped(bytes@) {
                        Err(text) => brought matches Err(
                            ArchiveErrorKind::DecompressionFailed { file, reason },
                        ) && file@ == file_name && reason@ == text,
                        Ok(contents) => brought matches Ok(own) && own@ == contents,
                    },
                }
            },
        },
{
}

/// What a reply brings before decompression.
pub proof fn replies_bring_their_compressed_bodies(
    reply: HttpReply,
    file_name: Seq<char>,
    brought: Result<Vec<u8>, ArchiveErrorKind>,
)
    requires
        file_model(brought) == reply_body(reply@, file_name),
    ensures
        match reply {
            HttpReply::Unsent { reason } => brought matches Err(
                ArchiveErrorKind::FetchFailed { file, reason: own },
            ) && file@ == file_name && own@ == reason@,
            HttpReply::Answered { status, status_text, body } => if status < 200 || status >= 300 {
                brought matches Err(ArchiveErrorKind::FetchFailed { file, reason }) && file@
                    == file_name && reason@ == "HTTP status "@ + status_text@
            } else {
                match body {
                    Err(text) => brought matches Err(
                        ArchiveErrorKind::FetchFailed { file, reason },
                    ) && file@ == file_name && reason@ == "failed to read response bytes: "@
                        + text@,
                    Ok(bytes) => brought matches Ok(own) && own@ == bytes@,
                }
            },
        },
{
}

/// What decompression gave is what the file holds.
pub proof fn decompressed_bytes_are_kept(
    decompressed: Result<Seq<u8>, Seq<char>>,
    file_name: Seq<char>,
    file: Result<Vec<u8>, ArchiveErrorKind>,
)
    requires
        file_model(file) == unpacked(decompressed, file_name),
    ensures
        match decompressed {
            Ok(bytes) => file matches Ok(own) && own@ == bytes,
            Err(text) => file matches Err(
                ArchiveErrorKind::DecompressionFailed { file: own, reason },
            ) && own@ == file_name && reason@ == text,
        },
{
}

/// An error of an archive says what failed, of which file, and why.
pub proof fn archive_errors_say_what_failed(error: ArchiveErrorKind)
    ensures
        match error {
            ArchiveErrorKind::FetchFailed { file, reason } => error@.message()
                == "failed to fetch "@ + file@ + ": "@ + reason@,
            ArchiveErrorKind::DecompressionFailed { file, reason } => error@.message()
                == "decompression failed for "@ + file@ + ": "@ + reason@,
            ArchiveErrorKind::MalformedXdr { file, reason } => error@.message()
                == "malformed XDR in "@ + file@ + ": "@ + reason@,
        },
{
}

/// An error of the library is seen as it is.
pub proof fn errors_are_seen_as_they_are(error: GratError)
    ensures
        match error {
            GratError::SpecError(text) => error@ == GratErrorModel::SpecError(text@),
            GratError::ArchiveError(kind) => error@ == GratErrorModel::ArchiveError(kind@),
            GratError::Internal(text) => error@ == GratErrorModel::Internal(text@),
            GratError::NotSorobanTransaction => error@ is NotSorobanTransaction,
        },
{
}

/// Where the stream of the checkpoint has entries of the ledger, the whole header of the
/// first of them is returned, unchanged. The ledger is reported missing only where no
/// entry is of it. An error, of fetching or of the stream, is passed on.
pub proof fn ledger_header_is_found(
    fetched_checkpoint: GratResult<ArchiveCheckpoint>,
    ledger_sequence: u32,
    header: GratResult<LedgerHeader>,
    entries: Seq<HistoryEntryModel>,
    at: int,
)
    requires
        header_result(header) == ledger_header_in(
            checkpoint_result(fetched_checkpoint),
            ledger_sequence,
        ),
        fetched_checkpoint matches Ok(checkpoint) ==> parsed_stream(
            checkpoint.ledger_header@,
            "checkpoint-"@ + decimal(checkpoint_of(ledger_sequence as int) as nat),
        ) == Ok::<Seq<HistoryEntryModel>, GratErrorModel>(entries),
    ensures
        fetched_checkpoint matches Err(error) ==> header is Err && header->Err_0@ == error@,
        fetched_checkpoint is Ok && 0 <= at < entries.len() && entries[at].header.ledger_seq
            == ledger_sequence && (forall|i: int|
            0 <= i < at ==> (#[trigger] entries[i]).header.ledger_seq != ledger_sequence)
            ==> header is Ok && header->Ok_0@ == entries[at].header,
        fetched_checkpoint is Ok && (forall|i: int|
            0 <= i < entries.len() ==> (#[trigger] entries[i]).header.ledger_seq
                != ledger_sequence) ==> header is Err && header->Err_0@
            == GratErrorModel::ArchiveError(
            ArchiveErrorModel::FetchFailed {
                file: "checkpoint-"@ + decimal(checkpoint_of(ledger_sequence as int) as nat),
                reason: "ledger sequence "@ + decimal(ledger_sequence as nat)
                    + " not found in checkpoint stream"@,
            },
        ),
        fetched_checkpoint is Ok && header is Err ==> forall|i: int|
            0 <= i < entries.len() ==> (#[trigger] entries[i]).header.ledger_seq
                != ledger_sequence,
{
    if fetched_checkpoint is Ok {
        header_of_the_first(entries, ledger_sequence, at);
        header_is_of_the_ledger(entries, ledger_sequence);
    }
}

/// The first entry of a ledger is the one that is found, wherever it stands.
proof fn header_of_the_first(entries: Seq<HistoryEntryModel>, ledger_sequence: u32, at: int)
    ensures
        0 <= at < entries.len() && entries[at].header.ledger_seq == ledger_sequence && (forall|
            i: int,
        |
            0 <= i < at ==> (#[trigger] entries[i]).header.ledger_seq != ledger_sequence)
            ==> header_of(entries, ledger_sequence) == Some(entries[at].header),
        (forall|i: int|
            0 <= i < entries.len() ==> (#[trigger] entries[i]).header.ledger_seq
                != ledger_sequence) ==> header_of(entries, ledger_sequence) is None,
    decreases entries.len(),
{
    if entries.len() > 0 {
        let rest = entries.drop_first();
        header_of_the_first(rest, ledger_sequence, at - 1);
        assert forall|i: int| #![trigger rest[i]] 0 <= i < rest.len() implies rest[i] == entries[i
            + 1] by {}
        if 0 < at < entries.len() {
            assert(rest[at - 1] == entries[at]);
            assert(entries[0].header.ledger_seq == entries[0].header.ledger_seq);
        }
    }
}

/// An error of the stream is passed on.
pub proof fn stream_error_is_passed_on(
    checkpoint: ArchiveCheckpoint,
    ledger_sequence: u32,
    header: GratResult<LedgerHeader>,
    error: GratErrorModel,
)
    requires
        header_result(header) == ledger_header_in(
            checkpoint_result(Ok(checkpoint)),
            ledger_sequence,
        ),
        parsed_stream(
            checkpoint.ledger_header@,
            "checkpoint-"@ + decimal(checkpoint_of(ledger_sequence as int) as nat),
        ) == Err::<Seq<HistoryEntryModel>, GratErrorModel>(error),
    ensures
        header is Err,
        header->Err_0@ == error,
{
}

/// Of a checkpoint whose stream holds one record for each ledger, the header of a ledger is
/// the header in the first record of that ledger.
pub proof fn header_is_of_its_record(
    checkpoint: ArchiveCheckpoint,
    records: Seq<Seq<u8>>,
    ledger_sequence: u32,
    header: GratResult<LedgerHeader>,
    at: int,
)
    requires
        header_result(header) == ledger_header_in(
            checkpoint_result(Ok(checkpoint)),
            ledger_sequence,
        ),
        checkpoint.ledger_header@ == stream_of(records),
        forall|i: int|
            0 <= i < records.len() ==> (#[trigger] records[i]).len() < 0x80000000
                && decoded_record(records[i]) is Ok,
        0 <= at < records.len(),
        decoded_record(records[at])->Ok_0.header.ledger_seq == ledger_sequence,
        forall|i: int|
            0 <= i < at ==> decoded_record(#[trigger] records[i])->Ok_0.header.ledger_seq
                != ledger_sequence,
    ensures
        header is Ok,
        header->Ok_0@ == decoded_record(records[at])->Ok_0.header,
{
    let file = "checkpoint-"@ + decimal(checkpoint_of(ledger_sequence as int) as nat);
    written_stream_is_parsed(records, file);
    let entries = Seq::new(records.len(), |i: int| decoded_record(records[i])->Ok_0);
    assert forall|i: int| 0 <= i < at implies (#[trigger] entries[i]).header.ledger_seq
        != ledger_sequence by {
        assert(entries[i] == decoded_record(records[i])->Ok_0);
    }
    ledger_header_is_found(Ok(checkpoint), ledger_sequence, header, entries, at);
}

/// The header that is selected among entries is that of the first entry of the ledger, in
/// every field.
pub proof fn selected_header_is_an_entry(
    entries: Seq<LedgerHeaderHistoryEntry>,
    ledger_sequence: u32,
    at: int,
    header: GratResult<LedgerHeader>,
)
    requires
        header_result(header) == selected_header(history_models(entries), ledger_sequence),
    ensures
        0 <= at < entries.len() && entries[at].header.ledger_seq == ledger_sequence && (forall|
            i: int,
        |
            0 <= i < at ==> (#[trigger] entries[i]).header.ledger_seq != ledger_sequence)
            ==> header is Ok && header->Ok_0@ == entries[at].header@,
        (forall|i: int|
            0 <= i < entries.len() ==> (#[trigger] entries[i]).header.ledger_seq
                != ledger_sequence) ==> header is Err,
{
    let models = history_models(entries);
    assert forall|i: int| 0 <= i < entries.len() implies (#[trigger] models[i]).header
        == entries[i].header@ && models[i].header.ledger_seq == entries[i].header.ledger_seq by {}
    header_of_the_first(models, ledger_sequence, at);
}

/// A header is seen as it is, field by field.
pub proof fn headers_are_seen_field_by_field(header: LedgerHeader)
    ensures
        header@.ledger_version == header.ledger_version,
        header@.previous_ledger_hash == header.previous_ledger_hash,
        header@.tx_set_result_hash == header.tx_set_result_hash,
        header@.bucket_list_hash == header.bucket_list_hash,
        header@.ledger_seq == header.ledger_seq,
        header@.total_coins == header.total_coins,
        header@.fee_pool == header.fee_pool,
        header@.inflation_seq == header.inflation_seq,
        header@.id_pool == header.id_pool,
        header@.base_fee == header.base_fee,
        header@.base_reserve == header.base_reserve,
        header@.max_tx_set_size == header.max_tx_set_size,
        header@.skip_list == header.skip_list,
        header@.flags == header.flags,
        header@.scp_value == header.scp_value@,
{
}

/// A consensus value is seen as it is, field by field; an entry is seen with its hash and
/// its header.
pub proof fn consensus_values_are_seen_field_by_field(
    value: ConsensusValue,
    entry: LedgerHeaderHistoryEntry,
)
    ensures
        value@.tx_set_hash == value.tx_set_hash,
        value@.close_time == value.close_time,
        value@.upgrades.len() == value.upgrades@.len(),
        forall|i: int|
            0 <= i < value.upgrades@.len() ==> #[trigger] value@.upgrades[i] == value.upgrades@[i]@,
        value.signature is None <==> value@.signature is None,
        value.signature matches Some(signature) ==> value@.signature->0.node_id
            == signature.node_id && value@.signature->0.signature == signature.signature@,
        entry@.hash == entry.hash,
        entry@.header == entry.header@,
{
}

/// The number in the first four bytes of a fragment, the most significant byte first, is
/// the length of its payload, with the highest bit set on the last fragment of a record;
/// the payload follows.
pub proof fn fragment_begins_with_its_length(payload: Seq<u8>, last: bool)
    requires
        payload.len() < 0x80000000,
    ensures
        fragment(payload, last).len() == payload.len() + 4,
        fragment(payload, last).skip(4) == payload,
        fragment(payload, last)[0] * 0x1000000 + fragment(payload, last)[1] * 0x10000 + fragment(
            payload,
            last,
        )[2] * 0x100 + fragment(payload, last)[3] == payload.len() + (if last {
            0x80000000int
        } else {
            0
        }),
{
    assert(fragment(payload, last).skip(4) =~= payload);
}

/// How a stream ends: well where no record is open, and otherwise with the record that is
/// open. A fragment that is cut is reported with what is there of it.
pub proof fn stream_ends_are_told_apart(
    payload: Seq<u8>,
    last: bool,
    kept: int,
    pending: Seq<u8>,
)
    requires
        payload.len() < 0x80000000,
        0 <= kept < fragment(payload, last).len(),
    ensures
        framed(fragment(payload, last).take(kept), pending).0.len() == 0,
        kept == 0 && pending.len() == 0 ==> framed(
            fragment(payload, last).take(kept),
            pending,
        ).1 is None,
        kept == 0 && pending.len() > 0 ==> framed(fragment(payload, last).take(kept), pending).1
            == Some(FrameFault::Unterminated),
        0 < kept < 4 ==> framed(fragment(payload, last).take(kept), pending).1 == Some(
            FrameFault::TruncatedHeader { found: kept as usize },
        ),
        4 <= kept ==> framed(fragment(payload, last).take(kept), pending).1 == Some(
            FrameFault::TruncatedPayload {
                expected: payload.len() as usize,
                found: (kept - 4) as usize,
            },
        ),
{
    let whole = fragment(payload, last);
    let bytes = whole.take(kept);
    if kept >= 4 {
        fragment_begins_with_its_length(payload, last);
        assert(marker(bytes) == payload.len() + (if last {
            0x80000000int
        } else {
            0
        }));
        assert(bytes.skip(4).len() == kept - 4);
    }
}

/// What can be read of a stream is told before it is told how the stream ends: each whole
/// record comes out in order, and what follows the records decides how the stream ends.
pub proof fn records_come_before_the_end(records: Seq<Seq<u8>>, end: Seq<u8>)
    requires
        forall|i: int| 0 <= i < records.len() ==> (#[trigger] records[i]).len() < 0x80000000,
    ensures
        framed(stream_of(records) + end, Seq::empty()).0 == records + framed(
            end,
            Seq::empty(),
        ).0,
        framed(stream_of(records) + end, Seq::empty()).1 == framed(end, Seq::empty()).1,
    decreases records.len(),
{
    if records.len() == 0 {
        assert(stream_of(records) + end =~= end);
        assert(records + framed(end, Seq::empty()).0 =~= framed(end, Seq::empty()).0);
    } else {
        let rest = records.drop_first();
        records_come_before_the_end(rest, end);
        fragment_is_read_back(records[0], true, stream_of(rest) + end, Seq::empty());
        assert(stream_of(records) + end =~= fragment(records[0], true) + (stream_of(rest) + end));
        assert(Seq::empty() + records[0] =~= records[0]);
        assert(records + framed(end, Seq::empty()).0 =~= seq![records[0]] + (rest + framed(
            end,
            Seq::empty(),
        ).0));
    }
}

/// A stream is the fragments of its records one after the other.
pub proof fn stream_is_its_fragments(records: Seq<Seq<u8>>, record: Seq<u8>)
    ensures
        stream_of(Seq::empty()) == Seq::<u8>::empty(),
        stream_of(seq![record] + records) == fragment(record, true) + stream_of(records),
{
    assert((seq![record] + records).drop_first() =~= records);
}

/// What the records of a stream come to: their entries, one for one, where all of them can
/// be decoded and the stream ends well.
pub proof fn decoded_records_are_assembled(
    decoded: Seq<Result<HistoryEntryModel, Seq<char>>>,
    fault: Option<FrameFault>,
    file: Seq<char>,
    at: int,
)
    ensures
        (forall|i: int| 0 <= i < decoded.len() ==> #[trigger] decoded[i] is Ok) && fault is None
            ==> (assembled(decoded, fault, file) matches Ok(entries) && entries.len()
            == decoded.len() && forall|i: int|
            0 <= i < decoded.len() ==> #[trigger] entries[i] == decoded[i]->Ok_0),
        (forall|i: int| 0 <= i < decoded.len() ==> #[trigger] decoded[i] is Ok) && fault is Some
            ==> assembled(decoded, fault, file) == Err::<Seq<HistoryEntryModel>, GratErrorModel>(
            GratErrorModel::ArchiveError(
                ArchiveErrorModel::MalformedXdr { file, reason: fault_text(fault->0) },
            ),
        ),
        0 <= at < decoded.len() && decoded[at] is Err && (forall|i: int|
            0 <= i < at ==> #[trigger] decoded[i] is Ok) ==> assembled(decoded, fault, file)
            == Err::<Seq<HistoryEntryModel>, GratErrorModel>(
            GratErrorModel::ArchiveError(
                ArchiveErrorModel::MalformedXdr {
                    file,
                    reason: "failed to decode LedgerHeaderHistoryEntry: "@ + decoded[at]->Err_0,
                },
            ),
        ),
    decreases decoded.len(),
{
    if decoded.len() > 0 {
        let rest = decoded.drop_first();
        decoded_records_are_assembled(rest, fault, file, at - 1);
        assert forall|i: int| #![trigger rest[i]] 0 <= i < rest.len() implies rest[i] == decoded[i
            + 1] by {}
        if 0 < at < decoded.len() {
            assert(rest[at - 1] == decoded[at]);
        }
        if (forall|i: int| 0 <= i < decoded.len() ==> #[trigger] decoded[i] is Ok) && fault
            is None {
            assert(decoded[0] is Ok);
            let entries = assembled(decoded, fault, file)->Ok_0;
            let later = assembled(rest, fault, file)->Ok_0;
            assert(entries == seq![decoded[0]->Ok_0] + later);
            assert forall|i: int| 0 <= i < decoded.len() implies #[trigger] entries[i]
                == decoded[i]->Ok_0 by {
                if i > 0 {
                    assert(entries[i] == later[i - 1]);
                    assert(rest[i - 1] == decoded[i]);
                }
            }
        }
        if 0 <= at < decoded.len() {
            assert(at > 0 && (forall|i: int| 0 <= i < at ==> #[trigger] decoded[i] is Ok)
                ==> decoded[0] is Ok);
        }
        assert((forall|i: int| 0 <= i < decoded.len() ==> #[trigger] decoded[i] is Ok)
            ==> decoded[0] is Ok);
    }
}

/// How the end of a stream is described.
pub proof fn faults_are_described(found: usize, expected: usize)
    ensures
        fault_text(FrameFault::TruncatedHeader { found })
            == "truncated record header: expected 4 bytes, found "@ + decimal(found as nat),
        fault_text(FrameFault::TruncatedPayload { expected, found })
            == "truncated fragment payload: expected "@ + decimal(expected as nat)
            + " bytes, found "@ + decimal(found as nat),
        fault_text(FrameFault::Unterminated) == "unterminated record fragment stream"@,
{
}

/// A stream is what its records come to, each decoded by itself, and how it ends.
pub proof fn stream_is_parsed_record_by_record(
    bytes: Seq<u8>,
    file: Seq<char>,
    records: Seq<Seq<u8>>,
    fault: Option<FrameFault>,
    decoded: Seq<Result<HistoryEntryModel, Seq<char>>>,
)
    requires
        framed(bytes, Seq::empty()) == (records, fault),
        decoded.len() == records.len(),
        forall|i: int|
            0 <= i < records.len() ==> #[trigger] decoded[i] == decoded_record(records[i]),
    ensures
        parsed_stream(bytes, file) == assembled(decoded, fault, file),
{
    assert(decoded_records(records) =~= decoded);
}

/// Records, outcomes and entries are seen one for one.
pub proof fn stream_parts_are_seen_one_for_one(
    records: Seq<Vec<u8>>,
    outcomes: Seq<Result<LedgerHeaderHistoryEntry, String>>,
    entries: Seq<LedgerHeaderHistoryEntry>,
)
    ensures
        record_views(records).len() == records.len(),
        forall|i: int|
            0 <= i < records.len() ==> #[trigger] record_views(records)[i] == records[i]@,
        outcome_models(outcomes).len() == outcomes.len(),
        forall|i: int|
            0 <= i < outcomes.len() ==> match outcomes[i] {
                Ok(entry) => #[trigger] outcome_models(outcomes)[i] == Ok::<
                    HistoryEntryModel,
                    Seq<char>,
                >(entry@),
                Err(text) => outcome_models(outcomes)[i] == Err::<HistoryEntryModel, Seq<char>>(
                    text@,
                ),
            },
        history_models(entries).len() == entries.len(),
        forall|i: int|
            0 <= i < entries.len() ==> #[trigger] history_models(entries)[i] == entries[i]@,
{
}

/// The slashes at the end of an address are all that is taken off it.
pub proof fn only_slashes_are_taken_off_the_end(text: Seq<char>, length: int)
    requires
        0 <= length <= text.len(),
        length > 0 ==> text[length - 1] != '/',
        forall|i: int| length <= i < text.len() ==> #[trigger] text[i] == '/',
    ensures
        without_slashes_after(text) == text.take(length),
    decreases text.len(),
{
    if length < text.len() {
        assert(text[text.len() - 1] == '/');
        only_slashes_are_taken_off_the_end(text.drop_last(), length);
        assert(text.drop_last().take(length) =~= text.take(length));
    } else {
        assert(text.take(length) =~= text);
    }
}

/// The slashes at the start of a path are all that is taken off it.
pub proof fn only_slashes_are_taken_off_the_start(text: Seq<char>, start: int)
    requires
        0 <= start <= text.len(),
        start < text.len() ==> text[start] != '/',
        forall|i: int| 0 <= i < start ==> #[trigger] text[i] == '/',
    ensures
        without_slashes_before(text) == text.skip(start),
    decreases text.len(),
{
    if start > 0 {
        assert(text[0] == '/');
        only_slashes_are_taken_off_the_start(text.drop_first(), start - 1);
        assert(text.drop_first().skip(start - 1) =~= text.skip(start));
    } else {
        assert(text.skip(start) =~= text);
    }
}

/// A URL is an address and a path with one slash between what is left of them.
pub proof fn url_is_address_slash_path(base: Seq<char>, path: Seq<char>, length: int, start: int)
    requires
        0 <= length <= base.len(),
        length > 0 ==> base[length - 1] != '/',
        forall|i: int| length <= i < base.len() ==> #[trigger] base[i] == '/',
        0 <= start <= path.len(),
        start < path.len() ==> path[start] != '/',
        forall|i: int| 0 <= i < start ==> #[trigger] path[i] == '/',
    ensures
        joined_url(base, path) == base.take(length) + seq!['/'] + path.skip(start),
{
    only_slashes_are_taken_off_the_end(base, length);
    only_slashes_are_taken_off_the_start(path, start);
    reveal_strlit("/");
    assert("/"@ =~= seq!['/']);
}

/// Digits that stand for a number are its digits.
proof fn digits_are_of_the_number(digits: Seq<int>, n: nat)
    requires
        forall|i: int| 0 <= i < digits.len() ==> 0 <= #[trigger] digits[i] < 16,
        n == value_of_digits(digits),
    ensures
        hex_digits(n, digits.len()) == Seq::new(digits.len(), |i: int| digit_char(digits[i])),
    decreases digits.len(),
{
    let text = Seq::new(digits.len(), |i: int| digit_char(digits[i]));
    if digits.len() == 0 {
        assert(text =~= Seq::empty());
    } else {
        let rest = digits.drop_last();
        assert(0 <= digits[digits.len() - 1] < 16);
        assert forall|i: int| 0 <= i < rest.len() implies 0 <= #[trigger] rest[i] < 16 by {
            assert(rest[i] == digits[i]);
        }
        value_is_natural(rest);
        assert(n == 16 * value_of_digits(rest) + digits.last());
        assert(n / 16 == value_of_digits(rest));
        assert(n % 16 == digits.last());
        digits_are_of_the_number(rest, (n / 16) as nat);
        assert(text =~= Seq::new(rest.len(), |i: int| digit_char(rest[i])).push(
            digit_char(digits.last()),
        ));
    }
}

/// Digits stand for no negative number.
proof fn value_is_natural(digits: Seq<int>)
    requires
        forall|i: int| 0 <= i < digits.len() ==> 0 <= #[trigger] digits[i] < 16,
    ensures
        value_of_digits(digits) >= 0,
    decreases digits.len(),
{
    if digits.len() > 0 {
        let rest = digits.drop_last();
        assert forall|i: int| 0 <= i < rest.len() implies 0 <= #[trigger] rest[i] < 16 by {
            assert(rest[i] == digits[i]);
        }
        assert(digits[digits.len() - 1] >= 0);
        value_is_natural(rest);
    }
}

/// The number that digits in base 16 stand for, the most significant first.
pub open spec fn value_of_digits(digits: Seq<int>) -> int
    decreases digits.len(),
{
    if digits.len() == 0 {
        0
    } else {
        16 * value_of_digits(digits.drop_last()) + digits.last()
    }
}

/// The path of a checkpoint's file is made of the category and of the eight digits, in
/// base 16, of the checkpoint's number: three directories of two digits each, and all
/// eight in the name of the file.
pub proof fn archive_path_is_made_of_the_digits(
    category: ArchiveCategory,
    checkpoint_seq: u32,
    digits: Seq<int>,
)
    requires
        digits.len() == 8,
        forall|i: int| 0 <= i < 8 ==> 0 <= #[trigger] digits[i] < 16,
        checkpoint_seq == 0x1000_0000 * digits[0] + 0x100_0000 * digits[1] + 0x10_0000 * digits[2]
            + 0x1_0000 * digits[3] + 0x1000 * digits[4] + 0x100 * digits[5] + 0x10 * digits[6]
            + digits[7],
    ensures
        ({
            let name = match category {
                ArchiveCategory::Ledger => "ledger"@,
                ArchiveCategory::Transactions => "transactions"@,
                ArchiveCategory::Results => "results"@,
            };
            let pair = |i: int| seq![digit_char(digits[i]), digit_char(digits[i + 1])];
            archive_path(category, checkpoint_seq) == name + "/"@ + pair(0) + "/"@ + pair(2) + "/"@
                + pair(4) + "/"@ + name + "-"@ + (pair(0) + pair(2) + pair(4) + pair(6))
                + ".xdr.gz"@
        }),
{
    let text = Seq::new(digits.len(), |i: int| digit_char(digits[i]));
    reveal_with_fuel(value_of_digits, 9);
    assert(value_of_digits(digits) == checkpoint_seq);
    digits_are_of_the_number(digits, checkpoint_seq as nat);
    let hex = hex_digits(checkpoint_seq as nat, 8);
    hex_digits_length(checkpoint_seq as nat, 8);
    assert(hex == text);
    let pair = |i: int| seq![digit_char(digits[i]), digit_char(digits[i + 1])];
    assert(hex.subrange(0, 2) =~= pair(0));
    assert(hex.subrange(2, 4) =~= pair(2));
    assert(hex.subrange(4, 6) =~= pair(4));
    assert(hex =~= pair(0) + pair(2) + pair(4) + pair(6));
}

/// The characters of the digits up to fifteen.
pub proof fn digits_are_told_by_their_characters(d: int)
    requires
        0 <= d < 16,
    ensures
        d == 0 ==> digit_char(d) == '0',
        d == 9 ==> digit_char(d) == '9',
        d < 10 ==> digit_char(d) as int == '0' as int + d,
        d == 10 ==> digit_char(d) == 'a',
        d == 15 ==> digit_char(d) == 'f',
        d >= 10 ==> digit_char(d) as int == 'a' as int + (d - 10),
{
}

/// Texts are seen one for one: the archives are tried in the order of the configuration.
pub proof fn archives_are_seen_one_for_one(strings: Seq<String>)
    ensures
        texts(strings).len() == strings.len(),
        forall|i: int| 0 <= i < strings.len() ==> #[trigger] texts(strings)[i] == strings[i]@,
{
}

/// The error for a ledger entry names the ledger and the key, and says that fetching it is
/// not supported; different keys of one ledger are told apart.
pub proof fn refused_entry_is_named(
    ledger_sequence: u32,
    key: Seq<char>,
    other: Seq<char>,
    error: GratError,
)
    requires
        error@ == entry_refused(ledger_sequence, key),
    ensures
        error matches GratError::ArchiveError(ArchiveErrorKind::FetchFailed { file, reason })
            && reason@ == "Ledger entry fetch not yet implemented"@ && file@ == "ledger-entry-"@
            + decimal(ledger_sequence as nat) + "-"@ + key,
        entry_refused(ledger_sequence, other) == entry_refused(ledger_sequence, key) ==> other
            == key,
{
    let start = "ledger-entry-"@ + decimal(ledger_sequence as nat) + "-"@;
    assert((start + key).skip(start.len() as int) =~= key);
    assert((start + other).skip(start.len() as int) =~= other);
    if entry_refused(ledger_sequence, other) == entry_refused(ledger_sequence, key) {
        assert(entry_refused(
            ledger_sequence,
            other,
        )->ArchiveError_0->FetchFailed_file == start + other);
        assert(start + other == start + key);
    }
}

} // verus!
