//! Streams of ledger headers under record marking.
//!
//! A stream is a run of fragments. Each begins with four bytes, a number with its most
//! significant byte first: the highest bit is set on the last fragment of a record, and
//! the other 31 bits give the length of the payload that follows.

use vstd::prelude::*;
use vstd::slice::slice_subrange;

use crate::archive::header::{
    decode_history_entry, decoded_record, history_models, HistoryEntryModel,
    LedgerHeaderHistoryEntry,
};
use crate::error::{ArchiveErrorKind, ArchiveErrorModel, GratError, GratErrorModel, GratResult};
use crate::text::{append, append_decimal, decimal, owned};

verus! {

/// What is wrong with the fragments of a stream.
#[derive(Debug, Clone, Copy, PartialEq, Eq)]
pub enum FrameFault {
    /// The stream ends within the four bytes before a payload.
    TruncatedHeader { found: usize },
    /// The stream ends within a payload.
    TruncatedPayload { expected: usize, found: usize },
    /// The stream ends within a record.
    Unterminated,
}

/// The number in the first four bytes, the most significant byte first.
pub open spec fn marker(bytes: Seq<u8>) -> int {
    bytes[0] * 0x1000000 + bytes[1] * 0x10000 + bytes[2] * 0x100 + bytes[3]
}

/// The records of a stream and what is wrong with it after them, where `pending` holds
/// the payloads of a record's earlier fragments.
pub open spec fn framed(bytes: Seq<u8>, pending: Seq<u8>) -> (Seq<Seq<u8>>, Option<FrameFault>)
    decreases bytes.len(),
{
    let length = marker(bytes) % 0x80000000;
    let rest = bytes.skip(4);
    if bytes.len() == 0 {
        (
            Seq::empty(),
            if pending.len() == 0 {
                None
            } else {
                Some(FrameFault::Unterminated)
            },
        )
    } else if bytes.len() < 4 {
        (Seq::empty(), Some(FrameFault::TruncatedHeader { found: bytes.len() as usize }))
    } else if length > rest.len() {
        (
            Seq::empty(),
            Some(
                FrameFault::TruncatedPayload {
                    expected: length as usize,
                    found: rest.len() as usize,
                },
            ),
        )
    } else if marker(bytes) >= 0x80000000 {
        let (records, fault) = framed(rest.skip(length), Seq::empty());
        (seq![pending + rest.take(length)] + records, fault)
    } else {
        framed(rest.skip(length), pending + rest.take(length))
    }
}

/// How a fault of a stream is described.
pub open spec fn fault_text(fault: FrameFault) -> Seq<char> {
    match fault {
        FrameFault::TruncatedHeader { found } =>
            "truncated record header: expected 4 bytes, found "@ + decimal(found as nat),
        FrameFault::TruncatedPayload { expected, found } =>
            "truncated fragment payload: expected "@ + decimal(expected as nat)
                + " bytes, found "@ + decimal(found as nat),
        FrameFault::Unterminated => "unterminated record fragment stream"@,
    }
}

/// The error for a stream in `file` that cannot be read.
pub open spec fn malformed(file: Seq<char>, reason: Seq<char>) -> GratErrorModel {
    GratErrorModel::ArchiveError(ArchiveErrorModel::MalformedXdr { file, reason })
}

/// What a stream gives whose records were decoded to `decoded` and which ends in
/// `fault`: the first record that cannot be decoded decides, then the fault.
pub open spec fn assembled(
    decoded: Seq<Result<HistoryEntryModel, Seq<char>>>,
    fault: Option<FrameFault>,
    file: Seq<char>,
) -> Result<Seq<HistoryEntryModel>, GratErrorModel>
    decreases decoded.len(),
{
    if decoded.len() == 0 {
        match fault {
            Some(fault) => Err(malformed(file, fault_text(fault))),
            None => Ok(Seq::empty()),
        }
    } else {
        match decoded[0] {
            Err(text) => Err(
                malformed(file, "failed to decode LedgerHeaderHistoryEntry: "@ + text),
            ),
            Ok(entry) => match assembled(decoded.drop_first(), fault, file) {
                Ok(entries) => Ok(seq![entry] + entries),
                Err(error) => Err(error),
            },
        }
    }
}

/// The outcomes of decoding several records.
pub open spec fn decoded_records(
    records: Seq<Seq<u8>>,
) -> Seq<Result<HistoryEntryModel, Seq<char>>> {
    Seq::new(records.len(), |i: int| decoded_record(records[i]))
}

/// What a stream of ledger headers gives.
pub open spec fn parsed_stream(bytes: Seq<u8>, file: Seq<char>) -> Result<
    Seq<HistoryEntryModel>,
    GratErrorModel,
> {
    let (records, fault) = framed(bytes, Seq::empty());
    assembled(decoded_records(records), fault, file)
}

/// The bytes of several records.
pub open spec fn record_views(records: Seq<Vec<u8>>) -> Seq<Seq<u8>> {
    Seq::new(records.len(), |i: int| records[i]@)
}

/// The model of what decoding one record gave.
pub open spec fn outcome_model(outcome: Result<LedgerHeaderHistoryEntry, String>) -> Result<
    HistoryEntryModel,
    Seq<char>,
> {
    match outcome {
        Ok(entry) => Ok(entry@),
        Err(text) => Err(text@),
    }
}

/// The models of what decoding several records gave.
pub open spec fn outcome_models(
    outcomes: Seq<Result<LedgerHeaderHistoryEntry, String>>,
) -> Seq<Result<HistoryEntryModel, Seq<char>>> {
    Seq::new(outcomes.len(), |i: int| outcome_model(outcomes[i]))
}

/// The number in the first four bytes, the most significant byte first.
fn read_marker(bytes: &[u8]) -> (header: u32)
    requires
        bytes@.len() >= 4,
    ensures
        header == marker(bytes@),
{
    bytes[0] as u32 * 0x1000000 + bytes[1] as u32 * 0x10000 + bytes[2] as u32 * 0x100
        + bytes[3] as u32
}

/// The records of a stream, and what is wrong with it after them.
pub fn split_records(bytes: &[u8]) -> (split: (Vec<Vec<u8>>, Option<FrameFault>))
    ensures
        (record_views(split.0@), split.1) == framed(bytes@, Seq::empty()),
{
    let mut records: Vec<Vec<u8>> = Vec::new();
    let mut pending: Vec<u8> = Vec::new();
    let mut at: usize = 0;
    let ghost whole = framed(bytes@, Seq::empty());
    assert(bytes@.skip(0) =~= bytes@);
    assert(pending@ =~= Seq::<u8>::empty());
    assert(record_views(records@) + whole.0 =~= whole.0);
    while at < bytes.len()
        invariant
            at <= bytes@.len(),
            whole == framed(bytes@, Seq::empty()),
            whole.0 == record_views(records@) + framed(bytes@.skip(at as int), pending@).0,
            whole.1 == framed(bytes@.skip(at as int), pending@).1,
        decreases bytes@.len() - at,
    {
        let ghost here = bytes@.skip(at as int);
        let rest = slice_subrange(bytes, at, bytes.len());
        assert(rest@ =~= here);
        if rest.len() < 4 {
            assert(record_views(records@) + Seq::<Seq<u8>>::empty() =~= record_views(records@));
            return (records, Some(FrameFault::TruncatedHeader { found: rest.len() }));
        }
        let header = read_marker(rest);
        let is_last = header >= 0x80000000;
        let length = (header % 0x80000000) as usize;
        if length > rest.len() - 4 {
            assert(record_views(records@) + Seq::<Seq<u8>>::empty() =~= record_views(records@));
            return (
                records,
                Some(
                    FrameFault::TruncatedPayload { expected: length, found: rest.len() - 4 },
                ),
            );
        }
        let ghost before = pending@;
        pending.extend_from_slice(slice_subrange(rest, 4, 4 + length));
        proof {
            assert(here.skip(4).take(length as int) =~= rest@.subrange(4, 4 + length));
            assert(here.skip(4).skip(length as int) =~= bytes@.skip(at + 4 + length));
            assert(pending@ =~= before + here.skip(4).take(length as int));
        }
        at = at + 4 + length;
        if is_last {
            let ghost earlier = records@;
            let mut record: Vec<u8> = Vec::new();
            record.append(&mut pending);
            records.push(record);
            proof {
                assert(pending@ =~= Seq::<u8>::empty());
                assert(record_views(records@) =~= record_views(earlier).push(record@));
                let later = framed(bytes@.skip(at as int), Seq::empty()).0;
                assert(record_views(records@) + later =~= record_views(earlier) + (seq![record@]
                    + later));
            }
        }
    }
    assert(bytes@.skip(at as int) =~= Seq::empty());
    assert(record_views(records@) + Seq::<Seq<u8>>::empty() =~= record_views(records@));
    (
        records,
        if pending.len() == 0 {
            None
        } else {
            Some(FrameFault::Unterminated)
        },
    )
}

/// How a fault of a stream is described.
fn describe_fault(fault: FrameFault) -> (text: String)
    ensures
        text@ == fault_text(fault),
{
    match fault {
        FrameFault::TruncatedHeader { found } => {
            let mut text = owned("truncated record header: expected 4 bytes, found ");
            append_decimal(&mut text, found as u64);
            text
        },
        FrameFault::TruncatedPayload { expected, found } => {
            let mut text = owned("truncated fragment payload: expected ");
            append_decimal(&mut text, expected as u64);
            append(&mut text, " bytes, found ");
            append_decimal(&mut text, found as u64);
            text
        },
        FrameFault::Unterminated => owned("unterminated record fragment stream"),
    }
}

/// The error for a stream in the file that cannot be read.
fn malformed_error(file_name: &str, reason: String) -> (error: GratError)
    ensures
        error@ == malformed(file_name@, reason@),
{
    GratError::ArchiveError(ArchiveErrorKind::MalformedXdr { file: owned(file_name), reason })
}

/// What a stream gives whose records were decoded to `decoded` and which ends in
/// `fault`: the first record that cannot be decoded decides, then the fault.
pub fn assemble_entries(
    decoded: Vec<Result<LedgerHeaderHistoryEntry, String>>,
    fault: Option<FrameFault>,
    file_name: &str,
) -> (entries: GratResult<Vec<LedgerHeaderHistoryEntry>>)
    ensures
        match entries {
            Ok(entries) => assembled(outcome_models(decoded@), fault, file_name@) == Ok::<
                Seq<HistoryEntryModel>,
                GratErrorModel,
            >(history_models(entries@)),
            Err(error) => assembled(outcome_models(decoded@), fault, file_name@) == Err::<
                Seq<HistoryEntryModel>,
                GratErrorModel,
            >(error@),
        },
{
    let mut entries: Vec<LedgerHeaderHistoryEntry> = Vec::new();
    let ghost models = outcome_models(decoded@);
    let ghost whole = assembled(models, fault, file_name@);
    proof {
        assert(models.skip(0) =~= models);
        if whole is Ok {
            assert(history_models(entries@) + whole->Ok_0 =~= whole->Ok_0);
        }
    }
    for outcome in items: decoded
        invariant
            items.seq() == decoded@,
            models == outcome_models(decoded@),
            whole == assembled(models, fault, file_name@),
            match assembled(models.skip(items.index() as int), fault, file_name@) {
                Ok(later) => whole == Ok::<Seq<HistoryEntryModel>, GratErrorModel>(
                    history_models(entries@) + later,
                ),
                Err(error) => whole == Err::<Seq<HistoryEntryModel>, GratErrorModel>(error),
            },
    {
        let ghost rest = models.skip(items.index() as int);
        assert(rest[0] == outcome_model(outcome));
        assert(rest.drop_first() =~= models.skip(items.index() + 1));
        match outcome {
            Ok(entry) => {
                let ghost earlier = entries@;
                entries.push(entry);
                proof {
                    assert(history_models(entries@) =~= history_models(earlier).push(entry@));
                    if let Ok(later) = assembled(rest.drop_first(), fault, file_name@) {
                        assert(history_models(earlier) + (seq![entry@] + later)
                            =~= history_models(entries@) + later);
                    }
                }
            },
            Err(text) => {
                let mut reason = owned("failed to decode LedgerHeaderHistoryEntry: ");
                append(&mut reason, text.as_str());
                return Err(malformed_error(file_name, reason));
            },
        }
    }
    match fault {
        Some(fault) => Err(malformed_error(file_name, describe_fault(fault))),
        None => {
            assert(history_models(entries@) + Seq::<HistoryEntryModel>::empty()
                =~= history_models(entries@));
            Ok(entries)
        },
    }
}

/// Reads a stream of ledger headers under record marking.
pub fn parse_ledger_header_stream(bytes: &[u8], file_name: &str) -> (entries: GratResult<
    Vec<LedgerHeaderHistoryEntry>,
>)
    ensures
        match entries {
            Ok(entries) => parsed_stream(bytes@, file_name@) == Ok::<
                Seq<HistoryEntryModel>,
                GratErrorModel,
            >(history_models(entries@)),
            Err(error) => parsed_stream(bytes@, file_name@) == Err::<
                Seq<HistoryEntryModel>,
                GratErrorModel,
            >(error@),
        },
{
    let (records, fault) = split_records(bytes);
    let mut decoded: Vec<Result<LedgerHeaderHistoryEntry, String>> = Vec::new();
    let mut i: usize = 0;
    while i < records.len()
        invariant
            i <= records@.len(),
            decoded@.len() == i,
            forall|j: int|
                0 <= j < i ==> outcome_model(#[trigger] decoded@[j]) == decoded_record(
                    records@[j]@,
                ),
        decreases records@.len() - i,
    {
        decoded.push(decode_history_entry(records[i].as_slice()));
        i += 1;
    }
    assert(outcome_models(decoded@) =~= decoded_records(record_views(records@)));
    assemble_entries(decoded, fault, file_name)
}

/// The fragment with the given payload.
pub open spec fn fragment(payload: Seq<u8>, last: bool) -> Seq<u8> {
    let header = payload.len() + (if last {
        0x80000000int
    } else {
        0
    });
    seq![
        (header / 0x1000000) as u8,
        (header / 0x10000 % 0x100) as u8,
        (header / 0x100 % 0x100) as u8,
        (header % 0x100) as u8,
    ] + payload
}

/// The stream of several records, each in one fragment.
pub open spec fn stream_of(records: Seq<Seq<u8>>) -> Seq<u8>
    decreases records.len(),
{
    if records.len() == 0 {
        Seq::empty()
    } else {
        fragment(records[0], true) + stream_of(records.drop_first())
    }
}

/// The four bytes of a fragment tell its length and whether it is the last.
proof fn fragment_marker(payload: Seq<u8>, last: bool, rest: Seq<u8>)
    requires
        payload.len() < 0x80000000,
    ensures
        (fragment(payload, last) + rest).len() >= 4,
        marker(fragment(payload, last) + rest) % 0x80000000 == payload.len(),
        marker(fragment(payload, last) + rest) >= 0x80000000 <==> last,
        (fragment(payload, last) + rest).skip(4) == payload + rest,
{
    let bytes = fragment(payload, last) + rest;
    let header = payload.len() + (if last {
        0x80000000int
    } else {
        0
    });
    assert(bytes.skip(4) =~= payload + rest);
    assert(marker(bytes) == header);
}

/// A fragment is read back: the last of a record ends it, and any other is kept for the
/// fragments that follow.
pub proof fn fragment_is_read_back(
    payload: Seq<u8>,
    last: bool,
    rest: Seq<u8>,
    pending: Seq<u8>,
)
    requires
        payload.len() < 0x80000000,
    ensures
        framed(fragment(payload, last) + rest, pending) == if last {
            (
                seq![pending + payload] + framed(rest, Seq::empty()).0,
                framed(rest, Seq::empty()).1,
            )
        } else {
            framed(rest, pending + payload)
        },
{
    let bytes = fragment(payload, last) + rest;
    fragment_marker(payload, last, rest);
    assert((payload + rest).take(payload.len() as int) =~= payload);
    assert((payload + rest).skip(payload.len() as int) =~= rest);
}

/// However a record is cut in two fragments, it is the record that one fragment holds.
pub proof fn fragments_make_one_record(first: Seq<u8>, second: Seq<u8>, rest: Seq<u8>)
    requires
        first.len() + second.len() < 0x80000000,
    ensures
        framed(fragment(first, false) + (fragment(second, true) + rest), Seq::empty()) == framed(
            fragment(first + second, true) + rest,
            Seq::empty(),
        ),
{
    fragment_is_read_back(first, false, fragment(second, true) + rest, Seq::empty());
    fragment_is_read_back(second, true, rest, Seq::empty() + first);
    fragment_is_read_back(first + second, true, rest, Seq::empty());
    assert(Seq::empty() + first + second =~= Seq::empty() + (first + second));
}

/// The records of a stream are read back, in order and with nothing wrong.
pub proof fn records_are_read_back(records: Seq<Seq<u8>>)
    requires
        forall|i: int| 0 <= i < records.len() ==> (#[trigger] records[i]).len() < 0x80000000,
    ensures
        framed(stream_of(records), Seq::empty()) == (records, None::<FrameFault>),
    decreases records.len(),
{
    if records.len() == 0 {
        assert(records =~= Seq::empty());
    } else {
        let rest = records.drop_first();
        records_are_read_back(rest);
        fragment_is_read_back(records[0], true, stream_of(rest), Seq::empty());
        assert(seq![Seq::empty() + records[0]] + rest =~= records) by {
            assert(Seq::empty() + records[0] =~= records[0]);
        }
    }
}

/// Records that can be decoded give their entries, one for one and in order.
proof fn decodable_records_are_assembled(
    decoded: Seq<Result<HistoryEntryModel, Seq<char>>>,
    file: Seq<char>,
)
    requires
        forall|i: int| 0 <= i < decoded.len() ==> #[trigger] decoded[i] is Ok,
    ensures
        assembled(decoded, None, file) == Ok::<Seq<HistoryEntryModel>, GratErrorModel>(
            Seq::new(decoded.len(), |i: int| decoded[i]->Ok_0),
        ),
    decreases decoded.len(),
{
    let entries = Seq::new(decoded.len(), |i: int| decoded[i]->Ok_0);
    if decoded.len() == 0 {
        assert(entries =~= Seq::empty());
    } else {
        let rest = decoded.drop_first();
        decodable_records_are_assembled(rest, file);
        assert(decoded[0] is Ok);
        assert(entries =~= seq![decoded[0]->Ok_0] + Seq::new(
            rest.len(),
            |i: int| rest[i]->Ok_0,
        ));
    }
}

/// A stream whose records can be decoded gives their entries, one for one and in
/// order.
pub proof fn written_stream_is_parsed(records: Seq<Seq<u8>>, file: Seq<char>)
    requires
        forall|i: int|
            0 <= i < records.len() ==> (#[trigger] records[i]).len() < 0x80000000
                && decoded_record(records[i]) is Ok,
    ensures
        parsed_stream(stream_of(records), file) == Ok::<Seq<HistoryEntryModel>, GratErrorModel>(
            Seq::new(records.len(), |i: int| decoded_record(records[i])->Ok_0),
        ),
{
    records_are_read_back(records);
    let decoded = decoded_records(records);
    decodable_records_are_assembled(decoded, file);
    assert(Seq::new(decoded.len(), |i: int| decoded[i]->Ok_0) =~= Seq::new(
        records.len(),
        |i: int| decoded_record(records[i])->Ok_0,
    ));
}

/// A stream that ends within a fragment, after whole records, is refused: the records
/// before it are read and the cut is reported.
pub proof fn cut_fragment_is_reported(
    records: Seq<Seq<u8>>,
    payload: Seq<u8>,
    last: bool,
    kept: int,
)
    requires
        forall|i: int| 0 <= i < records.len() ==> (#[trigger] records[i]).len() < 0x80000000,
        payload.len() < 0x80000000,
        0 < kept < fragment(payload, last).len(),
    ensures
        framed(stream_of(records) + fragment(payload, last).take(kept), Seq::empty()).0 == records,
        framed(stream_of(records) + fragment(payload, last).take(kept), Seq::empty()).1 is Some,
    decreases records.len(),
{
    let cut = fragment(payload, last).take(kept);
    if records.len() == 0 {
        assert(records =~= Seq::empty());
        assert(stream_of(records) + cut =~= cut);
        if kept >= 4 {
            fragment_marker(payload, last, Seq::empty());
            assert(fragment(payload, last) + Seq::empty() =~= fragment(payload, last));
            assert(marker(cut) == marker(fragment(payload, last)));
        }
    } else {
        let rest = records.drop_first();
        cut_fragment_is_reported(rest, payload, last, kept);
        fragment_is_read_back(records[0], true, stream_of(rest) + cut, Seq::empty());
        assert(stream_of(records) + cut =~= fragment(records[0], true) + (stream_of(rest) + cut));
        assert(Seq::empty() + records[0] =~= records[0]);
        assert(seq![records[0]] + rest =~= records);
    }
}

} // verus!
