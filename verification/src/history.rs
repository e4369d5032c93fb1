//! The list of transactions that were decoded last.

use vstd::prelude::*;
use vstd::string::*;

use crate::text::{append, append_decimal, decimal, owned, same_text, texts};

verus! {

/// The directory, in the user's home, that the list is kept in.
pub const HISTORY_DIR: &'static str = ".grat";

/// The file that the list is kept in.
pub const HISTORY_FILE: &'static str = "history.json";

/// How many transactions are kept.
pub const MAX_ENTRIES: usize = 10;

/// A transaction that was decoded.
#[derive(Debug, Clone, PartialEq, Eq)]
pub struct HistoryEntry {
    pub tx_hash: String,
    /// When it was decoded, in seconds since 1970.
    pub timestamp: u64,
}

/// The model of [`HistoryEntry`].
pub struct HistoryModel {
    pub tx_hash: Seq<char>,
    pub timestamp: u64,
}

impl View for HistoryEntry {
    type V = HistoryModel;

    open spec fn view(&self) -> HistoryModel {
        HistoryModel { tx_hash: self.tx_hash@, timestamp: self.timestamp }
    }
}

/// The models of several entries.
pub open spec fn history_models(entries: Seq<HistoryEntry>) -> Seq<HistoryModel> {
    Seq::new(entries.len(), |i: int| entries[i]@)
}

/// The entries that are not of the given transaction, in order.
pub open spec fn without(entries: Seq<HistoryModel>, tx_hash: Seq<char>) -> Seq<HistoryModel>
    decreases entries.len(),
{
    if entries.len() == 0 {
        Seq::empty()
    } else if entries.last().tx_hash == tx_hash {
        without(entries.drop_last(), tx_hash)
    } else {
        without(entries.drop_last(), tx_hash).push(entries.last())
    }
}

/// The first entries, as many as are kept.
pub open spec fn newest(entries: Seq<HistoryModel>) -> Seq<HistoryModel> {
    if entries.len() > MAX_ENTRIES {
        entries.take(MAX_ENTRIES as int)
    } else {
        entries
    }
}

/// The list after a transaction was decoded.
pub open spec fn appended(
    entries: Seq<HistoryModel>,
    tx_hash: Seq<char>,
    now: u64,
) -> Seq<HistoryModel> {
    newest(seq![HistoryModel { tx_hash, timestamp: now }] + without(entries, tx_hash))
}

/// How long ago something was, in the largest unit that gives at least one.
pub open spec fn elapsed_text(timestamp: u64, now: u64) -> Seq<char> {
    let seconds: nat = if timestamp <= now {
        (now - timestamp) as nat
    } else {
        0
    };
    if seconds < 60 {
        decimal(seconds) + " seconds ago"@
    } else if seconds < 3600 {
        decimal(seconds / 60) + " minutes ago"@
    } else if seconds < 86400 {
        decimal(seconds / 3600) + " hours ago"@
    } else {
        decimal(seconds / 86400) + " days ago"@
    }
}

/// `c`, `n` times.
pub open spec fn repeated(c: char, n: nat) -> Seq<char> {
    Seq::new(n, |i: int| c)
}

/// `text` with spaces behind it, as many as it takes to make it `width` characters long.
pub open spec fn padded(text: Seq<char>, width: int) -> Seq<char> {
    if text.len() < width {
        text + repeated(' ', (width - text.len()) as nat)
    } else {
        text
    }
}

/// A line of the listing.
pub open spec fn row(number: Seq<char>, tx_hash: Seq<char>, decoded: Seq<char>) -> Seq<char> {
    padded(number, 4) + " "@ + padded(tx_hash, 66) + " "@ + decoded
}

/// The lines that list the transactions.
pub open spec fn listing(entries: Seq<HistoryModel>, now: u64) -> Seq<Seq<char>> {
    if entries.len() == 0 {
        seq!["No transaction history found."@]
    } else {
        seq![row("#"@, "Transaction Hash"@, "Decoded"@), repeated('-', 100)] + Seq::new(
            entries.len(),
            |i: int|
                row(
                    decimal((i + 1) as nat),
                    entries[i].tx_hash,
                    elapsed_text(entries[i].timestamp, now),
                ),
        )
    }
}

/// Where the user's home directory is found.
#[derive(Debug, Clone, Copy, PartialEq, Eq)]
pub enum HomeSource {
    /// The variable `HOME`.
    Home,
    /// The variable `USERPROFILE`.
    UserProfile,
    /// Neither is set: the current directory takes its place.
    CurrentDirectory,
}

/// Where the user's home directory is found: `HOME` counts before `USERPROFILE`.
pub open spec fn home_found(has_home: bool, has_profile: bool) -> HomeSource {
    match (has_home, has_profile) {
        (true, _) => HomeSource::Home,
        (false, true) => HomeSource::UserProfile,
        (false, false) => HomeSource::CurrentDirectory,
    }
}

/// Where the user's home directory is found.
pub fn home_source(has_home: bool, has_profile: bool) -> (source: HomeSource)
    ensures
        source == home_found(has_home, has_profile),
        source == (if has_home {
            HomeSource::Home
        } else if has_profile {
            HomeSource::UserProfile
        } else {
            HomeSource::CurrentDirectory
        }),
{
    if has_home {
        HomeSource::Home
    } else if has_profile {
        HomeSource::UserProfile
    } else {
        HomeSource::CurrentDirectory
    }
}

/// Puts a transaction at the head of the list.
///
/// An earlier entry of the same transaction is removed, and so are the oldest entries
/// where there are too many.
pub fn append_to_history(entries: &mut Vec<HistoryEntry>, tx_hash: &str, now: u64)
    ensures
        history_models(final(entries)@) == appended(history_models(old(entries)@), tx_hash@, now),
{
    let ghost before = history_models(entries@);
    let mut earlier: Vec<HistoryEntry> = Vec::new();
    earlier.append(entries);
    let ghost all = earlier@;
    entries.push(HistoryEntry { tx_hash: owned(tx_hash), timestamp: now });
    let ghost head = HistoryModel { tx_hash: tx_hash@, timestamp: now };
    assert(all =~= old(entries)@);
    assert(history_models(entries@) =~= seq![head] + without(before.take(0), tx_hash@));
    for entry in items: earlier
        invariant
            items.seq() == all,
            before == history_models(all),
            history_models(entries@) == seq![head] + without(
                before.take(items.index() as int),
                tx_hash@,
            ),
    {
        let ghost next = before.take(items.index() + 1);
        let ghost kept = history_models(entries@);
        assert(next.drop_last() =~= before.take(items.index() as int));
        assert(next.last() == entry@);
        if !same_text(entry.tx_hash.as_str(), tx_hash) {
            entries.push(entry);
            assert(history_models(entries@) =~= kept.push(entry@));
            assert(history_models(entries@) =~= seq![head] + without(next, tx_hash@));
        }
    }
    assert(before.take(before.len() as int) =~= before);
    let ghost full = history_models(entries@);
    entries.truncate(MAX_ENTRIES);
    assert(history_models(entries@) =~= newest(full));
}

/// How long ago something was, in the largest unit that gives at least one.
pub fn relative_time(timestamp: u64, now: u64) -> (text: String)
    ensures
        text@ == elapsed_text(timestamp, now),
{
    let diff: u64 = now.saturating_sub(timestamp);
    let mut text = String::new();
    if diff < 60 {
        append_decimal(&mut text, diff);
        append(&mut text, " seconds ago");
    } else if diff < 3600 {
        append_decimal(&mut text, diff / 60);
        append(&mut text, " minutes ago");
    } else if diff < 86400 {
        append_decimal(&mut text, diff / 3600);
        append(&mut text, " hours ago");
    } else {
        append_decimal(&mut text, diff / 86400);
        append(&mut text, " days ago");
    }
    assert(text@ =~= elapsed_text(timestamp, now));
    text
}

/// Adds `text` and as many spaces as it takes to make it `width` characters long.
fn append_padded(line: &mut String, text: &str, width: usize)
    ensures
        final(line)@ == old(line)@ + padded(text@, width as int),
{
    proof {
        reveal_strlit(" ");
    }
    append(line, text);
    let length: usize = text.unicode_len();
    let mut filled: usize = length;
    let ghost start = line@;
    assert(repeated(' ', 0) =~= Seq::empty());
    assert(start + repeated(' ', 0) =~= start);
    while filled < width
        invariant
            length <= filled,
            filled <= width || filled == length,
            " "@ == seq![' '],
            line@ == start + repeated(' ', (filled - length) as nat),
        decreases width - filled,
    {
        append(line, " ");
        filled += 1;
        assert(line@ =~= start + repeated(' ', (filled - length) as nat));
    }
    assert(line@ =~= old(line)@ + padded(text@, width as int));
}

/// A line of the listing.
fn format_row(number: &str, tx_hash: &str, decoded: &str) -> (line: String)
    ensures
        line@ == row(number@, tx_hash@, decoded@),
{
    let mut line = String::new();
    append_padded(&mut line, number, 4);
    append(&mut line, " ");
    append_padded(&mut line, tx_hash, 66);
    append(&mut line, " ");
    append(&mut line, decoded);
    assert(line@ =~= row(number@, tx_hash@, decoded@));
    line
}

/// The line below the heading.
fn format_rule() -> (line: String)
    ensures
        line@ == repeated('-', 100),
{
    proof {
        reveal_strlit("-");
    }
    let mut line = String::new();
    let mut length: usize = 0;
    assert(line@ =~= repeated('-', 0));
    while length < 100
        invariant
            length <= 100,
            "-"@ == seq!['-'],
            line@ == repeated('-', length as nat),
        decreases 100 - length,
    {
        append(&mut line, "-");
        length += 1;
        assert(line@ =~= repeated('-', length as nat));
    }
    line
}

/// The lines that list the transactions.
pub fn list_history(entries: &Vec<HistoryEntry>, now: u64) -> (lines: Vec<String>)
    ensures
        texts(lines@) == listing(history_models(entries@), now),
{
    let ghost models = history_models(entries@);
    let mut lines: Vec<String> = Vec::new();
    if entries.len() == 0 {
        lines.push(owned("No transaction history found."));
        assert(texts(lines@) =~= listing(models, now));
        return lines;
    }
    lines.push(format_row("#", "Transaction Hash", "Decoded"));
    lines.push(format_rule());
    let mut i: usize = 0;
    let ghost wanted = listing(models, now);
    while i < entries.len()
        invariant
            i <= entries@.len(),
            models == history_models(entries@),
            entries@.len() > 0,
            wanted == listing(models, now),
            lines@.len() == i + 2,
            forall|j: int| 0 <= j < lines@.len() ==> (#[trigger] lines@[j])@ == wanted[j],
        decreases entries@.len() - i,
    {
        let mut number = String::new();
        append_decimal(&mut number, i as u64 + 1);
        assert(number@ =~= decimal((i + 1) as nat));
        let elapsed = relative_time(entries[i].timestamp, now);
        lines.push(format_row(number.as_str(), entries[i].tx_hash.as_str(), elapsed.as_str()));
        assert(wanted[i + 2] == row(
            decimal((i + 1) as nat),
            models[i as int].tx_hash,
            elapsed_text(models[i as int].timestamp, now),
        ));
        i += 1;
    }
    assert(texts(lines@) =~= wanted);
    lines
}

/// Whether no transaction is listed twice.
pub open spec fn listed_once(entries: Seq<HistoryModel>) -> bool {
    forall|i: int, j: int|
        0 <= i < j < entries.len() ==> (#[trigger] entries[i]).tx_hash != (#[trigger]
        entries[j]).tx_hash
}

/// Whether later entries are no newer.
pub open spec fn newest_first(entries: Seq<HistoryModel>) -> bool {
    forall|i: int, j: int|
        0 <= i < j < entries.len() ==> (#[trigger] entries[i]).timestamp >= (#[trigger]
        entries[j]).timestamp
}

/// What remains is of other transactions and stood in the list.
proof fn remaining_entries(entries: Seq<HistoryModel>, tx_hash: Seq<char>)
    ensures
        forall|i: int|
            #![trigger without(entries, tx_hash)[i]]
            0 <= i < without(entries, tx_hash).len() ==> without(entries, tx_hash)[i].tx_hash
                != tx_hash && entries.contains(without(entries, tx_hash)[i]),
        listed_once(entries) ==> listed_once(without(entries, tx_hash)),
        newest_first(entries) ==> newest_first(without(entries, tx_hash)),
    decreases entries.len(),
{
    if entries.len() > 0 {
        let rest = entries.drop_last();
        remaining_entries(rest, tx_hash);
        let kept = without(rest, tx_hash);
        assert forall|i: int| 0 <= i < kept.len() implies exists|k: int|
            0 <= k < entries.len() - 1 && entries[k] == #[trigger] kept[i] by {
            assert(rest.contains(kept[i]));
            let k = choose|k: int| 0 <= k < rest.len() && rest[k] == kept[i];
            assert(entries[k] == kept[i]);
        }
        assert(entries[entries.len() - 1] == entries.last());
        assert forall|i: int|
            #![trigger without(entries, tx_hash)[i]]
            0 <= i < without(entries, tx_hash).len() implies entries.contains(
            without(entries, tx_hash)[i],
        ) by {
            if i < kept.len() {
                assert(without(entries, tx_hash)[i] == kept[i]);
            }
        }
    }
}

/// The transaction that was just decoded is at the head of the list, with the time, and
/// nowhere else in it.
pub proof fn decoded_transaction_is_at_the_head(
    entries: Seq<HistoryModel>,
    tx_hash: Seq<char>,
    now: u64,
)
    ensures
        appended(entries, tx_hash, now).len() > 0,
        appended(entries, tx_hash, now)[0] == (HistoryModel { tx_hash, timestamp: now }),
        forall|i: int|
            0 < i < appended(entries, tx_hash, now).len() ==> (#[trigger] appended(
                entries,
                tx_hash,
                now,
            )[i]).tx_hash != tx_hash,
{
    remaining_entries(entries, tx_hash);
    let rest = without(entries, tx_hash);
    assert forall|i: int| 0 < i < appended(entries, tx_hash, now).len() implies (#[trigger] appended(
        entries,
        tx_hash,
        now,
    )[i]).tx_hash != tx_hash by {
        assert(appended(entries, tx_hash, now)[i] == rest[i - 1]);
    }
}

/// The list never grows beyond its limit.
pub proof fn list_is_bounded(entries: Seq<HistoryModel>, tx_hash: Seq<char>, now: u64)
    ensures
        appended(entries, tx_hash, now).len() <= MAX_ENTRIES,
{
}

/// A list in which no transaction stands twice stays one.
pub proof fn entries_stay_unique(entries: Seq<HistoryModel>, tx_hash: Seq<char>, now: u64)
    requires
        listed_once(entries),
    ensures
        listed_once(appended(entries, tx_hash, now)),
{
    remaining_entries(entries, tx_hash);
    let rest = without(entries, tx_hash);
    let list = appended(entries, tx_hash, now);
    assert forall|i: int, j: int| 0 <= i < j < list.len() implies (#[trigger] list[i]).tx_hash != (
    #[trigger] list[j]).tx_hash by {
        assert(list[j] == rest[j - 1]);
        if i > 0 {
            assert(list[i] == rest[i - 1]);
        }
    }
}

/// A list that stands with the newest first stays so, where the clock does not run
/// backwards.
pub proof fn list_stays_newest_first(entries: Seq<HistoryModel>, tx_hash: Seq<char>, now: u64)
    requires
        newest_first(entries),
        forall|i: int| 0 <= i < entries.len() ==> (#[trigger] entries[i]).timestamp <= now,
    ensures
        newest_first(appended(entries, tx_hash, now)),
{
    remaining_entries(entries, tx_hash);
    let rest = without(entries, tx_hash);
    let list = appended(entries, tx_hash, now);
    assert forall|i: int, j: int| 0 <= i < j < list.len() implies (#[trigger] list[i]).timestamp
        >= (#[trigger] list[j]).timestamp by {
        assert(list[j] == rest[j - 1]);
        assert(entries.contains(rest[j - 1]));
        if i > 0 {
            assert(list[i] == rest[i - 1]);
        }
    }
}

/// Without entries of a transaction, nothing is left out.
proof fn nothing_is_left_out(entries: Seq<HistoryModel>, tx_hash: Seq<char>)
    requires
        forall|i: int| 0 <= i < entries.len() ==> (#[trigger] entries[i]).tx_hash != tx_hash,
    ensures
        without(entries, tx_hash) == entries,
    decreases entries.len(),
{
    if entries.len() > 0 {
        let rest = entries.drop_last();
        assert(entries[entries.len() - 1].tx_hash != tx_hash);
        assert forall|i: int| 0 <= i < rest.len() implies (#[trigger] rest[i]).tx_hash
            != tx_hash by {
            assert(rest[i] == entries[i]);
        }
        nothing_is_left_out(rest, tx_hash);
        assert(rest.push(entries.last()) =~= entries);
    } else {
        assert(entries =~= Seq::empty());
    }
}

/// A transaction that is not in the list is put before all that are, which stay as they
/// are and in order; only the oldest leaves, where there are ten already.
pub proof fn new_transaction_is_put_first(
    before: Seq<HistoryEntry>,
    tx_hash: Seq<char>,
    now: u64,
    after: Seq<HistoryEntry>,
)
    requires
        history_models(after) == appended(history_models(before), tx_hash, now),
        forall|i: int| 0 <= i < before.len() ==> (#[trigger] before[i]).tx_hash@ != tx_hash,
    ensures
        after.len() == if before.len() < 10 {
            before.len() + 1
        } else {
            10
        },
        after[0].tx_hash@ == tx_hash,
        after[0].timestamp == now,
        forall|i: int|
            #![trigger after[i]]
            1 <= i < after.len() ==> after[i].tx_hash@ == before[i - 1].tx_hash@
                && after[i].timestamp == before[i - 1].timestamp,
{
    let models = history_models(before);
    assert forall|i: int| 0 <= i < models.len() implies (#[trigger] models[i]).tx_hash
        != tx_hash by {
        assert(models[i] == before[i]@);
    }
    nothing_is_left_out(models, tx_hash);
    let list = appended(models, tx_hash, now);
    assert(list.len() == after.len());
    assert(after[0]@ == list[0]);
    assert forall|i: int|
        #![trigger after[i]]
        1 <= i < after.len() implies after[i].tx_hash@ == before[i - 1].tx_hash@
        && after[i].timestamp == before[i - 1].timestamp by {
        assert(after[i]@ == list[i]);
        assert(list[i] == models[i - 1]);
        assert(models[i - 1] == before[i - 1]@);
    }
}

/// Leaving out goes through a list part by part.
proof fn left_out_part_by_part(
    first: Seq<HistoryModel>,
    second: Seq<HistoryModel>,
    tx_hash: Seq<char>,
)
    ensures
        without(first + second, tx_hash) == without(first, tx_hash) + without(second, tx_hash),
    decreases second.len(),
{
    let whole = first + second;
    if second.len() == 0 {
        assert(whole =~= first);
        assert(without(first, tx_hash) + without(second, tx_hash) =~= without(first, tx_hash));
    } else {
        assert(whole.drop_last() =~= first + second.drop_last());
        assert(whole.last() == second.last());
        left_out_part_by_part(first, second.drop_last(), tx_hash);
        assert(without(whole, tx_hash) =~= without(first, tx_hash) + without(second, tx_hash));
    }
}

/// An entry of the transaction that is decoded again makes no difference: the list comes
/// out as if the entry had not been there.
pub proof fn earlier_entry_makes_no_difference(
    entries: Seq<HistoryModel>,
    at: int,
    tx_hash: Seq<char>,
    now: u64,
)
    requires
        0 <= at < entries.len(),
        entries[at].tx_hash == tx_hash,
    ensures
        appended(entries, tx_hash, now) == appended(
            entries.take(at) + entries.skip(at + 1),
            tx_hash,
            now,
        ),
{
    let first = entries.take(at);
    let one = seq![entries[at]];
    let second = entries.skip(at + 1);
    assert(entries =~= first + (one + second));
    left_out_part_by_part(first, one + second, tx_hash);
    left_out_part_by_part(one, second, tx_hash);
    left_out_part_by_part(first, second, tx_hash);
    assert(without(one, tx_hash) =~= Seq::empty()) by {
        reveal_with_fuel(without, 2);
        assert(one.drop_last() =~= Seq::empty());
    }
    assert(without(one, tx_hash) + without(second, tx_hash) =~= without(second, tx_hash));
}

/// The time that has passed is told in days, hours, minutes or seconds, in the largest unit
/// of which at least one has passed, and rounded down. Of a time to come it is told that
/// no second has passed.
pub proof fn time_is_told_in_the_largest_unit(timestamp: u64, now: u64, n: nat)
    ensures
        now <= timestamp ==> elapsed_text(timestamp, now) == decimal(0) + " seconds ago"@,
        now - timestamp == n && n < 60 ==> elapsed_text(timestamp, now) == decimal(n)
            + " seconds ago"@,
        1 <= n < 60 && 60 * n <= now - timestamp < 60 * n + 60 ==> elapsed_text(timestamp, now)
            == decimal(n) + " minutes ago"@,
        1 <= n < 24 && 3600 * n <= now - timestamp < 3600 * n + 3600 ==> elapsed_text(
            timestamp,
            now,
        ) == decimal(n) + " hours ago"@,
        1 <= n && 86400 * n <= now - timestamp < 86400 * n + 86400 ==> elapsed_text(timestamp, now)
            == decimal(n) + " days ago"@,
{
}

/// A line of the listing is laid out in columns: the number from the first character on,
/// the hash from the sixth and the time from the seventy-third, with spaces in between.
/// What is too wide for its column moves the next one along, with one space before it.
pub proof fn lines_are_laid_out_in_columns(
    number: Seq<char>,
    tx_hash: Seq<char>,
    decoded: Seq<char>,
)
    ensures
        ({
            let line = row(number, tx_hash, decoded);
            let second: int = if number.len() < 4 {
                5
            } else {
                number.len() as int + 1
            };
            let third: int = second + if tx_hash.len() < 66 {
                67
            } else {
                tx_hash.len() as int + 1
            };
            &&& line.len() == third + decoded.len()
            &&& line.take(number.len() as int) == number
            &&& forall|i: int| number.len() <= i < second ==> #[trigger] line[i] == ' '
            &&& line.subrange(second, second + tx_hash.len()) == tx_hash
            &&& forall|i: int| second + tx_hash.len() <= i < third ==> #[trigger] line[i] == ' '
            &&& line.skip(third) == decoded
        }),
{
    reveal_strlit(" ");
    let line = row(number, tx_hash, decoded);
    let second: int = if number.len() < 4 {
        5
    } else {
        number.len() as int + 1
    };
    let third: int = second + if tx_hash.len() < 66 {
        67
    } else {
        tx_hash.len() as int + 1
    };
    assert(line.take(number.len() as int) =~= number);
    assert(line.subrange(second, second + tx_hash.len()) =~= tx_hash);
    assert(line.skip(third) =~= decoded);
}

/// The listing is a heading, a rule of a hundred dashes and one line for each transaction,
/// in order and numbered from one; without a transaction it says that there is none.
pub proof fn every_transaction_has_its_line(
    entries: Seq<HistoryEntry>,
    now: u64,
    lines: Seq<String>,
)
    requires
        texts(lines) == listing(history_models(entries), now),
    ensures
        entries.len() == 0 ==> lines.len() == 1 && lines[0]@ == "No transaction history found."@,
        entries.len() > 0 ==> lines.len() == entries.len() + 2 && lines[0]@ == row(
            "#"@,
            "Transaction Hash"@,
            "Decoded"@,
        ) && lines[1]@.len() == 100 && (forall|i: int|
            0 <= i < 100 ==> #[trigger] lines[1]@[i] == '-') && forall|i: int|
            #![trigger entries[i]]
            0 <= i < entries.len() ==> lines[i + 2]@ == row(
                decimal((i + 1) as nat),
                entries[i].tx_hash@,
                elapsed_text(entries[i].timestamp, now),
            ),
{
    assert(texts(lines).len() == lines.len());
    assert forall|i: int| 0 <= i < lines.len() implies #[trigger] lines[i]@ == texts(
        lines,
    )[i] by {}
    assert forall|i: int|
        #![trigger entries[i]]
        0 <= i < entries.len() implies lines[i + 2]@ == row(
        decimal((i + 1) as nat),
        entries[i].tx_hash@,
        elapsed_text(entries[i].timestamp, now),
    ) by {
        assert(lines[i + 2]@ == texts(lines)[i + 2]);
        assert(history_models(entries)[i] == entries[i]@);
    }
}

/// `HOME` decides where it is set, whatever else is; the current directory takes the place
/// only where neither variable is set.
pub proof fn home_is_looked_for_in_order(has_home: bool, has_profile: bool)
    ensures
        home_found(has_home, has_profile) is Home <==> has_home,
        home_found(has_home, has_profile) is CurrentDirectory <==> !has_home && !has_profile,
        home_found(has_home, has_profile) is UserProfile <==> !has_home && has_profile,
{
}

} // verus!
