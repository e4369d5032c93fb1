//! Where a history archive keeps its checkpoints.

use vstd::prelude::*;
use vstd::string::*;

use crate::text::{append, append_hex, digit_char, hex_digits, owned};

verus! {

/// A kind of file in a history archive.
#[derive(Debug, Clone, Copy, PartialEq, Eq)]
pub enum ArchiveCategory {
    Ledger,
    Transactions,
    Results,
}

impl ArchiveCategory {
    /// The name of the category in paths.
    pub open spec fn text(self) -> Seq<char> {
        match self {
            ArchiveCategory::Ledger => "ledger"@,
            ArchiveCategory::Transactions => "transactions"@,
            ArchiveCategory::Results => "results"@,
        }
    }

    /// The name of the category in paths.
    pub fn as_str(&self) -> (text: &'static str)
        ensures
            text@ == self.text(),
    {
        match self {
            ArchiveCategory::Ledger => "ledger",
            ArchiveCategory::Transactions => "transactions",
            ArchiveCategory::Results => "results",
        }
    }
}

/// The path of a checkpoint's file of the given category: below the category, three
/// directories named by the first three bytes of the sequence number.
pub open spec fn archive_path(category: ArchiveCategory, checkpoint_seq: u32) -> Seq<char> {
    let hex = hex_digits(checkpoint_seq as nat, 8);
    category.text() + "/"@ + hex.subrange(0, 2) + "/"@ + hex.subrange(2, 4) + "/"@ + hex.subrange(
        4,
        6,
    ) + "/"@ + category.text() + "-"@ + hex + ".xdr.gz"@
}

/// `text` without the slashes at its end.
pub open spec fn without_slashes_after(text: Seq<char>) -> Seq<char>
    decreases text.len(),
{
    if text.len() > 0 && text.last() == '/' {
        without_slashes_after(text.drop_last())
    } else {
        text
    }
}

/// `text` without the slashes at its start.
pub open spec fn without_slashes_before(text: Seq<char>) -> Seq<char>
    decreases text.len(),
{
    if text.len() > 0 && text[0] == '/' {
        without_slashes_before(text.drop_first())
    } else {
        text
    }
}

/// The URL of `path` below `base`.
pub open spec fn joined_url(base: Seq<char>, path: Seq<char>) -> Seq<char> {
    without_slashes_after(base) + "/"@ + without_slashes_before(path)
}

/// The sequence number of the checkpoint that a ledger belongs to.
pub open spec fn checkpoint_of(ledger_sequence: int) -> int {
    (ledger_sequence / 64) * 64 + 63
}

/// The path of a checkpoint's file of the given category.
pub fn format_archive_path(category: ArchiveCategory, checkpoint_seq: u32) -> (path: String)
    ensures
        path@ == archive_path(category, checkpoint_seq),
{
    let mut hex = String::new();
    append_hex(&mut hex, checkpoint_seq, 8);
    assert(hex@ =~= hex_digits(checkpoint_seq as nat, 8));
    proof {
        hex_digits_length(checkpoint_seq as nat, 8);
    }
    let mut path = owned(category.as_str());
    append(&mut path, "/");
    append(&mut path, hex.as_str().substring_char(0, 2));
    append(&mut path, "/");
    append(&mut path, hex.as_str().substring_char(2, 4));
    append(&mut path, "/");
    append(&mut path, hex.as_str().substring_char(4, 6));
    append(&mut path, "/");
    append(&mut path, category.as_str());
    append(&mut path, "-");
    append(&mut path, hex.as_str());
    append(&mut path, ".xdr.gz");
    path
}

/// The URL of `path` below `base`, with one slash between them.
pub fn join_url(base: &str, path: &str) -> (url: String)
    ensures
        url@ == joined_url(base@, path@),
{
    let mut end: usize = base.unicode_len();
    assert(base@.take(end as int) =~= base@);
    while end > 0 && base.get_char(end - 1) == '/'
        invariant
            end <= base@.len(),
            without_slashes_after(base@) == without_slashes_after(base@.take(end as int)),
        decreases end,
    {
        assert(base@.take(end as int).drop_last() =~= base@.take(end - 1));
        end -= 1;
    }
    let length: usize = path.unicode_len();
    let mut start: usize = 0;
    assert(path@.skip(0) =~= path@);
    while start < length && path.get_char(start) == '/'
        invariant
            start <= length,
            length == path@.len(),
            without_slashes_before(path@) == without_slashes_before(path@.skip(start as int)),
        decreases length - start,
    {
        assert(path@.skip(start as int).drop_first() =~= path@.skip(start + 1));
        start += 1;
    }
    assert(base@.take(end as int) == base@.subrange(0, end as int));
    assert(path@.skip(start as int) == path@.subrange(start as int, length as int));
    let mut url = owned(base.substring_char(0, end));
    append(&mut url, "/");
    append(&mut url, path.substring_char(start, length));
    url
}

/// The sequence number of the checkpoint that a ledger belongs to.
pub fn get_checkpoint_seq(ledger_sequence: u32) -> (checkpoint_seq: u32)
    ensures
        checkpoint_seq == checkpoint_of(ledger_sequence as int),
{
    (ledger_sequence / 64) * 64 + 63
}

/// Hexadecimal digits are as many as asked for.
pub proof fn hex_digits_length(n: nat, width: nat)
    ensures
        hex_digits(n, width).len() == width,
    decreases width,
{
    if width > 0 {
        hex_digits_length(n / 16, (width - 1) as nat);
    }
}

/// A checkpoint is the last of the 64 ledgers that belong to it, and it belongs to
/// itself.
pub proof fn checkpoint_closes_its_ledgers(ledger_sequence: int)
    requires
        0 <= ledger_sequence,
    ensures
        ledger_sequence <= checkpoint_of(ledger_sequence) < ledger_sequence + 64,
        checkpoint_of(ledger_sequence) % 64 == 63,
        checkpoint_of(checkpoint_of(ledger_sequence)) == checkpoint_of(ledger_sequence),
{
}

/// Two ledgers belong to the same checkpoint exactly when they are in the same run of
/// 64.
pub proof fn checkpoint_shared_by_its_run(first: int, second: int)
    requires
        0 <= first,
        0 <= second,
    ensures
        checkpoint_of(first) == checkpoint_of(second) <==> first / 64 == second / 64,
{
}

/// No two slashes stand side by side in `text`.
pub open spec fn no_double_slash(text: Seq<char>) -> bool {
    forall|i: int| 0 <= i < text.len() - 1 && #[trigger] text[i] == '/' ==> text[i + 1] != '/'
}

/// No hexadecimal digit is a slash.
proof fn hex_digits_hold_no_slash(n: nat, width: nat)
    ensures
        forall|i: int| 0 <= i < width ==> #[trigger] hex_digits(n, width)[i] != '/',
    decreases width,
{
    hex_digits_length(n, width);
    if width > 0 {
        hex_digits_hold_no_slash(n / 16, (width - 1) as nat);
        hex_digits_length(n / 16, (width - 1) as nat);
        assert(digit_char((n % 16) as int) != '/');
    }
}

/// Slashes at the end of the base and at the start of the path make no difference.
pub proof fn joined_url_ignores_slashes_between(base: Seq<char>, path: Seq<char>)
    ensures
        joined_url(base.push('/'), path) == joined_url(base, path),
        joined_url(base, seq!['/'] + path) == joined_url(base, path),
{
    assert(base.push('/').drop_last() =~= base);
    assert((seq!['/'] + path).drop_first() =~= path);
}

/// One slash, no more, stands between the base and the path.
pub proof fn joined_url_has_one_slash_between(base: Seq<char>, path: Seq<char>)
    ensures
        without_slashes_after(base).len() > 0 ==> without_slashes_after(base).last() != '/',
        without_slashes_before(path).len() > 0 ==> without_slashes_before(path)[0] != '/',
    decreases base.len() + path.len(),
{
    if base.len() > 0 && base.last() == '/' {
        joined_url_has_one_slash_between(base.drop_last(), path);
    } else if path.len() > 0 && path[0] == '/' {
        joined_url_has_one_slash_between(base, path.drop_first());
    }
}

/// Below the base, the URL of a checkpoint's file holds no two slashes side by side.
pub proof fn archive_url_has_no_double_slash(
    base: Seq<char>,
    category: ArchiveCategory,
    checkpoint_seq: u32,
)
    ensures
        joined_url(base, archive_path(category, checkpoint_seq)) == without_slashes_after(base)
            + "/"@ + archive_path(category, checkpoint_seq),
        no_double_slash("/"@ + archive_path(category, checkpoint_seq)),
{
    let path = archive_path(category, checkpoint_seq);
    let hex = hex_digits(checkpoint_seq as nat, 8);
    hex_digits_length(checkpoint_seq as nat, 8);
    hex_digits_hold_no_slash(checkpoint_seq as nat, 8);
    reveal_strlit("/");
    reveal_strlit("-");
    reveal_strlit(".xdr.gz");
    reveal_strlit("ledger");
    reveal_strlit("transactions");
    reveal_strlit("results");
    let size = category.text().len() as int;
    assert forall|i: int| 0 <= i < path.len() implies (#[trigger] path[i] == '/' <==> i == size
        || i == size + 3 || i == size + 6 || i == size + 9) by {
        if size < i < size + 3 {
            assert(path[i] == hex[i - size - 1]);
        } else if size + 3 < i < size + 6 {
            assert(path[i] == hex[i - size - 2]);
        } else if size + 6 < i < size + 9 {
            assert(path[i] == hex[i - size - 3]);
        } else if i > 2 * size + 10 && i < 2 * size + 19 {
            assert(path[i] == hex[i - 2 * size - 11]);
        }
    }
    let below = "/"@ + path;
    assert forall|i: int| 0 <= i < below.len() - 1 && #[trigger] below[i] == '/' implies below[i
        + 1] != '/' by {
        assert(below[i + 1] == path[i]);
        if i > 0 {
            assert(below[i] == path[i - 1]);
        }
    }
}

/// Hexadecimal digits tell numbers apart that fit in them.
proof fn hex_digits_tell_apart(a: nat, b: nat, width: nat)
    requires
        hex_digits(a, width) == hex_digits(b, width),
        a < pow16(width),
        b < pow16(width),
    ensures
        a == b,
    decreases width,
{
    if width > 0 {
        let rest = (width - 1) as nat;
        assert(hex_digits(a, width).drop_last() =~= hex_digits(a / 16, rest));
        assert(hex_digits(b, width).drop_last() =~= hex_digits(b / 16, rest));
        assert(hex_digits(a, width).last() == digit_char((a % 16) as int));
        assert(hex_digits(b, width).last() == digit_char((b % 16) as int));
        hex_digits_tell_apart(a / 16, b / 16, rest);
    }
}

/// 16 to the power of `n`.
spec fn pow16(n: nat) -> nat
    decreases n,
{
    if n == 0 {
        1
    } else {
        16 * pow16((n - 1) as nat)
    }
}

/// No two files, of different categories or of different checkpoints, have the same
/// path.
pub proof fn archive_paths_are_distinct(
    category: ArchiveCategory,
    checkpoint_seq: u32,
    other_category: ArchiveCategory,
    other_seq: u32,
)
    requires
        archive_path(category, checkpoint_seq) == archive_path(other_category, other_seq),
    ensures
        category == other_category,
        checkpoint_seq == other_seq,
{
    let path = archive_path(category, checkpoint_seq);
    let other = archive_path(other_category, other_seq);
    let hex = hex_digits(checkpoint_seq as nat, 8);
    let other_hex = hex_digits(other_seq as nat, 8);
    hex_digits_length(checkpoint_seq as nat, 8);
    hex_digits_length(other_seq as nat, 8);
    reveal_strlit("/");
    reveal_strlit("-");
    reveal_strlit(".xdr.gz");
    reveal_strlit("ledger");
    reveal_strlit("transactions");
    reveal_strlit("results");
    assert(path[0] == category.text()[0]);
    assert(other[0] == other_category.text()[0]);
    assert(category == other_category);
    let size = category.text().len() as int;
    assert forall|i: int| 0 <= i < 8 implies #[trigger] hex[i] == other_hex[i] by {
        assert(path[2 * size + 11 + i] == hex[i]);
        assert(other[2 * size + 11 + i] == other_hex[i]);
    }
    assert(hex =~= other_hex);
    reveal_with_fuel(pow16, 9);
    hex_digits_tell_apart(checkpoint_seq as nat, other_seq as nat, 8);
}

} // verus!
