//! Entries of the shell's own log.

use vstd::prelude::*;

use crate::text::decimal;

verus! {

#[verifier::external_type_specification]
#[verifier::external_body]
pub struct ExSystemTime(std::time::SystemTime);

#[verifier::external_type_specification]
#[verifier::external_body]
pub struct ExSystemTimeError(std::time::SystemTimeError);

/// Calls `std::time::SystemTime::now`. It reads the clock, so nothing is claimed of the result.
pub assume_specification[ std::time::SystemTime::now ]() -> (now: std::time::SystemTime)
;

/// Calls `std::time::SystemTime::duration_since` with the Unix epoch. A point in time is opaque here,
/// so nothing is claimed of the span.
#[verifier::external_body]
fn since_epoch(now: std::time::SystemTime) -> (span: Result<
    std::time::Duration,
    std::time::SystemTimeError,
>) {
    now.duration_since(std::time::UNIX_EPOCH)
}

/// Calls `std::time::Duration::as_secs`, which gives the whole seconds of a span. A span is opaque
/// here, so nothing is claimed of the number.
pub assume_specification[ std::time::Duration::as_secs ](span: &std::time::Duration) -> (secs: u64)
;

/// How a point in time, in seconds since the Unix epoch, is written in the log.
pub open spec fn stamp(secs: u64) -> Seq<char> {
    "["@ + crate::text::digits(secs as nat) + "]"@
}

/// Writes a point in time, in seconds since the Unix epoch, as the log does.
pub fn timestamp_at(secs: u64) -> (text: String)
    ensures
        text@ == stamp(secs),
{
    "[".to_string().concat(decimal(secs).as_str()).concat("]")
}

/// Writes what the clock shows as the log does; `None` stands for a clock before the Unix epoch,
/// which counts as zero.
pub fn timestamp_of(secs: Option<u64>) -> (text: String)
    ensures
        text@ == (match secs {
            Some(secs) => stamp(secs),
            None => stamp(0),
        }),
{
    match secs {
        Some(secs) => timestamp_at(secs),
        None => timestamp_at(0),
    }
}

/// The present moment as the log writes it. Which moment that is lies with the clock.
pub fn timestamp() -> (text: String)
    ensures
        exists|secs: u64| text@ == stamp(secs),
{
    let secs: Option<u64> = match since_epoch(std::time::SystemTime::now()) {
        Ok(span) => Some(span.as_secs()),
        Err(_) => None,
    };
    timestamp_of(secs)
}

/// An entry of the log: the moment, the message and the end of the line.
pub open spec fn entry_text(moment: Seq<char>, message: Seq<char>) -> Seq<char> {
    moment + " "@ + message + "\n"@
}

/// An entry of the log: the moment, the message and the end of the line.
pub fn log_entry(moment: &str, message: &str) -> (entry: String)
    ensures
        entry@ == entry_text(moment@, message@),
{
    moment.to_string().concat(" ").concat(message).concat("\n")
}

/// How the log file is opened for an entry.
#[derive(Clone, Copy, Debug, PartialEq, Eq, Structural)]
pub enum OpenMode {
    /// What an earlier run left is dropped.
    Truncate,
    /// The entry goes behind those that are there.
    Append,
}

/// How the log file is opened, by whether this run has written to it before.
pub open spec fn mode_for(written_before: bool) -> OpenMode {
    if written_before {
        OpenMode::Append
    } else {
        OpenMode::Truncate
    }
}

/// How the log file is opened, by whether this run has written to it before.
pub fn open_mode(written_before: bool) -> (mode: OpenMode)
    ensures
        mode == mode_for(written_before),
{
    if written_before {
        OpenMode::Append
    } else {
        OpenMode::Truncate
    }
}

/// What a log that held `content` holds after one more entry.
pub open spec fn after_entry(content: Seq<char>, mode: OpenMode, entry: Seq<char>) -> Seq<char> {
    match mode {
        OpenMode::Truncate => entry,
        OpenMode::Append => content + entry,
    }
}

/// What a log that held `content` before a run holds after the run's entries.
pub open spec fn after_entries(content: Seq<char>, entries: Seq<Seq<char>>) -> Seq<char>
    decreases entries.len(),
{
    if entries.len() == 0 {
        content
    } else {
        after_entry(
            after_entries(content, entries.drop_last()),
            mode_for(entries.len() > 1),
            entries.last(),
        )
    }
}

/// A run that writes to its log leaves there exactly its own entries, in their order.
pub proof fn law_log_holds_this_run(content: Seq<char>, entries: Seq<Seq<char>>)
    requires
        entries.len() > 0,
    ensures
        after_entries(content, entries) == entries.fold_left(
            Seq::<char>::empty(),
            |text: Seq<char>, entry: Seq<char>| text + entry,
        ),
    decreases entries.len(),
{
    let join = |text: Seq<char>, entry: Seq<char>| text + entry;
    let none = Seq::<char>::empty();
    let front = entries.drop_last();
    reveal_with_fuel(Seq::fold_left, 2);
    if entries.len() == 1 {
        assert(entries.fold_left(none, join) =~= entries.last());
    } else {
        law_log_holds_this_run(content, front);
    }
}

// ---------------------------------------------------------------------------
// Laws by the text of an entry
// ---------------------------------------------------------------------------

/// A moment is written as its seconds in decimal, between square brackets; a clock before the epoch
/// is written as zero.
pub proof fn law_moment_in_brackets(secs: u64, text: String, shown: Option<u64>, told: String)
    requires
        call_ensures(timestamp_at, (secs,), text),
        call_ensures(timestamp_of, (shown,), told),
    ensures
        text@ == seq!['['] + crate::text::digits(secs as nat) + seq![']'],
        shown == Some(secs) ==> told@ == text@,
        shown is None && secs == 0 ==> told@ == text@,
{
    reveal_strlit("[");
    reveal_strlit("]");
    assert("["@ =~= seq!['[']);
    assert("]"@ =~= seq![']']);
}

/// An entry is the moment, a space, the message as it is, and a line feed.
pub proof fn law_entry_holds_its_message(moment: &str, message: &str, entry: String)
    requires
        call_ensures(log_entry, (moment, message), entry),
    ensures
        entry@ == moment@ + seq![' '] + message@ + seq!['\n'],
{
    reveal_strlit(" ");
    reveal_strlit("\n");
    assert(" "@ =~= seq![' ']);
    assert("\n"@ =~= seq!['\n']);
}

/// Only the first entry of a run clears the log.
pub proof fn law_first_entry_clears_the_log(written_before: bool, mode: OpenMode)
    requires
        call_ensures(open_mode, (written_before,), mode),
    ensures
        mode == OpenMode::Truncate <==> !written_before,
        mode == OpenMode::Append <==> written_before,
        mode_for(written_before) == mode,
{
}

/// The present moment is written like any other.
pub proof fn law_present_moment_in_brackets(text: String)
    requires
        call_ensures(timestamp, (), text),
    ensures
        exists|secs: u64| text@ == seq!['['] + #[trigger] crate::text::digits(secs as nat) + seq![']'],
{
    reveal_strlit("[");
    reveal_strlit("]");
    assert("["@ =~= seq!['[']);
    assert("]"@ =~= seq![']']);
    let secs = choose|secs: u64| text@ == stamp(secs);
    assert(text@ == seq!['['] + crate::text::digits(secs as nat) + seq![']']);
}

} // verus!
