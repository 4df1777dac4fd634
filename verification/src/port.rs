//! The port of the service: who holds it, and when it is free again.

use vstd::prelude::*;

use crate::command::taskkill;
use crate::command::taskkill_command;
use crate::command::CommandPlan;
use crate::platform::Platform;
use crate::text::closes;
use crate::text::digits;
use crate::text::ends_with;
use crate::text::is_space;
use crate::text::law_decimal_form_is_read;
use crate::text::law_line_feed_parts_rows;
use crate::text::law_part_can_be_cut_out;
use crate::text::law_part_stands_where_it_is_put;
use crate::text::law_text_without_line_feed_is_a_row;
use crate::text::law_tight_text_is_a_word;
use crate::text::law_white_space_parts_words;
use crate::text::parse_u32;
use crate::text::parsed_u32;
use crate::text::rows;
use crate::text::rows_of;
use crate::text::words;
use crate::text::words_of;

verus! {

/// The port of the service.
pub const DSH_PORT: u16 = 3080;

/// How the port stands at the end of an address in the port list.
pub const PORT_TAG: &'static str = ":3080";

/// Time between two looks at the port or the service, in milliseconds.
pub const CHECK_INTERVAL_MS: u64 = 1000;

/// How often the port is looked at before a start is given up.
pub const PORT_FREE_TRIES: u64 = 30;

// ---------------------------------------------------------------------------
// Who holds the port
// ---------------------------------------------------------------------------

/// The process that a row of the port list shows listening on the port. Processes 0 and 4 belong
/// to the system and never count.
pub open spec fn listener(row: Seq<char>) -> Option<u32> {
    let cols = words(row);
    if cols.len() >= 5 && closes(cols[1], PORT_TAG@) && cols[3] == "LISTENING"@ {
        match parsed_u32(cols[4]) {
            Some(pid) if pid > 4 => Some(pid),
            _ => None,
        }
    } else {
        None
    }
}

/// The processes that the rows show listening on the port, each once, in order of appearance.
pub open spec fn listeners(list: Seq<Seq<char>>) -> Seq<u32>
    decreases list.len(),
{
    if list.len() == 0 {
        Seq::empty()
    } else {
        let before = listeners(list.drop_last());
        match listener(list.last()) {
            Some(pid) if !before.contains(pid) => before.push(pid),
            _ => before,
        }
    }
}

fn same_chars(t: &Vec<char>, word: &str) -> (yes: bool)
    ensures
        yes == (t@ == word@),
{
    let w = crate::text::chars_of(word);
    let yes = t.len() == w.len() && crate::text::found_at(t, &w, 0);
    proof {
        if t@.len() == w@.len() {
            assert(t@.subrange(0, w@.len() as int) =~= t@);
        }
    }
    yes
}

fn row_listener(row: &Vec<char>) -> (pid: Option<u32>)
    ensures
        pid == listener(row@),
{
    let cols = words_of(row);
    proof {
        assert(words(row@).len() == cols.len());
        assert forall|i: int| 0 <= i < cols.len() implies #[trigger] words(row@)[i] == cols[i]@ by {}
    }
    if cols.len() >= 5 && ends_with(&cols[1], PORT_TAG) && same_chars(&cols[3], "LISTENING") {
        match parse_u32(&cols[4]) {
            Some(pid) => if pid > 4 {
                Some(pid)
            } else {
                None
            },
            None => None,
        }
    } else {
        None
    }
}

fn among(pids: &Vec<u32>, pid: u32) -> (yes: bool)
    ensures
        yes == pids@.contains(pid),
{
    let mut i: usize = 0;
    while i < pids.len()
        invariant
            i <= pids.len(),
            forall|j: int| 0 <= j < i ==> #[trigger] pids@[j] != pid,
        decreases pids.len() - i,
    {
        if pids[i] == pid {
            proof {
                assert(pids@[i as int] == pid);
            }
            return true;
        }
        i = i + 1;
    }
    false
}

/// The processes that a port list shows listening on the port.
pub fn listening_pids(list: &str) -> (pids: Vec<u32>)
    ensures
        pids@ == listeners(rows(list@)),
{
    let parts = rows_of(list);
    let ghost all = rows(list@);
    let mut pids: Vec<u32> = Vec::new();
    let mut i: usize = 0;
    proof {
        assert(all.take(0) =~= Seq::empty());
        assert(parts.len() == all.len());
    }
    while i < parts.len()
        invariant
            i <= parts.len(),
            all == crate::text::contents(parts@),
            pids@ == listeners(all.take(i as int)),
        decreases parts.len() - i,
    {
        proof {
            assert(all.take(i + 1).drop_last() =~= all.take(i as int));
            assert(all.take(i + 1).last() == parts[i as int]@);
        }
        match row_listener(&parts[i]) {
            Some(pid) => {
                if !among(&pids, pid) {
                    pids.push(pid);
                }
            },
            None => {},
        }
        i = i + 1;
    }
    proof {
        assert(all.take(i as int) =~= all);
    }
    pids
}

/// The text that stands for bytes, with a replacement character for what is not UTF-8.
pub uninterp spec fn lossy_text(bytes: Seq<u8>) -> Seq<char>;

/// Calls `String::from_utf8_lossy`. Its result is named; for bytes that are UTF-8 it is the text
/// that they encode.
#[verifier::external_body]
fn decode_lossy(bytes: &[u8]) -> (text: String)
    ensures
        text@ == lossy_text(bytes@),
        vstd::utf8::valid_utf8(bytes@) ==> text@ == vstd::utf8::decode_utf8(bytes@),
{
    String::from_utf8_lossy(bytes).into_owned()
}

/// An order to end a process that holds the port.
#[derive(Debug)]
pub struct KillOrder {
    pub pid: u32,
    pub command: CommandPlan,
}

/// How the port is cleared of a service that the shell did not start.
#[derive(Debug)]
pub enum PortCleanup {
    /// The system offers no way to look the holders up.
    Unsupported,
    /// These processes are to be ended.
    Kill(Vec<KillOrder>),
}

/// The orders end exactly these processes, in this order.
pub open spec fn orders_end(orders: Seq<KillOrder>, pids: Seq<u32>) -> bool {
    &&& orders.len() == pids.len()
    &&& forall|i: int|
        0 <= i < pids.len() ==> (#[trigger] orders[i]).pid == pids[i] && orders[i].command@ == taskkill(
            pids[i],
        )
}

/// The orders that end the given processes.
pub fn kill_orders(pids: &Vec<u32>) -> (orders: Vec<KillOrder>)
    ensures
        orders_end(orders@, pids@),
{
    let mut orders: Vec<KillOrder> = Vec::new();
    let mut i: usize = 0;
    while i < pids.len()
        invariant
            i <= pids.len(),
            orders_end(orders@, pids@.take(i as int)),
        decreases pids.len() - i,
    {
        let pid = pids[i];
        orders.push(KillOrder { pid, command: taskkill_command(pid) });
        i = i + 1;
    }
    proof {
        assert(pids@.take(i as int) =~= pids@);
    }
    orders
}

/// How to clear the port, from what the port list command printed.
pub fn kill_port_occupant(platform: Platform, port_list: &[u8]) -> (cleanup: PortCleanup)
    ensures
        platform == Platform::Other ==> cleanup is Unsupported,
        platform == Platform::Windows ==> cleanup is Kill && orders_end(
            cleanup->Kill_0@,
            listeners(rows(lossy_text(port_list@))),
        ),
        platform == Platform::Windows && vstd::utf8::valid_utf8(port_list@) ==> cleanup is Kill
            && orders_end(
            cleanup->Kill_0@,
            listeners(rows(vstd::utf8::decode_utf8(port_list@))),
        ),
{
    match platform {
        Platform::Windows => {
            let list = decode_lossy(port_list);
            PortCleanup::Kill(kill_orders(&listening_pids(list.as_str())))
        },
        Platform::Other => PortCleanup::Unsupported,
    }
}

/// A process is ended if and only if some row shows it listening on the port.
pub proof fn law_every_listener_is_ended(list: Seq<Seq<char>>, pid: u32)
    ensures
        listeners(list).contains(pid) <==> exists|i: int|
            0 <= i < list.len() && listener(#[trigger] list[i]) == Some(pid),
    decreases list.len(),
{
    if list.len() > 0 {
        let front = list.drop_last();
        law_every_listener_is_ended(front, pid);
        let before = listeners(front);
        let now = listeners(list);
        if before.contains(pid) {
            let k = choose|k: int| 0 <= k < before.len() && before[k] == pid;
            assert(now[k] == pid);
            let i = choose|i: int| 0 <= i < front.len() && listener(#[trigger] front[i]) == Some(pid);
            assert(list[i] == front[i]);
        } else if listener(list.last()) == Some(pid) {
            assert(now == before.push(pid));
            assert(now.last() == pid);
            assert(list[list.len() - 1] == list.last());
        } else {
            assert forall|i: int| 0 <= i < list.len() implies listener(#[trigger] list[i]) != Some(
                pid,
            ) by {
                if i < list.len() - 1 {
                    assert(front[i] == list[i]);
                }
            }
            if now.contains(pid) {
                let k = choose|k: int| 0 <= k < now.len() && now[k] == pid;
                assert(k == now.len() - 1 ==> now.last() == pid);
                if k < before.len() {
                    assert(before[k] == pid);
                }
            }
        }
    }
}

/// No process is ended twice, and the system's own processes are never ended.
pub proof fn law_system_processes_are_spared(list: Seq<Seq<char>>)
    ensures
        listeners(list).no_duplicates(),
        forall|i: int| 0 <= i < listeners(list).len() ==> #[trigger] listeners(list)[i] > 4,
    decreases list.len(),
{
    if list.len() > 0 {
        law_system_processes_are_spared(list.drop_last());
    }
}

// ---------------------------------------------------------------------------
// Waiting for the port
// ---------------------------------------------------------------------------

/// What is to be done next while the port is awaited.
#[derive(Clone, Copy, Debug, PartialEq, Eq, Structural)]
pub enum PortWaitStep {
    /// Look whether the port is taken.
    Look,
    /// Wait for this many milliseconds.
    Sleep { millis: u64 },
    /// The wait is over.
    Done { free: bool },
}

/// A wait until the port is free, with a limit on the number of looks.
#[derive(Clone, Copy, Debug, PartialEq, Eq, Structural)]
pub struct PortWait {
    pub looks: u64,
    pub limit: u64,
}

impl PortWait {
    /// What is to be done when no pause is due: look again, or give up at the limit.
    pub open spec fn due(self) -> PortWaitStep {
        if self.looks < self.limit {
            PortWaitStep::Look
        } else {
            PortWaitStep::Done { free: false }
        }
    }

    /// What follows a look that found the port taken or free.
    pub open spec fn seen(self, listening: bool) -> PortWaitStep {
        if listening {
            PortWaitStep::Sleep { millis: CHECK_INTERVAL_MS }
        } else {
            PortWaitStep::Done { free: true }
        }
    }

    /// The wait after a look and the pause behind it.
    pub open spec fn after_pause(self) -> PortWait {
        if self.looks < self.limit {
            PortWait { looks: (self.looks + 1) as u64, ..self }
        } else {
            self
        }
    }

    /// Begins a wait with at most `limit` looks.
    pub fn new(limit: u64) -> (begun: (PortWait, PortWaitStep))
        ensures
            begun.0 == (PortWait { looks: 0, limit }),
            begun.1 == begun.0.due(),
    {
        let wait = PortWait { looks: 0, limit };
        if limit > 0 {
            (wait, PortWaitStep::Look)
        } else {
            (wait, PortWaitStep::Done { free: false })
        }
    }

    /// Takes what a look has shown. A port that was seen free is trusted to be free.
    pub fn looked(&self, listening: bool) -> (step: PortWaitStep)
        ensures
            step == self.seen(listening),
    {
        if listening {
            PortWaitStep::Sleep { millis: CHECK_INTERVAL_MS }
        } else {
            PortWaitStep::Done { free: true }
        }
    }

    /// Takes note that the pause after a look is over.
    pub fn slept(&mut self) -> (step: PortWaitStep)
        ensures
            *final(self) == old(self).after_pause(),
            step == final(self).due(),
    {
        if self.looks < self.limit {
            self.looks = self.looks + 1;
        }
        if self.looks < self.limit {
            PortWaitStep::Look
        } else {
            PortWaitStep::Done { free: false }
        }
    }
}

/// How a wait ends that has come to `wait`, if look number `i` shows the port taken exactly where
/// `taken(i)` says so.
pub open spec fn wait_ends_free(wait: PortWait, taken: spec_fn(int) -> bool) -> bool
    decreases wait.limit - wait.looks,
{
    match wait.due() {
        PortWaitStep::Look => match wait.seen(taken(wait.looks as int)) {
            PortWaitStep::Done { free } => free,
            _ => wait_ends_free(wait.after_pause(), taken),
        },
        PortWaitStep::Done { free } => free,
        PortWaitStep::Sleep { .. } => false,
    }
}

proof fn lemma_wait(wait: PortWait, taken: spec_fn(int) -> bool)
    ensures
        wait_ends_free(wait, taken) <==> exists|i: int|
            wait.looks <= i < wait.limit && !#[trigger] taken(i),
    decreases wait.limit - wait.looks,
{
    if wait.looks < wait.limit {
        lemma_wait(wait.after_pause(), taken);
        if !taken(wait.looks as int) {
            let i = wait.looks as int;
            assert(!taken(i));
        }
    }
}

/// A wait ends well if and only if one of its looks, up to the limit, shows the port free.
pub proof fn law_wait_ends_by_what_is_seen(limit: u64, taken: spec_fn(int) -> bool)
    ensures
        wait_ends_free(PortWait { looks: 0, limit }, taken) <==> exists|i: int|
            0 <= i < limit && !#[trigger] taken(i),
{
    lemma_wait(PortWait { looks: 0, limit }, taken);
}

// ---------------------------------------------------------------------------
// Laws on whole port lists
// ---------------------------------------------------------------------------

/// `t` holds nothing but white space.
pub open spec fn is_blank(t: Seq<char>) -> bool {
    forall|i: int| 0 <= i < t.len() ==> is_space(#[trigger] t[i])
}

/// `t` holds no white space.
pub open spec fn is_tight(t: Seq<char>) -> bool {
    forall|i: int| 0 <= i < t.len() ==> !is_space(#[trigger] t[i])
}

/// A row of columns: protocol, local address, foreign address, the word for listening and a number,
/// with white space between them; `gaps` are what stands before each column, and `rest` is what
/// stands behind the last one.
pub open spec fn is_listing_row(
    row: Seq<char>,
    gaps: Seq<Seq<char>>,
    proto: Seq<char>,
    host: Seq<char>,
    foreign: Seq<char>,
    number: Seq<char>,
    rest: Seq<char>,
) -> bool {
    &&& gaps.len() == 5
    &&& forall|i: int| 0 <= i < 5 ==> is_blank(#[trigger] gaps[i]) && (i > 0 ==> gaps[i].len() > 0)
    &&& proto.len() > 0 && is_tight(proto)
    &&& is_tight(host)
    &&& foreign.len() > 0 && is_tight(foreign)
    &&& number.len() > 0 && is_tight(number)
    &&& rest.len() == 0 || is_space(rest[0])
    &&& row == gaps[0] + proto + gaps[1] + (host + ":3080"@) + gaps[2] + foreign + gaps[3]
        + "LISTENING"@ + gaps[4] + number + rest
}

/// A gap and a column in front of a text put one word in front of its words.
proof fn lemma_column(gap: Seq<char>, col: Seq<char>, t: Seq<char>)
    requires
        is_blank(gap),
        col.len() > 0,
        is_tight(col),
        t.len() == 0 || is_space(t[0]),
    ensures
        words(gap + col + t) == seq![col] + words(t),
{
    let none = Seq::<char>::empty();
    law_tight_text_is_a_word(col);
    assert(words(col + t) == seq![col] + words(t)) by {
        if t.len() == 0 {
            assert(col + t =~= col);
            assert(words(t) =~= Seq::<Seq<char>>::empty());
            assert(seq![col] + words(t) =~= seq![col]);
        } else {
            let first = t.take(1);
            let more = t.skip(1);
            assert(col + t =~= col + first + more);
            assert(t =~= none + first + more);
            law_white_space_parts_words(col, first, more);
            law_white_space_parts_words(none, first, more);
            assert(words(none) + words(more) =~= words(more));
        }
    }
    if gap.len() == 0 {
        assert(gap + col + t =~= col + t);
    } else {
        law_white_space_parts_words(none, gap, col + t);
        assert(none + gap + (col + t) =~= gap + col + t);
        assert(words(none) + words(col + t) =~= words(col + t));
    }
}

/// The columns of such a row are its first five words.
proof fn lemma_listing_words(
    row: Seq<char>,
    gaps: Seq<Seq<char>>,
    proto: Seq<char>,
    host: Seq<char>,
    foreign: Seq<char>,
    number: Seq<char>,
    rest: Seq<char>,
)
    requires
        is_listing_row(row, gaps, proto, host, foreign, number, rest),
    ensures
        words(row) == seq![proto, host + ":3080"@, foreign, "LISTENING"@, number] + words(rest),
{
    reveal_strlit(":3080");
    reveal_strlit("LISTENING");
    let local = host + ":3080"@;
    let word = "LISTENING"@;
    assert(is_blank(gaps[0]) && is_blank(gaps[1]) && is_blank(gaps[2]) && is_blank(gaps[3])
        && is_blank(gaps[4]));
    assert(is_tight(local)) by {
        assert forall|i: int| 0 <= i < local.len() implies !is_space(#[trigger] local[i]) by {
            if i < host.len() {
                assert(local[i] == host[i]);
            } else {
                assert(local[i] == ":3080"@[i - host.len()]);
            }
        }
    }
    let t4 = gaps[4] + number + rest;
    let t3 = gaps[3] + word + t4;
    let t2 = gaps[2] + foreign + t3;
    let t1 = gaps[1] + local + t2;
    assert(t4[0] == gaps[4][0]);
    assert(t3[0] == gaps[3][0]);
    assert(t2[0] == gaps[2][0]);
    assert(t1[0] == gaps[1][0]);
    lemma_column(gaps[4], number, rest);
    lemma_column(gaps[3], word, t4);
    lemma_column(gaps[2], foreign, t3);
    lemma_column(gaps[1], local, t2);
    lemma_column(gaps[0], proto, t1);
    assert(row =~= gaps[0] + proto + t1);
    assert(words(row) =~= seq![proto, local, foreign, word, number] + words(rest));
}

/// Whoever listens on the port is named: a row with any local address that ends in the port, and
/// with a number above those of the system, names the process of that number; one with a number of
/// the system, or with something that is no number, names none.
pub proof fn law_listening_row_names_its_process(
    row: Seq<char>,
    gaps: Seq<Seq<char>>,
    proto: Seq<char>,
    host: Seq<char>,
    foreign: Seq<char>,
    number: Seq<char>,
    rest: Seq<char>,
)
    requires
        is_listing_row(row, gaps, proto, host, foreign, number, rest),
    ensures
        parsed_u32(number) matches Some(pid) ==> listener(row) == (if pid > 4 {
            Some(pid)
        } else {
            None
        }),
        parsed_u32(number) is None ==> listener(row) is None,
        forall|pid: u32| number == #[trigger] digits(pid as nat) && pid > 4 ==> listener(row) == Some(
            pid,
        ),
{
    lemma_listing_words(row, gaps, proto, host, foreign, number, rest);
    reveal_strlit(":3080");
    law_part_stands_where_it_is_put(host, ":3080"@, Seq::empty());
    let cols = words(row);
    assert(cols[1] == host + ":3080"@);
    assert(cols[3] == "LISTENING"@);
    assert(cols[4] == number);
    assert forall|pid: u32| number == #[trigger] digits(pid as nat) && pid > 4 implies listener(row)
        == Some(pid) by {
        law_decimal_form_is_read(pid as nat, Seq::empty());
    }
}

/// A row that names a process has at least five columns; the second ends in the port, the fourth is
/// the word for listening, and the fifth is the number of the process, which is above those of the
/// system.
pub proof fn law_named_process_listens_on_the_port(row: Seq<char>, pid: u32)
    requires
        listener(row) == Some(pid),
    ensures
        pid > 4,
        words(row).len() >= 5,
        exists|host: Seq<char>| words(row)[1] == #[trigger] (host + ":3080"@),
        words(row)[3] == "LISTENING"@,
        parsed_u32(words(row)[4]) == Some(pid),
{
    let local = words(row)[1];
    let i = local.len() - ":3080"@.len();
    law_part_can_be_cut_out(local, ":3080"@, i);
    assert(local =~= local.take(i) + ":3080"@);
}

/// Which process a row names is told by its columns alone: rows with the same columns name the same.
pub proof fn law_only_columns_count(row: Seq<char>, other: Seq<char>)
    requires
        words(row) == words(other),
    ensures
        listener(row) == listener(other),
{
}

/// A row between line feeds, or at an end of the text, is one of the rows of the text.
proof fn lemma_row_is_there(before: Seq<char>, row: Seq<char>, after: Seq<char>)
    requires
        before.len() == 0 || before.last() == '\n',
        after.len() == 0 || after[0] == '\n',
        !row.contains('\n'),
    ensures
        rows(before + row + after).contains(row),
{
    let t = row + after;
    law_text_without_line_feed_is_a_row(row);
    if after.len() == 0 {
        assert(t =~= row);
        assert(rows(t)[0] == row);
    } else {
        assert(t =~= row.push('\n') + after.skip(1));
        law_line_feed_parts_rows(row, after.skip(1));
        assert(rows(t)[0] == row);
    }
    if before.len() == 0 {
        assert(before + row + after =~= t);
    } else {
        let front = before.drop_last();
        assert(before + row + after =~= front.push('\n') + t);
        law_line_feed_parts_rows(front, t);
        let k = rows(front).len() as int;
        assert(rows(before + row + after)[k] == row);
    }
    assert(rows(before + row + after).contains(row));
}

/// Wherever in a port list a row names a process that listens on the port, the process is among those
/// found.
pub proof fn law_listing_row_is_found(
    list: &str,
    pids: Vec<u32>,
    before: Seq<char>,
    row: Seq<char>,
    after: Seq<char>,
    gaps: Seq<Seq<char>>,
    proto: Seq<char>,
    host: Seq<char>,
    foreign: Seq<char>,
    number: Seq<char>,
    rest: Seq<char>,
    pid: u32,
)
    requires
        call_ensures(listening_pids, (list,), pids),
        list@ == before + row + after,
        before.len() == 0 || before.last() == '\n',
        after.len() == 0 || after[0] == '\n',
        !row.contains('\n'),
        is_listing_row(row, gaps, proto, host, foreign, number, rest),
        number == digits(pid as nat) || parsed_u32(number) == Some(pid),
        pid > 4,
    ensures
        pids@.contains(pid),
{
    lemma_row_is_there(before, row, after);
    law_listening_row_names_its_process(row, gaps, proto, host, foreign, number, rest);
    let all = rows(list@);
    let i = choose|i: int| 0 <= i < all.len() && all[i] == row;
    assert(listener(all[i]) == Some(pid));
    law_every_listener_is_ended(all, pid);
}

/// Nothing else is found: every process found is named by a row with the port, the word for
/// listening and its number; none is found twice, and none of the system.
pub proof fn law_found_process_is_listed(list: &str, pids: Vec<u32>, k: int)
    requires
        call_ensures(listening_pids, (list,), pids),
        0 <= k < pids@.len(),
    ensures
        pids@[k] > 4,
        pids@.no_duplicates(),
        exists|i: int|
            0 <= i < rows(list@).len() && {
                let cols = words(#[trigger] rows(list@)[i]);
                &&& cols.len() >= 5
                &&& exists|host: Seq<char>| cols[1] == #[trigger] (host + ":3080"@)
                &&& cols[3] == "LISTENING"@
                &&& parsed_u32(cols[4]) == Some(pids@[k])
            },
{
    let all = rows(list@);
    law_system_processes_are_spared(all);
    assert(listeners(all).contains(pids@[k]));
    law_every_listener_is_ended(all, pids@[k]);
    let i = choose|i: int| 0 <= i < all.len() && listener(#[trigger] all[i]) == Some(pids@[k]);
    law_named_process_listens_on_the_port(all[i], pids@[k]);
}

/// Processes are found in the order in which the rows first name them: further rows only add some
/// behind.
pub proof fn law_further_rows_only_add(list: Seq<Seq<char>>, row: Seq<char>)
    ensures
        listener(row) is None ==> listeners(list.push(row)) == listeners(list),
        listener(row) matches Some(pid) ==> listeners(list.push(row)) == (if listeners(
            list,
        ).contains(pid) {
            listeners(list)
        } else {
            listeners(list).push(pid)
        }),
{
    assert(list.push(row).drop_last() =~= list);
}

/// On Windows every process that is found in the port list is ended, each by its own command and with
/// all below it; elsewhere nothing is ended.
pub proof fn law_found_processes_are_ended(
    platform: Platform,
    bytes: &[u8],
    list: &str,
    pids: Vec<u32>,
    cleanup: PortCleanup,
)
    requires
        call_ensures(kill_port_occupant, (platform, bytes), cleanup),
        call_ensures(listening_pids, (list,), pids),
        list@ == lossy_text(bytes@) || vstd::utf8::valid_utf8(bytes@) && list@
            == vstd::utf8::decode_utf8(bytes@),
    ensures
        platform == Platform::Other ==> cleanup is Unsupported,
        platform == Platform::Windows ==> cleanup is Kill && cleanup->Kill_0@.len() == pids@.len(),
        platform == Platform::Windows ==> forall|i: int|
            0 <= i < pids@.len() ==> {
                let order = #[trigger] cleanup->Kill_0@[i];
                &&& order.pid == pids@[i]
                &&& order.command@.program == "taskkill"@
                &&& order.command@.args == seq!["/T"@, "/F"@, "/PID"@, digits(pids@[i] as nat)]
            },
{
}

// ---------------------------------------------------------------------------
// Laws on the wait for the port
// ---------------------------------------------------------------------------

/// A wait looks at once, ends well at the first look that finds the port free, and pauses for a
/// second after every other; without a look left it ends badly.
pub proof fn law_port_wait_by_steps(
    limit: u64,
    begun: (PortWait, PortWaitStep),
    wait: PortWait,
    listening: bool,
    seen: PortWaitStep,
    after: PortWait,
    next: PortWaitStep,
)
    requires
        call_ensures(PortWait::new, (limit,), begun),
        call_ensures(PortWait::looked, (&wait, listening), seen),
        exists|w: &mut PortWait|
            *w == wait && *final(w) == after && #[trigger] call_ensures(
                PortWait::slept,
                (w,),
                next,
            ),
    ensures
        DSH_PORT == 3080,
        begun.0.looks == 0 && begun.0.limit == limit,
        limit > 0 ==> begun.1 == PortWaitStep::Look,
        limit == 0 ==> begun.1 == (PortWaitStep::Done { free: false }),
        !listening ==> seen == (PortWaitStep::Done { free: true }),
        listening ==> seen == (PortWaitStep::Sleep { millis: 1000 }),
        after.limit == wait.limit,
        wait.looks < wait.limit ==> after.looks == wait.looks + 1,
        wait.looks + 1 < wait.limit ==> next == PortWaitStep::Look,
        wait.looks + 1 >= wait.limit ==> next == (PortWaitStep::Done { free: false }),
{
}

} // verus!
