//! What one SSH session teaches the vault, and how it lands on the entry.
//!
//! A bastion records a fingerprint and never a timestamp: passing through a
//! machine is not connecting to it.
use vstd::prelude::*;
use vstd::slice::slice_subrange;

use crate::config::device::now_unix;
use crate::config::model::{ServerEntry, SystemInfo, Uuid};
use crate::i18n::Strings;
use crate::ssh::client::HostKeyOutcome;
use crate::ssh::script_runner::RunEvent;
use crate::text::{
    chars_of, decimal, index_of, lemma_index_of, lossy, owned, position, push_decimal, push_signed, signed, text_of,
    utf8_lossy,
};

verus! {

/// Everything one connection teaches the vault about a server.
pub struct SessionRecord {
    /// Present only on a first connect: the fingerprint to remember.
    pub fingerprint: Option<String>,
    pub connected_at: u64,
    /// `None` when the probe failed.
    pub system_info: Option<SystemInfo>,
}

/// The fingerprint that a host-key outcome gives the vault to remember.
pub open spec fn learned(outcome: HostKeyOutcome) -> Option<String> {
    match outcome {
        HostKeyOutcome::FirstConnect { fingerprint } => Some(fingerprint),
        _ => None,
    }
}

/// What the handshake alone teaches the vault: the fingerprint to remember on a
/// first connect, and the moment it happened.
pub fn observe_handshake(outcome: &HostKeyOutcome) -> (r: SessionRecord)
    ensures
        r.fingerprint == learned(*outcome),
        r.system_info is None,
{
    observe_handshake_at(outcome, now_unix())
}

/// What a handshake at the time `now` teaches the vault.
pub fn observe_handshake_at(outcome: &HostKeyOutcome, now: u64) -> (r: SessionRecord)
    ensures
        r == (SessionRecord { fingerprint: learned(*outcome), connected_at: now, system_info: None }),
{
    let fingerprint = match outcome {
        HostKeyOutcome::FirstConnect { fingerprint } => Some(fingerprint.clone()),
        _ => None,
    };
    SessionRecord { fingerprint, connected_at: now, system_info: None }
}

/// What a bastion on the way taught the vault: a first-connect fingerprint, and
/// nothing else.
pub struct JumpRecord {
    pub server_id: Uuid,
    pub fingerprint: String,
}

/// The records of a chain: one for each hop that was a first connect.
pub open spec fn jump_records(outcomes: Seq<HostKeyOutcome>, ids: Seq<Uuid>) -> Seq<JumpRecord>
    decreases outcomes.len(),
{
    if outcomes.len() == 0 || ids.len() == 0 {
        Seq::empty()
    } else {
        let rest = jump_records(outcomes.drop_first(), ids.drop_first());
        match outcomes[0] {
            HostKeyOutcome::FirstConnect { fingerprint } => seq![JumpRecord { server_id: ids[0], fingerprint }] + rest,
            _ => rest,
        }
    }
}

/// Pairs the outcomes recorded for the chain with the entries they came from.
/// Only first connects produce a record.
pub fn observe_jumps(outcomes: &[HostKeyOutcome], jump_ids: &[Uuid]) -> (r: Vec<JumpRecord>)
    ensures
        r@ == jump_records(outcomes@, jump_ids@),
{
    let mut out: Vec<JumpRecord> = Vec::new();
    let mut i: usize = 0;
    assert(outcomes@.skip(0) =~= outcomes@);
    assert(jump_ids@.skip(0) =~= jump_ids@);
    assert(out@ + jump_records(outcomes@, jump_ids@) =~= jump_records(outcomes@, jump_ids@));
    while i < outcomes.len() && i < jump_ids.len()
        invariant
            i <= outcomes@.len(),
            i <= jump_ids@.len(),
            jump_records(outcomes@, jump_ids@) == out@ + jump_records(
                outcomes@.skip(i as int),
                jump_ids@.skip(i as int),
            ),
        decreases outcomes@.len() - i,
    {
        let ghost before = out@;
        let ghost rest = jump_records(outcomes@.skip(i + 1), jump_ids@.skip(i + 1));
        assert(outcomes@.skip(i as int).drop_first() =~= outcomes@.skip(i + 1));
        assert(jump_ids@.skip(i as int).drop_first() =~= jump_ids@.skip(i + 1));
        match &outcomes[i] {
            HostKeyOutcome::FirstConnect { fingerprint } => {
                let record = JumpRecord { server_id: jump_ids[i], fingerprint: fingerprint.clone() };
                out.push(record);
                assert(before + (seq![record] + rest) =~= out@ + rest);
            },
            _ => {},
        }
        i = i + 1;
    }
    assert(out@ + Seq::<JumpRecord>::empty() =~= out@);
    out
}

impl JumpRecord {
    /// Writes the fingerprint and nothing else.
    pub fn apply_to(&self, entry: &mut ServerEntry)
        ensures
            *final(entry) == (ServerEntry { host_key_fingerprint: Some(self.fingerprint), ..*old(entry) }),
    {
        entry.host_key_fingerprint = Some(self.fingerprint.clone());
    }
}

/// Whether `after` is `before` with the session folded in.
pub open spec fn recorded_on(record: SessionRecord, before: ServerEntry, after: ServerEntry) -> bool {
    &&& after == (ServerEntry {
        host_key_fingerprint: if record.fingerprint is Some {
            record.fingerprint
        } else {
            before.host_key_fingerprint
        },
        last_connected_unix: Some(record.connected_at),
        system_info: after.system_info,
        ..before
    })
    &&& match record.system_info {
        Some(info) => after.system_info matches Some(kept) && kept.same(info),
        None => after.system_info == before.system_info,
    }
}

impl SessionRecord {
    /// Folds the session back into the entry it belongs to. The timestamp is
    /// stamped whether or not the probe worked; a failed probe keeps the last
    /// good snapshot.
    pub fn apply_to(&self, entry: &mut ServerEntry)
        ensures
            recorded_on(*self, *old(entry), *final(entry)),
    {
        if let Some(fingerprint) = &self.fingerprint {
            entry.host_key_fingerprint = Some(fingerprint.clone());
        }
        entry.last_connected_unix = Some(self.connected_at);
        if let Some(info) = &self.system_info {
            entry.system_info = Some(info.clone());
        }
    }
}

/// A second write of the same session, now with what the probe read, moves
/// neither the timestamp nor the fingerprint.
pub proof fn the_probe_adds_without_moving_the_timestamp(
    first: SessionRecord,
    second: SessionRecord,
    before: ServerEntry,
    between: ServerEntry,
    after: ServerEntry,
)
    requires
        second.fingerprint == first.fingerprint,
        second.connected_at == first.connected_at,
        recorded_on(first, before, between),
        recorded_on(second, between, after),
    ensures
        between.last_connected_unix == Some(first.connected_at),
        after.last_connected_unix == between.last_connected_unix,
        after.host_key_fingerprint == between.host_key_fingerprint,
        second.system_info matches Some(info) ==> after.system_info matches Some(kept) && kept.same(info),
{
}

/// `s` without the carriage returns and line feeds at its end.
pub open spec fn strip_line_end(s: Seq<char>) -> Seq<char>
    decreases s.len(),
{
    if s.len() > 0 && (s.last() == '\r' || s.last() == '\n') {
        strip_line_end(s.drop_last())
    } else {
        s
    }
}

/// What is printed of `s`: each complete line, ended for a raw terminal.
pub open spec fn printed_lines(s: Seq<char>) -> Seq<char>
    decreases s.len(),
    via printed_lines_decreases
{
    let n = index_of(s, '\n');
    if n < s.len() {
        strip_line_end(s.take(n + 1)) + "\r\n"@ + printed_lines(s.skip(n + 1))
    } else {
        Seq::empty()
    }
}

#[via_fn]
proof fn printed_lines_decreases(s: Seq<char>) {
    lemma_index_of(s, '\n');
}

/// What is left of `s` behind its last line feed.
pub open spec fn unfinished_line(s: Seq<char>) -> Seq<char>
    decreases s.len(),
    via unfinished_line_decreases
{
    let n = index_of(s, '\n');
    if n < s.len() {
        unfinished_line(s.skip(n + 1))
    } else {
        s
    }
}

#[via_fn]
proof fn unfinished_line_decreases(s: Seq<char>) {
    lemma_index_of(s, '\n');
}

/// What is left standing of an unfinished line, ended.
pub open spec fn flushed(partial: Seq<char>) -> Seq<char> {
    if partial.len() == 0 {
        Seq::empty()
    } else {
        partial + "\r\n"@
    }
}

/// What a script event prints, and what it leaves as the unfinished line.
pub open spec fn event_text(event: RunEvent, strings: Strings, partial: Seq<char>) -> (Seq<char>, Seq<char>) {
    match event {
        RunEvent::StepStarted { command, .. } => ("$ "@ + command@ + "\r\n"@, partial),
        RunEvent::Output { chunk, .. } => (
            printed_lines(partial + utf8_lossy(chunk@)),
            unfinished_line(partial + utf8_lossy(chunk@)),
        ),
        RunEvent::StepFinished { exit_code, .. } => (
            flushed(partial) + "["@ + strings.log_exit_prefix@ + signed(exit_code as int) + "]\r\n"@,
            Seq::empty(),
        ),
        RunEvent::StepSkipped { .. } => (strings.log_skipped@ + "\r\n"@, partial),
        RunEvent::StepError { message, .. } => (
            flushed(partial) + strings.log_error_prefix@ + message@ + "\r\n"@,
            Seq::empty(),
        ),
        RunEvent::StepTimedOut { seconds, .. } => (
            flushed(partial) + strings.log_timed_out_prefix@ + decimal(seconds as nat) + strings.log_timed_out_suffix@
                + "\r\n"@,
            Seq::empty(),
        ),
    }
}

/// `v` without the carriage returns and line feeds at its end.
fn trim_line_end(v: &[char]) -> (r: &[char])
    ensures
        r@ == strip_line_end(v@),
{
    let mut to: usize = v.len();
    assert(v@.take(v@.len() as int) =~= v@);
    while to > 0 && (v[to - 1] == '\r' || v[to - 1] == '\n')
        invariant
            to <= v@.len(),
            strip_line_end(v@) == strip_line_end(v@.take(to as int)),
        decreases to,
    {
        assert(v@.take(to as int).drop_last() =~= v@.take(to - 1));
        to = to - 1;
    }
    assert(v@.subrange(0, to as int) =~= v@.take(to as int));
    slice_subrange(v, 0, to)
}

/// Prints the unfinished line, if there is one, and forgets it.
fn flush_partial(partial: &mut String) -> (r: String)
    ensures
        r@ == flushed(old(partial)@),
        final(partial)@ == Seq::<char>::empty(),
{
    let mut out = String::new();
    if !partial.as_str().is_empty() {
        out.push_str(partial.as_str());
        out.push_str("\r\n");
        assert(out@ =~= flushed(partial@));
    }
    *partial = String::new();
    out
}

/// The complete lines of `partial` and `chunk` together, as they are printed.
/// What stands behind the last line feed becomes the unfinished line.
fn print_output(chunk: &[u8], partial: &mut String) -> (r: String)
    ensures
        r@ == printed_lines(old(partial)@ + utf8_lossy(chunk@)),
        final(partial)@ == unfinished_line(old(partial)@ + utf8_lossy(chunk@)),
{
    partial.push_str(lossy(chunk).as_str());
    let all: Vec<char> = chars_of(partial.as_str());
    let mut out = String::new();
    let mut at: usize = 0;
    assert(all@.skip(0) =~= all@);
    assert(out@ + printed_lines(all@) =~= printed_lines(all@));
    loop
        invariant_except_break
            at <= all@.len(),
            printed_lines(all@) == out@ + printed_lines(all@.skip(at as int)),
            unfinished_line(all@) == unfinished_line(all@.skip(at as int)),
        ensures
            at <= all@.len(),
            out@ == printed_lines(all@),
            all@.skip(at as int) == unfinished_line(all@),
        decreases all@.len() - at,
    {
        let ghost before = out@;
        let rest = slice_subrange(&all, at, all.len());
        assert(rest@ =~= all@.skip(at as int));
        let n: usize = position(rest, '\n');
        proof {
            lemma_index_of(rest@, '\n');
        }
        if n >= rest.len() {
            assert(out@ + Seq::<char>::empty() =~= out@);
            break;
        }
        let line = slice_subrange(rest, 0, n + 1);
        assert(line@ =~= rest@.take(n + 1));
        out.push_str(text_of(trim_line_end(line)).as_str());
        out.push_str("\r\n");
        at = at + n + 1;
        assert(all@.skip(at as int) =~= rest@.skip(n + 1));
        assert(out@ + printed_lines(all@.skip(at as int)) =~= before + (strip_line_end(rest@.take(n + 1)) + "\r\n"@
            + printed_lines(rest@.skip(n + 1))));
    }
    let tail = slice_subrange(&all, at, all.len());
    assert(tail@ =~= all@.skip(at as int));
    *partial = text_of(tail);
    out
}

/// What a script event prints on a raw terminal. Output is held back until its
/// line is complete, and a held-back line is ended before the next message.
pub fn script_event_text(event: &RunEvent, strings: &Strings, partial: &mut String) -> (r: String)
    ensures
        (r@, final(partial)@) == event_text(*event, *strings, old(partial)@),
{
    match event {
        RunEvent::StepStarted { command, .. } => {
            let mut out = owned("$ ");
            out.push_str(command.as_str());
            out.push_str("\r\n");
            out
        },
        RunEvent::Output { chunk, .. } => print_output(chunk, partial),
        RunEvent::StepFinished { exit_code, .. } => {
            let mut out = flush_partial(partial);
            out.push_str("[");
            out.push_str(strings.log_exit_prefix);
            push_signed(&mut out, *exit_code);
            out.push_str("]\r\n");
            out
        },
        RunEvent::StepSkipped { .. } => {
            let mut out = owned(strings.log_skipped);
            out.push_str("\r\n");
            out
        },
        RunEvent::StepError { message, .. } => {
            let mut out = flush_partial(partial);
            out.push_str(strings.log_error_prefix);
            out.push_str(message.as_str());
            out.push_str("\r\n");
            out
        },
        RunEvent::StepTimedOut { seconds, .. } => {
            let mut out = flush_partial(partial);
            out.push_str(strings.log_timed_out_prefix);
            push_decimal(&mut out, *seconds);
            out.push_str(strings.log_timed_out_suffix);
            out.push_str("\r\n");
            out
        },
    }
}

/// Only a first connect teaches a fingerprint, and it is the one that was seen.
pub proof fn only_a_first_connect_teaches(outcome: HostKeyOutcome)
    ensures
        outcome matches HostKeyOutcome::FirstConnect { fingerprint } ==> learned(outcome) == Some(fingerprint),
        !(outcome is FirstConnect) ==> learned(outcome) is None,
{
}

/// The records of a chain in two parts are those of each part.
pub proof fn jump_records_join(a: Seq<HostKeyOutcome>, x: Seq<Uuid>, b: Seq<HostKeyOutcome>, y: Seq<Uuid>)
    requires
        a.len() == x.len(),
    ensures
        jump_records(a + b, x + y) == jump_records(a, x) + jump_records(b, y),
    decreases a.len(),
{
    if a.len() == 0 {
        assert(a + b =~= b);
        assert(x + y =~= y);
        assert(jump_records(a, x) + jump_records(b, y) =~= jump_records(b, y));
    } else {
        assert((a + b).drop_first() =~= a.drop_first() + b);
        assert((x + y).drop_first() =~= x.drop_first() + y);
        jump_records_join(a.drop_first(), x.drop_first(), b, y);
        assert(jump_records(a + b, x + y) =~= jump_records(a, x) + jump_records(b, y));
    }
}

/// A bastion that was reached for the first time has one record, under its own
/// identity and with the fingerprint seen there; any other has none.
pub proof fn a_new_bastion_is_recorded_under_its_id(outcome: HostKeyOutcome, id: Uuid)
    ensures
        outcome matches HostKeyOutcome::FirstConnect { fingerprint } ==> jump_records(seq![outcome], seq![id]).len() == 1
            && jump_records(seq![outcome], seq![id])[0].server_id == id && jump_records(
            seq![outcome],
            seq![id],
        )[0].fingerprint == fingerprint,
        !(outcome is FirstConnect) ==> jump_records(seq![outcome], seq![id]).len() == 0,
{
    assert(seq![outcome].drop_first() =~= Seq::empty());
    assert(seq![id].drop_first() =~= Seq::empty());
    assert(jump_records(Seq::empty(), Seq::empty()) =~= Seq::<JumpRecord>::empty());
}

/// A session stamps the time on its entry, stores a fingerprint that is new and
/// the figures that were read, and leaves all else: a known fingerprint, and the
/// last figures where none were read.
pub proof fn a_session_is_stamped_on_its_entry(record: SessionRecord, before: ServerEntry, after: ServerEntry)
    requires
        recorded_on(record, before, after),
    ensures
        after.last_connected_unix == Some(record.connected_at),
        record.fingerprint is Some ==> after.host_key_fingerprint == record.fingerprint,
        record.fingerprint is None ==> after.host_key_fingerprint == before.host_key_fingerprint,
        record.system_info matches Some(info) ==> (after.system_info matches Some(kept) && {
            &&& kept.cpu_model == info.cpu_model
            &&& kept.cpu_cores == info.cpu_cores
            &&& kept.mem_total_bytes == info.mem_total_bytes
            &&& kept.mem_used_bytes == info.mem_used_bytes
            &&& kept.disk_total_bytes == info.disk_total_bytes
            &&& kept.disk_used_bytes == info.disk_used_bytes
            &&& kept.gpu_model == info.gpu_model
            &&& kept.gpus@ == info.gpus@
            &&& kept.fetched_at_unix == info.fetched_at_unix
        }),
        record.system_info is None ==> after.system_info == before.system_info,
        after.id == before.id && after.name == before.name && after.host == before.host && after.port == before.port,
        after.username == before.username && after.auth == before.auth && after.tags == before.tags,
        after.scripts == before.scripts && after.forwards == before.forwards && after.jump_host == before.jump_host,
        after.last_remote_dir == before.last_remote_dir && after.last_local_dir == before.last_local_dir,
{
}

proof fn lemma_stripped(s: Seq<char>)
    requires
        s.len() > 0 ==> s.last() != '\r' && s.last() != '\n',
    ensures
        strip_line_end(s) == s,
        strip_line_end(s.push('\n')) == s,
        strip_line_end(s.push('\r').push('\n')) == s,
{
    assert(s.push('\n').drop_last() =~= s);
    assert(s.push('\r').push('\n').drop_last() =~= s.push('\r'));
    assert(s.push('\r').drop_last() =~= s);
    reveal_with_fuel(strip_line_end, 4);
    assert(s.push('\r').last() == '\r');
    assert(s.push('\r').push('\n').last() == '\n');
}

/// A line that is complete is printed with the ending of a raw terminal, whichever
/// of the two it came with; what follows it is printed as if it stood alone. A
/// line that is not complete is held back, all of it.
pub proof fn a_complete_line_is_printed(line: Seq<char>, rest: Seq<char>)
    requires
        !line.contains('\n'),
        line.len() > 0 ==> line.last() != '\r',
    ensures
        printed_lines(line.push('\n') + rest) == line + "\r\n"@ + printed_lines(rest),
        printed_lines(line.push('\r').push('\n') + rest) == line + "\r\n"@ + printed_lines(rest),
        unfinished_line(line.push('\n') + rest) == unfinished_line(rest),
        printed_lines(line).len() == 0,
        unfinished_line(line) == line,
{
    assert forall|i: int| 0 <= i < line.len() implies line[i] != '\n' by {
        assert(line.contains(line[i]));
    }
    let n = line.len() as int;
    lemma_stripped(line);
    let a = line.push('\n') + rest;
    crate::text::lemma_index_of_is(a, '\n', n);
    assert(a.take(n + 1) =~= line.push('\n'));
    assert(a.skip(n + 1) =~= rest);
    let b = line.push('\r').push('\n') + rest;
    crate::text::lemma_index_of_is(b, '\n', n + 1);
    assert(b.take(n + 2) =~= line.push('\r').push('\n'));
    assert(b.skip(n + 2) =~= rest);
    crate::text::lemma_index_of_is(line, '\n', n);
}

/// What each event of a script prints, and that a held-back line is ended before
/// the message that closes its step, and is kept until then.
pub proof fn a_script_event_is_printed(event: RunEvent, strings: Strings, partial: Seq<char>)
    ensures
        ({
            let held: Seq<char> = if partial.len() == 0 {
                Seq::empty()
            } else {
                partial + "\r\n"@
            };
            let (text, left) = event_text(event, strings, partial);
            &&& event matches RunEvent::StepStarted { command, .. } ==> text == "$ "@ + command@ + "\r\n"@ && left
                == partial
            &&& event matches RunEvent::Output { chunk, .. } ==> text == printed_lines(partial + utf8_lossy(chunk@))
                && left == unfinished_line(partial + utf8_lossy(chunk@))
            &&& event matches RunEvent::StepFinished { exit_code, .. } ==> text == held + "["@ + strings.log_exit_prefix@
                + signed(exit_code as int) + "]\r\n"@ && left.len() == 0
            &&& event is StepSkipped ==> text == strings.log_skipped@ + "\r\n"@ && left == partial
            &&& event matches RunEvent::StepError { message, .. } ==> text == held + strings.log_error_prefix@ + message@
                + "\r\n"@ && left.len() == 0
            &&& event matches RunEvent::StepTimedOut { seconds, .. } ==> text == held + strings.log_timed_out_prefix@
                + decimal(seconds as nat) + strings.log_timed_out_suffix@ + "\r\n"@ && left.len() == 0
        }),
{
}

/// A bastion's fingerprint is stored on its entry, and nothing else of it changes.
pub proof fn a_bastion_learns_its_fingerprint(jump: JumpRecord, entry: &mut ServerEntry)
    requires
        call_ensures(JumpRecord::apply_to, (&jump, entry), ()),
    ensures
        final(entry).host_key_fingerprint == Some(jump.fingerprint),
        final(entry).last_connected_unix == old(entry).last_connected_unix,
        final(entry).system_info == old(entry).system_info,
        final(entry).host == old(entry).host && final(entry).port == old(entry).port && final(entry).auth
            == old(entry).auth,
{
}

} // verus!
