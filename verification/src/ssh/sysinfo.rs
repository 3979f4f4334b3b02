//! The hardware snapshot: what is asked of the remote shell, and what its
//! answer says.
use vstd::prelude::*;
use vstd::slice::slice_subrange;

use crate::config::device::now_unix;
use crate::config::model::SystemInfo;
use crate::ssh_config::text_in;
use crate::text::{
    chars_of, decimal, has_prefix, lines, matches_at, owned, parse_unsigned, split_lines, text_of, texts, trim, trimmed,
    unsigned,
};

verus! {

/// Seconds that the full probe may take.
pub const EXEC_TIMEOUT_SECS: u64 = 10;

/// Seconds that a live reading may take: the next one comes soon either way.
pub const USAGE_TIMEOUT_SECS: u64 = 3;

/// The two figures that are worth re-reading while a session is open. Each is
/// separately optional, so a half-answer is still worth keeping.
#[derive(Clone, Copy, Debug, PartialEq, Eq, Structural)]
pub struct Usage {
    pub mem_used_bytes: Option<u64>,
    pub disk_used_bytes: Option<u64>,
}

impl Default for Usage {
    fn default() -> (r: Self)
        ensures
            r == (Usage { mem_used_bytes: None, disk_used_bytes: None }),
    {
        Usage { mem_used_bytes: None, disk_used_bytes: None }
    }
}

impl Usage {
    /// This reading with a fresh one folded in.
    pub open spec fn merged(self, fresh: Usage) -> Usage {
        Usage {
            mem_used_bytes: if fresh.mem_used_bytes is Some {
                fresh.mem_used_bytes
            } else {
                self.mem_used_bytes
            },
            disk_used_bytes: if fresh.disk_used_bytes is Some {
                fresh.disk_used_bytes
            } else {
                self.disk_used_bytes
            },
        }
    }

    /// Folds a fresh reading in, field by field, keeping the last good value
    /// for anything the new one did not answer.
    pub fn merge(&mut self, fresh: Usage)
        ensures
            *final(self) == old(self).merged(fresh),
    {
        if fresh.mem_used_bytes.is_some() {
            self.mem_used_bytes = fresh.mem_used_bytes;
        }
        if fresh.disk_used_bytes.is_some() {
            self.disk_used_bytes = fresh.disk_used_bytes;
        }
    }
}

/// A reading that answered nothing changes nothing, and a figure once known
/// stays known.
pub proof fn the_last_good_reading_is_kept(usage: Usage, fresh: Usage)
    ensures
        usage.merged(Usage { mem_used_bytes: None, disk_used_bytes: None }) == usage,
        usage.mem_used_bytes is Some ==> usage.merged(fresh).mem_used_bytes is Some,
        usage.disk_used_bytes is Some ==> usage.merged(fresh).disk_used_bytes is Some,
{
}

/// One shell command combining every probe, each result on its own prefixed
/// line. Every probe degrades to an empty value rather than failing the others.
///
/// The graphics cards are listed one per line, and the address is stripped as a
/// whole word: cutting the line on colons would land inside the device name
/// where the address carries a domain.
pub fn probe_command() -> (r: String)
    ensures
        r@
            == "echo 'SSHCTL_CPU_MODEL:'$(grep -m1 'model name' /proc/cpuinfo 2>/dev/null | cut -d: -f2 | sed 's/^ *//'); echo 'SSHCTL_CPU_CORES:'$(nproc 2>/dev/null); echo 'SSHCTL_MEM_TOTAL:'$(free -b 2>/dev/null | awk '/^Mem:/{print $2}'); echo 'SSHCTL_MEM_USED:'$(free -b 2>/dev/null | awk '/^Mem:/{print $3}'); echo 'SSHCTL_DISK_TOTAL:'$(df -B1 --total 2>/dev/null | awk '/^total/{print $2}'); echo 'SSHCTL_DISK_USED:'$(df -B1 --total 2>/dev/null | awk '/^total/{print $3}'); lspci 2>/dev/null | grep -Ei 'vga|3d controller|display controller' | sed 's/^[^ ]* [^:]*: //; s/ (rev [^)]*)$//; s/^/SSHCTL_GPU_MODEL:/'"@,
{
    owned(
        "echo 'SSHCTL_CPU_MODEL:'$(grep -m1 'model name' /proc/cpuinfo 2>/dev/null | cut -d: -f2 | sed 's/^ *//'); echo 'SSHCTL_CPU_CORES:'$(nproc 2>/dev/null); echo 'SSHCTL_MEM_TOTAL:'$(free -b 2>/dev/null | awk '/^Mem:/{print $2}'); echo 'SSHCTL_MEM_USED:'$(free -b 2>/dev/null | awk '/^Mem:/{print $3}'); echo 'SSHCTL_DISK_TOTAL:'$(df -B1 --total 2>/dev/null | awk '/^total/{print $2}'); echo 'SSHCTL_DISK_USED:'$(df -B1 --total 2>/dev/null | awk '/^total/{print $3}'); lspci 2>/dev/null | grep -Ei 'vga|3d controller|display controller' | sed 's/^[^ ]* [^:]*: //; s/ (rev [^)]*)$//; s/^/SSHCTL_GPU_MODEL:/'",
    )
}

/// The half of the probe that moves while a session is open, and only that
/// half.
pub fn usage_command() -> (r: String)
    ensures
        r@
            == "echo 'SSHCTL_MEM_USED:'$(free -b 2>/dev/null | awk '/^Mem:/{print $3}'); echo 'SSHCTL_DISK_USED:'$(df -B1 --total 2>/dev/null | awk '/^total/{print $3}')"@,
{
    owned(
        "echo 'SSHCTL_MEM_USED:'$(free -b 2>/dev/null | awk '/^Mem:/{print $3}'); echo 'SSHCTL_DISK_USED:'$(df -B1 --total 2>/dev/null | awk '/^total/{print $3}')",
    )
}

/// What stands behind `prefix` on the first line that begins with it, without
/// surrounding whitespace. A blank answer is none.
pub open spec fn field_in(rows: Seq<Seq<char>>, prefix: Seq<char>) -> Option<Seq<char>>
    decreases rows.len(),
{
    if rows.len() == 0 {
        None
    } else if has_prefix(rows[0], prefix) {
        if trimmed(rows[0].skip(prefix.len() as int)).len() > 0 {
            Some(trimmed(rows[0].skip(prefix.len() as int)))
        } else {
            None
        }
    } else {
        field_in(rows.drop_first(), prefix)
    }
}

/// What stands behind `prefix` on each line that begins with it, blank answers
/// left out.
pub open spec fn fields_in(rows: Seq<Seq<char>>, prefix: Seq<char>) -> Seq<Seq<char>>
    decreases rows.len(),
{
    if rows.len() == 0 {
        Seq::empty()
    } else {
        let rest = fields_in(rows.drop_first(), prefix);
        if has_prefix(rows[0], prefix) && trimmed(rows[0].skip(prefix.len() as int)).len() > 0 {
            seq![trimmed(rows[0].skip(prefix.len() as int))] + rest
        } else {
            rest
        }
    }
}

/// The number behind `prefix`, if it is one of at most `max`.
pub open spec fn number_in(rows: Seq<Seq<char>>, prefix: Seq<char>, max: nat) -> Option<nat> {
    match field_in(rows, prefix) {
        Some(s) => unsigned(s, max),
        None => None,
    }
}

/// A number as 64 bits.
pub open spec fn as_u64(n: Option<nat>) -> Option<u64> {
    match n {
        Some(n) => Some(n as u64),
        None => None,
    }
}

/// Whether `info` is what an answer says.
pub open spec fn says(text: Seq<char>, info: SystemInfo) -> bool {
    let rows = lines(text);
    let gpus = fields_in(rows, "SSHCTL_GPU_MODEL:"@);
    &&& text_in(info.cpu_model) == field_in(rows, "SSHCTL_CPU_MODEL:"@)
    &&& info.cpu_cores == match number_in(rows, "SSHCTL_CPU_CORES:"@, 0xffff_ffff) {
        Some(n) => Some(n as u32),
        None => None,
    }
    &&& info.mem_total_bytes == as_u64(number_in(rows, "SSHCTL_MEM_TOTAL:"@, 0xffff_ffff_ffff_ffff))
    &&& info.mem_used_bytes == as_u64(number_in(rows, "SSHCTL_MEM_USED:"@, 0xffff_ffff_ffff_ffff))
    &&& info.disk_total_bytes == as_u64(number_in(rows, "SSHCTL_DISK_TOTAL:"@, 0xffff_ffff_ffff_ffff))
    &&& info.disk_used_bytes == as_u64(number_in(rows, "SSHCTL_DISK_USED:"@, 0xffff_ffff_ffff_ffff))
    &&& texts(info.gpus@) == gpus
    &&& text_in(info.gpu_model) == (if gpus.len() == 0 {
        None
    } else {
        Some(gpus[0])
    })
}

/// The reading that an answer to the usage command gives.
pub open spec fn usage_in(text: Seq<char>) -> Usage {
    let rows = lines(text);
    Usage {
        mem_used_bytes: as_u64(number_in(rows, "SSHCTL_MEM_USED:"@, 0xffff_ffff_ffff_ffff)),
        disk_used_bytes: as_u64(number_in(rows, "SSHCTL_DISK_USED:"@, 0xffff_ffff_ffff_ffff)),
    }
}

/// The rows by their characters.
pub open spec fn row_views(rows: Seq<Vec<char>>) -> Seq<Seq<char>> {
    rows.map_values(|l: Vec<char>| l@)
}

/// The answer behind `prefix`.
fn field<'a>(rows: &'a Vec<Vec<char>>, prefix: &str) -> (r: Option<&'a [char]>)
    ensures
        match r {
            Some(s) => field_in(row_views(rows@), prefix@) == Some(s@),
            None => field_in(row_views(rows@), prefix@) is None,
        },
{
    let mark = chars_of(prefix);
    let ghost views = row_views(rows@);
    let mut i: usize = 0;
    assert(views.skip(0) =~= views);
    while i < rows.len()
        invariant
            i <= rows@.len(),
            mark@ == prefix@,
            views == row_views(rows@),
            field_in(views, prefix@) == field_in(views.skip(i as int), prefix@),
        decreases rows@.len() - i,
    {
        let row = &rows[i];
        assert(views.skip(i as int)[0] == row@);
        assert(views.skip(i as int).drop_first() =~= views.skip(i + 1));
        if matches_at(row, &mark, 0) {
            let rest = slice_subrange(row, mark.len(), row.len());
            assert(rest@ =~= row@.skip(prefix@.len() as int));
            let answer = trim(rest);
            return if answer.len() > 0 {
                Some(answer)
            } else {
                None
            };
        }
        i = i + 1;
    }
    None
}

/// The answers behind `prefix`, for the one probe that answers more than once.
fn fields(rows: &Vec<Vec<char>>, prefix: &str) -> (r: Vec<String>)
    ensures
        texts(r@) == fields_in(row_views(rows@), prefix@),
{
    let mark = chars_of(prefix);
    let ghost views = row_views(rows@);
    let mut out: Vec<String> = Vec::new();
    let mut i: usize = 0;
    assert(views.skip(0) =~= views);
    assert(texts(out@) + fields_in(views, prefix@) =~= fields_in(views, prefix@));
    while i < rows.len()
        invariant
            i <= rows@.len(),
            mark@ == prefix@,
            views == row_views(rows@),
            fields_in(views, prefix@) == texts(out@) + fields_in(views.skip(i as int), prefix@),
        decreases rows@.len() - i,
    {
        let row = &rows[i];
        let ghost before = texts(out@);
        let ghost later = fields_in(views.skip(i + 1), prefix@);
        assert(views.skip(i as int)[0] == row@);
        assert(views.skip(i as int).drop_first() =~= views.skip(i + 1));
        if matches_at(row, &mark, 0) {
            let rest = slice_subrange(row, mark.len(), row.len());
            assert(rest@ =~= row@.skip(prefix@.len() as int));
            let answer = trim(rest);
            if answer.len() > 0 {
                out.push(text_of(answer));
                assert(texts(out@) =~= before.push(answer@));
                assert(before + (seq![answer@] + later) =~= texts(out@) + later);
            }
        }
        i = i + 1;
    }
    assert(texts(out@) + Seq::<Seq<char>>::empty() =~= texts(out@));
    out
}

fn text_field(rows: &Vec<Vec<char>>, prefix: &str) -> (r: Option<String>)
    ensures
        text_in(r) == field_in(row_views(rows@), prefix@),
{
    match field(rows, prefix) {
        Some(s) => Some(text_of(s)),
        None => None,
    }
}

fn number_field(rows: &Vec<Vec<char>>, prefix: &str, max: u64) -> (r: Option<u64>)
    ensures
        r == as_u64(number_in(row_views(rows@), prefix@, max as nat)),
{
    match field(rows, prefix) {
        Some(s) => parse_unsigned(s, max),
        None => None,
    }
}

/// Reads the probe's answer. A missing or blank answer leaves its field unset.
pub fn parse(text: &str) -> (r: SystemInfo)
    ensures
        says(text@, r),
{
    parse_at(text, now_unix())
}

/// Reads the probe's answer as it came at the time `now`.
pub fn parse_at(text: &str, now: u64) -> (r: SystemInfo)
    ensures
        says(text@, r),
        r.fetched_at_unix == now,
{
    let rows = split_lines(&chars_of(text));
    assert(row_views(rows@) == lines(text@));
    let gpus = fields(&rows, "SSHCTL_GPU_MODEL:");
    let gpu_model = if gpus.len() > 0 {
        Some(gpus[0].clone())
    } else {
        None
    };
    let cores: Option<u64> = number_field(&rows, "SSHCTL_CPU_CORES:", 0xffff_ffff);
    SystemInfo {
        cpu_model: text_field(&rows, "SSHCTL_CPU_MODEL:"),
        cpu_cores: match cores {
            Some(n) => Some(n as u32),
            None => None,
        },
        mem_total_bytes: number_field(&rows, "SSHCTL_MEM_TOTAL:", 0xffff_ffff_ffff_ffff),
        mem_used_bytes: number_field(&rows, "SSHCTL_MEM_USED:", 0xffff_ffff_ffff_ffff),
        disk_total_bytes: number_field(&rows, "SSHCTL_DISK_TOTAL:", 0xffff_ffff_ffff_ffff),
        disk_used_bytes: number_field(&rows, "SSHCTL_DISK_USED:", 0xffff_ffff_ffff_ffff),
        gpu_model,
        gpus,
        fetched_at_unix: now,
    }
}

/// Reads the answer to the usage command.
pub fn parse_usage(text: &str) -> (r: Usage)
    ensures
        r == usage_in(text@),
{
    let rows = split_lines(&chars_of(text));
    assert(row_views(rows@) == lines(text@));
    Usage {
        mem_used_bytes: number_field(&rows, "SSHCTL_MEM_USED:", 0xffff_ffff_ffff_ffff),
        disk_used_bytes: number_field(&rows, "SSHCTL_DISK_USED:", 0xffff_ffff_ffff_ffff),
    }
}

proof fn lemma_field(rows: Seq<Seq<char>>, k: int, prefix: Seq<char>, value: Seq<char>)
    requires
        0 <= k < rows.len(),
        rows[k] == prefix + value,
        forall|j: int| 0 <= j < k ==> !has_prefix(#[trigger] rows[j], prefix),
    ensures
        field_in(rows, prefix) == (if trimmed(value).len() > 0 {
            Some(trimmed(value))
        } else {
            None
        }),
    decreases k,
{
    if k > 0 {
        assert(!has_prefix(rows[0], prefix));
        let rest = rows.drop_first();
        assert forall|j: int| 0 <= j < k - 1 implies !has_prefix(#[trigger] rest[j], prefix) by {
            assert(rest[j] == rows[j + 1]);
        }
        lemma_field(rest, k - 1, prefix, value);
    } else {
        assert((prefix + value).subrange(0, prefix.len() as int) =~= prefix);
        assert((prefix + value).skip(prefix.len() as int) =~= value);
    }
}

/// Whether an answer gives this value under this name: it is on the first line
/// that begins with the name.
pub open spec fn answers(text: Seq<char>, name: Seq<char>, value: Seq<char>) -> bool {
    exists|k: int|
        0 <= k < lines(text).len() && #[trigger] lines(text)[k] == name + value && forall|j: int|
            0 <= j < k ==> !has_prefix(#[trigger] lines(text)[j], name)
}

proof fn lemma_answers(text: Seq<char>, name: Seq<char>, value: Seq<char>)
    requires
        answers(text, name, value),
    ensures
        field_in(lines(text), name) == (if trimmed(value).len() > 0 {
            Some(trimmed(value))
        } else {
            None
        }),
{
    let rows = lines(text);
    let k = choose|k: int|
        0 <= k < rows.len() && #[trigger] rows[k] == name + value && forall|j: int|
            0 <= j < k ==> !has_prefix(#[trigger] rows[j], name);
    lemma_field(rows, k, name, value);
}

/// Each figure is the one that the answer gives under its own name: a number that
/// was written out is read back as itself, and a model's name without the spaces
/// round it.
pub proof fn every_figure_is_read_under_its_name(text: Seq<char>, info: SystemInfo, n: u64, cores: u32, model: Seq<char>)
    requires
        says(text, info),
        model.len() > 0,
        trimmed(model) == model,
    ensures
        answers(text, "SSHCTL_CPU_MODEL:"@, model) ==> (info.cpu_model matches Some(m) && m@ == model),
        answers(text, "SSHCTL_CPU_CORES:"@, decimal(cores as nat)) ==> info.cpu_cores == Some(cores),
        answers(text, "SSHCTL_MEM_TOTAL:"@, decimal(n as nat)) ==> info.mem_total_bytes == Some(n),
        answers(text, "SSHCTL_MEM_USED:"@, decimal(n as nat)) ==> info.mem_used_bytes == Some(n),
        answers(text, "SSHCTL_DISK_TOTAL:"@, decimal(n as nat)) ==> info.disk_total_bytes == Some(n),
        answers(text, "SSHCTL_DISK_USED:"@, decimal(n as nat)) ==> info.disk_used_bytes == Some(n),
        answers(text, "SSHCTL_CPU_MODEL:"@, Seq::empty()) ==> info.cpu_model is None,
        answers(text, "SSHCTL_MEM_USED:"@, Seq::empty()) ==> info.mem_used_bytes is None,
        answers(text, "SSHCTL_DISK_USED:"@, Seq::empty()) ==> info.disk_used_bytes is None,
{
    crate::text::a_written_number_reads_back(n as nat, 0xffff_ffff_ffff_ffff);
    crate::text::a_written_number_reads_back(cores as nat, 0xffff_ffff);
    lemma_digits_stay(n as nat);
    lemma_digits_stay(cores as nat);
    crate::text::lemma_already_trimmed(Seq::empty());
    if answers(text, "SSHCTL_CPU_MODEL:"@, model) {
        lemma_answers(text, "SSHCTL_CPU_MODEL:"@, model);
    }
    if answers(text, "SSHCTL_CPU_CORES:"@, decimal(cores as nat)) {
        lemma_answers(text, "SSHCTL_CPU_CORES:"@, decimal(cores as nat));
    }
    if answers(text, "SSHCTL_MEM_TOTAL:"@, decimal(n as nat)) {
        lemma_answers(text, "SSHCTL_MEM_TOTAL:"@, decimal(n as nat));
    }
    if answers(text, "SSHCTL_MEM_USED:"@, decimal(n as nat)) {
        lemma_answers(text, "SSHCTL_MEM_USED:"@, decimal(n as nat));
    }
    if answers(text, "SSHCTL_DISK_TOTAL:"@, decimal(n as nat)) {
        lemma_answers(text, "SSHCTL_DISK_TOTAL:"@, decimal(n as nat));
    }
    if answers(text, "SSHCTL_DISK_USED:"@, decimal(n as nat)) {
        lemma_answers(text, "SSHCTL_DISK_USED:"@, decimal(n as nat));
    }
    if answers(text, "SSHCTL_CPU_MODEL:"@, Seq::empty()) {
        lemma_answers(text, "SSHCTL_CPU_MODEL:"@, Seq::empty());
    }
    if answers(text, "SSHCTL_MEM_USED:"@, Seq::empty()) {
        lemma_answers(text, "SSHCTL_MEM_USED:"@, Seq::empty());
    }
    if answers(text, "SSHCTL_DISK_USED:"@, Seq::empty()) {
        lemma_answers(text, "SSHCTL_DISK_USED:"@, Seq::empty());
    }
}

/// Digits are no spaces, so a number is not trimmed.
proof fn lemma_digits_stay(n: nat)
    ensures
        trimmed(decimal(n)) == decimal(n),
        decimal(n).len() > 0,
{
    crate::text::a_written_number_reads_back(n, n);
    let d = decimal(n);
    assert('0' as u32 <= d[0] as u32 <= '9' as u32);
    assert('0' as u32 <= d[d.len() - 1] as u32 <= '9' as u32);
    crate::text::lemma_already_trimmed(d);
}

/// The graphics cards of two parts of an answer are those of each, and a line
/// names one where it has the prefix and says something behind it.
pub proof fn every_card_is_listed(a: Seq<Seq<char>>, b: Seq<Seq<char>>, prefix: Seq<char>, value: Seq<char>)
    requires
        value.len() > 0,
        trimmed(value) == value,
    ensures
        fields_in(a + b, prefix) == fields_in(a, prefix) + fields_in(b, prefix),
        fields_in(seq![prefix + value], prefix) == seq![value],
    decreases a.len(),
{
    if a.len() == 0 {
        assert(a + b =~= b);
        assert(fields_in(a, prefix) + fields_in(b, prefix) =~= fields_in(b, prefix));
    } else {
        assert((a + b).drop_first() =~= a.drop_first() + b);
        every_card_is_listed(a.drop_first(), b, prefix, value);
        assert(fields_in(a + b, prefix) =~= fields_in(a, prefix) + fields_in(b, prefix));
    }
    let row = seq![prefix + value];
    assert((prefix + value).subrange(0, prefix.len() as int) =~= prefix);
    assert((prefix + value).skip(prefix.len() as int) =~= value);
    assert(row.drop_first() =~= Seq::empty());
    assert(fields_in(Seq::empty(), prefix) =~= Seq::<Seq<char>>::empty());
    assert(seq![value] + Seq::<Seq<char>>::empty() =~= seq![value]);
}

/// The cards of an answer are those that its lines name, and the first of them is
/// the machine's.
pub proof fn the_first_card_is_the_machines(text: Seq<char>, info: SystemInfo)
    requires
        says(text, info),
    ensures
        texts(info.gpus@) == fields_in(lines(text), "SSHCTL_GPU_MODEL:"@),
        info.gpu_model is None <==> info.gpus@.len() == 0,
        info.gpu_model matches Some(m) ==> m@ == info.gpus@[0]@,
{
    if info.gpus@.len() > 0 {
        assert(texts(info.gpus@)[0] == info.gpus@[0]@);
    }
}

/// A fresh figure takes the place of the old one, and a figure that was not
/// answered leaves it.
pub proof fn a_fresh_figure_takes_over(usage: Usage, fresh: Usage)
    ensures
        fresh.mem_used_bytes is Some ==> usage.merged(fresh).mem_used_bytes == fresh.mem_used_bytes,
        fresh.mem_used_bytes is None ==> usage.merged(fresh).mem_used_bytes == usage.mem_used_bytes,
        fresh.disk_used_bytes is Some ==> usage.merged(fresh).disk_used_bytes == fresh.disk_used_bytes,
        fresh.disk_used_bytes is None ==> usage.merged(fresh).disk_used_bytes == usage.disk_used_bytes,
{
}

/// A live reading gives the two figures that the answer gives under their names.
pub proof fn a_reading_is_read_under_its_names(text: Seq<char>, n: u64)
    ensures
        answers(text, "SSHCTL_MEM_USED:"@, decimal(n as nat)) ==> usage_in(text).mem_used_bytes == Some(n),
        answers(text, "SSHCTL_DISK_USED:"@, decimal(n as nat)) ==> usage_in(text).disk_used_bytes == Some(n),
{
    crate::text::a_written_number_reads_back(n as nat, 0xffff_ffff_ffff_ffff);
    lemma_digits_stay(n as nat);
    if answers(text, "SSHCTL_MEM_USED:"@, decimal(n as nat)) {
        lemma_answers(text, "SSHCTL_MEM_USED:"@, decimal(n as nat));
    }
    if answers(text, "SSHCTL_DISK_USED:"@, decimal(n as nat)) {
        lemma_answers(text, "SSHCTL_DISK_USED:"@, decimal(n as nat));
    }
}

/// A probe has ten seconds, a reading of the load three.
pub proof fn a_probe_is_given_its_time()
    ensures
        EXEC_TIMEOUT_SECS == 10,
        USAGE_TIMEOUT_SECS == 3,
{
}

/// A line without the prefix, or with nothing behind it, names no card; and a
/// figure that no line answers is missing.
pub proof fn what_is_not_answered_is_missing(rows: Seq<Seq<char>>, line: Seq<char>, prefix: Seq<char>)
    ensures
        !has_prefix(line, prefix) ==> fields_in(seq![line], prefix).len() == 0,
        has_prefix(line, prefix) && trimmed(line.skip(prefix.len() as int)).len() == 0 ==> fields_in(
            seq![line],
            prefix,
        ).len() == 0 && field_in(seq![line], prefix) is None,
        (forall|i: int| 0 <= i < rows.len() ==> !has_prefix(#[trigger] rows[i], prefix)) ==> field_in(rows, prefix)
            is None,
    decreases rows.len(),
{
    let one = seq![line];
    assert(one.drop_first() =~= Seq::empty());
    assert(fields_in(one.drop_first(), prefix).len() == 0);
    assert(one[0] == line);
    if rows.len() > 0 {
        let rest = rows.drop_first();
        if forall|i: int| 0 <= i < rows.len() ==> !has_prefix(#[trigger] rows[i], prefix) {
            assert forall|i: int| 0 <= i < rest.len() implies !has_prefix(#[trigger] rest[i], prefix) by {
                assert(rest[i] == rows[i + 1]);
            }
        }
        what_is_not_answered_is_missing(rest, line, prefix);
    }
}

} // verus!
