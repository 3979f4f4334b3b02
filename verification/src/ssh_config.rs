//! Reading OpenSSH's own `~/.ssh/config`, so a populated one does not have to
//! be retyped into the server form a host at a time.
//!
//! This is a reader: nothing here writes to the file, and nothing here opens an
//! `IdentityFile`.
use vstd::prelude::*;
use vstd::slice::slice_subrange;

use crate::text::{
    a_written_number_reads_back, chars_of, decimal, has_char, has_prefix, is_space, is_text, join_path, lower, lower_chars, lines, matches_at, owned,
    parse_unsigned, path_join, position, index_of, lemma_index_of, lemma_index_of_is, lemma_lines_of_both,
    lemma_already_trimmed, lemma_one_line, lemma_trim_space, space, split_lines, strip_cr, text_of, trim, trimmed, unsigned, whole_lines,
};

verus! {

/// One `Host` block, already resolved against the wildcard defaults.
#[derive(Clone, Debug, PartialEq, Eq)]
pub struct SshConfigHost {
    /// The `Host` pattern. Becomes the server's name.
    pub alias: String,
    /// `HostName`, falling back to the alias.
    pub hostname: String,
    pub user: Option<String>,
    pub port: Option<u16>,
    /// `IdentityFile`, with a leading `~` expanded. Never opened.
    pub identity_file: Option<String>,
}

/// A host by its texts.
#[verifier::ext_equal]
pub struct HostView {
    pub alias: Seq<char>,
    pub hostname: Seq<char>,
    pub user: Option<Seq<char>>,
    pub port: Option<u16>,
    pub identity_file: Option<Seq<char>>,
}

/// The text in an option.
pub open spec fn text_in(s: Option<String>) -> Option<Seq<char>> {
    match s {
        Some(t) => Some(t@),
        None => None,
    }
}

impl View for SshConfigHost {
    type V = HostView;

    open spec fn view(&self) -> HostView {
        HostView {
            alias: self.alias@,
            hostname: self.hostname@,
            user: text_in(self.user),
            port: self.port,
            identity_file: text_in(self.identity_file),
        }
    }
}

/// The hosts by their views.
pub open spec fn host_views(hosts: Seq<SshConfigHost>) -> Seq<HostView> {
    hosts.map_values(|h: SshConfigHost| h@)
}

/// The account that `ssh` would use with no `User` line: the environment's,
/// where it names one, and `root` as a last resort.
pub open spec fn fallback_user(user_var: Option<Seq<char>>) -> Seq<char> {
    match user_var {
        Some(u) if u.len() > 0 => u,
        _ => "root"@,
    }
}

/// The account that `ssh` would use with no `User` line, given the environment's.
pub fn local_user(user_var: Option<&str>) -> (r: String)
    ensures
        r@ == fallback_user(
            match user_var {
                Some(u) => Some(u@),
                None => None,
            },
        ),
{
    match user_var {
        Some(u) => if u.is_empty() {
            owned("root")
        } else {
            owned(u)
        },
        None => owned("root"),
    }
}

impl SshConfigHost {
    /// The username to connect as: the block's own, or whoever is running `ssh`.
    pub fn username(&self, user_var: Option<&str>) -> (r: String)
        ensures
            r@ == match self.user {
                Some(u) => u@,
                None => fallback_user(
                    match user_var {
                        Some(u) => Some(u@),
                        None => None,
                    },
                ),
            },
    {
        match &self.user {
            Some(u) => u.clone(),
            None => local_user(user_var),
        }
    }
}

/// `$HOME/.ssh/config`, or `None` when there is no home directory to look in.
pub fn default_path(home: Option<&str>) -> (r: Option<String>)
    ensures
        match home {
            Some(h) if h@.len() > 0 => r matches Some(p) && p@ == path_join(path_join(h@, ".ssh"@), "config"@),
            _ => r is None,
        },
{
    match home {
        Some(h) => if h.is_empty() {
            None
        } else {
            Some(join_path(join_path(h, ".ssh").as_str(), "config"))
        },
        None => None,
    }
}

/// Settings that apply to every block.
pub struct Defaults {
    pub user: Option<String>,
    pub port: Option<u16>,
    pub identity_file: Option<String>,
}

/// `Defaults` by its texts.
#[verifier::ext_equal]
pub struct DefaultsView {
    pub user: Option<Seq<char>>,
    pub port: Option<u16>,
    pub identity_file: Option<Seq<char>>,
}

impl View for Defaults {
    type V = DefaultsView;

    open spec fn view(&self) -> DefaultsView {
        DefaultsView { user: text_in(self.user), port: self.port, identity_file: text_in(self.identity_file) }
    }
}

/// Which kind of block the parser is inside.
pub enum Block {
    /// Before the first `Host` line: its settings apply to everything.
    Preamble,
    /// A real host, being accumulated.
    Host(SshConfigHost),
    /// `Host *`: its settings become defaults rather than a server.
    Wildcard,
    /// A narrower wildcard, a list of patterns or a `Match` block. Its settings
    /// belong to hosts this file never names.
    Skipped,
}

/// A `Block` by its texts.
#[verifier::ext_equal]
pub enum BlockView {
    Preamble,
    Host(HostView),
    Wildcard,
    Skipped,
}

impl View for Block {
    type V = BlockView;

    open spec fn view(&self) -> BlockView {
        match *self {
            Block::Preamble => BlockView::Preamble,
            Block::Host(h) => BlockView::Host(h@),
            Block::Wildcard => BlockView::Wildcard,
            Block::Skipped => BlockView::Skipped,
        }
    }
}

/// How far a file has been read.
#[verifier::ext_equal]
pub struct Progress {
    pub defaults: DefaultsView,
    pub hosts: Seq<HostView>,
    pub block: BlockView,
}

/// Whether `c` separates a keyword from its value.
pub open spec fn is_separator(c: char) -> bool {
    c == ' ' || c == '\t' || c == '='
}

/// The first separator in `s`, or its length.
pub open spec fn separator_index(s: Seq<char>) -> int
    decreases s.len(),
{
    if s.len() == 0 || is_separator(s[0]) {
        0
    } else {
        1 + separator_index(s.drop_first())
    }
}

/// `s` without the separators it begins with.
pub open spec fn skip_separators(s: Seq<char>) -> Seq<char>
    decreases s.len(),
{
    if s.len() > 0 && is_separator(s[0]) {
        skip_separators(s.drop_first())
    } else {
        s
    }
}

/// A line's keyword in lower case and its value, or `None` for a line without
/// both.
pub open spec fn line_parts(line: Seq<char>) -> Option<(Seq<char>, Seq<char>)> {
    let text = trimmed(line.take(index_of(line, '#')));
    let at = separator_index(text);
    let value = trimmed(skip_separators(text.skip(at)));
    if at >= text.len() || value.len() == 0 {
        None
    } else {
        Some((lower(text.take(at)), value))
    }
}

/// A path with a leading `~/` expanded, where there is a home directory.
pub open spec fn tilde_expanded(path: Seq<char>, home: Option<Seq<char>>) -> Seq<char> {
    match home {
        Some(h) if h.len() > 0 && has_prefix(path, "~/"@) => path_join(h, path.skip(2)),
        _ => path,
    }
}

/// Whether `value` is a single word.
pub open spec fn one_word(value: Seq<char>) -> bool {
    trimmed(value).len() > 0 && forall|i: int| 0 <= i < trimmed(value).len() ==> !is_space(#[trigger] trimmed(value)[i])
}

/// The block that a `Host` line opens.
pub open spec fn opened_block(value: Seq<char>) -> BlockView {
    let name = trimmed(value);
    if !one_word(value) {
        BlockView::Skipped
    } else if name == "*"@ {
        BlockView::Wildcard
    } else if name.contains('*') || name.contains('?') || name.contains('!') {
        BlockView::Skipped
    } else {
        BlockView::Host(HostView { alias: name, hostname: name, user: None, port: None, identity_file: None })
    }
}

/// The number that a port is written as.
pub open spec fn port_of(value: Seq<char>) -> Option<u16> {
    match unsigned(value, 65535) {
        Some(n) => Some(n as u16),
        None => None,
    }
}

/// The defaults after a setting that applies to everything.
pub open spec fn with_default(
    d: DefaultsView,
    keyword: Seq<char>,
    value: Seq<char>,
    home: Option<Seq<char>>,
) -> DefaultsView {
    if keyword == "user"@ {
        DefaultsView { user: Some(value), ..d }
    } else if keyword == "port"@ {
        DefaultsView { port: port_of(value), ..d }
    } else if keyword == "identityfile"@ {
        DefaultsView { identity_file: Some(tilde_expanded(value, home)), ..d }
    } else {
        d
    }
}

/// A host after a setting in its block. A port that cannot be read leaves the
/// field alone; of several key files the first is kept.
pub open spec fn with_setting(h: HostView, keyword: Seq<char>, value: Seq<char>, home: Option<Seq<char>>) -> HostView {
    if keyword == "hostname"@ {
        HostView { hostname: value, ..h }
    } else if keyword == "user"@ {
        HostView { user: Some(value), ..h }
    } else if keyword == "port"@ {
        HostView {
            port: if port_of(value) is Some {
                port_of(value)
            } else {
                h.port
            },
            ..h
        }
    } else if keyword == "identityfile"@ && h.identity_file is None {
        HostView { identity_file: Some(tilde_expanded(value, home)), ..h }
    } else {
        h
    }
}

/// The hosts, with the one whose block is being left.
pub open spec fn closed_hosts(p: Progress) -> Seq<HostView> {
    match p.block {
        BlockView::Host(h) => p.hosts.push(h),
        _ => p.hosts,
    }
}

/// How far a file has been read after one more line.
pub open spec fn after_line(p: Progress, line: Seq<char>, home: Option<Seq<char>>) -> Progress {
    match line_parts(line) {
        None => p,
        Some((keyword, value)) => if keyword == "host"@ {
            Progress { hosts: closed_hosts(p), block: opened_block(value), ..p }
        } else if keyword == "match"@ {
            Progress { hosts: closed_hosts(p), block: BlockView::Skipped, ..p }
        } else {
            match p.block {
                BlockView::Skipped => p,
                BlockView::Preamble => Progress { defaults: with_default(p.defaults, keyword, value, home), ..p },
                BlockView::Wildcard => Progress { defaults: with_default(p.defaults, keyword, value, home), ..p },
                BlockView::Host(h) => Progress { block: BlockView::Host(with_setting(h, keyword, value, home)), ..p },
            }
        },
    }
}

/// How far a file has been read after these lines.
pub open spec fn after_lines(all: Seq<Seq<char>>, home: Option<Seq<char>>) -> Progress
    decreases all.len(),
{
    if all.len() == 0 {
        Progress {
            defaults: DefaultsView { user: None, port: None, identity_file: None },
            hosts: Seq::empty(),
            block: BlockView::Preamble,
        }
    } else {
        after_line(after_lines(all.drop_last(), home), all.last(), home)
    }
}

/// A host with its gaps filled from the defaults.
pub open spec fn filled(h: HostView, d: DefaultsView) -> HostView {
    HostView {
        user: if h.user is None {
            d.user
        } else {
            h.user
        },
        port: if h.port is None {
            d.port
        } else {
            h.port
        },
        identity_file: if h.identity_file is None {
            d.identity_file
        } else {
            h.identity_file
        },
        ..h
    }
}

/// The hosts that the text of an ssh config names.
pub open spec fn parsed(text: Seq<char>, home: Option<Seq<char>>) -> Seq<HostView> {
    let p = after_lines(lines(text), home);
    closed_hosts(p).map_values(|h: HostView| filled(h, p.defaults))
}

/// The text in an optional borrowed text.
pub open spec fn text_of_ref(s: Option<&str>) -> Option<Seq<char>> {
    match s {
        Some(t) => Some(t@),
        None => None,
    }
}

/// Splits one line into a lowercased keyword and its value.
fn split_line(line: &[char]) -> (r: Option<(Vec<char>, Vec<char>)>)
    ensures
        match r {
            Some((keyword, value)) => line_parts(line@) == Some((keyword@, value@)),
            None => line_parts(line@) is None,
        },
{
    let end: usize = position(line, '#');
    proof {
        lemma_index_of(line@, '#');
    }
    let live = slice_subrange(line, 0, end);
    assert(live@ =~= line@.take(end as int));
    let text = trim(live);
    let mut at: usize = 0;
    assert(text@.skip(0) =~= text@);
    while at < text.len() && !(text[at] == ' ' || text[at] == '\t' || text[at] == '=')
        invariant
            at <= text@.len(),
            separator_index(text@) == at + separator_index(text@.skip(at as int)),
        decreases text@.len() - at,
    {
        assert(text@.skip(at as int).drop_first() =~= text@.skip(at + 1));
        at = at + 1;
    }
    assert(separator_index(text@) == at);
    if at >= text.len() {
        return None;
    }
    let mut from: usize = at;
    while from < text.len() && (text[from] == ' ' || text[from] == '\t' || text[from] == '=')
        invariant
            at <= from <= text@.len(),
            skip_separators(text@.skip(at as int)) == skip_separators(text@.skip(from as int)),
        decreases text@.len() - from,
    {
        assert(text@.skip(from as int).drop_first() =~= text@.skip(from + 1));
        from = from + 1;
    }
    let rest = slice_subrange(text, from, text.len());
    assert(rest@ =~= text@.skip(from as int));
    let value = trim(rest);
    if value.len() == 0 {
        return None;
    }
    let keyword = slice_subrange(text, 0, at);
    assert(keyword@ =~= text@.take(at as int));
    Some((lower_chars(keyword), vstd::slice::slice_to_vec(value)))
}

/// Expands a leading `~`. Anything else is left exactly as written.
fn expand_tilde(path: &[char], home: Option<&str>) -> (r: String)
    ensures
        r@ == tilde_expanded(path@, text_of_ref(home)),
{
    match home {
        Some(h) => if !h.is_empty() && matches_at(path, &chars_of("~/"), 0) {
            proof {
                reveal_strlit("~/");
            }
            let rest = slice_subrange(path, 2, path.len());
            assert(rest@ =~= path@.skip(2));
            join_path(h, text_of(rest).as_str())
        } else {
            text_of(path)
        },
        None => text_of(path),
    }
}

/// Whether there is whitespace in `v`.
fn has_space(v: &[char]) -> (r: bool)
    ensures
        r == exists|i: int| 0 <= i < v@.len() && is_space(#[trigger] v@[i]),
{
    let mut i: usize = 0;
    while i < v.len()
        invariant
            i <= v@.len(),
            forall|j: int| 0 <= j < i ==> !is_space(#[trigger] v@[j]),
        decreases v@.len() - i,
    {
        if space(v[i]) {
            return true;
        }
        i = i + 1;
    }
    false
}

/// Starts a block for a `Host` line. A list of patterns is only importable when
/// it names exactly one literal host.
fn open_host(value: &[char]) -> (r: Block)
    ensures
        r@ == opened_block(value@),
{
    let name = trim(value);
    if name.len() == 0 || has_space(name) {
        return Block::Skipped;
    }
    if is_text(name, "*") {
        return Block::Wildcard;
    }
    if has_char(name, '*') || has_char(name, '?') || has_char(name, '!') {
        return Block::Skipped;
    }
    Block::Host(
        SshConfigHost { alias: text_of(name), hostname: text_of(name), user: None, port: None, identity_file: None },
    )
}

fn parse_port(value: &[char]) -> (r: Option<u16>)
    ensures
        r == port_of(value@),
{
    match parse_unsigned(value, 65535) {
        Some(n) => Some(n as u16),
        None => None,
    }
}

/// A setting that applies to everything.
fn set_default(defaults: &mut Defaults, keyword: &[char], value: &[char], home: Option<&str>)
    ensures
        final(defaults)@ == with_default(old(defaults)@, keyword@, value@, text_of_ref(home)),
{
    if is_text(keyword, "user") {
        defaults.user = Some(text_of(value));
    } else if is_text(keyword, "port") {
        defaults.port = parse_port(value);
    } else if is_text(keyword, "identityfile") {
        defaults.identity_file = Some(expand_tilde(value, home));
    }
}

/// A setting in a host's block.
fn set_host(entry: &mut SshConfigHost, keyword: &[char], value: &[char], home: Option<&str>)
    ensures
        final(entry)@ == with_setting(old(entry)@, keyword@, value@, text_of_ref(home)),
{
    if is_text(keyword, "hostname") {
        entry.hostname = text_of(value);
    } else if is_text(keyword, "user") {
        entry.user = Some(text_of(value));
    } else if is_text(keyword, "port") {
        match parse_port(value) {
            Some(port) => {
                entry.port = Some(port);
            },
            None => {},
        }
    } else if is_text(keyword, "identityfile") && entry.identity_file.is_none() {
        entry.identity_file = Some(expand_tilde(value, home));
    }
}

/// A copy of the text, if there is one.
fn copy_of(s: &Option<String>) -> (r: Option<String>)
    ensures
        text_in(r) == text_in(*s),
{
    match s {
        Some(t) => Some(t.clone()),
        None => None,
    }
}

/// Fills a host's gaps from the defaults.
fn fill(host: SshConfigHost, defaults: &Defaults) -> (r: SshConfigHost)
    ensures
        r@ == filled(host@, defaults@),
{
    let mut h = host;
    if h.user.is_none() {
        h.user = copy_of(&defaults.user);
    }
    if h.port.is_none() {
        h.port = defaults.port;
    }
    if h.identity_file.is_none() {
        h.identity_file = copy_of(&defaults.identity_file);
    }
    h
}

/// Closes the block that a file was in.
fn close_block(hosts: &mut Vec<SshConfigHost>, block: Block)
    ensures
        host_views(final(hosts)@) == (match block@ {
            BlockView::Host(h) => host_views(old(hosts)@).push(h),
            _ => host_views(old(hosts)@),
        }),
{
    match block {
        Block::Host(entry) => {
            hosts.push(entry);
            assert(host_views(hosts@) =~= host_views(old(hosts)@).push(entry@));
        },
        _ => {},
    }
}

/// Parses the text of an ssh config into the hosts worth importing. `home` is
/// the home directory.
///
/// Never fails: anything unrecognised is skipped in silence. `Host *` is folded
/// in as a default, so a specific block always wins; an inclusion of other
/// files is not followed.
pub fn parse(text: &str, home: Option<&str>) -> (r: Vec<SshConfigHost>)
    ensures
        host_views(r@) == parsed(text@, text_of_ref(home)),
{
    let all: Vec<Vec<char>> = split_lines(&chars_of(text));
    let ghost rows = all@.map_values(|l: Vec<char>| l@);
    let mut defaults = Defaults { user: None, port: None, identity_file: None };
    let mut hosts: Vec<SshConfigHost> = Vec::new();
    let mut block = Block::Preamble;
    let mut i: usize = 0;
    assert(host_views(hosts@) =~= Seq::<HostView>::empty());
    while i < all.len()
        invariant
            i <= all@.len(),
            rows == all@.map_values(|l: Vec<char>| l@),
            (Progress { defaults: defaults@, hosts: host_views(hosts@), block: block@ }) == after_lines(
                rows.take(i as int),
                text_of_ref(home),
            ),
        decreases all@.len() - i,
    {
        let ghost before = Progress { defaults: defaults@, hosts: host_views(hosts@), block: block@ };
        assert(rows.take(i + 1).drop_last() =~= rows.take(i as int));
        assert(rows.take(i + 1).last() == all@[i as int]@);
        match split_line(&all[i]) {
            None => {},
            Some((keyword, value)) => {
                if is_text(&keyword, "host") {
                    close_block(&mut hosts, block);
                    block = open_host(&value);
                } else if is_text(&keyword, "match") {
                    close_block(&mut hosts, block);
                    block = Block::Skipped;
                } else {
                    block = match block {
                        Block::Skipped => Block::Skipped,
                        Block::Preamble => {
                            set_default(&mut defaults, &keyword, &value, home);
                            Block::Preamble
                        },
                        Block::Wildcard => {
                            set_default(&mut defaults, &keyword, &value, home);
                            Block::Wildcard
                        },
                        Block::Host(entry) => {
                            let mut entry = entry;
                            set_host(&mut entry, &keyword, &value, home);
                            Block::Host(entry)
                        },
                    };
                }
            },
        }
        assert((Progress { defaults: defaults@, hosts: host_views(hosts@), block: block@ }) =~= after_line(
            before,
            all@[i as int]@,
            text_of_ref(home),
        ));
        i = i + 1;
    }
    assert(rows.take(rows.len() as int) =~= rows);
    let ghost p = after_lines(rows, text_of_ref(home));
    close_block(&mut hosts, block);
    let ghost closed = host_views(hosts@);
    let mut out: Vec<SshConfigHost> = Vec::new();
    for h in it: hosts.into_iter()
        invariant
            closed == host_views(it.seq()),
            out@.len() == it.index(),
            forall|j: int| 0 <= j < out@.len() ==> (#[trigger] out@[j])@ == filled(closed[j], defaults@),
    {
        out.push(fill(h, &defaults));
    }
    assert(host_views(out@) =~= closed.map_values(|h: HostView| filled(h, p.defaults)));
    out
}

/// How far a file has been read after these lines, from `p` on.
pub open spec fn after_more(p: Progress, all: Seq<Seq<char>>, home: Option<Seq<char>>) -> Progress
    decreases all.len(),
{
    if all.len() == 0 {
        p
    } else {
        after_line(after_more(p, all.drop_last(), home), all.last(), home)
    }
}

proof fn lemma_one_more(p: Progress, line: Seq<char>, home: Option<Seq<char>>)
    ensures
        after_more(p, seq![line], home) == after_line(p, line, home),
{
    let row = seq![line];
    assert(row.drop_last() =~= Seq::empty());
    assert(after_more(p, row.drop_last(), home) == p);
    assert(row.last() == line);
}

proof fn lemma_after_both(a: Seq<Seq<char>>, b: Seq<Seq<char>>, home: Option<Seq<char>>)
    ensures
        after_lines(a + b, home) == after_more(after_lines(a, home), b, home),
    decreases b.len(),
{
    if b.len() == 0 {
        assert(a + b =~= a);
    } else {
        assert((a + b).drop_last() =~= a + b.drop_last());
        lemma_after_both(a, b.drop_last(), home);
    }
}

/// A carriage return before the line feed makes no difference to a line.
proof fn lemma_parts_of_stripped(l: Seq<char>)
    ensures
        line_parts(strip_cr(l)) == line_parts(l),
{
    if l.len() > 0 && l.last() == '\r' {
        let m = l.drop_last();
        assert(strip_cr(l) =~= m);
        lemma_index_of(l, '#');
        lemma_index_of(m, '#');
        let n = index_of(l, '#');
        if n < l.len() {
            assert(n < m.len());
            assert(m[n] == '#');
            lemma_index_of_is(m, '#', n);
            assert(m.take(n) =~= l.take(n));
        } else {
            assert forall|i: int| 0 <= i < m.len() implies m[i] != '#' by {
                assert(l[i] != '#');
            }
            lemma_index_of_is(m, '#', m.len() as int);
            assert(m.take(m.len() as int) =~= m);
            assert(l.take(l.len() as int) =~= l);
            lemma_trim_space(l);
        }
    }
}

/// Whether a line says nothing that is read: it is blank or a comment, its
/// keyword has no value, or the keyword is another than the six that count.
pub open spec fn says_nothing(line: Seq<char>) -> bool {
    line_parts(line) matches Some((keyword, _)) ==> {
        &&& keyword != "host"@
        &&& keyword != "match"@
        &&& keyword != "hostname"@
        &&& keyword != "user"@
        &&& keyword != "port"@
        &&& keyword != "identityfile"@
    }
}

/// A blank line, a comment, a keyword without a value and an unknown keyword
/// have no effect, wherever in the file they stand.
pub proof fn a_line_that_says_nothing_has_no_effect(
    a: Seq<char>,
    line: Seq<char>,
    b: Seq<char>,
    home: Option<Seq<char>>,
)
    requires
        whole_lines(a),
        !line.contains('\n'),
        says_nothing(line),
    ensures
        parsed(a + line.push('\n') + b, home) == parsed(a + b, home),
{
    let row = seq![strip_cr(line)];
    lemma_one_line(line);
    lemma_lines_of_both(a, line.push('\n'));
    assert((a + line.push('\n')).last() == '\n');
    lemma_lines_of_both(a + line.push('\n'), b);
    lemma_lines_of_both(a, b);
    lemma_after_both(lines(a), row, home);
    lemma_after_both(lines(a) + row, lines(b), home);
    lemma_after_both(lines(a), lines(b), home);
    lemma_parts_of_stripped(line);
    let p = after_lines(lines(a), home);
    lemma_one_more(p, strip_cr(line), home);
    assert(after_line(p, strip_cr(line), home) == p);
}

/// Whether these lines are one `Host *` block.
pub open spec fn is_wildcard_block(all: Seq<Seq<char>>) -> bool {
    &&& all.len() > 0
    &&& line_parts(all[0]) matches Some((keyword, value)) && keyword == "host"@ && opened_block(value) is Wildcard
    &&& forall|i: int| 1 <= i < all.len() ==> is_setting(#[trigger] all[i])
}

/// Whether a line opens no block.
pub open spec fn is_setting(line: Seq<char>) -> bool {
    line_parts(line) matches Some((keyword, _)) ==> keyword != "host"@ && keyword != "match"@
}

/// Whether a line is no `Host *`.
pub open spec fn is_no_wildcard(line: Seq<char>) -> bool {
    line_parts(line) matches Some((keyword, value)) ==> keyword == "host"@ ==> !(opened_block(value) is Wildcard)
}

/// Whether these lines begin with a `Host` line and hold no `Host *`.
pub open spec fn names_hosts(all: Seq<Seq<char>>) -> bool {
    &&& all.len() > 0
    &&& line_parts(all[0]) matches Some((keyword, _)) && keyword == "host"@
    &&& forall|i: int| 0 <= i < all.len() ==> is_no_wildcard(#[trigger] all[i])
}

/// Blocks of hosts leave the defaults alone, and do not depend on them.
proof fn lemma_hosts_apart(p: Progress, q: Progress, all: Seq<Seq<char>>, home: Option<Seq<char>>)
    requires
        closed_hosts(p) == closed_hosts(q),
        names_hosts(all),
    ensures
        ({
            let x = after_more(p, all, home);
            let y = after_more(q, all, home);
            &&& x.defaults == p.defaults
            &&& y.defaults == q.defaults
            &&& x.hosts == y.hosts
            &&& x.block == y.block
            &&& !(x.block is Wildcard)
            &&& !(x.block is Preamble)
        }),
    decreases all.len(),
{
    let front = all.drop_last();
    assert(is_no_wildcard(all[all.len() - 1]));
    if front.len() > 0 {
        assert forall|i: int| 0 <= i < front.len() implies is_no_wildcard(#[trigger] front[i]) by {
            assert(is_no_wildcard(all[i]));
        }
        lemma_hosts_apart(p, q, front, home);
    } else {
        assert(after_more(p, front, home) == p);
        assert(after_more(q, front, home) == q);
    }
}

/// Settings under `Host *` change the defaults alone, and depend on nothing
/// else.
proof fn lemma_settings_apart(p: Progress, q: Progress, all: Seq<Seq<char>>, home: Option<Seq<char>>)
    requires
        p.block is Wildcard,
        q.block is Wildcard,
        p.defaults == q.defaults,
        forall|i: int| 0 <= i < all.len() ==> is_setting(#[trigger] all[i]),
    ensures
        ({
            let x = after_more(p, all, home);
            let y = after_more(q, all, home);
            &&& x.defaults == y.defaults
            &&& x.hosts == p.hosts
            &&& y.hosts == q.hosts
            &&& x.block is Wildcard
            &&& y.block is Wildcard
        }),
    decreases all.len(),
{
    if all.len() > 0 {
        let front = all.drop_last();
        assert forall|i: int| 0 <= i < front.len() implies is_setting(#[trigger] front[i]) by {
            assert(is_setting(all[i]));
        }
        lemma_settings_apart(p, q, front, home);
        assert(is_setting(all[all.len() - 1]));
    }
}

/// A `Host *` block closes the block before it and sets the defaults.
proof fn lemma_wildcard_apart(p: Progress, q: Progress, all: Seq<Seq<char>>, home: Option<Seq<char>>)
    requires
        p.defaults == q.defaults,
        is_wildcard_block(all),
    ensures
        ({
            let x = after_more(p, all, home);
            let y = after_more(q, all, home);
            &&& x.defaults == y.defaults
            &&& x.hosts == closed_hosts(p)
            &&& y.hosts == closed_hosts(q)
            &&& x.block is Wildcard
            &&& y.block is Wildcard
        }),
{
    let first = seq![all[0]];
    let rest = all.drop_first();
    assert(all =~= first + rest);
    lemma_more_both(p, first, rest, home);
    lemma_more_both(q, first, rest, home);
    lemma_one_more(p, all[0], home);
    lemma_one_more(q, all[0], home);
    assert forall|i: int| 0 <= i < rest.len() implies is_setting(#[trigger] rest[i]) by {
        assert(rest[i] == all[i + 1]);
    }
    lemma_settings_apart(after_more(p, first, home), after_more(q, first, home), rest, home);
}

proof fn lemma_more_both(p: Progress, a: Seq<Seq<char>>, b: Seq<Seq<char>>, home: Option<Seq<char>>)
    ensures
        after_more(p, a + b, home) == after_more(after_more(p, a, home), b, home),
    decreases b.len(),
{
    if b.len() == 0 {
        assert(a + b =~= a);
    } else {
        assert((a + b).drop_last() =~= a + b.drop_last());
        lemma_more_both(p, a, b.drop_last(), home);
    }
}

/// Where the `Host *` block stands makes no difference, before the hosts or
/// behind them; and what a host's own block sets is never replaced by it.
pub proof fn the_place_of_the_wildcard_makes_no_difference(
    wildcard: Seq<char>,
    hosts: Seq<char>,
    home: Option<Seq<char>>,
)
    requires
        whole_lines(wildcard),
        whole_lines(hosts),
        is_wildcard_block(lines(wildcard)),
        names_hosts(lines(hosts)),
    ensures
        parsed(wildcard + hosts, home) == parsed(hosts + wildcard, home),
        parsed(wildcard + hosts, home).len() == parsed(hosts, home).len(),
        forall|i: int|
            #![trigger parsed(hosts, home)[i]]
            0 <= i < parsed(hosts, home).len() ==> {
                let own = parsed(hosts, home)[i];
                let all = parsed(wildcard + hosts, home)[i];
                &&& all.alias == own.alias
                &&& all.hostname == own.hostname
                &&& own.user is Some ==> all.user == own.user
                &&& own.port is Some ==> all.port == own.port
                &&& own.identity_file is Some ==> all.identity_file == own.identity_file
            },
{
    let w = lines(wildcard);
    let h = lines(hosts);
    let none = Seq::<Seq<char>>::empty();
    let start = after_lines(none, home);
    lemma_lines_of_both(wildcard, hosts);
    lemma_lines_of_both(hosts, wildcard);
    assert(none + w =~= w);
    assert(none + h =~= h);
    lemma_after_both(none, w, home);
    lemma_after_both(none, h, home);
    lemma_after_both(w, h, home);
    lemma_after_both(h, w, home);
    let at_w = after_lines(w, home);
    let at_h = after_lines(h, home);
    lemma_hosts_apart(start, start, h, home);
    lemma_wildcard_apart(start, at_h, w, home);
    lemma_hosts_apart(at_w, start, h, home);
    let x = after_lines(w + h, home);
    let y = after_lines(h + w, home);
    assert(closed_hosts(x) == closed_hosts(at_h));
    assert(closed_hosts(y) == closed_hosts(at_h));
    assert(x.defaults == y.defaults);
    assert(parsed(wildcard + hosts, home) =~= parsed(hosts + wildcard, home));
}

/// A specific block always wins: the defaults fill only what it did not say.
pub proof fn the_defaults_never_override(h: HostView, d: DefaultsView)
    ensures
        filled(h, d).alias == h.alias,
        filled(h, d).hostname == h.hostname,
        h.user is Some ==> filled(h, d).user == h.user,
        h.port is Some ==> filled(h, d).port == h.port,
        h.identity_file is Some ==> filled(h, d).identity_file == h.identity_file,
        h.user is None ==> filled(h, d).user == d.user,
        h.port is None ==> filled(h, d).port == d.port,
        h.identity_file is None ==> filled(h, d).identity_file == d.identity_file,
{
}

/// Settings under a skipped block reach neither a host nor the defaults.
pub proof fn a_skipped_block_changes_nothing(p: Progress, line: Seq<char>, home: Option<Seq<char>>)
    requires
        p.block is Skipped,
        line_parts(line) matches Some((keyword, _)) ==> keyword != "host"@ && keyword != "match"@,
    ensures
        after_line(p, line, home) == p,
{
}

/// A setting outside a host's block leaves every host found so far as it is.
pub proof fn found_hosts_stay(p: Progress, line: Seq<char>, home: Option<Seq<char>>)
    ensures
        p.hosts.len() <= after_line(p, line, home).hosts.len(),
        after_line(p, line, home).hosts.take(p.hosts.len() as int) == p.hosts,
{
    assert(after_line(p, line, home).hosts.take(p.hosts.len() as int) =~= p.hosts);
}

/// Whether a host's alias is one literal name.
pub open spec fn literal_alias(h: HostView) -> bool {
    h.alias.len() > 0 && !h.alias.contains('*') && !h.alias.contains('?') && !h.alias.contains('!')
}

proof fn lemma_literal(all: Seq<Seq<char>>, home: Option<Seq<char>>)
    ensures
        ({
            let p = after_lines(all, home);
            &&& forall|i: int| 0 <= i < p.hosts.len() ==> literal_alias(#[trigger] p.hosts[i])
            &&& p.block matches BlockView::Host(h) ==> literal_alias(h)
        }),
    decreases all.len(),
{
    if all.len() > 0 {
        lemma_literal(all.drop_last(), home);
    }
}

/// Every host that is imported has one literal name: no wildcard, no list of
/// patterns.
pub proof fn only_literal_hosts_are_imported(text: Seq<char>, home: Option<Seq<char>>, i: int)
    requires
        0 <= i < parsed(text, home).len(),
    ensures
        literal_alias(parsed(text, home)[i]),
{
    lemma_literal(lines(text), home);
    let p = after_lines(lines(text), home);
    let closed = closed_hosts(p);
    assert(literal_alias(closed[i])) by {
        if i < p.hosts.len() {
            assert(closed[i] == p.hosts[i]);
        }
    }
}

/// The value of the last line with this keyword.
pub open spec fn last_value(all: Seq<Seq<char>>, keyword: Seq<char>) -> Option<Seq<char>>
    decreases all.len(),
{
    if all.len() == 0 {
        None
    } else {
        match line_parts(all.last()) {
            Some((k, value)) if k == keyword => Some(value),
            _ => last_value(all.drop_last(), keyword),
        }
    }
}

/// The value of the first line with this keyword.
pub open spec fn first_value(all: Seq<Seq<char>>, keyword: Seq<char>) -> Option<Seq<char>>
    decreases all.len(),
{
    if all.len() == 0 {
        None
    } else if first_value(all.drop_last(), keyword) is Some {
        first_value(all.drop_last(), keyword)
    } else {
        match line_parts(all.last()) {
            Some((k, value)) if k == keyword => Some(value),
            _ => None,
        }
    }
}

/// The last port that can be read.
pub open spec fn last_port(all: Seq<Seq<char>>) -> Option<u16>
    decreases all.len(),
{
    if all.len() == 0 {
        None
    } else {
        match line_parts(all.last()) {
            Some((k, value)) if k == "port"@ && unsigned(value, 65535) is Some => Some(
                unsigned(value, 65535)->Some_0 as u16,
            ),
            _ => last_port(all.drop_last()),
        }
    }
}

proof fn lemma_keywords()
    ensures
        "user"@ != "port"@,
        "user"@ != "identityfile"@,
        "user"@ != "hostname"@,
        "port"@ != "identityfile"@,
        "port"@ != "hostname"@,
        "identityfile"@ != "hostname"@,
        "host"@ != "match"@,
{
    reveal_strlit("user");
    reveal_strlit("port");
    reveal_strlit("identityfile");
    reveal_strlit("hostname");
    reveal_strlit("host");
    reveal_strlit("match");
    assert("user"@[0] == 'u' && "port"@[0] == 'p' && "identityfile"@[0] == 'i' && "hostname"@[0] == 'h');
    assert("host"@.len() != "match"@.len());
}

proof fn lemma_wildcard_values(p: Progress, all: Seq<Seq<char>>, home: Option<Seq<char>>)
    requires
        p.block is Wildcard || p.block is Preamble,
        p.defaults == (DefaultsView { user: None, port: None, identity_file: None }),
        forall|i: int| 0 <= i < all.len() ==> is_setting(#[trigger] all[i]),
    ensures
        ({
            let x = after_more(p, all, home);
            &&& x.block == p.block
            &&& x.hosts == p.hosts
            &&& x.defaults.user == last_value(all, "user"@)
            &&& x.defaults.port == (match last_value(all, "port"@) {
                Some(v) => match unsigned(v, 65535) {
                    Some(n) => Some(n as u16),
                    None => None,
                },
                None => None,
            })
            &&& x.defaults.identity_file == (match last_value(all, "identityfile"@) {
                Some(v) => Some(tilde_expanded(v, home)),
                None => None,
            })
        }),
    decreases all.len(),
{
    lemma_keywords();
    if all.len() > 0 {
        let front = all.drop_last();
        assert forall|i: int| 0 <= i < front.len() implies is_setting(#[trigger] front[i]) by {
            assert(is_setting(all[i]));
        }
        lemma_wildcard_values(p, front, home);
        assert(is_setting(all[all.len() - 1]));
    }
}

/// What a `Host *` block says reaches every host that does not say it itself:
/// its last user, the port it last names, and its last key file with a leading
/// `~/` expanded. It does so from before the hosts as from behind them.
pub proof fn the_wildcard_reaches_every_host(
    wildcard: Seq<char>,
    hosts: Seq<char>,
    home: Option<Seq<char>>,
    i: int,
)
    requires
        whole_lines(wildcard),
        whole_lines(hosts),
        is_wildcard_block(lines(wildcard)),
        names_hosts(lines(hosts)),
        0 <= i < parsed(hosts, home).len(),
    ensures
        parsed(wildcard + hosts, home).len() == parsed(hosts, home).len(),
        parsed(wildcard + hosts, home) == parsed(hosts + wildcard, home),
        ({
            let own = parsed(hosts, home)[i];
            let all = parsed(wildcard + hosts, home)[i];
            let said = lines(wildcard).drop_first();
            &&& all.alias == own.alias
            &&& all.hostname == own.hostname
            &&& own.user is Some ==> all.user == own.user
            &&& own.user is None ==> all.user == last_value(said, "user"@)
            &&& own.port is Some ==> all.port == own.port
            &&& own.port is None ==> all.port == (match last_value(said, "port"@) {
                Some(v) => match unsigned(v, 65535) {
                    Some(n) => Some(n as u16),
                    None => None,
                },
                None => None,
            })
            &&& own.identity_file is Some ==> all.identity_file == own.identity_file
            &&& own.identity_file is None ==> all.identity_file == (match last_value(said, "identityfile"@) {
                Some(v) => Some(tilde_expanded(v, home)),
                None => None,
            })
        }),
{
    let w = lines(wildcard);
    let h = lines(hosts);
    let none = Seq::<Seq<char>>::empty();
    let start = after_lines(none, home);
    the_place_of_the_wildcard_makes_no_difference(wildcard, hosts, home);
    lemma_lines_of_both(wildcard, hosts);
    assert(none + w =~= w);
    assert(none + h =~= h);
    lemma_after_both(none, w, home);
    lemma_after_both(none, h, home);
    lemma_after_both(w, h, home);
    let first = seq![w[0]];
    let rest = w.drop_first();
    assert(w =~= first + rest);
    lemma_more_both(start, first, rest, home);
    lemma_one_more(start, w[0], home);
    lemma_keywords();
    assert forall|k: int| 0 <= k < rest.len() implies is_setting(#[trigger] rest[k]) by {
        assert(rest[k] == w[k + 1]);
    }
    lemma_wildcard_values(after_more(start, first, home), rest, home);
    let at_w = after_lines(w, home);
    lemma_hosts_apart(at_w, start, h, home);
    let x = after_lines(w + h, home);
    let at_h = after_lines(h, home);
    assert(closed_hosts(x) == closed_hosts(at_h));
    assert(parsed(hosts, home)[i] == filled(closed_hosts(at_h)[i], at_h.defaults));
    assert(parsed(wildcard + hosts, home)[i] == filled(closed_hosts(x)[i], x.defaults));
}

proof fn lemma_host_values(p: Progress, h: HostView, all: Seq<Seq<char>>, home: Option<Seq<char>>)
    requires
        p.block == BlockView::Host(h),
        h.user is None,
        h.port is None,
        h.identity_file is None,
        forall|i: int| 0 <= i < all.len() ==> is_setting(#[trigger] all[i]),
    ensures
        ({
            let x = after_more(p, all, home);
            &&& x.hosts == p.hosts
            &&& x.defaults == p.defaults
            &&& x.block matches BlockView::Host(r) && {
                &&& r.alias == h.alias
                &&& r.hostname == (match last_value(all, "hostname"@) {
                    Some(v) => v,
                    None => h.hostname,
                })
                &&& r.user == last_value(all, "user"@)
                &&& r.port == last_port(all)
                &&& r.identity_file == (match first_value(all, "identityfile"@) {
                    Some(v) => Some(tilde_expanded(v, home)),
                    None => None,
                })
            }
        }),
    decreases all.len(),
{
    lemma_keywords();
    if all.len() > 0 {
        let front = all.drop_last();
        assert forall|i: int| 0 <= i < front.len() implies is_setting(#[trigger] front[i]) by {
            assert(is_setting(all[i]));
        }
        lemma_host_values(p, h, front, home);
        assert(is_setting(all[all.len() - 1]));
    }
}

/// One host's block yields one host: its alias is the one literal word behind
/// `Host`; it is reached under its last `HostName`, or the alias; and it has its
/// last `User`, the last `Port` that is a number up to 65535, and its first
/// `IdentityFile` with a leading `~/` expanded.
pub proof fn a_host_block_is_a_host(text: Seq<char>, home: Option<Seq<char>>, name: Seq<char>)
    requires
        lines(text).len() > 0,
        line_parts(lines(text)[0]) matches Some((keyword, value)) && keyword == "host"@ && value == name,
        name.len() > 0,
        forall|i: int| 0 <= i < name.len() ==> !is_space(#[trigger] name[i]),
        !name.contains('*') && !name.contains('?') && !name.contains('!'),
        forall|i: int| 1 <= i < lines(text).len() ==> is_setting(#[trigger] lines(text)[i]),
    ensures
        parsed(text, home).len() == 1,
        ({
            let r = parsed(text, home)[0];
            let said = lines(text).drop_first();
            &&& r.alias == name
            &&& r.hostname == (match last_value(said, "hostname"@) {
                Some(v) => v,
                None => name,
            })
            &&& r.user == last_value(said, "user"@)
            &&& r.port == last_port(said)
            &&& r.identity_file == (match first_value(said, "identityfile"@) {
                Some(v) => Some(tilde_expanded(v, home)),
                None => None,
            })
        }),
{
    let all = lines(text);
    let none = Seq::<Seq<char>>::empty();
    let start = after_lines(none, home);
    let first = seq![all[0]];
    let rest = all.drop_first();
    assert(none + all =~= all);
    assert(all =~= first + rest);
    lemma_after_both(none, all, home);
    lemma_more_both(start, first, rest, home);
    lemma_one_more(start, all[0], home);
    crate::text::lemma_already_trimmed(name);
    assert(name[0] != '*') by {
        assert(name.contains(name[0]));
    }
    assert(name != "*"@) by {
        reveal_strlit("*");
        if name == "*"@ {
            assert(name[0] == '*');
        }
    }
    let begun = HostView { alias: name, hostname: name, user: None, port: None, identity_file: None };
    assert(after_more(start, first, home).block == BlockView::Host(begun));
    assert forall|k: int| 0 <= k < rest.len() implies is_setting(#[trigger] rest[k]) by {
        assert(rest[k] == all[k + 1]);
    }
    lemma_host_values(after_more(start, first, home), begun, rest, home);
    let x = after_lines(all, home);
    assert(closed_hosts(x).len() == 1);
    assert(parsed(text, home)[0] == filled(closed_hosts(x)[0], x.defaults));
}

/// Two files that name hosts and have no `Host *`, one behind the other, yield
/// the hosts of each, in order.
pub proof fn files_of_hosts_join(a: Seq<char>, b: Seq<char>, home: Option<Seq<char>>)
    requires
        whole_lines(a),
        names_hosts(lines(a)),
        names_hosts(lines(b)),
    ensures
        parsed(a + b, home) == parsed(a, home) + parsed(b, home),
{
    let none = Seq::<Seq<char>>::empty();
    let start = after_lines(none, home);
    let x = lines(a);
    let y = lines(b);
    lemma_lines_of_both(a, b);
    assert(none + x =~= x);
    assert(none + y =~= y);
    lemma_after_both(none, x, home);
    lemma_after_both(none, y, home);
    lemma_after_both(x, y, home);
    lemma_hosts_apart(start, start, x, home);
    lemma_hosts_apart(start, start, y, home);
    let p = after_lines(x, home);
    lemma_hosts_behind(p, start, y, home);
    assert(parsed(a + b, home) =~= parsed(a, home) + parsed(b, home));
}

proof fn lemma_hosts_behind(p: Progress, q: Progress, all: Seq<Seq<char>>, home: Option<Seq<char>>)
    requires
        closed_hosts(q).len() == 0,
        p.defaults == q.defaults,
        names_hosts(all),
    ensures
        ({
            let x = after_more(p, all, home);
            let y = after_more(q, all, home);
            &&& x.defaults == p.defaults
            &&& x.block == y.block
            &&& !(x.block is Wildcard)
            &&& !(x.block is Preamble)
            &&& x.hosts == closed_hosts(p) + y.hosts
        }),
    decreases all.len(),
{
    let front = all.drop_last();
    assert(is_no_wildcard(all[all.len() - 1]));
    if front.len() > 0 {
        assert forall|i: int| 0 <= i < front.len() implies is_no_wildcard(#[trigger] front[i]) by {
            assert(is_no_wildcard(all[i]));
        }
        lemma_hosts_behind(p, q, front, home);
        let x = after_more(p, front, home);
        let y = after_more(q, front, home);
        if let BlockView::Host(h) = x.block {
            assert(x.hosts.push(h) =~= closed_hosts(p) + y.hosts.push(h));
        }
    } else {
        assert(after_more(p, front, home) == p);
        assert(after_more(q, front, home) == q);
        assert(closed_hosts(p) + closed_hosts(q) =~= closed_hosts(p));
    }
}

/// A line is a keyword in any letter case, a separator, and a value; what
/// follows a `#` is not read, and neither are spaces round the line.
pub proof fn a_line_is_a_keyword_and_its_value(keyword: Seq<char>, separator: char, value: Seq<char>, comment: Seq<char>)
    requires
        keyword.len() > 0,
        value.len() > 0,
        separator == ' ' || separator == '\t' || separator == '=',
        forall|i: int|
            0 <= i < keyword.len() ==> !is_separator(#[trigger] keyword[i]) && keyword[i] != '#' && !is_space(keyword[i]),
        forall|i: int| 0 <= i < value.len() ==> #[trigger] value[i] != '#',
        !is_separator(value[0]) && !is_space(value[0]) && !is_space(value.last()),
    ensures
        line_parts(keyword + seq![separator] + value) == Some((lower(keyword), value)),
        line_parts(keyword + seq![separator] + value + seq!['#'] + comment) == Some((lower(keyword), value)),
{
    let text = keyword + seq![separator] + value;
    let n = keyword.len() as int;
    assert forall|i: int| 0 <= i < text.len() implies text[i] != '#' by {
        if i < n {
            assert(text[i] == keyword[i]);
        } else if i > n {
            assert(text[i] == value[i - n - 1]);
        }
    }
    lemma_index_of_is(text, '#', text.len() as int);
    assert(text.take(text.len() as int) =~= text);
    let full = text + seq!['#'] + comment;
    lemma_index_of_is(full, '#', text.len() as int);
    assert(full.take(text.len() as int) =~= text);
    assert(text[0] == keyword[0] && text.last() == value.last());
    crate::text::lemma_already_trimmed(text);
    lemma_separator_at(text, n);
    assert(text.take(n) =~= keyword);
    let tail = text.skip(n);
    assert(tail.drop_first() =~= value);
    assert(skip_separators(tail) == skip_separators(value));
    assert(skip_separators(value) == value);
    crate::text::lemma_already_trimmed(value);
}

proof fn lemma_separator_at(s: Seq<char>, n: int)
    requires
        0 <= n < s.len(),
        is_separator(s[n]),
        forall|i: int| 0 <= i < n ==> !is_separator(#[trigger] s[i]),
    ensures
        separator_index(s) == n,
    decreases n,
{
    if n > 0 {
        let rest = s.drop_first();
        assert forall|i: int| 0 <= i < n - 1 implies !is_separator(#[trigger] rest[i]) by {
            assert(rest[i] == s[i + 1]);
        }
        lemma_separator_at(rest, n - 1);
    }
}

/// A leading `~/` stands for the home directory; any other path, and every path
/// where no home is known, stays as it is written.
pub proof fn a_leading_tilde_is_the_home(path: Seq<char>, home: Seq<char>)
    requires
        home.len() > 0,
        home.last() != '/',
    ensures
        path.len() > 0 && path[0] != '/' ==> tilde_expanded(seq!['~', '/'] + path, Some(home)) == home + seq!['/'] + path,
        !(path.len() >= 2 && path[0] == '~' && path[1] == '/') ==> tilde_expanded(path, Some(home)) == path,
        tilde_expanded(path, None) == path,
        tilde_expanded(path, Some(Seq::empty())) == path,
{
    reveal_strlit("~/");
    let full = seq!['~', '/'] + path;
    assert("~/"@ =~= seq!['~', '/']);
    assert(full.subrange(0, 2) =~= "~/"@);
    assert(full.skip(2) =~= path);
    if has_prefix(path, "~/"@) {
        assert(path.subrange(0, 2)[0] == '~' && path.subrange(0, 2)[1] == '/');
    }
}

/// The account is the block's own, else the environment's where it names one,
/// else `root`.
pub proof fn the_account_falls_back(host: &SshConfigHost, user_var: Option<&str>, r: String)
    requires
        call_ensures(SshConfigHost::username, (host, user_var), r),
    ensures
        host.user matches Some(u) ==> r@ == u@,
        host.user is None && (user_var matches Some(v) && v@.len() > 0) ==> r@ == user_var->Some_0@,
        host.user is None && (user_var matches Some(v) ==> v@.len() == 0) ==> r@ == "root"@,
{
}

/// Whether a text is one word.
pub open spec fn is_word(w: Seq<char>) -> bool {
    w.len() > 0 && forall|i: int| 0 <= i < w.len() ==> !is_space(#[trigger] w[i])
}

/// A `Host` line with one plain name opens the block of that host, named and
/// reached by the name; `*` alone opens the one for every host. A pattern, and
/// several names, open a block that is passed over.
pub proof fn a_host_line_opens_its_block(w: Seq<char>, space: char, more: Seq<char>)
    requires
        is_word(w),
        is_word(more),
        is_space(space),
    ensures
        w == "*"@ ==> opened_block(w) == BlockView::Wildcard,
        w != "*"@ && (w.contains('*') || w.contains('?') || w.contains('!')) ==> opened_block(w) == BlockView::Skipped,
        !w.contains('*') && !w.contains('?') && !w.contains('!') ==> opened_block(w) == BlockView::Host(
            (HostView { alias: w, hostname: w, user: None, port: None, identity_file: None }),
        ),
        opened_block(w + seq![space] + more) == BlockView::Skipped,
{
    lemma_already_trimmed(w);
    reveal_strlit("*");
    let two = w + seq![space] + more;
    assert(two.last() == more.last());
    assert(two[0] == w[0]);
    lemma_already_trimmed(two);
    assert(is_space(two[w.len() as int]));
    assert("*"@.contains('*')) by {
        assert("*"@[0] == '*');
    }
}

/// A port in a config is a number below 65536; anything else is none.
pub proof fn a_port_is_a_number(n: nat)
    ensures
        n < 65536 ==> port_of(decimal(n)) == Some(n as u16),
        n >= 65536 ==> port_of(decimal(n)) is None,
{
    a_written_number_reads_back(n, n + 65535);
}

/// What stands before the first `Host` line reaches every host too, where the host
/// does not say it itself: the last user, the port that is named last, and the last
/// key file with a leading `~/` expanded.
pub proof fn what_stands_first_reaches_every_host(
    preamble: Seq<char>,
    hosts: Seq<char>,
    home: Option<Seq<char>>,
    i: int,
)
    requires
        whole_lines(preamble),
        forall|k: int| 0 <= k < lines(preamble).len() ==> is_setting(#[trigger] lines(preamble)[k]),
        names_hosts(lines(hosts)),
        0 <= i < parsed(hosts, home).len(),
    ensures
        parsed(preamble + hosts, home).len() == parsed(hosts, home).len(),
        ({
            let own = parsed(hosts, home)[i];
            let all = parsed(preamble + hosts, home)[i];
            let said = lines(preamble);
            &&& all.alias == own.alias
            &&& all.hostname == own.hostname
            &&& own.user is Some ==> all.user == own.user
            &&& own.user is None ==> all.user == last_value(said, "user"@)
            &&& own.port is Some ==> all.port == own.port
            &&& own.port is None ==> all.port == (match last_value(said, "port"@) {
                Some(v) => match unsigned(v, 65535) {
                    Some(n) => Some(n as u16),
                    None => None,
                },
                None => None,
            })
            &&& own.identity_file is Some ==> all.identity_file == own.identity_file
            &&& own.identity_file is None ==> all.identity_file == (match last_value(said, "identityfile"@) {
                Some(v) => Some(tilde_expanded(v, home)),
                None => None,
            })
        }),
{
    let w = lines(preamble);
    let h = lines(hosts);
    let none = Seq::<Seq<char>>::empty();
    let start = after_lines(none, home);
    lemma_lines_of_both(preamble, hosts);
    assert(none + w =~= w);
    assert(none + h =~= h);
    lemma_after_both(none, w, home);
    lemma_after_both(none, h, home);
    lemma_after_both(w, h, home);
    lemma_wildcard_values(start, w, home);
    let at_w = after_lines(w, home);
    lemma_hosts_apart(at_w, start, h, home);
    let x = after_lines(w + h, home);
    let at_h = after_lines(h, home);
    assert(closed_hosts(x) == closed_hosts(at_h));
    assert(parsed(hosts, home)[i] == filled(closed_hosts(at_h)[i], at_h.defaults));
    assert(parsed(preamble + hosts, home)[i] == filled(closed_hosts(x)[i], x.defaults));
}

} // verus!
