//! The logger's bookkeeping: which records pass the filter, the buffer of written lines,
//! and when the buffer is due to be flushed to the log file.
use vstd::prelude::*;
use vstd::string::StrSliceExecFns;
use vstd::string::StringExecFns;
use vstd::string::StringSliceAdditionalSpecFns;

verus! {

/// Severity of a log record, from the most severe (`Error`) to the most verbose (`Trace`).
#[derive(Clone, Copy, Debug, PartialEq, Eq, Structural)]
pub enum Level {
    Error,
    Warn,
    Info,
    Debug,
    Trace,
}

impl Level {
    /// The level's place in the order `Error < Warn < Info < Debug < Trace`.
    pub open spec fn rank(self) -> nat {
        match self {
            Level::Error => 1,
            Level::Warn => 2,
            Level::Info => 3,
            Level::Debug => 4,
            Level::Trace => 5,
        }
    }

    /// The level's name as it is printed: `ERROR`, `WARN`, `INFO`, `DEBUG` or `TRACE`.
    pub open spec fn name(self) -> Seq<char> {
        match self {
            Level::Error => "ERROR"@,
            Level::Warn => "WARN"@,
            Level::Info => "INFO"@,
            Level::Debug => "DEBUG"@,
            Level::Trace => "TRACE"@,
        }
    }

    /// The level's name as it is printed.
    pub fn as_str(&self) -> (s: &'static str)
        ensures
            s@ == self.name(),
    {
        match self {
            Level::Error => "ERROR",
            Level::Warn => "WARN",
            Level::Info => "INFO",
            Level::Debug => "DEBUG",
            Level::Trace => "TRACE",
        }
    }

    fn rank_of(&self) -> (r: u8)
        ensures
            r == self.rank(),
    {
        match self {
            Level::Error => 1,
            Level::Warn => 2,
            Level::Info => 3,
            Level::Debug => 4,
            Level::Trace => 5,
        }
    }
}

/// The pieces of `s` between occurrences of `sep`, first to last: `k` separators give `k + 1`
/// pieces, some of which may be empty.
pub open spec fn split_on(s: Seq<char>, sep: char) -> Seq<Seq<char>>
    decreases s.len(),
{
    if s.len() == 0 {
        seq![Seq::<char>::empty()]
    } else {
        let rest = split_on(s.drop_last(), sep);
        if s.last() == sep {
            rest.push(Seq::<char>::empty())
        } else {
            rest.update(rest.len() - 1, rest.last().push(s.last()))
        }
    }
}

/// The pieces laid end to end with `sep` between each two.
pub open spec fn join_with(pieces: Seq<Seq<char>>, sep: char) -> Seq<char>
    decreases pieces.len(),
{
    if pieces.len() == 0 {
        Seq::<char>::empty()
    } else if pieces.len() == 1 {
        pieces[0]
    } else {
        join_with(pieces.drop_last(), sep).push(sep) + pieces.last()
    }
}

/// The characters of each string.
pub open spec fn views_of(v: Seq<String>) -> Seq<Seq<char>> {
    v.map_values(|s: String| s@)
}

/// The character of a decimal digit `d` (below ten).
pub open spec fn digit_char(d: nat) -> char {
    if d == 0 {
        '0'
    } else if d == 1 {
        '1'
    } else if d == 2 {
        '2'
    } else if d == 3 {
        '3'
    } else if d == 4 {
        '4'
    } else if d == 5 {
        '5'
    } else if d == 6 {
        '6'
    } else if d == 7 {
        '7'
    } else if d == 8 {
        '8'
    } else {
        '9'
    }
}

/// `n` written in decimal, most significant digit first, with no leading zeros (`0` is "0").
pub open spec fn decimal(n: nat) -> Seq<char>
    decreases n,
{
    if n < 10 {
        seq![digit_char(n)]
    } else {
        decimal(n / 10).push(digit_char(n % 10))
    }
}

/// The line written for a record: `[time]-(thread n)-<LEVEL> message` and a newline.
pub open spec fn log_line(time: Seq<char>, thread: nat, level: Level, message: Seq<char>) -> Seq<
    char,
> {
    "["@ + time + "]-(thread "@ + decimal(thread) + ")-<"@ + level.name() + "> "@ + message + "\n"@
}

fn digit_str(d: usize) -> (s: &'static str)
    requires
        d < 10,
    ensures
        s@ == seq![digit_char(d as nat)],
{
    if d == 0 {
        proof { reveal_strlit("0"); }
        "0"
    } else if d == 1 {
        proof { reveal_strlit("1"); }
        "1"
    } else if d == 2 {
        proof { reveal_strlit("2"); }
        "2"
    } else if d == 3 {
        proof { reveal_strlit("3"); }
        "3"
    } else if d == 4 {
        proof { reveal_strlit("4"); }
        "4"
    } else if d == 5 {
        proof { reveal_strlit("5"); }
        "5"
    } else if d == 6 {
        proof { reveal_strlit("6"); }
        "6"
    } else if d == 7 {
        proof { reveal_strlit("7"); }
        "7"
    } else if d == 8 {
        proof { reveal_strlit("8"); }
        "8"
    } else {
        proof { reveal_strlit("9"); }
        "9"
    }
}

/// Appends `n` in decimal to `out`.
fn push_decimal(out: &mut String, n: usize)
    ensures
        final(out)@ == old(out)@ + decimal(n as nat),
    decreases n,
{
    if n >= 10 {
        push_decimal(out, n / 10);
    }
    let ghost before = out@;
    out.append(digit_str(n % 10));
    proof {
        if n >= 10 {
            assert(before + seq![digit_char((n % 10) as nat)] =~= old(out)@ + decimal(n as nat));
        } else {
            assert(before =~= old(out)@);
        }
    }
}

/// The line written for a record of `level` with message `message`, made at `time` on the
/// thread numbered `thread`.
pub fn format_log_line(time: &str, thread: usize, level: Level, message: &str) -> (line: String)
    ensures
        line@ == log_line(time@, thread as nat, level, message@),
{
    let mut line = String::new();
    line.append("[");
    line.append(time);
    line.append("]-(thread ");
    push_decimal(&mut line, thread);
    line.append(")-<");
    line.append(level.as_str());
    line.append("> ");
    line.append(message);
    line.append("\n");
    line
}

/// The log file's name when no location is given.
pub const DEFAULT_LOG_NAME: &'static str = "delve.log";

/// The environment variable that lists the targets to log, separated by commas.
pub const TARGET_ENV_VAR_NAME: &'static str = "DLV_LOG_TARGETS";

/// The buffer size, in bytes, at which the buffer is flushed by default.
pub const DEFAULT_AUTOFLUSH_SIZE: usize = 1024;

/// A logger that collects lines in a buffer and flushes it to its file once it grows large.
pub struct DelveLogger {
    location: Option<String>,
    level: Level,
    autoflush_enabled: bool,
    autoflush_size: usize,
    inner_buf: String,
    targets: Option<Vec<String>>,
}

impl DelveLogger {
    pub closed spec fn location_view(&self) -> Option<Seq<char>> {
        match self.location {
            Some(l) => Some(l@),
            None => None,
        }
    }

    pub closed spec fn level(&self) -> Level {
        self.level
    }

    pub closed spec fn autoflush_enabled(&self) -> bool {
        self.autoflush_enabled
    }

    pub closed spec fn autoflush_size(&self) -> nat {
        self.autoflush_size as nat
    }

    /// The lines written and not yet flushed.
    pub closed spec fn buffer(&self) -> Seq<char> {
        self.inner_buf@
    }

    /// The targets let through, once they are known.
    pub closed spec fn targets_view(&self) -> Option<Seq<Seq<char>>> {
        match self.targets {
            Some(t) => Some(views_of(t@)),
            None => None,
        }
    }

    /// A logger that keeps records of `level` or later in the order `Error < ... < Trace`,
    /// flushing once the buffer holds `autoflush_size` bytes when `autoflush_enabled`;
    /// with no location and no targets yet.
    pub fn new(level: Level, autoflush_enabled: bool, autoflush_size: usize) -> (l: Self)
        ensures
            l.location_view() is None,
            l.level() == level,
            l.autoflush_enabled() == autoflush_enabled,
            l.autoflush_size() == autoflush_size,
            l.buffer() == Seq::<char>::empty(),
            l.targets_view() is None,
    {
        DelveLogger {
            location: None,
            level,
            autoflush_enabled,
            autoflush_size,
            inner_buf: String::new(),
            targets: None,
        }
    }

    /// The targets named by the value of the targets variable: its pieces between commas, or
    /// none when the variable is unset.
    pub fn init_targets(env_value: Option<&str>) -> (targets: Vec<String>)
        ensures
            views_of(targets@) == match env_value {
                Some(v) => split_on(v@, ','),
                None => Seq::<Seq<char>>::empty(),
            },
    {
        match env_value {
            None => Vec::new(),
            Some(v) => split_commas(v),
        }
    }
}

/// Splits `s` at every comma.
fn split_commas(s: &str) -> (pieces: Vec<String>)
    ensures
        views_of(pieces@) == split_on(s@, ','),
{
    let n = s.unicode_len();
    let mut pieces: Vec<String> = Vec::new();
    let mut start: usize = 0;
    let mut i: usize = 0;
    assert(s@.take(0) =~= Seq::<char>::empty());
    assert(views_of(pieces@).push(s@.subrange(0, 0)) =~= seq![
        Seq::<char>::empty(),
    ]);
    while i < n
        invariant
            n == s@.len(),
            start <= i <= n,
            views_of(pieces@).push(s@.subrange(start as int, i as int)) == split_on(
                s@.take(i as int),
                ',',
            ),
        decreases n - i,
    {
        let c = s.get_char(i);
        let ghost before = views_of(pieces@);
        assert(s@.take(i + 1).drop_last() =~= s@.take(i as int));
        assert(s@.take(i + 1).last() == c);
        if c == ',' {
            let ghost old_start = start;
            let piece = s.substring_char(start, i);
            pieces.push(piece.to_owned());
            start = i + 1;
            assert(views_of(pieces@) =~= before.push(
                s@.subrange(old_start as int, i as int),
            ));
            assert(s@.subrange(start as int, i + 1) =~= Seq::<char>::empty());
        } else {
            assert(s@.subrange(start as int, i + 1) =~= s@.subrange(start as int, i as int).push(c));
        }
        i += 1;
    }
    let piece = s.substring_char(start, n);
    pieces.push(piece.to_owned());
    assert(s@.take(n as int) =~= s@);
    pieces
}

/// Where the log goes after `init` with `location`, having been `old` before: the first location
/// ever given is kept.
pub open spec fn location_after_init(old: Option<Seq<char>>, location: Seq<char>) -> Option<
    Seq<char>,
> {
    match old {
        Some(l) => Some(l),
        None => Some(location),
    }
}

/// The targets after they are looked up with the variable's value `env`, having been `old`:
/// the first list ever made is kept.
pub open spec fn targets_after_init(
    old: Option<Seq<Seq<char>>>,
    env: Option<Seq<char>>,
) -> Option<Seq<Seq<char>>> {
    match old {
        Some(t) => Some(t),
        None => Some(
            match env {
                Some(v) => split_on(v, ','),
                None => Seq::<Seq<char>>::empty(),
            },
        ),
    }
}

/// Whether a record of `level` for `target` is checked against the target list by a logger that
/// keeps `min_level` and later levels: it passes the level and names a target.
pub open spec fn needs_targets(min_level: Level, level: Level, target: Seq<char>) -> bool {
    !(level.rank() < min_level.rank()) && target.len() != 0
}

/// Whether a record of `level` for `target` is written by a logger that keeps `min_level` and
/// later levels and lets through the targets `targets` (an empty target always passes).
pub open spec fn passes_filter(
    min_level: Level,
    targets: Option<Seq<Seq<char>>>,
    level: Level,
    target: Seq<char>,
) -> bool {
    &&& !(level.rank() < min_level.rank())
    &&& (target.len() == 0 || match targets {
        Some(t) => t.contains(target),
        None => false,
    })
}

impl DelveLogger {
    /// Sets the log file location and the targets to let through, unless they were set before
    /// (so a second call changes nothing). `env_value` is the value of the targets variable.
    pub fn init(&mut self, location: String, env_value: Option<&str>)
        ensures
            final(self).location_view() == location_after_init(old(self).location_view(), location@),
            final(self).targets_view() == targets_after_init(
                old(self).targets_view(),
                match env_value {
                    Some(v) => Some(v@),
                    None => None,
                },
            ),
            final(self).level() == old(self).level(),
            final(self).autoflush_enabled() == old(self).autoflush_enabled(),
            final(self).autoflush_size() == old(self).autoflush_size(),
            final(self).buffer() == old(self).buffer(),
    {
        self.ensure_targets(env_value);
        if self.location.is_none() {
            self.location = Some(location);
        }
    }

    /// Whether the targets were looked up yet.
    pub fn has_targets(&self) -> (b: bool)
        ensures
            b == self.targets_view() is Some,
    {
        self.targets.is_some()
    }

    /// Looks the targets up from the variable's value `env_value`, unless that was done before.
    pub fn ensure_targets(&mut self, env_value: Option<&str>)
        ensures
            final(self).targets_view() == targets_after_init(
                old(self).targets_view(),
                match env_value {
                    Some(v) => Some(v@),
                    None => None,
                },
            ),
            final(self).location_view() == old(self).location_view(),
            final(self).level() == old(self).level(),
            final(self).autoflush_enabled() == old(self).autoflush_enabled(),
            final(self).autoflush_size() == old(self).autoflush_size(),
            final(self).buffer() == old(self).buffer(),
    {
        if self.targets.is_none() {
            self.targets = Some(DelveLogger::init_targets(env_value));
        }
    }

    /// The log file's location, once set.
    pub fn location(&self) -> (l: Option<String>)
        ensures
            match l {
                Some(s) => self.location_view() == Some(s@),
                None => self.location_view() is None,
            },
    {
        match &self.location {
            Some(s) => Some(s.clone()),
            None => None,
        }
    }

    /// Whether a record of `level` for `target` is written: its level is not before the logger's
    /// in the order `Error < ... < Trace`, and its target is empty or one of the listed targets.
    /// Only a record that passes the level and names a target needs the targets; those not
    /// looked up yet are then looked up first, from the targets variable's value `env_value`.
    pub fn enabled(&mut self, level: Level, target: &str, env_value: Option<&str>) -> (b: bool)
        ensures
            final(self).targets_view() == if needs_targets(old(self).level(), level, target@) {
                targets_after_init(
                    old(self).targets_view(),
                    match env_value {
                        Some(v) => Some(v@),
                        None => None,
                    },
                )
            } else {
                old(self).targets_view()
            },
            b == passes_filter(old(self).level(), final(self).targets_view(), level, target@),
            final(self).location_view() == old(self).location_view(),
            final(self).level() == old(self).level(),
            final(self).autoflush_enabled() == old(self).autoflush_enabled(),
            final(self).autoflush_size() == old(self).autoflush_size(),
            final(self).buffer() == old(self).buffer(),
    {
        if level.rank_of() < self.level.rank_of() {
            return false;
        }
        if target.is_empty() {
            return true;
        }
        self.ensure_targets(env_value);
        self.passes(level, target)
    }

    fn passes(&self, level: Level, target: &str) -> (b: bool)
        ensures
            b == passes_filter(self.level(), self.targets_view(), level, target@),
    {
        if level.rank_of() < self.level.rank_of() {
            return false;
        }
        if target.is_empty() {
            return true;
        }
        let wanted = target.to_owned();
        match &self.targets {
            None => false,
            Some(t) => {
                let ghost tv = views_of(t@);
                assert(self.targets_view() == Some(tv));
                let mut i: usize = 0;
                while i < t.len()
                    invariant
                        0 <= i <= t@.len(),
                        tv == views_of(t@),
                        self.targets_view() == Some(tv),
                        wanted@ == target@,
                        !(level.rank() < self.level().rank()),
                        target@.len() != 0,
                        forall|j: int| 0 <= j < i ==> tv[j] != wanted@,
                    decreases t@.len() - i,
                {
                    if t[i] == wanted {
                        assert(tv[i as int] == wanted@);
                        assert(tv.contains(wanted@));
                        return true;
                    }
                    i += 1;
                }
                assert(!tv.contains(wanted@));
                false
            },
        }
    }

    /// Appends `line` to the buffer; returns whether the buffer is now due to be flushed:
    /// autoflush is on and the buffer holds at least the autoflush size in UTF-8 bytes.
    pub fn append_line(&mut self, line: &str) -> (flush: bool)
        ensures
            final(self).buffer() == old(self).buffer() + line@,
            flush == (old(self).autoflush_enabled() && (vstd::utf8::encode_utf8(
                final(self).buffer(),
            ).len() as usize) >= old(self).autoflush_size()),
            final(self).location_view() == old(self).location_view(),
            final(self).targets_view() == old(self).targets_view(),
            final(self).level() == old(self).level(),
            final(self).autoflush_enabled() == old(self).autoflush_enabled(),
            final(self).autoflush_size() == old(self).autoflush_size(),
    {
        self.inner_buf.append(line);
        let size = self.inner_buf.as_str().len();
        self.autoflush_enabled && size >= self.autoflush_size
    }

    /// Hands out the buffered lines and empties the buffer.
    pub fn take_buffer(&mut self) -> (contents: String)
        ensures
            contents@ == old(self).buffer(),
            final(self).buffer() == Seq::<char>::empty(),
            final(self).location_view() == old(self).location_view(),
            final(self).targets_view() == old(self).targets_view(),
            final(self).level() == old(self).level(),
            final(self).autoflush_enabled() == old(self).autoflush_enabled(),
            final(self).autoflush_size() == old(self).autoflush_size(),
    {
        let contents = self.inner_buf.clone();
        self.inner_buf = String::new();
        contents
    }
}

proof fn lemma_split_nonempty(s: Seq<char>, sep: char)
    ensures
        split_on(s, sep).len() >= 1,
    decreases s.len(),
{
    if s.len() > 0 {
        lemma_split_nonempty(s.drop_last(), sep);
    }
}

proof fn lemma_join_extend_last(p: Seq<Seq<char>>, sep: char, c: char)
    requires
        p.len() >= 1,
    ensures
        join_with(p.update(p.len() - 1, p.last().push(c)), sep) == join_with(p, sep).push(c),
{
    let q = p.update(p.len() - 1, p.last().push(c));
    if p.len() > 1 {
        assert(q.drop_last() =~= p.drop_last());
        assert(join_with(q, sep) == join_with(q.drop_last(), sep).push(sep) + q.last());
        assert(join_with(p, sep) == join_with(p.drop_last(), sep).push(sep) + p.last());
        assert((join_with(p.drop_last(), sep).push(sep) + p.last()).push(c) =~= join_with(
            p.drop_last(),
            sep,
        ).push(sep) + p.last().push(c));
    }
}

/// Splitting at a separator and joining the pieces back with it gives back the text;
/// no piece holds the separator.
pub proof fn law_split_then_join(s: Seq<char>, sep: char)
    ensures
        join_with(split_on(s, sep), sep) == s,
        forall|i: int|
            0 <= i < split_on(s, sep).len() ==> !(#[trigger] split_on(s, sep)[i]).contains(sep),
    decreases s.len(),
{
    if s.len() == 0 {
        assert(split_on(s, sep)[0] =~= Seq::<char>::empty());
        assert(s =~= Seq::<char>::empty());
    } else {
        let d = s.drop_last();
        law_split_then_join(d, sep);
        lemma_split_nonempty(d, sep);
        let rest = split_on(d, sep);
        let p = split_on(s, sep);
        if s.last() == sep {
            assert(p.drop_last() =~= rest);
            assert(join_with(p, sep) == join_with(rest, sep).push(sep) + Seq::<char>::empty());
            assert(s =~= d.push(sep));
            assert(join_with(rest, sep).push(sep) + Seq::<char>::empty() =~= d.push(sep));
            assert forall|i: int| 0 <= i < p.len() implies !(#[trigger] p[i]).contains(sep) by {
                if i < p.len() - 1 {
                    assert(p[i] == rest[i]);
                } else {
                    assert(p[i] =~= Seq::<char>::empty());
                }
            }
        } else {
            lemma_join_extend_last(rest, sep, s.last());
            assert(s =~= d.push(s.last()));
            assert forall|i: int| 0 <= i < p.len() implies !(#[trigger] p[i]).contains(sep) by {
                if i < p.len() - 1 {
                    assert(p[i] == rest[i]);
                } else {
                    let last = rest.last();
                    assert(!rest[rest.len() - 1].contains(sep));
                    assert(p[i] == last.push(s.last()));
                    if p[i].contains(sep) {
                        let k = choose|k: int| 0 <= k < p[i].len() && p[i][k] == sep;
                        if k < last.len() {
                            assert(last[k] == sep);
                        }
                    }
                }
            }
        }
    }
}

/// Setting up the logger a second time changes nothing: the first location and the first list of
/// targets stay.
pub proof fn law_init_idempotent(
    location: Option<Seq<char>>,
    targets: Option<Seq<Seq<char>>>,
    first_location: Seq<char>,
    first_env: Option<Seq<char>>,
    second_location: Seq<char>,
    second_env: Option<Seq<char>>,
)
    ensures
        location_after_init(location_after_init(location, first_location), second_location)
            == location_after_init(location, first_location),
        targets_after_init(targets_after_init(targets, first_env), second_env)
            == targets_after_init(targets, first_env),
{
}

/// The levels from the most severe to the most verbose.
pub open spec fn levels_in_order() -> Seq<Level> {
    seq![Level::Error, Level::Warn, Level::Info, Level::Debug, Level::Trace]
}

/// Levels are ordered `Error < Warn < Info < Debug < Trace`, and a logger keeps its own level and
/// every later one: a logger at the `i`-th level of that order keeps a record without target of
/// the `j`-th level exactly when `i <= j`.
pub proof fn law_level_order(targets: Option<Seq<Seq<char>>>, i: int, j: int)
    requires
        0 <= i < 5,
        0 <= j < 5,
    ensures
        Level::Error.rank() < Level::Warn.rank(),
        Level::Warn.rank() < Level::Info.rank(),
        Level::Info.rank() < Level::Debug.rank(),
        Level::Debug.rank() < Level::Trace.rank(),
        passes_filter(levels_in_order()[i], targets, levels_in_order()[j], Seq::<char>::empty())
            <==> i <= j,
{
}

/// A record whose level is kept and which names a target is written exactly when one of the
/// listed targets is that very target (no prefix or other partial match); with no list, or when
/// its level is before the logger's, it is dropped.
pub proof fn law_target_must_match_exactly(
    min_level: Level,
    targets: Seq<Seq<char>>,
    level: Level,
    target: Seq<char>,
)
    requires
        target.len() > 0,
    ensures
        !(level.rank() < min_level.rank()) ==> (passes_filter(
            min_level,
            Some(targets),
            level,
            target,
        ) <==> exists|j: int| 0 <= j < targets.len() && #[trigger] targets[j] == target),
        !passes_filter(min_level, None, level, target),
        level.rank() < min_level.rank() ==> !passes_filter(min_level, Some(targets), level, target),
{
}

/// The number that the decimal digits `s` stand for, each character counted by its distance
/// from '0'.
pub open spec fn digits_value(s: Seq<char>) -> int
    decreases s.len(),
{
    if s.len() == 0 {
        0
    } else {
        digits_value(s.drop_last()) * 10 + ((s.last() as int) - ('0' as int))
    }
}

/// Each digit's character is '0' moved on by the digit.
pub proof fn law_digit_chars(d: nat)
    requires
        d < 10,
    ensures
        digit_char(d) as int == ('0' as int) + d,
{
}

/// A number written in decimal reads back as that number; its characters are digits, and it has
/// no leading zero.
pub proof fn law_decimal_reads_back(n: nat)
    ensures
        digits_value(decimal(n)) == n,
        decimal(n).len() >= 1,
        forall|i: int| 0 <= i < decimal(n).len() ==> '0' <= #[trigger] decimal(n)[i] <= '9',
        n > 0 ==> decimal(n)[0] != '0',
    decreases n,
{
    if n < 10 {
        law_digit_chars(n);
        assert(decimal(n).drop_last() =~= Seq::<char>::empty());
        assert(digits_value(Seq::<char>::empty()) == 0);
    } else {
        let m = n / 10;
        law_decimal_reads_back(m);
        law_digit_chars(n % 10);
        let s = decimal(n);
        assert(s.drop_last() =~= decimal(m));
        assert(s[0] == decimal(m)[0]);
        assert(forall|i: int| 0 <= i < decimal(m).len() ==> s[i] == #[trigger] decimal(m)[i]);
        assert(digits_value(s) == m * 10 + (n % 10) as int);
        vstd::arithmetic::div_mod::lemma_fundamental_div_mod(n as int, 10);
    }
}

} // verus!
