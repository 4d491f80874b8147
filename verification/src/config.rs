//! Configuration data for one Source/Sink pair: the per-section structs
//! with their defaults, the path helpers of the general section, and the
//! small value grammars (durations such as `30s`, the `server-ready-on`
//! signal, channel names, transport prefixes).
//!
//! Reading the YAML text into these structs is the builder's job (see the
//! sibling modules); checking that configured paths exist on disk is left
//! to the embedding program.

use vstd::prelude::*;
use vstd::string::StrSliceExecFns;
use vstd::string::StringExecFns;

use crate::mutation_cache::MutationSiteID;

verus! {

/// A span of time, kept as whole milliseconds.
#[derive(Clone, Copy, Debug, PartialEq, Eq, Structural, Hash)]
pub struct TimeSpan {
    pub millis: u64,
}

impl TimeSpan {
    /// A span of `s` seconds.
    pub fn from_secs(s: u64) -> (r: TimeSpan)
        requires
            s * 1000 <= u64::MAX,
        ensures
            r.millis == s * 1000,
    {
        TimeSpan { millis: s * 1000 }
    }

    /// A span of `ms` milliseconds.
    pub fn from_millis(ms: u64) -> (r: TimeSpan)
        ensures
            r.millis == ms,
    {
        TimeSpan { millis: ms }
    }
}

/// `c` is a decimal digit.
pub open spec fn is_dec_digit(c: char) -> bool {
    48 <= c as u32 <= 57
}

/// The numeric value of a digit sequence (most significant first).
pub open spec fn dec_val_of(s: Seq<char>) -> int
    decreases s.len(),
{
    if s.len() == 0 {
        0
    } else {
        dec_val_of(s.drop_last()) * 10 + (s.last() as u32 - 48)
    }
}

/// A digit string's value is never negative.
pub proof fn lemma_dec_val_nonneg(s: Seq<char>)
    requires
        forall|i: int| 0 <= i < s.len() ==> is_dec_digit(#[trigger] s[i]),
    ensures
        dec_val_of(s) >= 0,
    decreases s.len(),
{
    if s.len() > 0 {
        assert(forall|i: int|
            0 <= i < s.drop_last().len() ==> is_dec_digit(#[trigger] s.drop_last()[i]));
        lemma_dec_val_nonneg(s.drop_last());
        assert(dec_val_of(s.drop_last()) * 10 >= 0) by (nonlinear_arith)
            requires
                dec_val_of(s.drop_last()) >= 0,
        ;
    }
}

/// A digit string is worth at least any of its prefixes.
pub proof fn lemma_dec_val_prefix(s: Seq<char>, j: int)
    requires
        0 <= j <= s.len(),
        forall|i: int| 0 <= i < s.len() ==> is_dec_digit(#[trigger] s[i]),
    ensures
        dec_val_of(s.take(j)) <= dec_val_of(s),
    decreases s.len() - j,
{
    if j < s.len() {
        lemma_dec_val_prefix(s, j + 1);
        assert(s.take(j + 1).drop_last() =~= s.take(j));
        assert(s.take(j + 1).last() == s[j]);
        assert(forall|i: int|
            0 <= i < s.take(j).len() ==> is_dec_digit(#[trigger] s.take(j)[i]));
        lemma_dec_val_nonneg(s.take(j));
        let v = dec_val_of(s.take(j));
        assert(v <= v * 10) by (nonlinear_arith)
            requires
                v >= 0,
        ;
        assert(dec_val_of(s.take(j + 1)) >= v);
    } else {
        assert(s.take(j) =~= s);
    }
}

/// Milliseconds per duration unit: seconds, minutes, hours, days, years.
pub open spec fn duration_unit_millis(c: char) -> int {
    if c == 's' {
        1000
    } else if c == 'm' {
        60000
    } else if c == 'h' {
        3600000
    } else if c == 'd' {
        86400000
    } else if c == 'a' {
        31536000000
    } else {
        0
    }
}

/// The duration grammar: one or more digits followed by exactly one of
/// the unit letters.
pub open spec fn duration_shape_ok(s: Seq<char>) -> bool {
    &&& s.len() >= 2
    &&& forall|i: int| 0 <= i < s.len() - 1 ==> is_dec_digit(#[trigger] s[i])
    &&& duration_unit_millis(s.last()) > 0
}

/// The milliseconds a well-shaped duration string denotes.
pub open spec fn duration_millis_of(s: Seq<char>) -> int {
    dec_val_of(s.take(s.len() - 1)) * duration_unit_millis(s.last())
}

/// A duration parsed from a string of the form `<n>(s|m|h|d|a)`.
#[derive(Debug, Clone, Copy)]
pub struct FromStrDuration(pub TimeSpan);

impl FromStrDuration {
    /// Parse `<digits><unit>`.  Succeeds exactly on well-shaped strings
    /// whose value fits 64-bit milliseconds, and then returns that value.
    pub fn from_str(s: &str) -> (r: Result<FromStrDuration, String>)
        ensures
            (r is Ok) <==> duration_shape_ok(s@) && duration_millis_of(s@) <= u64::MAX,
            r matches Ok(d) ==> d.0.millis == duration_millis_of(s@),
    {
        let n = s.unicode_len();
        if n < 2 {
            return Err("invalid duration format".to_owned());
        }
        let suffix = s.get_char(n - 1);
        let unit: u64 = if suffix == 's' {
            1000
        } else if suffix == 'm' {
            60000
        } else if suffix == 'h' {
            3600000
        } else if suffix == 'd' {
            86400000
        } else if suffix == 'a' {
            31536000000
        } else {
            return Err("invalid duration suffix".to_owned());
        };
        assert(unit == duration_unit_millis(s@.last()));
        let ghost digits = s@.take(s@.len() - 1);
        let mut acc: u64 = 0;
        let mut i: usize = 0;
        while i < n - 1
            invariant
                i <= n - 1,
                n == s@.len(),
                n >= 2,
                digits == s@.take(n - 1),
                unit == duration_unit_millis(s@.last()),
                unit >= 1,
                forall|k: int| 0 <= k < i ==> is_dec_digit(#[trigger] s@[k]),
                acc == dec_val_of(s@.take(i as int)),
            decreases n - 1 - i,
        {
            let c = s.get_char(i);
            let v = c as u32;
            if v < 48 || v > 57 {
                proof {
                    assert(!is_dec_digit(s@[i as int]));
                    assert(!duration_shape_ok(s@));
                }
                return Err("invalid duration format".to_owned());
            }
            let d = (v - 48) as u64;
            let step = match acc.checked_mul(10) {
                Some(x) => x.checked_add(d),
                None => None,
            };
            match step {
                Some(x) => {
                    acc = x;
                },
                None => {
                    // The prefix alone exceeds the range, so the value of
                    // the whole digit string does too, whatever the shape.
                    proof {
                        assert(dec_val_of(s@.take(i + 1)) > u64::MAX) by {
                            assert(s@.take(i + 1).drop_last() =~= s@.take(i as int));
                            assert(s@.take(i + 1).last() == s@[i as int]);
                        }
                        if duration_shape_ok(s@) {
                            lemma_dec_val_prefix(digits, i + 1);
                            assert(digits.take(i + 1) =~= s@.take(i + 1));
                            let whole = dec_val_of(digits);
                            let u = duration_unit_millis(s@.last());
                            assert(whole * u >= whole) by (nonlinear_arith)
                                requires
                                    whole >= 0,
                                    u >= 1,
                            ;
                        }
                    }
                    return Err("duration too large".to_owned());
                },
            }
            i = i + 1;
            proof {
                assert(s@.take(i as int).drop_last() =~= s@.take(i - 1));
                assert(s@.take(i as int).last() == s@[i - 1]);
            }
        }
        proof {
            assert(digits =~= s@.take(i as int));
            lemma_dec_val_nonneg(digits);
        }
        match acc.checked_mul(unit) {
            Some(ms) => {
                proof {
                    assert(duration_shape_ok(s@));
                }
                Ok(FromStrDuration(TimeSpan { millis: ms }))
            },
            None => {
                return Err("duration too large".to_owned());
            },
        }
    }
}

/// Transport protocol named in a `netinfo` string.
#[derive(Debug, Clone, Copy, PartialEq, Eq, Structural)]
pub enum TransportType {
    TCP,
    UDP,
}

/// The string starts with `tcp`, in any letter case.
pub open spec fn netinfo_is_tcp(s: Seq<char>) -> bool {
    s.len() >= 3 && (s[0] == 't' || s[0] == 'T') && (s[1] == 'c' || s[1] == 'C') && (s[2] == 'p'
        || s[2] == 'P')
}

/// The string starts with `udp`, in any letter case.
pub open spec fn netinfo_is_udp(s: Seq<char>) -> bool {
    s.len() >= 3 && (s[0] == 'u' || s[0] == 'U') && (s[1] == 'd' || s[1] == 'D') && (s[2] == 'p'
        || s[2] == 'P')
}

/// The transport named by a `netinfo` string such as `tcp/…` or `udp/…`.
/// The process would abort on anything else, so anything else is ruled
/// out up front.
fn netinfo_transport_type(netinfo: &String) -> (r: TransportType)
    requires
        netinfo_is_tcp(netinfo@) || netinfo_is_udp(netinfo@),
    ensures
        r == TransportType::TCP <==> netinfo_is_tcp(netinfo@),
        r == TransportType::UDP <==> netinfo_is_udp(netinfo@),
{
    let c0 = netinfo.as_str().get_char(0);
    if c0 == 't' || c0 == 'T' {
        TransportType::TCP
    } else {
        TransportType::UDP
    }
}

/// Whence the Sink's input comes.
#[derive(Debug, Clone, Copy, PartialEq, Eq, Structural, Hash)]
pub enum InputChannel {
    NoInput,
    Stdin,
    File,
    Tcp,
    Udp,
}

/// Where a target's output goes.
#[derive(Debug, Clone, Copy, PartialEq, Eq, Structural, Hash)]
pub enum OutputChannel {
    NoOutput,
    Stdout,
    File,
    Tcp,
    Udp,
}

/// How a server target signals readiness: after its `n`-th `bind` or
/// `listen` call.  The count `0` is the internal sentinel for "first
/// occurrence"; the configuration grammar never produces it.
#[derive(Debug, Clone, Copy, PartialEq, Eq, Structural, Hash)]
pub enum ServerReadySignalKind {
    Bind(u64),
    Listen(u64),
}

/// `c` matches the lowercase letter `l`, in either case.
pub open spec fn eq_ci(c: char, l: char) -> bool {
    c == l || c as u32 + 32 == l as u32
}

/// `s` spells the lowercase keyword `kw`, in any letter case.
pub open spec fn seq_eq_ci(s: Seq<char>, kw: Seq<char>) -> bool {
    s.len() == kw.len() && forall|i: int| 0 <= i < s.len() ==> eq_ci(#[trigger] s[i], kw[i])
}

/// Case-insensitive comparison against a lowercase keyword.
fn str_eq_ci(s: &str, kw: &str) -> (r: bool)
    ensures
        r == seq_eq_ci(s@, kw@),
{
    let n = s.unicode_len();
    let m = kw.unicode_len();
    if n != m {
        return false;
    }
    let mut i: usize = 0;
    while i < n
        invariant
            i <= n,
            n == s@.len(),
            n == kw@.len(),
            forall|k: int| 0 <= k < i ==> eq_ci(#[trigger] s@[k], kw@[k]),
        decreases n - i,
    {
        let c = s.get_char(i);
        let l = kw.get_char(i);
        if !(c == l || (c as u32) + 32 == (l as u32)) {
            return false;
        }
        i = i + 1;
    }
    true
}

/// The digits of a `server-ready-on` count: nonempty, no leading zero.
pub open spec fn ready_count_shape(s: Seq<char>) -> bool {
    &&& s.len() >= 1
    &&& (forall|i: int| 0 <= i < s.len() ==> is_dec_digit(#[trigger] s[i]))
    &&& s[0] != '0'
}

/// What a `server-ready-on` string denotes, if anything: `bind` or
/// `listen` (any letter case), optionally with a parenthesised positive
/// occurrence count.  Without a count the sentinel `0` ("first
/// occurrence") is used; a literal `(0)` is not part of the grammar.
pub open spec fn ready_kind_of(s: Seq<char>) -> Option<ServerReadySignalKind> {
    if seq_eq_ci(s, "bind"@) {
        Some(ServerReadySignalKind::Bind(0))
    } else if seq_eq_ci(s, "listen"@) {
        Some(ServerReadySignalKind::Listen(0))
    } else if exists|k: int|
        0 <= k < s.len() && #[trigger] s[k] == '(' && (forall|j: int| 0 <= j < k ==> s[j] != '(') {
        let k = choose|k: int|
            0 <= k < s.len() && #[trigger] s[k] == '(' && (forall|j: int|
                0 <= j < k ==> s[j] != '(');
        let kw = s.take(k);
        let digits = s.subrange(k + 1, s.len() - 1);
        if s.last() == ')' && k + 2 <= s.len() - 1 && ready_count_shape(digits) && dec_val_of(
            digits,
        ) <= u64::MAX {
            if seq_eq_ci(kw, "bind"@) {
                Some(ServerReadySignalKind::Bind(dec_val_of(digits) as u64))
            } else if seq_eq_ci(kw, "listen"@) {
                Some(ServerReadySignalKind::Listen(dec_val_of(digits) as u64))
            } else {
                None
            }
        } else {
            None
        }
    } else {
        None
    }
}

/// The first opening parenthesis is the one the grammar splits at.
proof fn lemma_ready_choose(s: Seq<char>, k: int)
    requires
        0 <= k < s.len(),
        s[k] == '(',
        forall|j: int| 0 <= j < k ==> s[j] != '(',
    ensures
        exists|w: int|
            0 <= w < s.len() && #[trigger] s[w] == '(' && (forall|j: int|
                0 <= j < w ==> s[j] != '('),
        (choose|w: int|
            0 <= w < s.len() && #[trigger] s[w] == '(' && (forall|j: int|
                0 <= j < w ==> s[j] != '(')) == k,
{
    assert(0 <= k < s.len() && s[k] == '(' && (forall|j: int| 0 <= j < k ==> s[j] != '('));
    let w = choose|w: int|
        0 <= w < s.len() && #[trigger] s[w] == '(' && (forall|j: int| 0 <= j < w ==> s[j] != '(');
    if w < k {
        assert(s[w] == '(');
        assert(false);
    } else if w > k {
        assert(s[k] == '(');
        assert(false);
    }
}

/// Parse a `server-ready-on` value: `bind`, `listen`, `bind(<n>)` or
/// `listen(<n>)` with a positive count `n`.  Succeeds exactly on the
/// strings of that grammar.
pub fn parse_server_ready(s: &str) -> (r: Result<ServerReadySignalKind, ConfigError>)
    ensures
        match r {
            Ok(k) => ready_kind_of(s@) == Some(k),
            Err(_) => ready_kind_of(s@) is None,
        },
{
    if str_eq_ci(s, "bind") {
        return Ok(ServerReadySignalKind::Bind(0));
    }
    if str_eq_ci(s, "listen") {
        return Ok(ServerReadySignalKind::Listen(0));
    }
    let n = s.unicode_len();
    // Find the first opening parenthesis.
    let mut k: usize = 0;
    let mut found = false;
    let mut i: usize = 0;
    while i < n
        invariant
            i <= n,
            n == s@.len(),
            found ==> k < i && s@[k as int] == '(' && (forall|j: int| 0 <= j < k ==> s@[j] != '('),
            !found ==> forall|j: int| 0 <= j < i ==> s@[j] != '(',
        decreases n - i,
    {
        if s.get_char(i) == '(' {
            if !found {
                k = i;
                found = true;
            }
        }
        i = i + 1;
    }
    if !found {
        return Err(ConfigError::InvalidValue("server-ready-on".to_owned()));
    }
    proof {
        let w = choose|w: int|
            0 <= w < s@.len() && #[trigger] s@[w] == '(' && (forall|j: int|
                0 <= j < w ==> s@[j] != '(');
        assert(w == k as int);
    }
    if n - k < 3 || s.get_char(n - 1) != ')' {
        proof {
            lemma_ready_choose(s@, k as int);
        }
        return Err(ConfigError::InvalidValue("server-ready-on".to_owned()));
    }
    // The count digits between the parentheses.
    let ghost digits = s@.subrange(k as int + 1, s@.len() - 1);
    let first = s.get_char(k + 1);
    if first == '0' || !(first as u32 >= 48 && first as u32 <= 57) {
        proof {
            lemma_ready_choose(s@, k as int);
            assert(digits[0] == s@[k + 1]);
            assert(!ready_count_shape(digits));
        }
        return Err(ConfigError::InvalidValue("server-ready-on".to_owned()));
    }
    let mut acc: u64 = 0;
    let mut p: usize = k + 1;
    while p < n - 1
        invariant
            k + 1 <= p <= n - 1,
            n == s@.len(),
            n >= k + 3,
            s@[k as int] == '(',
            forall|j: int| 0 <= j < k ==> s@[j] != '(',
            s@.last() == ')',
            !seq_eq_ci(s@, "bind"@),
            !seq_eq_ci(s@, "listen"@),
            digits == s@.subrange(k as int + 1, n - 1),
            forall|j: int| k < j < p ==> is_dec_digit(#[trigger] s@[j]),
            acc == dec_val_of(digits.take(p - k - 1)),
        decreases n - 1 - p,
    {
        let c = s.get_char(p);
        let v = c as u32;
        if v < 48 || v > 57 {
            proof {
                lemma_ready_choose(s@, k as int);
                assert(digits[p - k - 1] == s@[p as int]);
                assert(!ready_count_shape(digits));
            }
            return Err(ConfigError::InvalidValue("server-ready-on".to_owned()));
        }
        let d = (v - 48) as u64;
        let step = match acc.checked_mul(10) {
            Some(x) => x.checked_add(d),
            None => None,
        };
        match step {
            Some(x) => {
                acc = x;
            },
            None => {
                proof {
                    lemma_ready_choose(s@, k as int);
                    assert(dec_val_of(digits.take(p - k)) > u64::MAX) by {
                        assert(digits.take(p - k).drop_last() =~= digits.take(p - k - 1));
                        assert(digits.take(p - k).last() == digits[p - k - 1]);
                        assert(digits[p - k - 1] == s@[p as int]);
                    }
                    if ready_count_shape(digits) {
                        lemma_dec_val_prefix(digits, p - k);
                    }
                }
                return Err(ConfigError::InvalidValue("server-ready-on".to_owned()));
            },
        }
        p = p + 1;
        proof {
            assert(digits.take(p - k - 1).drop_last() =~= digits.take(p - k - 2));
            assert(digits.take(p - k - 1).last() == digits[p - k - 2]);
            assert(digits[p - k - 2] == s@[p - 1]);
        }
    }
    proof {
        lemma_ready_choose(s@, k as int);
        assert(digits.take(n - 1 - k as int - 1) =~= digits);
        assert(ready_count_shape(digits));
    }
    let kw_is_bind = {
        let kw = s.substring_char(0, k);
        proof {
            assert(kw@ =~= s@.take(k as int));
        }
        str_eq_ci(kw, "bind")
    };
    if kw_is_bind {
        return Ok(ServerReadySignalKind::Bind(acc));
    }
    let kw = s.substring_char(0, k);
    proof {
        assert(kw@ =~= s@.take(k as int));
    }
    if str_eq_ci(kw, "listen") {
        return Ok(ServerReadySignalKind::Listen(acc));
    }
    proof {
        assert(!seq_eq_ci(s@, "bind"@) && !seq_eq_ci(s@, "listen"@)) by {
            reveal_strlit("bind");
            reveal_strlit("listen");
            assert(s@[k as int] == '(');
            if seq_eq_ci(s@, "bind"@) {
                assert(eq_ci(s@[k as int], "bind"@[k as int]));
            }
            if seq_eq_ci(s@, "listen"@) {
                assert(eq_ci(s@[k as int], "listen"@[k as int]));
            }
        }
    }
    Err(ConfigError::InvalidValue("server-ready-on".to_owned()))
}

/// What an input-channel name denotes, if anything.
pub open spec fn input_channel_of(s: Seq<char>) -> Option<InputChannel> {
    if seq_eq_ci(s, "none"@) {
        Some(InputChannel::NoInput)
    } else if seq_eq_ci(s, "stdin"@) {
        Some(InputChannel::Stdin)
    } else if seq_eq_ci(s, "file"@) {
        Some(InputChannel::File)
    } else if seq_eq_ci(s, "tcp"@) {
        Some(InputChannel::Tcp)
    } else if seq_eq_ci(s, "udp"@) {
        Some(InputChannel::Udp)
    } else {
        None
    }
}

/// Parse an input-channel name (`none`, `stdin`, `file`, `tcp`, `udp`,
/// any letter case).
pub fn parse_input_channel(s: &str) -> (r: Result<InputChannel, ConfigError>)
    ensures
        match r {
            Ok(c) => input_channel_of(s@) == Some(c),
            Err(_) => input_channel_of(s@) is None,
        },
{
    if str_eq_ci(s, "none") {
        Ok(InputChannel::NoInput)
    } else if str_eq_ci(s, "stdin") {
        Ok(InputChannel::Stdin)
    } else if str_eq_ci(s, "file") {
        Ok(InputChannel::File)
    } else if str_eq_ci(s, "tcp") {
        Ok(InputChannel::Tcp)
    } else if str_eq_ci(s, "udp") {
        Ok(InputChannel::Udp)
    } else {
        Err(ConfigError::InvalidValue("input channel".to_owned()))
    }
}

/// What an output-channel name denotes, if anything.
pub open spec fn output_channel_of(s: Seq<char>) -> Option<OutputChannel> {
    if seq_eq_ci(s, "none"@) {
        Some(OutputChannel::NoOutput)
    } else if seq_eq_ci(s, "stdout"@) {
        Some(OutputChannel::Stdout)
    } else if seq_eq_ci(s, "file"@) {
        Some(OutputChannel::File)
    } else if seq_eq_ci(s, "tcp"@) {
        Some(OutputChannel::Tcp)
    } else if seq_eq_ci(s, "udp"@) {
        Some(OutputChannel::Udp)
    } else {
        None
    }
}

/// Parse an output-channel name (`none`, `stdout`, `file`, `tcp`, `udp`,
/// any letter case).
pub fn parse_output_channel(s: &str) -> (r: Result<OutputChannel, ConfigError>)
    ensures
        match r {
            Ok(c) => output_channel_of(s@) == Some(c),
            Err(_) => output_channel_of(s@) is None,
        },
{
    if str_eq_ci(s, "none") {
        Ok(OutputChannel::NoOutput)
    } else if str_eq_ci(s, "stdout") {
        Ok(OutputChannel::Stdout)
    } else if str_eq_ci(s, "file") {
        Ok(OutputChannel::File)
    } else if str_eq_ci(s, "tcp") {
        Ok(OutputChannel::Tcp)
    } else if str_eq_ci(s, "udp") {
        Ok(OutputChannel::Udp)
    } else {
        Err(ConfigError::InvalidValue("output channel".to_owned()))
    }
}

/// Attributes shared between the Source and the Sink, or tied to neither.
#[derive(Debug, Clone)]
pub struct GeneralConfig {
    pub input_dir: String,
    pub work_dir: String,
    pub tracing_timeout: TimeSpan,
    pub jail_uid: Option<u32>,
    pub jail_gid: Option<u32>,
    pub jail_drop_to_sudo_callee: bool,
}

impl GeneralConfig {
    /// Jail IDs come in pairs: both set or neither.
    pub open spec fn jail_consistent(&self) -> bool {
        (self.jail_uid is Some) <==> (self.jail_gid is Some)
    }

    /// The work directory joined with one more component.
    fn work_subdir(&self, component: &str) -> (r: String)
        ensures
            r@ == self.work_dir@ + component@,
    {
        self.work_dir.clone().concat(component)
    }

    pub fn aflnet_workdir(&self) -> (r: String)
        ensures
            r@ == self.work_dir@ + "/aflnet-workdir"@,
    {
        self.work_subdir("/aflnet-workdir")
    }

    pub fn interesting_pcaps_path(&self) -> (r: String)
        ensures
            r@ == self.work_dir@ + "/interesting-pcaps"@,
    {
        self.work_subdir("/interesting-pcaps")
    }

    pub fn crashing_pcaps_path(&self) -> (r: String)
        ensures
            r@ == self.work_dir@ + "/crashing-pcaps"@,
    {
        self.work_subdir("/crashing-pcaps")
    }

    pub fn stateafl_workdir(&self) -> (r: String)
        ensures
            r@ == self.work_dir@ + "/stateafl-workdir"@,
    {
        self.work_subdir("/stateafl-workdir")
    }

    pub fn sgfuzz_workdir(&self) -> (r: String)
        ensures
            r@ == self.work_dir@ + "/sgfuzz-workdir"@,
    {
        self.work_subdir("/sgfuzz-workdir")
    }

    pub fn sgfuzz_seed_out_dir(&self) -> (r: String)
        ensures
            r@ == self.work_dir@ + "/sgfuzz-workdir"@ + "/findings"@,
    {
        self.sgfuzz_workdir().concat("/findings")
    }

    pub fn sgfuzz_seed_with_ts_out_dir(&self) -> (r: String)
        ensures
            r@ == self.work_dir@ + "/sgfuzz-workdir"@ + "/findings-ts"@,
    {
        self.sgfuzz_workdir().concat("/findings-ts")
    }

    pub fn sgfuzz_crash_out_dir(&self) -> (r: String)
        ensures
            r@ == self.work_dir@ + "/sgfuzz-workdir"@ + "/crashes"@,
    {
        self.sgfuzz_workdir().concat("/crashes")
    }

    pub fn llvm_cov_directory(&self) -> (r: String)
        ensures
            r@ == self.work_dir@ + "/llvm-cov"@,
    {
        self.work_subdir("/llvm-cov")
    }

    pub fn interesting_path(&self) -> (r: String)
        ensures
            r@ == self.work_dir@ + "/interesting"@,
    {
        self.work_subdir("/interesting")
    }

    pub fn valgrind_path(&self) -> (r: String)
        ensures
            r@ == self.work_dir@ + "/valgrind"@,
    {
        self.work_subdir("/valgrind")
    }

    pub fn crashing_path(&self) -> (r: String)
        ensures
            r@ == self.work_dir@ + "/crashing"@,
    {
        self.work_subdir("/crashing")
    }

    pub fn pcap_path(&self) -> (r: String)
        ensures
            r@ == self.work_dir@ + "/pcaps"@,
    {
        self.work_subdir("/pcaps")
    }

    pub fn asan_reports_path(&self) -> (r: String)
        ensures
            r@ == self.work_dir@ + "/asan"@,
    {
        self.work_subdir("/asan")
    }

    pub fn queue_path(&self) -> (r: String)
        ensures
            r@ == self.work_dir@ + "/queue"@,
    {
        self.work_subdir("/queue")
    }

    pub fn patch_points_path(&self) -> (r: String)
        ensures
            r@ == self.work_dir@ + "/0/source/state/patch_points.json"@,
    {
        self.work_subdir("/0/source/state/patch_points.json")
    }

    pub fn introspection_path(&self) -> (r: String)
        ensures
            r@ == self.work_dir@ + "/introspection.json"@,
    {
        self.work_subdir("/introspection.json")
    }

    /// The jail is enabled when a jail UID is configured.
    pub fn jail_enabled(&self) -> (r: bool)
        ensures
            r == (self.jail_uid is Some),
    {
        self.jail_uid.is_some()
    }

    /// Both jail IDs, when the jail is enabled.
    pub fn jail_uid_gid(&self) -> (r: Option<(u32, u32)>)
        requires
            self.jail_consistent(),
        ensures
            match r {
                Some(p) => self.jail_uid == Some(p.0) && self.jail_gid == Some(p.1),
                None => self.jail_uid is None,
            },
    {
        match (&self.jail_uid, &self.jail_gid) {
            (Some(u), Some(g)) => Some((*u, *g)),
            _ => None,
        }
    }
}

/// Attributes of the Source application.
#[derive(Debug, Clone)]
pub struct SourceConfig {
    pub env: Vec<(String, String)>,
    pub bin_path: String,
    pub arguments: Vec<String>,
    pub input_type: InputChannel,
    pub output_type: OutputChannel,
    pub output_suffix: Option<String>,
    pub log_stdout: bool,
    pub log_stderr: bool,
    pub is_server: Option<bool>,
    pub server_port: Option<String>,
    pub server_ready_on: Option<ServerReadySignalKind>,
    pub allowed_patch_points: Option<Vec<MutationSiteID>>,
    pub max_patch_points: Option<i64>,
    pub blocked_patchpoint_instructions: Option<Vec<u64>>,
    pub working_dir: Option<String>,
}

/// Attributes of the Sink application.
#[derive(Debug, Clone)]
pub struct SinkConfig {
    pub bin_path: String,
    pub arguments: Vec<String>,
    pub env: Vec<(String, String)>,
    pub input_type: InputChannel,
    pub output_type: OutputChannel,
    pub log_stdout: bool,
    pub log_stderr: bool,
    pub allow_unstable_sink: bool,
    pub is_server: Option<bool>,
    pub server_port: Option<String>,
    pub server_ready_on: Option<ServerReadySignalKind>,
    pub working_dir: Option<String>,
    pub send_sigterm: bool,
}

/// Attributes of the coverage Sink binary.
#[derive(Debug, Clone)]
pub struct SinkCovConfig {
    pub bin_path: String,
    pub env: Vec<(String, String)>,
    pub working_dir: Option<String>,
}

/// Attributes of the vanilla (uninstrumented) application.
#[derive(Debug, Clone)]
pub struct VanillaConfig {
    pub env: Vec<(String, String)>,
    pub bin_path: String,
    pub arguments: Vec<String>,
}

/// Configuration of the AFL-Net competitor wrapper.
#[derive(Debug, Clone)]
pub struct AflNetConfig {
    pub env: Vec<(String, String)>,
    pub bin_path: String,
    pub input_dir: String,
    pub protocol: String,
    pub netinfo: String,
    pub send_sigterm: bool,
    pub enable_state_aware_mode: bool,
}

impl AflNetConfig {
    /// The transport named in `netinfo`.
    pub fn transport_type(&self) -> (r: TransportType)
        requires
            netinfo_is_tcp(self.netinfo@) || netinfo_is_udp(self.netinfo@),
        ensures
            r == TransportType::TCP <==> netinfo_is_tcp(self.netinfo@),
            r == TransportType::UDP <==> netinfo_is_udp(self.netinfo@),
    {
        netinfo_transport_type(&self.netinfo)
    }
}

/// Configuration of the StateAFL competitor wrapper.
#[derive(Debug, Clone)]
pub struct StateAflConfig {
    pub bin_path: String,
    pub env: Vec<(String, String)>,
    pub input_dir: String,
    pub protocol: String,
    pub netinfo: String,
    pub send_sigterm: bool,
    pub enable_state_aware_mode: bool,
}

/// The `netinfo` string ends in `/<digits>` denoting a port.
pub open spec fn netinfo_port_ok(s: Seq<char>) -> bool {
    exists|k: int|
        {
            &&& 0 <= k < s.len() - 1
            &&& #[trigger] s[k] == '/'
            &&& (forall|j: int| k < j < s.len() ==> is_dec_digit(#[trigger] s[j]))
            &&& dec_val_of(s.skip(k + 1)) <= u16::MAX
        }
}

/// Configuration of the SGFuzz competitor wrapper.
#[derive(Debug, Clone)]
pub struct SGFuzzConfig {
    pub bin_path: String,
    pub env: Vec<(String, String)>,
    pub args: Option<Vec<String>>,
    pub input_dir: String,
    pub netinfo: String,
}

impl SGFuzzConfig {
    /// The destination port: the digits after the last `/` of `netinfo`.
    /// The process would abort on a malformed string, so malformed
    /// strings are ruled out up front.
    pub fn dst_port(&self) -> (r: u16)
        requires
            netinfo_port_ok(self.netinfo@),
        ensures
            exists|k: int|
                {
                    &&& 0 <= k < self.netinfo@.len() - 1
                    &&& #[trigger] self.netinfo@[k] == '/'
                    &&& (forall|j: int| k < j < self.netinfo@.len() ==> self.netinfo@[j] != '/')
                    &&& r == dec_val_of(self.netinfo@.skip(k + 1))
                },
    {
        let s = self.netinfo.as_str();
        let n = s.unicode_len();
        // Find the last slash.
        let mut slash: usize = 0;
        let mut i: usize = 0;
        let mut found = false;
        while i < n
            invariant
                i <= n,
                n == s@.len(),
                found ==> slash < i && s@[slash as int] == '/' && (forall|j: int|
                    slash < j < i ==> s@[j] != '/'),
                !found ==> forall|j: int| 0 <= j < i ==> s@[j] != '/',
            decreases n - i,
        {
            if s.get_char(i) == '/' {
                slash = i;
                found = true;
            }
            i = i + 1;
        }
        proof {
            let w = choose|k: int|
                {
                    &&& 0 <= k < s@.len() - 1
                    &&& #[trigger] s@[k] == '/'
                    &&& (forall|j: int| k < j < s@.len() ==> is_dec_digit(#[trigger] s@[j]))
                    &&& dec_val_of(s@.skip(k + 1)) <= u16::MAX
                };
            assert(found);
            assert(slash as int == w) by {
                if slash < w {
                    assert(s@[w] == '/');
                } else if slash > w {
                    assert(is_dec_digit(s@[slash as int]));
                }
            }
        }
        // Parse the digits after it.
        let ghost digits = s@.skip(slash as int + 1);
        let mut acc: u32 = 0;
        let mut p: usize = slash + 1;
        while p < n
            invariant
                slash < p <= n,
                n == s@.len(),
                digits == s@.skip(slash as int + 1),
                forall|j: int| slash < j < s@.len() ==> is_dec_digit(#[trigger] s@[j]),
                acc == dec_val_of(s@.skip(slash as int + 1).take(p - slash - 1)),
                acc <= u16::MAX,
                dec_val_of(digits) <= u16::MAX,
            decreases n - p,
        {
            let c = s.get_char(p);
            let v = c as u32;
            let d = v - 48;
            proof {
                let pre = digits.take(p - slash - 1);
                let cur = digits.take(p + 1 - slash - 1);
                assert(cur.drop_last() =~= pre);
                assert(cur.last() == s@[p as int]);
                assert(forall|i2: int| 0 <= i2 < digits.len() ==> is_dec_digit(#[trigger] digits[i2]));
                lemma_dec_val_prefix(digits, p + 1 - slash - 1);
                lemma_dec_val_nonneg(pre);
            }
            acc = acc * 10 + d;
            p = p + 1;
        }
        proof {
            assert(digits.take(n - slash - 1) =~= digits);
        }
        acc as u16
    }

    /// The transport named in `netinfo`.
    pub fn transport_type(&self) -> (r: TransportType)
        requires
            netinfo_is_tcp(self.netinfo@) || netinfo_is_udp(self.netinfo@),
        ensures
            r == TransportType::TCP <==> netinfo_is_tcp(self.netinfo@),
            r == TransportType::UDP <==> netinfo_is_udp(self.netinfo@),
    {
        netinfo_transport_type(&self.netinfo)
    }
}

/// Parameters of the Discovery phase.
#[derive(Debug, Clone, PartialEq, Eq, Structural)]
pub struct DiscoveryPhaseConfig {
    pub enabled: bool,
    pub batch_size: u32,
    pub terminate_when_finished: bool,
    pub batch_cov_timeout: TimeSpan,
    pub phase_cov_timeout: TimeSpan,
}

impl Default for DiscoveryPhaseConfig {
    /// Enabled, batches of 50, no termination, 10 min / 20 min timeouts.
    fn default() -> (r: Self)
        ensures
            r == (DiscoveryPhaseConfig {
                enabled: true,
                batch_size: 50,
                terminate_when_finished: false,
                batch_cov_timeout: TimeSpan { millis: 600000 },
                phase_cov_timeout: TimeSpan { millis: 1200000 },
            }),
    {
        DiscoveryPhaseConfig {
            enabled: true,
            batch_size: 50,
            terminate_when_finished: false,
            batch_cov_timeout: TimeSpan { millis: 600000 },
            phase_cov_timeout: TimeSpan { millis: 1200000 },
        }
    }
}

/// Parameters of the Mutate phase.
#[derive(Debug, Clone, PartialEq, Eq, Structural)]
pub struct MutatePhaseConfig {
    pub weight: u32,
    pub entry_cov_timeout: TimeSpan,
}

impl Default for MutatePhaseConfig {
    /// Weight 40, 15 min timeout.
    fn default() -> (r: Self)
        ensures
            r == (MutatePhaseConfig { weight: 40, entry_cov_timeout: TimeSpan { millis: 900000 } }),
    {
        MutatePhaseConfig { weight: 40, entry_cov_timeout: TimeSpan { millis: 900000 } }
    }
}

/// Parameters of the Add phase.
#[derive(Debug, Clone, PartialEq, Eq, Structural)]
pub struct AddPhaseConfig {
    pub weight: u32,
    pub batch_size: u32,
    pub select_unfuzzed_weight: u32,
    pub select_yielding_weight: u32,
    pub select_random_weight: u32,
    pub entry_cov_timeout: TimeSpan,
}

impl Default for AddPhaseConfig {
    /// Weight 3, batches of 12, class weights 1:1:1, 15 min timeout.
    fn default() -> (r: Self)
        ensures
            r == (AddPhaseConfig {
                weight: 3,
                batch_size: 12,
                select_unfuzzed_weight: 1,
                select_yielding_weight: 1,
                select_random_weight: 1,
                entry_cov_timeout: TimeSpan { millis: 900000 },
            }),
    {
        AddPhaseConfig {
            weight: 3,
            batch_size: 12,
            select_unfuzzed_weight: 1,
            select_yielding_weight: 1,
            select_random_weight: 1,
            entry_cov_timeout: TimeSpan { millis: 900000 },
        }
    }
}

impl AddPhaseConfig {
    /// The sum of the three selection-class weights.  The selection
    /// algorithm divides by it, so zero is ruled out up front.
    pub fn weights_sum(&self) -> (r: u32)
        requires
            self.select_unfuzzed_weight + self.select_yielding_weight + self.select_random_weight
                <= u32::MAX,
            self.select_unfuzzed_weight + self.select_yielding_weight + self.select_random_weight
                > 0,
        ensures
            r == self.select_unfuzzed_weight + self.select_yielding_weight
                + self.select_random_weight,
            r > 0,
    {
        let mut ret: u32 = 0;
        ret = ret + self.select_unfuzzed_weight;
        ret = ret + self.select_yielding_weight;
        ret = ret + self.select_random_weight;
        ret
    }
}

/// Parameters of the Combine phase.
#[derive(Debug, Clone, PartialEq, Eq, Structural)]
pub struct CombinePhaseConfig {
    pub weight: u32,
    pub entry_cov_timeout: TimeSpan,
}

impl Default for CombinePhaseConfig {
    /// Weight 10, 10 min timeout.
    fn default() -> (r: Self)
        ensures
            r == (CombinePhaseConfig {
                weight: 10,
                entry_cov_timeout: TimeSpan { millis: 600000 },
            }),
    {
        CombinePhaseConfig { weight: 10, entry_cov_timeout: TimeSpan { millis: 600000 } }
    }
}

/// Configuration of the four fuzzing phases.
#[derive(Debug, Clone, PartialEq, Eq, Structural)]
pub struct PhasesConfig {
    /// Only fuzz entries whose generation is at most this.
    pub generation_ceiling: Option<u32>,
    pub discovery: DiscoveryPhaseConfig,
    pub mutate: MutatePhaseConfig,
    pub add: AddPhaseConfig,
    pub combine: CombinePhaseConfig,
}

impl Default for PhasesConfig {
    /// Every phase at its default, no generation ceiling.
    fn default() -> (r: Self)
        ensures
            (r.generation_ceiling is None),
            r.discovery == (DiscoveryPhaseConfig {
                enabled: true,
                batch_size: 50,
                terminate_when_finished: false,
                batch_cov_timeout: TimeSpan { millis: 600000 },
                phase_cov_timeout: TimeSpan { millis: 1200000 },
            }),
            r.mutate == (MutatePhaseConfig {
                weight: 40,
                entry_cov_timeout: TimeSpan { millis: 900000 },
            }),
            r.add == (AddPhaseConfig {
                weight: 3,
                batch_size: 12,
                select_unfuzzed_weight: 1,
                select_yielding_weight: 1,
                select_random_weight: 1,
                entry_cov_timeout: TimeSpan { millis: 900000 },
            }),
            r.combine == (CombinePhaseConfig {
                weight: 10,
                entry_cov_timeout: TimeSpan { millis: 600000 },
            }),
    {
        PhasesConfig {
            generation_ceiling: None,
            discovery: Default::default(),
            mutate: Default::default(),
            add: Default::default(),
            combine: Default::default(),
        }
    }
}

/// A whole configuration: one Source/Sink pair plus the optional
/// competitor-fuzzer sections.
#[derive(Debug, Clone)]
pub struct Config {
    pub general: GeneralConfig,
    pub source: SourceConfig,
    pub phases: PhasesConfig,
    pub sink: SinkConfig,
    pub sink_cov: Option<SinkCovConfig>,
    pub vanilla: VanillaConfig,
    pub aflnet: Option<AflNetConfig>,
    pub stateafl: Option<StateAflConfig>,
    pub sgfuzz: Option<SGFuzzConfig>,
}

impl Config {
    /// Whether the Source is fed over the network.
    pub fn target_uses_network(&self) -> (r: bool)
        ensures
            r == (self.source.input_type == InputChannel::Tcp || self.source.input_type
                == InputChannel::Udp),
    {
        match self.source.input_type {
            InputChannel::Tcp | InputChannel::Udp => true,
            _ => false,
        }
    }

    /// The configured server port of whichever side is the server.  The
    /// process would abort when neither side is one, so that is ruled out
    /// up front.
    pub fn server_port(&self) -> (r: Option<String>)
        requires
            self.source.is_server == Some(true) || self.sink.is_server == Some(true),
        ensures
            self.source.is_server == Some(true) ==> (match (r, &self.source.server_port) {
                (Some(a), Some(b)) => a@ == b@,
                (None, None) => true,
                _ => false,
            }),
            self.source.is_server != Some(true) ==> (match (r, &self.sink.server_port) {
                (Some(a), Some(b)) => a@ == b@,
                (None, None) => true,
                _ => false,
            }),
    {
        let source_is_server = match self.source.is_server {
            Some(b) => b,
            None => false,
        };
        if source_is_server {
            match &self.source.server_port {
                Some(p) => Some(p.clone()),
                None => None,
            }
        } else {
            match &self.sink.server_port {
                Some(p) => Some(p.clone()),
                None => None,
            }
        }
    }
}

/// Why a configuration text was rejected.
#[derive(Debug)]
pub enum ConfigError {
    /// The file is not valid YAML.
    InvalidSyntax(String),
    /// A required attribute is missing.
    Missingattribute(String),
    /// A value violates a constraint.
    InvalidValue(String),
    /// A value has the wrong type.
    ConvertionFailed { value: String, expected_type: String },
    /// A required section is missing.
    MissingSection(String),
    /// An attribute no rule expects.
    UnexpectedAttribute(String),
}

impl ConfigError {
    /// A human-readable rendering of the error.
    pub fn message(&self) -> (r: String) {
        match self {
            ConfigError::InvalidSyntax(s) => "Invalid syntax: ".to_owned().concat(s.as_str()),
            ConfigError::Missingattribute(s) => "Missing attribute: ".to_owned().concat(
                s.as_str(),
            ),
            ConfigError::InvalidValue(s) => "Invalid value ".to_owned().concat(s.as_str()),
            ConfigError::ConvertionFailed { value, expected_type } => "Failed to convert "
                .to_owned().concat(value.as_str()).concat(" to type ").concat(
                expected_type.as_str(),
            ),
            ConfigError::MissingSection(s) => "Missing section ".to_owned().concat(s.as_str()),
            ConfigError::UnexpectedAttribute(s) => "Unexpected attribute ".to_owned().concat(
                s.as_str(),
            ),
        }
    }
}

/// Execution context of a target binary: its environment, path and
/// arguments.
pub trait TargetExecutionContext {
    /// Environment used during execution.
    fn env(&self) -> &Vec<(String, String)>;

    /// Path to the binary.
    fn bin_path(&self) -> &String;

    /// Arguments passed to the binary.
    fn arguments(&self) -> &Vec<String>;
}

/// Execution context accepted by the AFL-style competitor runners.
pub trait AflTargetExecutionContext: TargetExecutionContext {

}

impl TargetExecutionContext for VanillaConfig {
    fn env(&self) -> &Vec<(String, String)> {
        &self.env
    }

    fn bin_path(&self) -> &String {
        &self.bin_path
    }

    fn arguments(&self) -> &Vec<String> {
        &self.arguments
    }
}

impl TargetExecutionContext for SinkConfig {
    fn env(&self) -> &Vec<(String, String)> {
        &self.env
    }

    fn bin_path(&self) -> &String {
        &self.bin_path
    }

    fn arguments(&self) -> &Vec<String> {
        &self.arguments
    }
}

impl AflTargetExecutionContext for SinkConfig {

}

} // verus!
