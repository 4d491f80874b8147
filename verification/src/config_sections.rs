//! The configuration builder: from a YAML value tree to a [`Config`].
//!
//! Each section parser states exactly when it succeeds and what every
//! field of its section holds; `build_from_value` composes them, and
//! `from_str` puts the YAML text parser in front.  Checking that the
//! configured paths exist on disk is the embedding program's validation
//! step.

use vstd::prelude::*;
use vstd::string::StrSliceExecFns;
use vstd::string::StringExecFns;

use crate::config::{
    input_channel_of, output_channel_of, parse_input_channel, parse_output_channel,
    parse_server_ready, ready_kind_of, AflNetConfig, CombinePhaseConfig, Config, ConfigError,
    DiscoveryPhaseConfig, GeneralConfig, InputChannel, MutatePhaseConfig, AddPhaseConfig,
    OutputChannel, PhasesConfig, ServerReadySignalKind, SGFuzzConfig, SinkConfig, SinkCovConfig,
    SourceConfig, StateAflConfig, VanillaConfig, TimeSpan,
};
use crate::config_builder::{
    absent, bool_of, get_attr, get_bool_attr, get_opt_bool_attr, get_opt_duration_attr,
    get_opt_i64_attr, get_opt_string_attr, get_opt_u32_attr, get_string_attr, get_u32_attr,
    i64_of, spec_attr, str_eq, str_of, u32_of, duration_of,
};
use crate::mutation_cache::MutationSiteID;
use crate::yaml::YamlValue;

verus! {

/// A path: its text, resolved against the base directory when relative.
pub open spec fn resolved_path(base: Seq<char>, s: Seq<char>) -> Seq<char> {
    if s.len() > 0 && s[0] == '/' {
        s
    } else {
        base + seq!['/'] + s
    }
}

/// Every element is a string.
pub open spec fn all_strings(items: Seq<YamlValue>) -> bool {
    forall|i: int| 0 <= i < items.len() ==> (#[trigger] items[i]) is Str
}

/// The texts of a string sequence.
pub open spec fn string_views(items: Seq<YamlValue>) -> Seq<Seq<char>> {
    items.map_values(
        |v: YamlValue|
            match v {
                YamlValue::Str(s) => s@,
                _ => Seq::<char>::empty(),
            },
    )
}

/// A required list-of-strings attribute.
pub fn get_string_vec_attr(y: &YamlValue, name: &str) -> (r: Result<Vec<String>, ConfigError>)
    ensures
        (r is Ok) <==> (match spec_attr(*y, name@) {
            Some(YamlValue::Array(items)) => all_strings(items@),
            _ => false,
        }),
        r matches Ok(v) ==> (match spec_attr(*y, name@) {
            Some(YamlValue::Array(items)) => v@.len() == items@.len() && (forall|i: int|
                0 <= i < v@.len() ==> (#[trigger] v@[i])@ == string_views(items@)[i]),
            _ => false,
        }),
{
    match get_attr(y, name) {
        Some(YamlValue::Array(items)) => {
            let n = items.len();
            let mut out: Vec<String> = Vec::new();
            let mut i: usize = 0;
            while i < n
                invariant
                    i <= n,
                    n == items@.len(),
                    out@.len() == i,
                    spec_attr(*y, name@) == Some(YamlValue::Array(*items)),
                    forall|k: int| 0 <= k < i ==> (#[trigger] items@[k]) is Str,
                    forall|k: int|
                        0 <= k < i ==> (#[trigger] out@[k])@ == string_views(items@)[k],
                decreases n - i,
            {
                match &items[i] {
                    YamlValue::Str(s) => {
                        out.push(s.clone());
                    },
                    _ => {
                        return Err(
                            ConfigError::ConvertionFailed {
                                value: name.to_owned(),
                                expected_type: "String".to_owned(),
                            },
                        );
                    },
                }
                i = i + 1;
            }
            Ok(out)
        },
        _ => Err(
            ConfigError::ConvertionFailed {
                value: name.to_owned(),
                expected_type: "Array".to_owned(),
            },
        ),
    }
}

/// An optional list-of-strings attribute.
pub fn get_opt_string_vec_attr(y: &YamlValue, name: &str) -> (r: Result<
    Option<Vec<String>>,
    ConfigError,
>)
    ensures
        (r is Ok) <==> absent(spec_attr(*y, name@)) || (match spec_attr(*y, name@) {
            Some(YamlValue::Array(items)) => all_strings(items@),
            _ => false,
        }),
        r matches Ok(v) ==> (match v {
            None => absent(spec_attr(*y, name@)),
            Some(vs) => match spec_attr(*y, name@) {
                Some(YamlValue::Array(items)) => vs@.len() == items@.len() && (forall|i: int|
                    0 <= i < vs@.len() ==> (#[trigger] vs@[i])@ == string_views(items@)[i]),
                _ => false,
            },
        }),
{
    match get_attr(y, name) {
        None => Ok(None),
        Some(YamlValue::Null) => Ok(None),
        Some(YamlValue::Bad) => Ok(None),
        Some(YamlValue::Str(s)) => {
            if crate::config_builder::str_eq_ci_none(s.as_str()) {
                Ok(None)
            } else {
                Err(
                    ConfigError::ConvertionFailed {
                        value: name.to_owned(),
                        expected_type: "Array".to_owned(),
                    },
                )
            }
        },
        _ => {
            match get_string_vec_attr(y, name) {
                Ok(v) => Ok(Some(v)),
                Err(e) => Err(e),
            }
        },
    }
}

/// One environment entry: a hash of exactly one string-to-string pair.
pub open spec fn env_item_ok(v: YamlValue) -> bool {
    match v {
        YamlValue::Hash(es) => es@.len() == 1 && es@[0].0 is Str && es@[0].1 is Str,
        _ => false,
    }
}

/// The key and value of a well-formed environment entry.
pub open spec fn env_item_kv(v: YamlValue) -> (Seq<char>, Seq<char>) {
    match v {
        YamlValue::Hash(es) => (
            match es@[0].0 {
                YamlValue::Str(s) => s@,
                _ => Seq::<char>::empty(),
            },
            match es@[0].1 {
                YamlValue::Str(s) => s@,
                _ => Seq::<char>::empty(),
            },
        ),
        _ => (Seq::<char>::empty(), Seq::<char>::empty()),
    }
}

/// Every element is a well-formed environment entry.
pub open spec fn env_items_ok(items: Seq<YamlValue>) -> bool {
    forall|i: int| 0 <= i < items.len() ==> env_item_ok(#[trigger] items[i])
}

/// The optional `env` attribute is well-shaped (or absent).
pub open spec fn env_ok(a: Option<YamlValue>) -> bool {
    absent(a) || (match a {
        Some(YamlValue::Array(items)) => env_items_ok(items@),
        _ => false,
    })
}

/// The optional environment attribute: a list of one-pair hashes; absent
/// means empty.
pub fn get_env_attr(y: &YamlValue, name: &str) -> (r: Result<
    Vec<(String, String)>,
    ConfigError,
>)
    ensures
        (r is Ok) <==> env_ok(spec_attr(*y, name@)),
        r matches Ok(v) ==> (if absent(spec_attr(*y, name@)) {
            v@.len() == 0
        } else {
            match spec_attr(*y, name@) {
                Some(YamlValue::Array(items)) => v@.len() == items@.len() && (forall|i: int|
                    0 <= i < v@.len() ==> ((#[trigger] v@[i]).0@, v@[i].1@) == env_item_kv(
                        items@[i],
                    )),
                _ => false,
            }
        }),
{
    match get_attr(y, name) {
        None => Ok(Vec::new()),
        Some(YamlValue::Null) => Ok(Vec::new()),
        Some(YamlValue::Bad) => Ok(Vec::new()),
        Some(YamlValue::Str(s)) => {
            if crate::config_builder::str_eq_ci_none(s.as_str()) {
                Ok(Vec::new())
            } else {
                Err(
                    ConfigError::ConvertionFailed {
                        value: name.to_owned(),
                        expected_type: "Array".to_owned(),
                    },
                )
            }
        },
        Some(YamlValue::Array(items)) => {
            let n = items.len();
            let mut out: Vec<(String, String)> = Vec::new();
            let mut i: usize = 0;
            while i < n
                invariant
                    i <= n,
                    n == items@.len(),
                    out@.len() == i,
                    spec_attr(*y, name@) == Some(YamlValue::Array(*items)),
                    forall|k: int| 0 <= k < i ==> env_item_ok(#[trigger] items@[k]),
                    forall|k: int|
                        0 <= k < i ==> ((#[trigger] out@[k]).0@, out@[k].1@) == env_item_kv(
                            items@[k],
                        ),
                decreases n - i,
            {
                match &items[i] {
                    YamlValue::Hash(es) => {
                        if es.len() != 1 {
                            proof {
                                assert(items@[i as int] == YamlValue::Hash(*es));
                                assert(!env_item_ok(items@[i as int]));
                                assert(!env_items_ok(items@));
                            }
                            return Err(
                                ConfigError::InvalidValue(
                                    "expected exactly one key value mapping".to_owned(),
                                ),
                            );
                        }
                        let kv = &es[0];
                        let k = match &kv.0 {
                            YamlValue::Str(s) => s.clone(),
                            _ => {
                                proof {
                                    assert(items@[i as int] == YamlValue::Hash(*es));
                                    assert(!env_item_ok(items@[i as int]));
                                    assert(!env_items_ok(items@));
                                }
                                return Err(
                                    ConfigError::ConvertionFailed {
                                        value: name.to_owned(),
                                        expected_type: "String".to_owned(),
                                    },
                                );
                            },
                        };
                        let v = match &kv.1 {
                            YamlValue::Str(s) => s.clone(),
                            _ => {
                                proof {
                                    assert(items@[i as int] == YamlValue::Hash(*es));
                                    assert(!env_item_ok(items@[i as int]));
                                    assert(!env_items_ok(items@));
                                }
                                return Err(
                                    ConfigError::ConvertionFailed {
                                        value: name.to_owned(),
                                        expected_type: "String".to_owned(),
                                    },
                                );
                            },
                        };
                        out.push((k, v));
                    },
                    _ => {
                        proof {
                            assert(!env_item_ok(items@[i as int]));
                            assert(!env_items_ok(items@));
                        }
                        return Err(
                            ConfigError::ConvertionFailed {
                                value: name.to_owned(),
                                expected_type: "Hash".to_owned(),
                            },
                        );
                    },
                }
                i = i + 1;
            }
            Ok(out)
        },
        _ => Err(
            ConfigError::ConvertionFailed {
                value: name.to_owned(),
                expected_type: "Array".to_owned(),
            },
        ),
    }
}

/// Every element is an integer.
pub open spec fn all_ints(items: Seq<YamlValue>) -> bool {
    forall|i: int| 0 <= i < items.len() ==> (#[trigger] items[i]) is Int
}

/// An optional list of patch-point IDs (64-bit, as the YAML integers
/// reinterpreted unsigned).
pub fn get_opt_ids_attr(y: &YamlValue, name: &str) -> (r: Result<
    Option<Vec<MutationSiteID>>,
    ConfigError,
>)
    ensures
        (r is Ok) <==> absent(spec_attr(*y, name@)) || (match spec_attr(*y, name@) {
            Some(YamlValue::Array(items)) => all_ints(items@),
            _ => false,
        }),
        r matches Ok(v) ==> ((v is None) == absent(spec_attr(*y, name@))),
{
    match get_attr(y, name) {
        None => Ok(None),
        Some(YamlValue::Null) => Ok(None),
        Some(YamlValue::Bad) => Ok(None),
        Some(YamlValue::Str(s)) => {
            if crate::config_builder::str_eq_ci_none(s.as_str()) {
                Ok(None)
            } else {
                Err(
                    ConfigError::ConvertionFailed {
                        value: name.to_owned(),
                        expected_type: "Array".to_owned(),
                    },
                )
            }
        },
        Some(YamlValue::Array(items)) => {
            let n = items.len();
            let mut out: Vec<MutationSiteID> = Vec::new();
            let mut i: usize = 0;
            while i < n
                invariant
                    i <= n,
                    n == items@.len(),
                    spec_attr(*y, name@) == Some(YamlValue::Array(*items)),
                    forall|k: int| 0 <= k < i ==> (#[trigger] items@[k]) is Int,
                decreases n - i,
            {
                match &items[i] {
                    YamlValue::Int(v) => {
                        out.push(MutationSiteID(*v as u64));
                    },
                    _ => {
                        return Err(
                            ConfigError::ConvertionFailed {
                                value: name.to_owned(),
                                expected_type: "i64".to_owned(),
                            },
                        );
                    },
                }
                i = i + 1;
            }
            Ok(Some(out))
        },
        _ => Err(
            ConfigError::ConvertionFailed {
                value: name.to_owned(),
                expected_type: "Array".to_owned(),
            },
        ),
    }
}

/// Every element is a non-negative integer.
pub open spec fn all_nonneg_ints(items: Seq<YamlValue>) -> bool {
    forall|i: int|
        0 <= i < items.len() ==> match #[trigger] items[i] {
            YamlValue::Int(v) => v >= 0,
            _ => false,
        }
}

/// An optional list of instruction codes (non-negative integers).
pub fn get_opt_instruction_codes_attr(y: &YamlValue, name: &str) -> (r: Result<
    Option<Vec<u64>>,
    ConfigError,
>)
    ensures
        (r is Ok) <==> absent(spec_attr(*y, name@)) || (match spec_attr(*y, name@) {
            Some(YamlValue::Array(items)) => all_nonneg_ints(items@),
            _ => false,
        }),
        r matches Ok(v) ==> ((v is None) == absent(spec_attr(*y, name@))),
{
    match get_attr(y, name) {
        None => Ok(None),
        Some(YamlValue::Null) => Ok(None),
        Some(YamlValue::Bad) => Ok(None),
        Some(YamlValue::Str(s)) => {
            if crate::config_builder::str_eq_ci_none(s.as_str()) {
                Ok(None)
            } else {
                Err(
                    ConfigError::ConvertionFailed {
                        value: name.to_owned(),
                        expected_type: "Array".to_owned(),
                    },
                )
            }
        },
        Some(YamlValue::Array(items)) => {
            let n = items.len();
            let mut out: Vec<u64> = Vec::new();
            let mut i: usize = 0;
            while i < n
                invariant
                    i <= n,
                    n == items@.len(),
                    spec_attr(*y, name@) == Some(YamlValue::Array(*items)),
                    forall|k: int|
                        0 <= k < i ==> match #[trigger] items@[k] {
                            YamlValue::Int(v) => v >= 0,
                            _ => false,
                        },
                decreases n - i,
            {
                match &items[i] {
                    YamlValue::Int(v) => {
                        let v = *v;
                        if v < 0 {
                            return Err(
                                ConfigError::InvalidValue(name.to_owned()),
                            );
                        }
                        out.push(v as u64);
                    },
                    _ => {
                        return Err(
                            ConfigError::ConvertionFailed {
                                value: name.to_owned(),
                                expected_type: "usize".to_owned(),
                            },
                        );
                    },
                }
                i = i + 1;
            }
            Ok(Some(out))
        },
        _ => Err(
            ConfigError::ConvertionFailed {
                value: name.to_owned(),
                expected_type: "Array".to_owned(),
            },
        ),
    }
}

/// A hash key that some expected name spells.
pub open spec fn key_expected(k: YamlValue, expected: Seq<Seq<char>>) -> bool {
    match k {
        YamlValue::Str(s) => expected.contains(s@),
        _ => false,
    }
}

/// Every key of the entry list is an expected one.
pub open spec fn entries_keys_ok(es: Seq<(YamlValue, YamlValue)>, expected: Seq<Seq<char>>) -> bool {
    forall|i: int| 0 <= i < es.len() ==> key_expected((#[trigger] es[i]).0, expected)
}

/// Every key of the hash is an expected one.
pub open spec fn keys_ok(y: YamlValue, expected: Seq<Seq<char>>) -> bool {
    match y {
        YamlValue::Hash(es) => entries_keys_ok(es@, expected),
        _ => false,
    }
}

/// Every key of the hash is a string.
pub open spec fn all_keys_strings(y: YamlValue) -> bool {
    match y {
        YamlValue::Hash(es) => forall|i: int| 0 <= i < es@.len() ==> (#[trigger] es@[i]).0 is Str,
        _ => false,
    }
}

/// Some key of the hash spells `k`.
pub open spec fn hash_has_key(y: YamlValue, k: Seq<char>) -> bool {
    match y {
        YamlValue::Hash(es) => exists|i: int|
            0 <= i < es@.len() && (match (#[trigger] es@[i]).0 {
                YamlValue::Str(s) => s@ == k,
                _ => false,
            }),
        _ => false,
    }
}

/// The texts of a list of expected key names.
pub open spec fn expected_views(expected: Seq<&str>) -> Seq<Seq<char>> {
    expected.map_values(|t: &str| t@)
}

/// Reject any attribute no rule expects (and any non-string key).  On a
/// hash whose keys are all strings, the rejection names the unexpected
/// key.
pub fn check_for_unparsed_keys(y: &YamlValue, expected: &[&str]) -> (r: Result<
    (),
    ConfigError,
>)
    ensures
        (r is Ok) <==> keys_ok(*y, expected_views(expected@)),
        (all_keys_strings(*y) && !keys_ok(*y, expected_views(expected@))) ==> (r matches Err(
            ConfigError::UnexpectedAttribute(s),
        ) && hash_has_key(*y, s@) && !expected_views(expected@).contains(s@)),
{
    match y {
        YamlValue::Hash(es) => {
            let n = es.len();
            let mut i: usize = 0;
            while i < n
                invariant
                    i <= n,
                    n == es@.len(),
                    *y == YamlValue::Hash(*es),
                    forall|k: int|
                        0 <= k < i ==> key_expected(
                            (#[trigger] es@[k]).0,
                            expected_views(expected@),
                        ),
                decreases n - i,
            {
                match &es[i].0 {
                    YamlValue::Str(s) => {
                        let m = expected.len();
                        let mut j: usize = 0;
                        let mut found = false;
                        while j < m
                            invariant
                                j <= m,
                                m == expected@.len(),
                                found ==> expected_views(expected@).contains(s@),
                                !found ==> forall|q: int|
                                    0 <= q < j ==> (#[trigger] expected@[q])@ != s@,
                            decreases m - j,
                        {
                            if str_eq(s.as_str(), expected[j]) {
                                found = true;
                                proof {
                                    assert(expected_views(expected@)[j as int] == s@);
                                }
                            }
                            j = j + 1;
                        }
                        if !found {
                            proof {
                                assert(!expected_views(expected@).contains(s@)) by {
                                    if expected_views(expected@).contains(s@) {
                                        let q = choose|q: int|
                                            0 <= q < expected_views(expected@).len()
                                                && expected_views(expected@)[q] == s@;
                                        assert(expected@[q]@ == s@);
                                    }
                                }
                                assert(!key_expected(
                                    es@[i as int].0,
                                    expected_views(expected@),
                                ));
                                assert(!entries_keys_ok(es@, expected_views(expected@)));
                                assert(hash_has_key(*y, s@)) by {
                                    assert(match es@[i as int].0 {
                                        YamlValue::Str(s2) => s2@ == s@,
                                        _ => false,
                                    });
                                }
                            }
                            return Err(ConfigError::UnexpectedAttribute(s.clone()));
                        }
                    },
                    _ => {
                        proof {
                            assert(!key_expected(es@[i as int].0, expected_views(expected@)));
                            assert(!entries_keys_ok(es@, expected_views(expected@)));
                            assert(!all_keys_strings(*y));
                        }
                        return Err(
                            ConfigError::InvalidValue("non-string key".to_owned()),
                        );
                    },
                }
                i = i + 1;
            }
            Ok(())
        },
        _ => Err(ConfigError::InvalidValue("expected a hash".to_owned())),
    }
}

/// Builds a [`Config`] from YAML, resolving relative paths against the
/// directory the configuration file sits in.
#[derive(Debug, Clone)]
pub struct ConfigBuilder {
    base_dir: String,
}

/// The keys the top-level document may carry (the general attributes and
/// the section names).
pub open spec fn top_level_keys() -> Seq<Seq<char>> {
    seq![
        "work-directory"@,
        "input-directory"@,
        "jail-uid"@,
        "jail-gid"@,
        "jail-drop-to-sudo-callee"@,
        "sink"@,
        "sink-cov"@,
        "source"@,
        "afl-net"@,
        "state-afl"@,
        "sgfuzz"@,
        "vanilla"@,
        "phases"@,
    ]
}

/// The general (top-level) attributes themselves are well-shaped: both
/// directories are strings and the jail IDs come in a valid pair.
pub open spec fn general_attrs_ok(y: YamlValue) -> bool {
    &&& str_of(spec_attr(y, "work-directory"@)) is Some
    &&& str_of(spec_attr(y, "input-directory"@)) is Some
    &&& (absent(spec_attr(y, "jail-uid"@)) || u32_of(spec_attr(y, "jail-uid"@)) is Some)
    &&& (absent(spec_attr(y, "jail-gid"@)) || u32_of(spec_attr(y, "jail-gid"@)) is Some)
    &&& (absent(spec_attr(y, "jail-drop-to-sudo-callee"@)) || bool_of(
        spec_attr(y, "jail-drop-to-sudo-callee"@),
    ) is Some)
    &&& (absent(spec_attr(y, "jail-uid"@)) <==> absent(spec_attr(y, "jail-gid"@)))
}

/// The general section is well-shaped: its attributes parse and no
/// unknown top-level key occurs.
pub open spec fn general_ok(y: YamlValue) -> bool {
    general_attrs_ok(y) && keys_ok(y, top_level_keys())
}

/// What the general parser returns for the top-level attributes.
pub open spec fn general_built(base: Seq<char>, y: YamlValue, c: GeneralConfig) -> bool {
    &&& c.work_dir@ == resolved_path(base, str_of(spec_attr(y, "work-directory"@)).unwrap())
    &&& c.input_dir@ == resolved_path(base, str_of(spec_attr(y, "input-directory"@)).unwrap())
    &&& c.tracing_timeout.millis == 300000
    &&& ((c.jail_uid is Some) <==> !absent(spec_attr(y, "jail-uid"@)))
    &&& ((c.jail_gid is Some) <==> !absent(spec_attr(y, "jail-gid"@)))
    &&& (c.jail_uid matches Some(u) ==> Some(u) == u32_of(spec_attr(y, "jail-uid"@)))
    &&& (c.jail_gid matches Some(g) ==> Some(g) == u32_of(spec_attr(y, "jail-gid"@)))
    &&& c.jail_drop_to_sudo_callee == (if absent(spec_attr(y, "jail-drop-to-sudo-callee"@)) {
        true
    } else {
        bool_of(spec_attr(y, "jail-drop-to-sudo-callee"@)).unwrap()
    })
    &&& c.jail_consistent()
}

impl ConfigBuilder {
    /// The directory relative paths are resolved against.
    pub closed spec fn spec_base_dir(&self) -> Seq<char> {
        self.base_dir@
    }

    /// A builder rooted at `base_dir`.
    pub fn new(base_dir: String) -> (r: ConfigBuilder)
        ensures
            r.spec_base_dir() == base_dir@,
    {
        ConfigBuilder { base_dir }
    }

    /// Resolve a path against the base directory.
    fn resolve(&self, s: &String) -> (r: String)
        ensures
            r@ == resolved_path(self.spec_base_dir(), s@),
    {
        let n = s.as_str().unicode_len();
        if n > 0 && s.as_str().get_char(0) == '/' {
            s.clone()
        } else {
            let mut b = self.base_dir.clone();
            b.append("/");
            b.append(s.as_str());
            proof {
                reveal_strlit("/");
                assert("/"@ =~= seq!['/']);
                assert(b@ =~= resolved_path(self.spec_base_dir(), s@));
            }
            b
        }
    }

    /// A required path attribute, resolved.
    fn get_path_attr(&self, y: &YamlValue, name: &str) -> (r: Result<String, ConfigError>)
        ensures
            (r is Ok) <==> (str_of(spec_attr(*y, name@)) is Some),
            r matches Ok(p) ==> p@ == resolved_path(
                self.spec_base_dir(),
                str_of(spec_attr(*y, name@)).unwrap(),
            ),
    {
        match get_string_attr(y, name) {
            Ok(s) => Ok(self.resolve(&s)),
            Err(e) => Err(e),
        }
    }

    /// An optional path attribute, resolved when present.
    fn get_opt_path_attr(&self, y: &YamlValue, name: &str) -> (r: Result<
        Option<String>,
        ConfigError,
    >)
        ensures
            (r is Ok) <==> absent(spec_attr(*y, name@)) || str_of(spec_attr(*y, name@))
                is Some,
            r matches Ok(v) ==> match v {
                Some(p) => !absent(spec_attr(*y, name@)) && p@ == resolved_path(
                    self.spec_base_dir(),
                    str_of(spec_attr(*y, name@)).unwrap(),
                ),
                None => absent(spec_attr(*y, name@)),
            },
    {
        match get_opt_string_attr(y, name) {
            Ok(Some(s)) => Ok(Some(self.resolve(&s))),
            Ok(None) => Ok(None),
            Err(e) => Err(e),
        }
    }

    /// Parse the general (top-level) attributes.  The tracing timeout is
    /// fixed at its 300 s default; a lone jail UID or GID is rejected,
    /// and an unknown top-level key is rejected by name.
    pub fn parse_general_section(&self, y: &YamlValue) -> (r: Result<GeneralConfig, ConfigError>)
        ensures
            (r is Ok) <==> general_ok(*y),
            (general_attrs_ok(*y) && all_keys_strings(*y) && !keys_ok(*y, top_level_keys()))
                ==> (r matches Err(ConfigError::UnexpectedAttribute(s)) && hash_has_key(
                *y,
                s@,
            ) && !top_level_keys().contains(s@)),
            r matches Ok(c) ==> general_built(self.spec_base_dir(), *y, c),
    {
        let work_dir = self.get_path_attr(y, "work-directory")?;
        let input_dir = self.get_path_attr(y, "input-directory")?;
        let jail_uid = get_opt_u32_attr(y, "jail-uid")?;
        let jail_gid = get_opt_u32_attr(y, "jail-gid")?;
        let jail_drop = get_opt_bool_attr(y, "jail-drop-to-sudo-callee")?;
        match (&jail_uid, &jail_gid) {
            (Some(_), Some(_)) => (),
            (None, None) => (),
            _ => {
                return Err(
                    ConfigError::InvalidValue(
                        "both or none of jail-uid and jail-gid must be set".to_owned(),
                    ),
                );
            },
        }
        let expected: Vec<&str> = vec![
            "work-directory",
            "input-directory",
            "jail-uid",
            "jail-gid",
            "jail-drop-to-sudo-callee",
            "sink",
            "sink-cov",
            "source",
            "afl-net",
            "state-afl",
            "sgfuzz",
            "vanilla",
            "phases",
        ];
        proof {
            assert(expected_views(expected@) =~= top_level_keys());
        }
        check_for_unparsed_keys(y, expected.as_slice())?;
        Ok(
            GeneralConfig {
                input_dir,
                work_dir,
                tracing_timeout: TimeSpan { millis: 300000 },
                jail_uid,
                jail_gid,
                jail_drop_to_sudo_callee: match jail_drop {
                    Some(b) => b,
                    None => true,
                },
            },
        )
    }
}

/// A required input-channel attribute: a string of the channel grammar.
pub fn get_input_channel_attr(y: &YamlValue, name: &str) -> (r: Result<
    InputChannel,
    ConfigError,
>)
    ensures
        (r is Ok) <==> (match str_of(spec_attr(*y, name@)) {
            Some(s) => input_channel_of(s) is Some,
            None => false,
        }),
        r matches Ok(c) ==> Some(c) == input_channel_of(str_of(spec_attr(*y, name@)).unwrap()),
{
    let s = get_string_attr(y, name)?;
    parse_input_channel(s.as_str())
}

/// A required output-channel attribute: a string of the channel grammar.
pub fn get_output_channel_attr(y: &YamlValue, name: &str) -> (r: Result<
    OutputChannel,
    ConfigError,
>)
    ensures
        (r is Ok) <==> (match str_of(spec_attr(*y, name@)) {
            Some(s) => output_channel_of(s) is Some,
            None => false,
        }),
        r matches Ok(c) ==> Some(c) == output_channel_of(str_of(spec_attr(*y, name@)).unwrap()),
{
    let s = get_string_attr(y, name)?;
    parse_output_channel(s.as_str())
}

/// The optional `server-ready-on` attribute is well-shaped (or absent).
pub open spec fn server_ready_ok(a: Option<YamlValue>) -> bool {
    absent(a) || (match str_of(a) {
        Some(s) => ready_kind_of(s) is Some,
        None => false,
    })
}

/// An optional `server-ready-on` attribute.
pub fn get_opt_server_ready_attr(y: &YamlValue, name: &str) -> (r: Result<
    Option<ServerReadySignalKind>,
    ConfigError,
>)
    ensures
        (r is Ok) <==> server_ready_ok(spec_attr(*y, name@)),
        r matches Ok(v) ==> match v {
            Some(k) => !absent(spec_attr(*y, name@)) && Some(k) == ready_kind_of(
                str_of(spec_attr(*y, name@)).unwrap(),
            ),
            None => absent(spec_attr(*y, name@)),
        },
{
    match get_opt_string_attr(y, name) {
        Ok(None) => Ok(None),
        Ok(Some(s)) => {
            match parse_server_ready(s.as_str()) {
                Ok(k) => Ok(Some(k)),
                Err(e) => Err(e),
            }
        },
        Err(e) => Err(e),
    }
}

/// The Discovery phase section is well-shaped.
pub open spec fn discovery_ok(y: YamlValue) -> bool {
    &&& bool_of(spec_attr(y, "enabled"@)) is Some
    &&& u32_of(spec_attr(y, "batch-size"@)) is Some
    &&& bool_of(spec_attr(y, "terminate-when-finished"@)) is Some
    &&& (absent(spec_attr(y, "batch-cov-timeout"@)) || duration_of(
        spec_attr(y, "batch-cov-timeout"@),
    ) is Some)
    &&& (absent(spec_attr(y, "phase-cov-timeout"@)) || duration_of(
        spec_attr(y, "phase-cov-timeout"@),
    ) is Some)
    &&& keys_ok(
        y,
        seq![
            "enabled"@,
            "batch-size"@,
            "terminate-when-finished"@,
            "batch-cov-timeout"@,
            "phase-cov-timeout"@,
        ],
    )
}

/// The Mutate phase section is well-shaped.
pub open spec fn mutate_ok(y: YamlValue) -> bool {
    &&& u32_of(spec_attr(y, "weight"@)) is Some
    &&& (absent(spec_attr(y, "entry-cov-timeout"@)) || duration_of(
        spec_attr(y, "entry-cov-timeout"@),
    ) is Some)
    &&& keys_ok(y, seq!["weight"@, "entry-cov-timeout"@])
}

/// The Add phase section is well-shaped.
pub open spec fn add_ok(y: YamlValue) -> bool {
    &&& u32_of(spec_attr(y, "weight"@)) is Some
    &&& u32_of(spec_attr(y, "batch-size"@)) is Some
    &&& u32_of(spec_attr(y, "select-unfuzzed-weight"@)) is Some
    &&& u32_of(spec_attr(y, "select-yielding-weight"@)) is Some
    &&& u32_of(spec_attr(y, "select-random-weight"@)) is Some
    &&& (absent(spec_attr(y, "entry-cov-timeout"@)) || duration_of(
        spec_attr(y, "entry-cov-timeout"@),
    ) is Some)
    &&& keys_ok(
        y,
        seq![
            "weight"@,
            "batch-size"@,
            "select-unfuzzed-weight"@,
            "select-yielding-weight"@,
            "select-random-weight"@,
            "entry-cov-timeout"@,
        ],
    )
}

/// The Combine phase section is well-shaped.
pub open spec fn combine_ok(y: YamlValue) -> bool {
    &&& u32_of(spec_attr(y, "weight"@)) is Some
    &&& (absent(spec_attr(y, "entry-cov-timeout"@)) || duration_of(
        spec_attr(y, "entry-cov-timeout"@),
    ) is Some)
    &&& keys_ok(y, seq!["weight"@, "entry-cov-timeout"@])
}

/// What the Mutate parser returns for its section value.
pub open spec fn mutate_built(y: YamlValue, c: MutatePhaseConfig) -> bool {
    &&& Some(c.weight) == u32_of(spec_attr(y, "weight"@))
    &&& c.entry_cov_timeout.millis == (if absent(spec_attr(y, "entry-cov-timeout"@)) {
        900000
    } else {
        duration_of(spec_attr(y, "entry-cov-timeout"@)).unwrap()
    })
}

/// What the Add parser returns for its section value.
pub open spec fn add_built(y: YamlValue, c: AddPhaseConfig) -> bool {
    &&& Some(c.weight) == u32_of(spec_attr(y, "weight"@))
    &&& Some(c.batch_size) == u32_of(spec_attr(y, "batch-size"@))
    &&& Some(c.select_unfuzzed_weight) == u32_of(spec_attr(y, "select-unfuzzed-weight"@))
    &&& Some(c.select_yielding_weight) == u32_of(spec_attr(y, "select-yielding-weight"@))
    &&& Some(c.select_random_weight) == u32_of(spec_attr(y, "select-random-weight"@))
    &&& c.entry_cov_timeout.millis == (if absent(spec_attr(y, "entry-cov-timeout"@)) {
        900000
    } else {
        duration_of(spec_attr(y, "entry-cov-timeout"@)).unwrap()
    })
}

/// What the Combine parser returns for its section value.
pub open spec fn combine_built(y: YamlValue, c: CombinePhaseConfig) -> bool {
    &&& Some(c.weight) == u32_of(spec_attr(y, "weight"@))
    &&& c.entry_cov_timeout.millis == (if absent(spec_attr(y, "entry-cov-timeout"@)) {
        600000
    } else {
        duration_of(spec_attr(y, "entry-cov-timeout"@)).unwrap()
    })
}

/// What the Discovery parser returns for its section value.
pub open spec fn discovery_built(y: YamlValue, c: DiscoveryPhaseConfig) -> bool {
    &&& Some(c.enabled) == bool_of(spec_attr(y, "enabled"@))
    &&& Some(c.batch_size) == u32_of(spec_attr(y, "batch-size"@))
    &&& Some(c.terminate_when_finished) == bool_of(spec_attr(y, "terminate-when-finished"@))
    &&& c.batch_cov_timeout.millis == (if absent(spec_attr(y, "batch-cov-timeout"@)) {
        600000
    } else {
        duration_of(spec_attr(y, "batch-cov-timeout"@)).unwrap()
    })
    &&& c.phase_cov_timeout.millis == (if absent(spec_attr(y, "phase-cov-timeout"@)) {
        1200000
    } else {
        duration_of(spec_attr(y, "phase-cov-timeout"@)).unwrap()
    })
}

impl ConfigBuilder {
    /// Parse the Discovery phase section.  An absent batch timeout
    /// defaults to 10 min, an absent phase timeout to 20 min.
    pub fn parse_discovery_phase_section(&self, y: &YamlValue) -> (r: Result<
        DiscoveryPhaseConfig,
        ConfigError,
    >)
        ensures
            (r is Ok) <==> discovery_ok(*y),
            r matches Ok(c) ==> discovery_built(*y, c),
    {
        let enabled = get_bool_attr(y, "enabled")?;
        let batch_size = get_u32_attr(y, "batch-size")?;
        let terminate_when_finished = get_bool_attr(y, "terminate-when-finished")?;
        let batch_cov_timeout = get_opt_duration_attr(y, "batch-cov-timeout", 600000)?;
        let phase_cov_timeout = get_opt_duration_attr(y, "phase-cov-timeout", 1200000)?;
        let expected: Vec<&str> = vec![
            "enabled",
            "batch-size",
            "terminate-when-finished",
            "batch-cov-timeout",
            "phase-cov-timeout",
        ];
        proof {
            assert(expected_views(expected@) =~= seq![
                "enabled"@,
                "batch-size"@,
                "terminate-when-finished"@,
                "batch-cov-timeout"@,
                "phase-cov-timeout"@,
            ]);
        }
        check_for_unparsed_keys(y, expected.as_slice())?;
        Ok(
            DiscoveryPhaseConfig {
                enabled,
                batch_size,
                terminate_when_finished,
                batch_cov_timeout,
                phase_cov_timeout,
            },
        )
    }

    /// Parse the Mutate phase section.  An absent entry timeout defaults
    /// to 15 min.
    pub fn parse_mutate_phase_section(&self, y: &YamlValue) -> (r: Result<
        MutatePhaseConfig,
        ConfigError,
    >)
        ensures
            (r is Ok) <==> mutate_ok(*y),
            r matches Ok(c) ==> mutate_built(*y, c),
    {
        let weight = get_u32_attr(y, "weight")?;
        let entry_cov_timeout = get_opt_duration_attr(y, "entry-cov-timeout", 900000)?;
        let expected: Vec<&str> = vec!["weight", "entry-cov-timeout"];
        proof {
            assert(expected_views(expected@) =~= seq!["weight"@, "entry-cov-timeout"@]);
        }
        check_for_unparsed_keys(y, expected.as_slice())?;
        Ok(MutatePhaseConfig { weight, entry_cov_timeout })
    }

    /// Parse the Add phase section.  An absent entry timeout defaults to
    /// 15 min.
    pub fn parse_add_phase_section(&self, y: &YamlValue) -> (r: Result<
        AddPhaseConfig,
        ConfigError,
    >)
        ensures
            (r is Ok) <==> add_ok(*y),
            r matches Ok(c) ==> add_built(*y, c),
    {
        let weight = get_u32_attr(y, "weight")?;
        let batch_size = get_u32_attr(y, "batch-size")?;
        let select_unfuzzed_weight = get_u32_attr(y, "select-unfuzzed-weight")?;
        let select_yielding_weight = get_u32_attr(y, "select-yielding-weight")?;
        let select_random_weight = get_u32_attr(y, "select-random-weight")?;
        let entry_cov_timeout = get_opt_duration_attr(y, "entry-cov-timeout", 900000)?;
        let expected: Vec<&str> = vec![
            "weight",
            "batch-size",
            "select-unfuzzed-weight",
            "select-yielding-weight",
            "select-random-weight",
            "entry-cov-timeout",
        ];
        proof {
            assert(expected_views(expected@) =~= seq![
                "weight"@,
                "batch-size"@,
                "select-unfuzzed-weight"@,
                "select-yielding-weight"@,
                "select-random-weight"@,
                "entry-cov-timeout"@,
            ]);
        }
        check_for_unparsed_keys(y, expected.as_slice())?;
        Ok(
            AddPhaseConfig {
                weight,
                batch_size,
                select_unfuzzed_weight,
                select_yielding_weight,
                select_random_weight,
                entry_cov_timeout,
            },
        )
    }

    /// Parse the Combine phase section.  An absent entry timeout defaults
    /// to 10 min.
    pub fn parse_combine_phase_section(&self, y: &YamlValue) -> (r: Result<
        CombinePhaseConfig,
        ConfigError,
    >)
        ensures
            (r is Ok) <==> combine_ok(*y),
            r matches Ok(c) ==> combine_built(*y, c),
    {
        let weight = get_u32_attr(y, "weight")?;
        let entry_cov_timeout = get_opt_duration_attr(y, "entry-cov-timeout", 600000)?;
        let expected: Vec<&str> = vec!["weight", "entry-cov-timeout"];
        proof {
            assert(expected_views(expected@) =~= seq!["weight"@, "entry-cov-timeout"@]);
        }
        check_for_unparsed_keys(y, expected.as_slice())?;
        Ok(CombinePhaseConfig { weight, entry_cov_timeout })
    }
}

/// An optional subsection: absent (or a malformed placeholder), or a
/// hash that its own parser accepts.
pub open spec fn opt_section(a: Option<YamlValue>) -> Option<YamlValue> {
    match a {
        None => None,
        Some(YamlValue::Bad) => None,
        Some(YamlValue::Null) => None,
        Some(v) => Some(v),
    }
}

/// The Discovery phase defaults of the external interface.
pub open spec fn spec_default_discovery() -> DiscoveryPhaseConfig {
    DiscoveryPhaseConfig {
        enabled: true,
        batch_size: 50,
        terminate_when_finished: false,
        batch_cov_timeout: TimeSpan { millis: 600000 },
        phase_cov_timeout: TimeSpan { millis: 1200000 },
    }
}

/// The Mutate phase defaults of the external interface.
pub open spec fn spec_default_mutate() -> MutatePhaseConfig {
    MutatePhaseConfig { weight: 40, entry_cov_timeout: TimeSpan { millis: 900000 } }
}

/// The Add phase defaults of the external interface.
pub open spec fn spec_default_add() -> AddPhaseConfig {
    AddPhaseConfig {
        weight: 3,
        batch_size: 12,
        select_unfuzzed_weight: 1,
        select_yielding_weight: 1,
        select_random_weight: 1,
        entry_cov_timeout: TimeSpan { millis: 900000 },
    }
}

/// The Combine phase defaults of the external interface.
pub open spec fn spec_default_combine() -> CombinePhaseConfig {
    CombinePhaseConfig { weight: 10, entry_cov_timeout: TimeSpan { millis: 600000 } }
}

/// What the phases parser returns: each subsection from its own parser,
/// or its defaults when absent.
pub open spec fn phases_built(y: YamlValue, c: PhasesConfig) -> bool {
    &&& ((c.generation_ceiling is Some) <==> !absent(spec_attr(y, "generation-ceiling"@)))
    &&& (c.generation_ceiling matches Some(g) ==> Some(g) == u32_of(
        spec_attr(y, "generation-ceiling"@),
    ))
    &&& (match opt_section(spec_attr(y, "discovery"@)) {
        Some(v) => discovery_built(v, c.discovery),
        None => c.discovery == spec_default_discovery(),
    })
    &&& (match opt_section(spec_attr(y, "mutate"@)) {
        Some(v) => mutate_built(v, c.mutate),
        None => c.mutate == spec_default_mutate(),
    })
    &&& (match opt_section(spec_attr(y, "add"@)) {
        Some(v) => add_built(v, c.add),
        None => c.add == spec_default_add(),
    })
    &&& (match opt_section(spec_attr(y, "combine"@)) {
        Some(v) => combine_built(v, c.combine),
        None => c.combine == spec_default_combine(),
    })
}

/// The phases section is well-shaped: each present subsection parses and
/// no unknown key occurs.
pub open spec fn phases_ok(y: YamlValue) -> bool {
    &&& (absent(spec_attr(y, "generation-ceiling"@)) || u32_of(
        spec_attr(y, "generation-ceiling"@),
    ) is Some)
    &&& (match opt_section(spec_attr(y, "discovery"@)) {
        Some(v) => discovery_ok(v),
        None => true,
    })
    &&& (match opt_section(spec_attr(y, "mutate"@)) {
        Some(v) => mutate_ok(v),
        None => true,
    })
    &&& (match opt_section(spec_attr(y, "add"@)) {
        Some(v) => add_ok(v),
        None => true,
    })
    &&& (match opt_section(spec_attr(y, "combine"@)) {
        Some(v) => combine_ok(v),
        None => true,
    })
    &&& keys_ok(
        y,
        seq!["generation-ceiling"@, "discovery"@, "mutate"@, "add"@, "combine"@],
    )
}

impl ConfigBuilder {
    /// Parse the phases section; a missing subsection takes its default.
    pub fn parse_phases_section(&self, y: &YamlValue) -> (r: Result<PhasesConfig, ConfigError>)
        ensures
            (r is Ok) <==> phases_ok(*y),
            r matches Ok(c) ==> phases_built(*y, c),
    {
        let generation_ceiling = get_opt_u32_attr(y, "generation-ceiling")?;
        let discovery = match get_attr(y, "discovery") {
            None | Some(YamlValue::Bad) | Some(YamlValue::Null) => Default::default(),
            Some(section) => self.parse_discovery_phase_section(section)?,
        };
        let mutate = match get_attr(y, "mutate") {
            None | Some(YamlValue::Bad) | Some(YamlValue::Null) => Default::default(),
            Some(section) => self.parse_mutate_phase_section(section)?,
        };
        let add = match get_attr(y, "add") {
            None | Some(YamlValue::Bad) | Some(YamlValue::Null) => Default::default(),
            Some(section) => self.parse_add_phase_section(section)?,
        };
        let combine = match get_attr(y, "combine") {
            None | Some(YamlValue::Bad) | Some(YamlValue::Null) => Default::default(),
            Some(section) => self.parse_combine_phase_section(section)?,
        };
        let expected: Vec<&str> = vec![
            "generation-ceiling",
            "discovery",
            "mutate",
            "add",
            "combine",
        ];
        proof {
            assert(expected_views(expected@) =~= seq![
                "generation-ceiling"@,
                "discovery"@,
                "mutate"@,
                "add"@,
                "combine"@,
            ]);
        }
        check_for_unparsed_keys(y, expected.as_slice())?;
        Ok(PhasesConfig { generation_ceiling, discovery, mutate, add, combine })
    }
}

/// The Source section is well-shaped.
pub open spec fn source_ok(y: YamlValue) -> bool {
    &&& env_ok(spec_attr(y, "env"@))
    &&& str_of(spec_attr(y, "bin-path"@)) is Some
    &&& (match spec_attr(y, "arguments"@) {
        Some(YamlValue::Array(items)) => all_strings(items@),
        _ => false,
    })
    &&& (match str_of(spec_attr(y, "input-type"@)) {
        Some(s) => input_channel_of(s) is Some,
        None => false,
    })
    &&& (match str_of(spec_attr(y, "output-type"@)) {
        Some(s) => output_channel_of(s) is Some,
        None => false,
    })
    &&& (absent(spec_attr(y, "output-suffix"@)) || str_of(spec_attr(y, "output-suffix"@))
        is Some)
    &&& bool_of(spec_attr(y, "log-stdout"@)) is Some
    &&& bool_of(spec_attr(y, "log-stderr"@)) is Some
    &&& (absent(spec_attr(y, "is-server"@)) || bool_of(spec_attr(y, "is-server"@)) is Some)
    &&& (absent(spec_attr(y, "server-port"@)) || str_of(spec_attr(y, "server-port"@)) is Some)
    &&& server_ready_ok(spec_attr(y, "server-ready-on"@))
    &&& (absent(spec_attr(y, "allowed-patch-points"@)) || (match spec_attr(
        y,
        "allowed-patch-points"@,
    ) {
        Some(YamlValue::Array(items)) => all_ints(items@),
        _ => false,
    }))
    &&& (absent(spec_attr(y, "max-patch-points"@)) || i64_of(spec_attr(y, "max-patch-points"@))
        is Some)
    &&& (absent(spec_attr(y, "blocked-patch-point-instructions"@)) || (match spec_attr(
        y,
        "blocked-patch-point-instructions"@,
    ) {
        Some(YamlValue::Array(items)) => all_nonneg_ints(items@),
        _ => false,
    }))
    &&& (absent(spec_attr(y, "working-dir"@)) || str_of(spec_attr(y, "working-dir"@)) is Some)
    &&& keys_ok(
        y,
        seq![
            "env"@,
            "bin-path"@,
            "arguments"@,
            "input-type"@,
            "output-type"@,
            "output-suffix"@,
            "log-stdout"@,
            "log-stderr"@,
            "is-server"@,
            "server-port"@,
            "server-ready-on"@,
            "allowed-patch-points"@,
            "max-patch-points"@,
            "blocked-patch-point-instructions"@,
            "working-dir"@,
        ],
    )
}

/// The Sink section is well-shaped.
pub open spec fn sink_ok(y: YamlValue) -> bool {
    &&& env_ok(spec_attr(y, "env"@))
    &&& str_of(spec_attr(y, "bin-path"@)) is Some
    &&& (match spec_attr(y, "arguments"@) {
        Some(YamlValue::Array(items)) => all_strings(items@),
        _ => false,
    })
    &&& (match str_of(spec_attr(y, "input-type"@)) {
        Some(s) => input_channel_of(s) is Some,
        None => false,
    })
    &&& (match str_of(spec_attr(y, "output-type"@)) {
        Some(s) => output_channel_of(s) is Some,
        None => false,
    })
    &&& bool_of(spec_attr(y, "log-stdout"@)) is Some
    &&& bool_of(spec_attr(y, "log-stderr"@)) is Some
    &&& (absent(spec_attr(y, "allow-unstable-sink"@)) || bool_of(
        spec_attr(y, "allow-unstable-sink"@),
    ) is Some)
    &&& (absent(spec_attr(y, "is-server"@)) || bool_of(spec_attr(y, "is-server"@)) is Some)
    &&& (absent(spec_attr(y, "server-port"@)) || str_of(spec_attr(y, "server-port"@)) is Some)
    &&& server_ready_ok(spec_attr(y, "server-ready-on"@))
    &&& (absent(spec_attr(y, "working-dir"@)) || str_of(spec_attr(y, "working-dir"@)) is Some)
    &&& (absent(spec_attr(y, "send-sigterm"@)) || bool_of(spec_attr(y, "send-sigterm"@))
        is Some)
    &&& keys_ok(
        y,
        seq![
            "env"@,
            "bin-path"@,
            "bin-path-cov"@,
            "arguments"@,
            "input-type"@,
            "output-type"@,
            "log-stdout"@,
            "log-stderr"@,
            "allow-unstable-sink"@,
            "is-server"@,
            "server-port"@,
            "server-ready-on"@,
            "working-dir"@,
            "send-sigterm"@,
        ],
    )
}

/// The coverage-sink section is well-shaped.
pub open spec fn sink_cov_ok(y: YamlValue) -> bool {
    &&& env_ok(spec_attr(y, "env"@))
    &&& str_of(spec_attr(y, "bin-path"@)) is Some
    &&& (absent(spec_attr(y, "working-dir"@)) || str_of(spec_attr(y, "working-dir"@)) is Some)
    &&& keys_ok(y, seq!["env"@, "bin-path"@, "working-dir"@])
}

/// The vanilla section is well-shaped.
pub open spec fn vanilla_ok(y: YamlValue) -> bool {
    &&& env_ok(spec_attr(y, "env"@))
    &&& str_of(spec_attr(y, "bin-path"@)) is Some
    &&& keys_ok(y, seq!["env"@, "bin-path"@])
}

/// An AFL-style competitor section (AFL-Net, StateAFL) is well-shaped.
pub open spec fn afl_style_ok(y: YamlValue) -> bool {
    &&& str_of(spec_attr(y, "bin-path"@)) is Some
    &&& env_ok(spec_attr(y, "env"@))
    &&& str_of(spec_attr(y, "input-dir"@)) is Some
    &&& str_of(spec_attr(y, "netinfo"@)) is Some
    &&& str_of(spec_attr(y, "protocol"@)) is Some
    &&& (absent(spec_attr(y, "send-sigterm"@)) || bool_of(spec_attr(y, "send-sigterm"@))
        is Some)
    &&& (absent(spec_attr(y, "enable-state-aware-mode"@)) || bool_of(
        spec_attr(y, "enable-state-aware-mode"@),
    ) is Some)
    &&& keys_ok(
        y,
        seq![
            "bin-path"@,
            "env"@,
            "input-dir"@,
            "netinfo"@,
            "protocol"@,
            "send-sigterm"@,
            "enable-state-aware-mode"@,
        ],
    )
}

/// The SGFuzz section is well-shaped.
pub open spec fn sgfuzz_ok(y: YamlValue) -> bool {
    &&& str_of(spec_attr(y, "bin-path"@)) is Some
    &&& (absent(spec_attr(y, "arguments"@)) || (match spec_attr(y, "arguments"@) {
        Some(YamlValue::Array(items)) => all_strings(items@),
        _ => false,
    }))
    &&& env_ok(spec_attr(y, "env"@))
    &&& str_of(spec_attr(y, "input-dir"@)) is Some
    &&& str_of(spec_attr(y, "netinfo"@)) is Some
    &&& keys_ok(y, seq!["bin-path"@, "env"@, "input-dir"@, "netinfo"@, "arguments"@])
}

/// What the Sink parser returns for its section value.
pub open spec fn sink_built(base: Seq<char>, y: YamlValue, c: SinkConfig) -> bool {
    &&& c.bin_path@ == resolved_path(base, str_of(spec_attr(y, "bin-path"@)).unwrap())
    &&& Some(c.input_type) == input_channel_of(str_of(spec_attr(y, "input-type"@)).unwrap())
    &&& Some(c.output_type) == output_channel_of(str_of(spec_attr(y, "output-type"@)).unwrap())
    &&& Some(c.log_stdout) == bool_of(spec_attr(y, "log-stdout"@))
    &&& Some(c.log_stderr) == bool_of(spec_attr(y, "log-stderr"@))
    &&& c.allow_unstable_sink == (if absent(spec_attr(y, "allow-unstable-sink"@)) {
        true
    } else {
        bool_of(spec_attr(y, "allow-unstable-sink"@)).unwrap()
    })
    &&& c.send_sigterm == (if absent(spec_attr(y, "send-sigterm"@)) {
        false
    } else {
        bool_of(spec_attr(y, "send-sigterm"@)).unwrap()
    })
    &&& ((c.is_server is Some) <==> !absent(spec_attr(y, "is-server"@)))
    &&& ((c.server_ready_on is Some) <==> !absent(spec_attr(y, "server-ready-on"@)))
    &&& (c.server_ready_on matches Some(k) ==> Some(k) == ready_kind_of(
        str_of(spec_attr(y, "server-ready-on"@)).unwrap(),
    ))
}

/// What the Source parser returns for its section value.
pub open spec fn source_built(base: Seq<char>, y: YamlValue, c: SourceConfig) -> bool {
    &&& c.bin_path@ == resolved_path(base, str_of(spec_attr(y, "bin-path"@)).unwrap())
    &&& Some(c.input_type) == input_channel_of(str_of(spec_attr(y, "input-type"@)).unwrap())
    &&& Some(c.output_type) == output_channel_of(str_of(spec_attr(y, "output-type"@)).unwrap())
    &&& Some(c.log_stdout) == bool_of(spec_attr(y, "log-stdout"@))
    &&& Some(c.log_stderr) == bool_of(spec_attr(y, "log-stderr"@))
    &&& ((c.is_server is Some) <==> !absent(spec_attr(y, "is-server"@)))
    &&& ((c.server_ready_on is Some) <==> !absent(spec_attr(y, "server-ready-on"@)))
    &&& (c.server_ready_on matches Some(k) ==> Some(k) == ready_kind_of(
        str_of(spec_attr(y, "server-ready-on"@)).unwrap(),
    ))
}

impl ConfigBuilder {
    /// Parse the Source section.
    pub fn parse_source_section(&self, y: &YamlValue) -> (r: Result<SourceConfig, ConfigError>)
        ensures
            (r is Ok) <==> source_ok(*y),
            r matches Ok(c) ==> source_built(self.spec_base_dir(), *y, c),
    {
        let env = get_env_attr(y, "env")?;
        let bin_path = self.get_path_attr(y, "bin-path")?;
        let arguments = get_string_vec_attr(y, "arguments")?;
        let input_type = get_input_channel_attr(y, "input-type")?;
        let output_type = get_output_channel_attr(y, "output-type")?;
        let output_suffix = get_opt_string_attr(y, "output-suffix")?;
        let log_stdout = get_bool_attr(y, "log-stdout")?;
        let log_stderr = get_bool_attr(y, "log-stderr")?;
        let is_server = get_opt_bool_attr(y, "is-server")?;
        let server_port = get_opt_string_attr(y, "server-port")?;
        let server_ready_on = get_opt_server_ready_attr(y, "server-ready-on")?;
        let allowed_patch_points = get_opt_ids_attr(y, "allowed-patch-points")?;
        let max_patch_points = get_opt_i64_attr(y, "max-patch-points")?;
        let blocked_patchpoint_instructions = get_opt_instruction_codes_attr(
            y,
            "blocked-patch-point-instructions",
        )?;
        let working_dir = self.get_opt_path_attr(y, "working-dir")?;
        let expected: Vec<&str> = vec![
            "env",
            "bin-path",
            "arguments",
            "input-type",
            "output-type",
            "output-suffix",
            "log-stdout",
            "log-stderr",
            "is-server",
            "server-port",
            "server-ready-on",
            "allowed-patch-points",
            "max-patch-points",
            "blocked-patch-point-instructions",
            "working-dir",
        ];
        proof {
            assert(expected_views(expected@) =~= seq![
                "env"@,
                "bin-path"@,
                "arguments"@,
                "input-type"@,
                "output-type"@,
                "output-suffix"@,
                "log-stdout"@,
                "log-stderr"@,
                "is-server"@,
                "server-port"@,
                "server-ready-on"@,
                "allowed-patch-points"@,
                "max-patch-points"@,
                "blocked-patch-point-instructions"@,
                "working-dir"@,
            ]);
        }
        check_for_unparsed_keys(y, expected.as_slice())?;
        Ok(
            SourceConfig {
                env,
                bin_path,
                arguments,
                input_type,
                output_type,
                output_suffix,
                log_stdout,
                log_stderr,
                is_server,
                server_port,
                server_ready_on,
                allowed_patch_points,
                max_patch_points,
                blocked_patchpoint_instructions,
                working_dir,
            },
        )
    }

    /// Parse the Sink section.  An absent `allow-unstable-sink` defaults
    /// to true, an absent `send-sigterm` to false.
    pub fn parse_sink_section(&self, y: &YamlValue) -> (r: Result<SinkConfig, ConfigError>)
        ensures
            (r is Ok) <==> sink_ok(*y),
            r matches Ok(c) ==> sink_built(self.spec_base_dir(), *y, c),
    {
        let env = get_env_attr(y, "env")?;
        let bin_path = self.get_path_attr(y, "bin-path")?;
        let arguments = get_string_vec_attr(y, "arguments")?;
        let input_type = get_input_channel_attr(y, "input-type")?;
        let output_type = get_output_channel_attr(y, "output-type")?;
        let log_stdout = get_bool_attr(y, "log-stdout")?;
        let log_stderr = get_bool_attr(y, "log-stderr")?;
        let allow_unstable_sink = get_opt_bool_attr(y, "allow-unstable-sink")?;
        let is_server = get_opt_bool_attr(y, "is-server")?;
        let server_port = get_opt_string_attr(y, "server-port")?;
        let server_ready_on = get_opt_server_ready_attr(y, "server-ready-on")?;
        let working_dir = self.get_opt_path_attr(y, "working-dir")?;
        let send_sigterm = get_opt_bool_attr(y, "send-sigterm")?;
        let expected: Vec<&str> = vec![
            "env",
            "bin-path",
            "bin-path-cov",
            "arguments",
            "input-type",
            "output-type",
            "log-stdout",
            "log-stderr",
            "allow-unstable-sink",
            "is-server",
            "server-port",
            "server-ready-on",
            "working-dir",
            "send-sigterm",
        ];
        proof {
            assert(expected_views(expected@) =~= seq![
                "env"@,
                "bin-path"@,
                "bin-path-cov"@,
                "arguments"@,
                "input-type"@,
                "output-type"@,
                "log-stdout"@,
                "log-stderr"@,
                "allow-unstable-sink"@,
                "is-server"@,
                "server-port"@,
                "server-ready-on"@,
                "working-dir"@,
                "send-sigterm"@,
            ]);
        }
        check_for_unparsed_keys(y, expected.as_slice())?;
        Ok(
            SinkConfig {
                bin_path,
                arguments,
                env,
                input_type,
                output_type,
                log_stdout,
                log_stderr,
                allow_unstable_sink: match allow_unstable_sink {
                    Some(b) => b,
                    None => true,
                },
                is_server,
                server_port,
                server_ready_on,
                working_dir,
                send_sigterm: match send_sigterm {
                    Some(b) => b,
                    None => false,
                },
            },
        )
    }

    /// Parse the coverage-sink section.
    pub fn parse_sink_cov_section(&self, y: &YamlValue) -> (r: Result<SinkCovConfig, ConfigError>)
        ensures
            (r is Ok) <==> sink_cov_ok(*y),
            r matches Ok(c) ==> sink_cov_built(self.spec_base_dir(), *y, c),
    {
        let env = get_env_attr(y, "env")?;
        let bin_path = self.get_path_attr(y, "bin-path")?;
        let working_dir = self.get_opt_path_attr(y, "working-dir")?;
        let expected: Vec<&str> = vec!["env", "bin-path", "working-dir"];
        proof {
            assert(expected_views(expected@) =~= seq!["env"@, "bin-path"@, "working-dir"@]);
        }
        check_for_unparsed_keys(y, expected.as_slice())?;
        Ok(SinkCovConfig { bin_path, env, working_dir })
    }

    /// Parse the vanilla section; the arguments are copied from the
    /// Sink's, element for element.
    pub fn parse_vanilla_section(&self, y: &YamlValue, arguments: &Vec<String>) -> (r: Result<
        VanillaConfig,
        ConfigError,
    >)
        ensures
            (r is Ok) <==> vanilla_ok(*y),
            r matches Ok(c) ==> vanilla_built(self.spec_base_dir(), *y, c),
            r matches Ok(c) ==> c.arguments@.len() == arguments@.len() && (forall|i: int|
                0 <= i < arguments@.len() ==> (#[trigger] c.arguments@[i])@
                    == arguments@[i]@),
    {
        let env = get_env_attr(y, "env")?;
        let bin_path = self.get_path_attr(y, "bin-path")?;
        let expected: Vec<&str> = vec!["env", "bin-path"];
        proof {
            assert(expected_views(expected@) =~= seq!["env"@, "bin-path"@]);
        }
        check_for_unparsed_keys(y, expected.as_slice())?;
        let mut args: Vec<String> = Vec::new();
        let n = arguments.len();
        let mut i: usize = 0;
        while i < n
            invariant
                i <= n,
                n == arguments@.len(),
                args@.len() == i,
                forall|k: int| 0 <= k < i ==> (#[trigger] args@[k])@ == arguments@[k]@,
            decreases n - i,
        {
            args.push(arguments[i].clone());
            i = i + 1;
        }
        Ok(VanillaConfig { env, bin_path, arguments: args })
    }

    /// Parse the AFL-Net section.
    pub fn parse_afl_net_section(&self, y: &YamlValue) -> (r: Result<AflNetConfig, ConfigError>)
        ensures
            (r is Ok) <==> afl_style_ok(*y),
            r matches Ok(c) ==> aflnet_built(self.spec_base_dir(), *y, c),
    {
        let bin_path = self.get_path_attr(y, "bin-path")?;
        let env = get_env_attr(y, "env")?;
        let input_dir = self.get_path_attr(y, "input-dir")?;
        let netinfo = get_string_attr(y, "netinfo")?;
        let protocol = get_string_attr(y, "protocol")?;
        let send_sigterm = get_opt_bool_attr(y, "send-sigterm")?;
        let enable_state_aware_mode = get_opt_bool_attr(y, "enable-state-aware-mode")?;
        let expected: Vec<&str> = vec![
            "bin-path",
            "env",
            "input-dir",
            "netinfo",
            "protocol",
            "send-sigterm",
            "enable-state-aware-mode",
        ];
        proof {
            assert(expected_views(expected@) =~= seq![
                "bin-path"@,
                "env"@,
                "input-dir"@,
                "netinfo"@,
                "protocol"@,
                "send-sigterm"@,
                "enable-state-aware-mode"@,
            ]);
        }
        check_for_unparsed_keys(y, expected.as_slice())?;
        Ok(
            AflNetConfig {
                env,
                bin_path,
                input_dir,
                protocol,
                netinfo,
                send_sigterm: match send_sigterm {
                    Some(b) => b,
                    None => false,
                },
                enable_state_aware_mode: match enable_state_aware_mode {
                    Some(b) => b,
                    None => true,
                },
            },
        )
    }

    /// Parse the StateAFL section.
    pub fn parse_state_afl_section(&self, y: &YamlValue) -> (r: Result<
        StateAflConfig,
        ConfigError,
    >)
        ensures
            (r is Ok) <==> afl_style_ok(*y),
            r matches Ok(c) ==> stateafl_built(self.spec_base_dir(), *y, c),
    {
        let bin_path = self.get_path_attr(y, "bin-path")?;
        let env = get_env_attr(y, "env")?;
        let input_dir = self.get_path_attr(y, "input-dir")?;
        let netinfo = get_string_attr(y, "netinfo")?;
        let protocol = get_string_attr(y, "protocol")?;
        let send_sigterm = get_opt_bool_attr(y, "send-sigterm")?;
        let enable_state_aware_mode = get_opt_bool_attr(y, "enable-state-aware-mode")?;
        let expected: Vec<&str> = vec![
            "bin-path",
            "env",
            "input-dir",
            "netinfo",
            "protocol",
            "send-sigterm",
            "enable-state-aware-mode",
        ];
        proof {
            assert(expected_views(expected@) =~= seq![
                "bin-path"@,
                "env"@,
                "input-dir"@,
                "netinfo"@,
                "protocol"@,
                "send-sigterm"@,
                "enable-state-aware-mode"@,
            ]);
        }
        check_for_unparsed_keys(y, expected.as_slice())?;
        Ok(
            StateAflConfig {
                bin_path,
                env,
                input_dir,
                protocol,
                netinfo,
                send_sigterm: match send_sigterm {
                    Some(b) => b,
                    None => false,
                },
                enable_state_aware_mode: match enable_state_aware_mode {
                    Some(b) => b,
                    None => true,
                },
            },
        )
    }

    /// Parse the SGFuzz section.
    pub fn parse_sgfuzz_section(&self, y: &YamlValue) -> (r: Result<SGFuzzConfig, ConfigError>)
        ensures
            (r is Ok) <==> sgfuzz_ok(*y),
            r matches Ok(c) ==> sgfuzz_built(self.spec_base_dir(), *y, c),
    {
        let bin_path = self.get_path_attr(y, "bin-path")?;
        let arguments = get_opt_string_vec_attr(y, "arguments")?;
        let env = get_env_attr(y, "env")?;
        let input_dir = self.get_path_attr(y, "input-dir")?;
        let netinfo = get_string_attr(y, "netinfo")?;
        let expected: Vec<&str> = vec!["bin-path", "env", "input-dir", "netinfo", "arguments"];
        proof {
            assert(expected_views(expected@) =~= seq![
                "bin-path"@,
                "env"@,
                "input-dir"@,
                "netinfo"@,
                "arguments"@,
            ]);
        }
        check_for_unparsed_keys(y, expected.as_slice())?;
        Ok(SGFuzzConfig { bin_path, env, args: arguments, input_dir, netinfo })
    }
}

/// What the coverage-sink parser returns for its section value.
pub open spec fn sink_cov_built(base: Seq<char>, y: YamlValue, c: SinkCovConfig) -> bool {
    c.bin_path@ == resolved_path(base, str_of(spec_attr(y, "bin-path"@)).unwrap())
}

/// What the vanilla parser returns for its section value (its arguments
/// are pinned to the Sink's at the build level).
pub open spec fn vanilla_built(base: Seq<char>, y: YamlValue, c: VanillaConfig) -> bool {
    c.bin_path@ == resolved_path(base, str_of(spec_attr(y, "bin-path"@)).unwrap())
}

/// What the AFL-Net parser returns for its section value.
pub open spec fn aflnet_built(base: Seq<char>, y: YamlValue, c: AflNetConfig) -> bool {
    &&& c.bin_path@ == resolved_path(base, str_of(spec_attr(y, "bin-path"@)).unwrap())
    &&& c.input_dir@ == resolved_path(base, str_of(spec_attr(y, "input-dir"@)).unwrap())
    &&& Some(c.netinfo@) == str_of(spec_attr(y, "netinfo"@))
    &&& Some(c.protocol@) == str_of(spec_attr(y, "protocol"@))
    &&& c.send_sigterm == (if absent(spec_attr(y, "send-sigterm"@)) {
        false
    } else {
        bool_of(spec_attr(y, "send-sigterm"@)).unwrap()
    })
    &&& c.enable_state_aware_mode == (if absent(spec_attr(y, "enable-state-aware-mode"@)) {
        true
    } else {
        bool_of(spec_attr(y, "enable-state-aware-mode"@)).unwrap()
    })
}

/// What the StateAFL parser returns for its section value.
pub open spec fn stateafl_built(base: Seq<char>, y: YamlValue, c: StateAflConfig) -> bool {
    &&& c.bin_path@ == resolved_path(base, str_of(spec_attr(y, "bin-path"@)).unwrap())
    &&& c.input_dir@ == resolved_path(base, str_of(spec_attr(y, "input-dir"@)).unwrap())
    &&& Some(c.netinfo@) == str_of(spec_attr(y, "netinfo"@))
    &&& Some(c.protocol@) == str_of(spec_attr(y, "protocol"@))
    &&& c.send_sigterm == (if absent(spec_attr(y, "send-sigterm"@)) {
        false
    } else {
        bool_of(spec_attr(y, "send-sigterm"@)).unwrap()
    })
    &&& c.enable_state_aware_mode == (if absent(spec_attr(y, "enable-state-aware-mode"@)) {
        true
    } else {
        bool_of(spec_attr(y, "enable-state-aware-mode"@)).unwrap()
    })
}

/// What the SGFuzz parser returns for its section value.
pub open spec fn sgfuzz_built(base: Seq<char>, y: YamlValue, c: SGFuzzConfig) -> bool {
    &&& c.bin_path@ == resolved_path(base, str_of(spec_attr(y, "bin-path"@)).unwrap())
    &&& c.input_dir@ == resolved_path(base, str_of(spec_attr(y, "input-dir"@)).unwrap())
    &&& Some(c.netinfo@) == str_of(spec_attr(y, "netinfo"@))
    &&& ((c.args is Some) <==> !absent(spec_attr(y, "arguments"@)))
}

/// Everything up to (excluding) the vanilla section is well-shaped: the
/// order the builder walks the sections in.
pub open spec fn config_sections_before_vanilla_ok(y: YamlValue) -> bool {
    &&& general_ok(y)
    &&& (match opt_section(spec_attr(y, "source"@)) {
        Some(v) => source_ok(v),
        None => false,
    })
    &&& (match opt_section(spec_attr(y, "phases"@)) {
        Some(v) => phases_ok(v),
        None => true,
    })
    &&& (match opt_section(spec_attr(y, "sink"@)) {
        Some(v) => sink_ok(v),
        None => false,
    })
    &&& (match opt_section(spec_attr(y, "sink-cov"@)) {
        Some(v) => sink_cov_ok(v),
        None => true,
    })
    &&& (match opt_section(spec_attr(y, "afl-net"@)) {
        Some(v) => afl_style_ok(v),
        None => true,
    })
    &&& (match opt_section(spec_attr(y, "state-afl"@)) {
        Some(v) => afl_style_ok(v),
        None => true,
    })
    &&& (match opt_section(spec_attr(y, "sgfuzz"@)) {
        Some(v) => sgfuzz_ok(v),
        None => true,
    })
}

/// The whole document is well-shaped: the general attributes, a Source
/// and a Sink and a vanilla section that parse, and every optional
/// section either absent or parsing.
pub open spec fn config_value_ok(y: YamlValue) -> bool {
    &&& general_ok(y)
    &&& (match opt_section(spec_attr(y, "source"@)) {
        Some(v) => source_ok(v),
        None => false,
    })
    &&& (match opt_section(spec_attr(y, "phases"@)) {
        Some(v) => phases_ok(v),
        None => true,
    })
    &&& (match opt_section(spec_attr(y, "sink"@)) {
        Some(v) => sink_ok(v),
        None => false,
    })
    &&& (match opt_section(spec_attr(y, "sink-cov"@)) {
        Some(v) => sink_cov_ok(v),
        None => true,
    })
    &&& (match opt_section(spec_attr(y, "afl-net"@)) {
        Some(v) => afl_style_ok(v),
        None => true,
    })
    &&& (match opt_section(spec_attr(y, "state-afl"@)) {
        Some(v) => afl_style_ok(v),
        None => true,
    })
    &&& (match opt_section(spec_attr(y, "sgfuzz"@)) {
        Some(v) => sgfuzz_ok(v),
        None => true,
    })
    &&& (match opt_section(spec_attr(y, "vanilla"@)) {
        Some(v) => vanilla_ok(v),
        None => false,
    })
}

/// What building a configuration from a document returns: every section
/// field comes from its own parser (or its defaults where the section is
/// absent), and the vanilla arguments are the Sink's.
pub open spec fn config_built(base: Seq<char>, y: YamlValue, c: Config) -> bool {
    &&& general_built(base, y, c.general)
    &&& (match opt_section(spec_attr(y, "source"@)) {
        Some(v) => source_built(base, v, c.source),
        None => false,
    })
    &&& (match opt_section(spec_attr(y, "phases"@)) {
        Some(v) => phases_built(v, c.phases),
        None => c.phases == (PhasesConfig {
            generation_ceiling: None,
            discovery: spec_default_discovery(),
            mutate: spec_default_mutate(),
            add: spec_default_add(),
            combine: spec_default_combine(),
        }),
    })
    &&& (match opt_section(spec_attr(y, "sink"@)) {
        Some(v) => sink_built(base, v, c.sink),
        None => false,
    })
    &&& (match opt_section(spec_attr(y, "sink-cov"@)) {
        Some(v) => c.sink_cov matches Some(sc) && sink_cov_built(base, v, sc),
        None => c.sink_cov is None,
    })
    &&& (match opt_section(spec_attr(y, "afl-net"@)) {
        Some(v) => c.aflnet matches Some(a) && aflnet_built(base, v, a),
        None => c.aflnet is None,
    })
    &&& (match opt_section(spec_attr(y, "state-afl"@)) {
        Some(v) => c.stateafl matches Some(a) && stateafl_built(base, v, a),
        None => c.stateafl is None,
    })
    &&& (match opt_section(spec_attr(y, "sgfuzz"@)) {
        Some(v) => c.sgfuzz matches Some(g) && sgfuzz_built(base, v, g),
        None => c.sgfuzz is None,
    })
    &&& (match opt_section(spec_attr(y, "vanilla"@)) {
        Some(v) => vanilla_built(base, v, c.vanilla),
        None => false,
    })
    &&& c.vanilla.arguments@.len() == c.sink.arguments@.len()
    &&& (forall|i: int|
        0 <= i < c.vanilla.arguments@.len() ==> (#[trigger] c.vanilla.arguments@[i])@
            == c.sink.arguments@[i]@)
}

impl ConfigBuilder {
    /// Build a configuration from one parsed YAML document.  Checking
    /// that the configured paths exist is the embedding program's
    /// validation step.
    pub fn build_from_value(&self, y: &YamlValue) -> (r: Result<Config, ConfigError>)
        ensures
            (r is Ok) <==> config_value_ok(*y),
            r matches Ok(c) ==> config_built(self.spec_base_dir(), *y, c),
            (general_ok(*y) && opt_section(spec_attr(*y, "source"@)) is None) ==> (r matches Err(
                ConfigError::MissingSection(sect),
            ) && sect@ == "source"@),
            (general_ok(*y) && (match opt_section(spec_attr(*y, "source"@)) {
                Some(v) => source_ok(v),
                None => false,
            }) && (match opt_section(spec_attr(*y, "phases"@)) {
                Some(v) => phases_ok(v),
                None => true,
            }) && opt_section(spec_attr(*y, "sink"@)) is None) ==> (r matches Err(
                ConfigError::MissingSection(sect),
            ) && sect@ == "sink"@),
            (config_sections_before_vanilla_ok(*y) && opt_section(spec_attr(*y, "vanilla"@))
                is None) ==> (r matches Err(ConfigError::MissingSection(sect)) && sect@
                == "vanilla"@),
    {
        let general = self.parse_general_section(y)?;
        let source = match get_attr(y, "source") {
            None | Some(YamlValue::Bad) | Some(YamlValue::Null) => {
                return Err(ConfigError::MissingSection("source".to_owned()));
            },
            Some(section) => self.parse_source_section(section)?,
        };
        let phases = match get_attr(y, "phases") {
            None | Some(YamlValue::Bad) | Some(YamlValue::Null) => Default::default(),
            Some(section) => self.parse_phases_section(section)?,
        };
        let sink = match get_attr(y, "sink") {
            None | Some(YamlValue::Bad) | Some(YamlValue::Null) => {
                return Err(ConfigError::MissingSection("sink".to_owned()));
            },
            Some(section) => self.parse_sink_section(section)?,
        };
        let sink_cov = match get_attr(y, "sink-cov") {
            None | Some(YamlValue::Bad) | Some(YamlValue::Null) => None,
            Some(section) => Some(self.parse_sink_cov_section(section)?),
        };
        let aflnet = match get_attr(y, "afl-net") {
            None | Some(YamlValue::Bad) | Some(YamlValue::Null) => None,
            Some(section) => Some(self.parse_afl_net_section(section)?),
        };
        let stateafl = match get_attr(y, "state-afl") {
            None | Some(YamlValue::Bad) | Some(YamlValue::Null) => None,
            Some(section) => Some(self.parse_state_afl_section(section)?),
        };
        let sgfuzz = match get_attr(y, "sgfuzz") {
            None | Some(YamlValue::Bad) | Some(YamlValue::Null) => None,
            Some(section) => Some(self.parse_sgfuzz_section(section)?),
        };
        let vanilla = match get_attr(y, "vanilla") {
            None | Some(YamlValue::Bad) | Some(YamlValue::Null) => {
                return Err(ConfigError::MissingSection("vanilla".to_owned()));
            },
            Some(section) => self.parse_vanilla_section(section, &sink.arguments)?,
        };
        Ok(Config { general, source, phases, sink, sink_cov, vanilla, aflnet, stateafl, sgfuzz })
    }

    /// Parse configuration YAML text: the named parse of the text must
    /// yield at least one document whose first tree builds.  On-disk
    /// validation of the configured paths is left to the embedding
    /// program.
    pub fn from_str(&self, config: &str) -> (r: Result<Config, ConfigError>)
        ensures
            (r is Ok) <==> (crate::yaml::yaml_docs_of(config@) matches Some(docs) && docs.len()
                > 0 && config_value_ok(docs[0])),
            r matches Ok(c) ==> config_built(
                self.spec_base_dir(),
                crate::yaml::yaml_docs_of(config@).unwrap()[0],
                c,
            ),
    {
        let docs = crate::yaml::parse_yaml_documents(config)?;
        if docs.len() == 0 {
            return Err(ConfigError::InvalidSyntax("empty configuration".to_owned()));
        }
        self.build_from_value(&docs[0])
    }
}

} // verus!
