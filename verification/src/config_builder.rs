//! Reading a configuration out of a YAML value tree: attribute lookup,
//! typed attribute extraction, and the unknown-key check.
//!
//! Every getter states exactly when it succeeds and what it returns; the
//! section parsers in the sibling module compose them.

use vstd::prelude::*;
use vstd::string::StrSliceExecFns;
use vstd::string::StringExecFns;

use crate::config::{
    duration_millis_of, duration_shape_ok, seq_eq_ci, ConfigError, FromStrDuration, TimeSpan,
};
use crate::yaml::YamlValue;

verus! {

/// The value under the first hash key spelling `name`.
pub open spec fn spec_lookup(entries: Seq<(YamlValue, YamlValue)>, name: Seq<char>) -> Option<
    YamlValue,
>
    decreases entries.len(),
{
    if entries.len() == 0 {
        None
    } else {
        match entries[0].0 {
            YamlValue::Str(s) => if s@ == name {
                Some(entries[0].1)
            } else {
                spec_lookup(entries.drop_first(), name)
            },
            _ => spec_lookup(entries.drop_first(), name),
        }
    }
}

/// The attribute `name` of a YAML hash (anything else has none).
pub open spec fn spec_attr(y: YamlValue, name: Seq<char>) -> Option<YamlValue> {
    match y {
        YamlValue::Hash(es) => spec_lookup(es@, name),
        _ => None,
    }
}

/// Exact string comparison.
pub fn str_eq(a: &str, b: &str) -> (r: bool)
    ensures
        r == (a@ == b@),
{
    let n = a.unicode_len();
    let m = b.unicode_len();
    if n != m {
        return false;
    }
    let mut i: usize = 0;
    while i < n
        invariant
            i <= n,
            n == a@.len(),
            n == b@.len(),
            forall|k: int| 0 <= k < i ==> a@[k] == b@[k],
        decreases n - i,
    {
        if a.get_char(i) != b.get_char(i) {
            return false;
        }
        i = i + 1;
    }
    proof {
        assert(a@ =~= b@);
    }
    true
}

/// Look an attribute up in a YAML value.
pub fn get_attr<'a>(y: &'a YamlValue, name: &str) -> (r: Option<&'a YamlValue>)
    ensures
        match r {
            Some(v) => spec_attr(*y, name@) == Some(*v),
            None => spec_attr(*y, name@) is None,
        },
{
    match y {
        YamlValue::Hash(es) => {
            let n = es.len();
            let mut i: usize = 0;
            proof {
                assert(es@.skip(0) =~= es@);
            }
            while i < n
                invariant
                    i <= n,
                    n == es@.len(),
                    *y == YamlValue::Hash(*es),
                    spec_lookup(es@, name@) == spec_lookup(es@.skip(i as int), name@),
                decreases n - i,
            {
                let hit = match &es[i].0 {
                    YamlValue::Str(s) => str_eq(s.as_str(), name),
                    _ => false,
                };
                proof {
                    assert(es@.skip(i as int)[0] == es@[i as int]);
                    assert(es@.skip(i as int).drop_first() =~= es@.skip(i + 1));
                }
                if hit {
                    proof {
                        assert(spec_lookup(es@.skip(i as int), name@) == Some(
                            es@[i as int].1,
                        ));
                    }
                    return Some(&es[i].1);
                }
                i = i + 1;
            }
            proof {
                assert(es@.skip(n as int) =~= Seq::<(YamlValue, YamlValue)>::empty());
            }
            None
        },
        _ => None,
    }
}

/// The text of a string attribute.
pub open spec fn str_of(a: Option<YamlValue>) -> Option<Seq<char>> {
    match a {
        Some(YamlValue::Str(s)) => Some(s@),
        _ => None,
    }
}

/// The value of an integer attribute.
pub open spec fn int_of(a: Option<YamlValue>) -> Option<int> {
    match a {
        Some(YamlValue::Int(i)) => Some(i as int),
        _ => None,
    }
}

/// The value of a boolean attribute.
pub open spec fn bool_of(a: Option<YamlValue>) -> Option<bool> {
    match a {
        Some(YamlValue::Bool(b)) => Some(b),
        _ => None,
    }
}

/// An optional attribute counts as absent when it is missing, null, a
/// malformed node, or the string `none` in any letter case.
pub open spec fn absent(a: Option<YamlValue>) -> bool {
    match a {
        None => true,
        Some(YamlValue::Null) => true,
        Some(YamlValue::Bad) => true,
        Some(YamlValue::Str(s)) => seq_eq_ci(s@, "none"@),
        _ => false,
    }
}

/// A required string attribute.
pub fn get_string_attr(y: &YamlValue, name: &str) -> (r: Result<String, ConfigError>)
    ensures
        (r is Ok) <==> (str_of(spec_attr(*y, name@)) is Some),
        r matches Ok(s) ==> Some(s@) == str_of(spec_attr(*y, name@)),
{
    match get_attr(y, name) {
        Some(YamlValue::Str(s)) => Ok(s.clone()),
        _ => Err(
            ConfigError::ConvertionFailed {
                value: name.to_owned(),
                expected_type: "String".to_owned(),
            },
        ),
    }
}

/// A required boolean attribute.
pub fn get_bool_attr(y: &YamlValue, name: &str) -> (r: Result<bool, ConfigError>)
    ensures
        (r is Ok) <==> (bool_of(spec_attr(*y, name@)) is Some),
        r matches Ok(b) ==> Some(b) == bool_of(spec_attr(*y, name@)),
{
    match get_attr(y, name) {
        Some(YamlValue::Bool(b)) => Ok(*b),
        _ => Err(
            ConfigError::ConvertionFailed {
                value: name.to_owned(),
                expected_type: "bool".to_owned(),
            },
        ),
    }
}

/// The value of a 32-bit unsigned attribute, when in range.
pub open spec fn u32_of(a: Option<YamlValue>) -> Option<u32> {
    match int_of(a) {
        Some(i) => if 0 <= i <= u32::MAX {
            Some(i as u32)
        } else {
            None
        },
        None => None,
    }
}

/// A required 32-bit unsigned attribute.
pub fn get_u32_attr(y: &YamlValue, name: &str) -> (r: Result<u32, ConfigError>)
    ensures
        (r is Ok) <==> (u32_of(spec_attr(*y, name@)) is Some),
        r matches Ok(v) ==> Some(v) == u32_of(spec_attr(*y, name@)),
{
    match get_attr(y, name) {
        Some(YamlValue::Int(i)) => {
            let i = *i;
            if i >= 0 && i <= u32::MAX as i64 {
                Ok(i as u32)
            } else {
                Err(
                    ConfigError::ConvertionFailed {
                        value: name.to_owned(),
                        expected_type: "u32".to_owned(),
                    },
                )
            }
        },
        _ => Err(
            ConfigError::ConvertionFailed {
                value: name.to_owned(),
                expected_type: "u32".to_owned(),
            },
        ),
    }
}

/// An optional string attribute.
pub fn get_opt_string_attr(y: &YamlValue, name: &str) -> (r: Result<
    Option<String>,
    ConfigError,
>)
    ensures
        (r is Ok) <==> absent(spec_attr(*y, name@)) || str_of(spec_attr(*y, name@)) is Some,
        r matches Ok(v) ==> match v {
            Some(s) => !absent(spec_attr(*y, name@)) && Some(s@) == str_of(
                spec_attr(*y, name@),
            ),
            None => absent(spec_attr(*y, name@)),
        },
{
    match get_attr(y, name) {
        None => Ok(None),
        Some(YamlValue::Null) => Ok(None),
        Some(YamlValue::Bad) => Ok(None),
        Some(YamlValue::Str(s)) => {
            if str_eq_ci_none(s.as_str()) {
                Ok(None)
            } else {
                Ok(Some(s.clone()))
            }
        },
        _ => Err(
            ConfigError::ConvertionFailed {
                value: name.to_owned(),
                expected_type: "String".to_owned(),
            },
        ),
    }
}

/// Whether a string spells `none`, in any letter case.
pub fn str_eq_ci_none(s: &str) -> (r: bool)
    ensures
        r == seq_eq_ci(s@, "none"@),
{
    let n = s.unicode_len();
    proof {
        reveal_strlit("none");
    }
    if n != 4 {
        return false;
    }
    let c0 = s.get_char(0);
    let c1 = s.get_char(1);
    let c2 = s.get_char(2);
    let c3 = s.get_char(3);
    let r = (c0 == 'n' || c0 == 'N') && (c1 == 'o' || c1 == 'O') && (c2 == 'n' || c2 == 'N') && (
    c3 == 'e' || c3 == 'E');
    proof {
        assert(('N' as u32) + 32 == ('n' as u32));
        assert(('O' as u32) + 32 == ('o' as u32));
        assert(('E' as u32) + 32 == ('e' as u32));
    }
    r
}

/// An optional boolean attribute.
pub fn get_opt_bool_attr(y: &YamlValue, name: &str) -> (r: Result<Option<bool>, ConfigError>)
    ensures
        (r is Ok) <==> absent(spec_attr(*y, name@)) || bool_of(spec_attr(*y, name@)) is Some,
        r matches Ok(v) ==> match v {
            Some(b) => Some(b) == bool_of(spec_attr(*y, name@)),
            None => absent(spec_attr(*y, name@)),
        },
{
    match get_attr(y, name) {
        None => Ok(None),
        Some(YamlValue::Null) => Ok(None),
        Some(YamlValue::Bad) => Ok(None),
        Some(YamlValue::Bool(b)) => Ok(Some(*b)),
        Some(YamlValue::Str(s)) => {
            if str_eq_ci_none(s.as_str()) {
                Ok(None)
            } else {
                Err(
                    ConfigError::ConvertionFailed {
                        value: name.to_owned(),
                        expected_type: "bool".to_owned(),
                    },
                )
            }
        },
        _ => Err(
            ConfigError::ConvertionFailed {
                value: name.to_owned(),
                expected_type: "bool".to_owned(),
            },
        ),
    }
}

/// An optional 32-bit unsigned attribute.
pub fn get_opt_u32_attr(y: &YamlValue, name: &str) -> (r: Result<Option<u32>, ConfigError>)
    ensures
        (r is Ok) <==> absent(spec_attr(*y, name@)) || u32_of(spec_attr(*y, name@)) is Some,
        r matches Ok(v) ==> match v {
            Some(b) => Some(b) == u32_of(spec_attr(*y, name@)),
            None => absent(spec_attr(*y, name@)),
        },
{
    match get_attr(y, name) {
        None => Ok(None),
        Some(YamlValue::Null) => Ok(None),
        Some(YamlValue::Bad) => Ok(None),
        Some(YamlValue::Int(i)) => {
            let i = *i;
            if i >= 0 && i <= u32::MAX as i64 {
                Ok(Some(i as u32))
            } else {
                Err(
                    ConfigError::ConvertionFailed {
                        value: name.to_owned(),
                        expected_type: "u32".to_owned(),
                    },
                )
            }
        },
        Some(YamlValue::Str(s)) => {
            if str_eq_ci_none(s.as_str()) {
                Ok(None)
            } else {
                Err(
                    ConfigError::ConvertionFailed {
                        value: name.to_owned(),
                        expected_type: "u32".to_owned(),
                    },
                )
            }
        },
        _ => Err(
            ConfigError::ConvertionFailed {
                value: name.to_owned(),
                expected_type: "u32".to_owned(),
            },
        ),
    }
}

/// The value of a 64-bit signed attribute.
pub open spec fn i64_of(a: Option<YamlValue>) -> Option<i64> {
    match a {
        Some(YamlValue::Int(i)) => Some(i),
        _ => None,
    }
}

/// An optional 64-bit signed attribute.
pub fn get_opt_i64_attr(y: &YamlValue, name: &str) -> (r: Result<Option<i64>, ConfigError>)
    ensures
        (r is Ok) <==> absent(spec_attr(*y, name@)) || i64_of(spec_attr(*y, name@)) is Some,
        r matches Ok(v) ==> match v {
            Some(b) => Some(b) == i64_of(spec_attr(*y, name@)),
            None => absent(spec_attr(*y, name@)),
        },
{
    match get_attr(y, name) {
        None => Ok(None),
        Some(YamlValue::Null) => Ok(None),
        Some(YamlValue::Bad) => Ok(None),
        Some(YamlValue::Int(i)) => Ok(Some(*i)),
        Some(YamlValue::Str(s)) => {
            if str_eq_ci_none(s.as_str()) {
                Ok(None)
            } else {
                Err(
                    ConfigError::ConvertionFailed {
                        value: name.to_owned(),
                        expected_type: "i64".to_owned(),
                    },
                )
            }
        },
        _ => Err(
            ConfigError::ConvertionFailed {
                value: name.to_owned(),
                expected_type: "i64".to_owned(),
            },
        ),
    }
}

/// The milliseconds of an optional duration attribute: a string of the
/// duration grammar whose value fits.
pub open spec fn duration_of(a: Option<YamlValue>) -> Option<u64> {
    match str_of(a) {
        Some(s) => if duration_shape_ok(s) && duration_millis_of(s) <= u64::MAX {
            Some(duration_millis_of(s) as u64)
        } else {
            None
        },
        None => None,
    }
}

/// An optional duration attribute; `default_millis` stands in when it is
/// absent.
pub fn get_opt_duration_attr(y: &YamlValue, name: &str, default_millis: u64) -> (r: Result<
    TimeSpan,
    ConfigError,
>)
    ensures
        (r is Ok) <==> absent(spec_attr(*y, name@)) || duration_of(spec_attr(*y, name@))
            is Some,
        r matches Ok(t) ==> t.millis == (if absent(spec_attr(*y, name@)) {
            default_millis
        } else {
            duration_of(spec_attr(*y, name@)).unwrap()
        }),
{
    match get_attr(y, name) {
        None => Ok(TimeSpan { millis: default_millis }),
        Some(YamlValue::Null) => Ok(TimeSpan { millis: default_millis }),
        Some(YamlValue::Bad) => Ok(TimeSpan { millis: default_millis }),
        Some(YamlValue::Str(s)) => {
            if str_eq_ci_none(s.as_str()) {
                return Ok(TimeSpan { millis: default_millis });
            }
            match FromStrDuration::from_str(s.as_str()) {
                Ok(d) => Ok(d.0),
                Err(_) => Err(
                    ConfigError::InvalidValue(name.to_owned()),
                ),
            }
        },
        _ => Err(ConfigError::InvalidValue(name.to_owned())),
    }
}

} // verus!
