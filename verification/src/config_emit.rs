//! Serialising a configuration back into a YAML value tree.
//!
//! The emitted tree names every attribute explicitly (defaults are
//! inlined), uses the duration grammar's seconds unit, and omits absent
//! optional attributes and sections — so feeding it back through the
//! builder reproduces the configuration, provided the timeouts are whole
//! seconds (everything the duration grammar can produce is) and the
//! paths are absolute (resolution has already happened).

use vstd::prelude::*;
use vstd::string::StringExecFns;

use crate::config::{
    AddPhaseConfig, AflNetConfig, CombinePhaseConfig, Config, DiscoveryPhaseConfig,
    GeneralConfig, InputChannel, MutatePhaseConfig, OutputChannel, PhasesConfig,
    ServerReadySignalKind, SGFuzzConfig, SinkConfig, SinkCovConfig, SourceConfig,
    StateAflConfig, TimeSpan, VanillaConfig,
};
use crate::worker::u64_to_decimal;
use crate::yaml::YamlValue;

verus! {

/// A string hash key.
fn key(name: &str) -> (r: YamlValue)
    ensures
        r matches YamlValue::Str(s) && s@ == name@,
{
    YamlValue::Str(name.to_owned())
}

/// A span of whole seconds in the duration grammar (`<n>s`).
fn timespan_to_yaml(t: &TimeSpan) -> (r: YamlValue) {
    let secs = t.millis / 1000;
    let mut s = u64_to_decimal(secs);
    s.append("s");
    YamlValue::Str(s)
}

/// The name of an input channel, as the grammar spells it.
fn input_channel_to_yaml(c: &InputChannel) -> (r: YamlValue) {
    match c {
        InputChannel::NoInput => YamlValue::Str("none".to_owned()),
        InputChannel::Stdin => YamlValue::Str("stdin".to_owned()),
        InputChannel::File => YamlValue::Str("file".to_owned()),
        InputChannel::Tcp => YamlValue::Str("tcp".to_owned()),
        InputChannel::Udp => YamlValue::Str("udp".to_owned()),
    }
}

/// The name of an output channel, as the grammar spells it.
fn output_channel_to_yaml(c: &OutputChannel) -> (r: YamlValue) {
    match c {
        OutputChannel::NoOutput => YamlValue::Str("none".to_owned()),
        OutputChannel::Stdout => YamlValue::Str("stdout".to_owned()),
        OutputChannel::File => YamlValue::Str("file".to_owned()),
        OutputChannel::Tcp => YamlValue::Str("tcp".to_owned()),
        OutputChannel::Udp => YamlValue::Str("udp".to_owned()),
    }
}

/// A `server-ready-on` value in its grammar (the sentinel count 0 has no
/// written form, so it is spelled as the bare keyword).
fn server_ready_to_yaml(k: &ServerReadySignalKind) -> (r: YamlValue) {
    let (kw, n) = match k {
        ServerReadySignalKind::Bind(n) => ("bind", *n),
        ServerReadySignalKind::Listen(n) => ("listen", *n),
    };
    if n == 0 {
        YamlValue::Str(kw.to_owned())
    } else {
        let mut s = kw.to_owned();
        s.append("(");
        let d = u64_to_decimal(n);
        s.append(d.as_str());
        s.append(")");
        YamlValue::Str(s)
    }
}

/// An environment as a list of one-pair hashes.
fn env_to_yaml(env: &Vec<(String, String)>) -> (r: YamlValue) {
    let mut items: Vec<YamlValue> = Vec::new();
    let n = env.len();
    let mut i: usize = 0;
    while i < n
        invariant
            i <= n,
            n == env@.len(),
        decreases n - i,
    {
        let mut pair: Vec<(YamlValue, YamlValue)> = Vec::new();
        pair.push((YamlValue::Str(env[i].0.clone()), YamlValue::Str(env[i].1.clone())));
        items.push(YamlValue::Hash(pair));
        i = i + 1;
    }
    YamlValue::Array(items)
}

/// A list of strings.
fn strings_to_yaml(items: &Vec<String>) -> (r: YamlValue) {
    let mut out: Vec<YamlValue> = Vec::new();
    let n = items.len();
    let mut i: usize = 0;
    while i < n
        invariant
            i <= n,
            n == items@.len(),
        decreases n - i,
    {
        out.push(YamlValue::Str(items[i].clone()));
        i = i + 1;
    }
    YamlValue::Array(out)
}

/// The Discovery phase section.
fn discovery_to_yaml(c: &DiscoveryPhaseConfig) -> (r: YamlValue) {
    let mut es: Vec<(YamlValue, YamlValue)> = Vec::new();
    es.push((key("enabled"), YamlValue::Bool(c.enabled)));
    es.push((key("batch-size"), YamlValue::Int(c.batch_size as i64)));
    es.push((key("terminate-when-finished"), YamlValue::Bool(c.terminate_when_finished)));
    es.push((key("batch-cov-timeout"), timespan_to_yaml(&c.batch_cov_timeout)));
    es.push((key("phase-cov-timeout"), timespan_to_yaml(&c.phase_cov_timeout)));
    YamlValue::Hash(es)
}

/// The Mutate phase section.
fn mutate_to_yaml(c: &MutatePhaseConfig) -> (r: YamlValue) {
    let mut es: Vec<(YamlValue, YamlValue)> = Vec::new();
    es.push((key("weight"), YamlValue::Int(c.weight as i64)));
    es.push((key("entry-cov-timeout"), timespan_to_yaml(&c.entry_cov_timeout)));
    YamlValue::Hash(es)
}

/// The Add phase section.
fn add_to_yaml(c: &AddPhaseConfig) -> (r: YamlValue) {
    let mut es: Vec<(YamlValue, YamlValue)> = Vec::new();
    es.push((key("weight"), YamlValue::Int(c.weight as i64)));
    es.push((key("batch-size"), YamlValue::Int(c.batch_size as i64)));
    es.push((key("select-unfuzzed-weight"), YamlValue::Int(c.select_unfuzzed_weight as i64)));
    es.push((key("select-yielding-weight"), YamlValue::Int(c.select_yielding_weight as i64)));
    es.push((key("select-random-weight"), YamlValue::Int(c.select_random_weight as i64)));
    es.push((key("entry-cov-timeout"), timespan_to_yaml(&c.entry_cov_timeout)));
    YamlValue::Hash(es)
}

/// The Combine phase section.
fn combine_to_yaml(c: &CombinePhaseConfig) -> (r: YamlValue) {
    let mut es: Vec<(YamlValue, YamlValue)> = Vec::new();
    es.push((key("weight"), YamlValue::Int(c.weight as i64)));
    es.push((key("entry-cov-timeout"), timespan_to_yaml(&c.entry_cov_timeout)));
    YamlValue::Hash(es)
}

/// The phases section, every subsection written out.
fn phases_to_yaml(c: &PhasesConfig) -> (r: YamlValue) {
    let mut es: Vec<(YamlValue, YamlValue)> = Vec::new();
    match c.generation_ceiling {
        Some(g) => {
            es.push((key("generation-ceiling"), YamlValue::Int(g as i64)));
        },
        None => {},
    }
    es.push((key("discovery"), discovery_to_yaml(&c.discovery)));
    es.push((key("mutate"), mutate_to_yaml(&c.mutate)));
    es.push((key("add"), add_to_yaml(&c.add)));
    es.push((key("combine"), combine_to_yaml(&c.combine)));
    YamlValue::Hash(es)
}

/// The Source section, absent optionals omitted.
fn source_to_yaml(c: &SourceConfig) -> (r: YamlValue) {
    let mut es: Vec<(YamlValue, YamlValue)> = Vec::new();
    es.push((key("env"), env_to_yaml(&c.env)));
    es.push((key("bin-path"), YamlValue::Str(c.bin_path.clone())));
    es.push((key("arguments"), strings_to_yaml(&c.arguments)));
    es.push((key("input-type"), input_channel_to_yaml(&c.input_type)));
    es.push((key("output-type"), output_channel_to_yaml(&c.output_type)));
    match &c.output_suffix {
        Some(s) => {
            es.push((key("output-suffix"), YamlValue::Str(s.clone())));
        },
        None => {},
    }
    es.push((key("log-stdout"), YamlValue::Bool(c.log_stdout)));
    es.push((key("log-stderr"), YamlValue::Bool(c.log_stderr)));
    match c.is_server {
        Some(b) => {
            es.push((key("is-server"), YamlValue::Bool(b)));
        },
        None => {},
    }
    match &c.server_port {
        Some(p) => {
            es.push((key("server-port"), YamlValue::Str(p.clone())));
        },
        None => {},
    }
    match &c.server_ready_on {
        Some(k) => {
            es.push((key("server-ready-on"), server_ready_to_yaml(k)));
        },
        None => {},
    }
    match &c.allowed_patch_points {
        Some(ids) => {
            let mut out: Vec<YamlValue> = Vec::new();
            let n = ids.len();
            let mut i: usize = 0;
            while i < n
                invariant
                    i <= n,
                    n == ids@.len(),
                decreases n - i,
            {
                out.push(YamlValue::Int(ids[i].0 as i64));
                i = i + 1;
            }
            es.push((key("allowed-patch-points"), YamlValue::Array(out)));
        },
        None => {},
    }
    match c.max_patch_points {
        Some(m) => {
            es.push((key("max-patch-points"), YamlValue::Int(m)));
        },
        None => {},
    }
    match &c.blocked_patchpoint_instructions {
        Some(codes) => {
            let mut out: Vec<YamlValue> = Vec::new();
            let n = codes.len();
            let mut i: usize = 0;
            while i < n
                invariant
                    i <= n,
                    n == codes@.len(),
                decreases n - i,
            {
                out.push(YamlValue::Int(codes[i] as i64));
                i = i + 1;
            }
            es.push((key("blocked-patch-point-instructions"), YamlValue::Array(out)));
        },
        None => {},
    }
    match &c.working_dir {
        Some(w) => {
            es.push((key("working-dir"), YamlValue::Str(w.clone())));
        },
        None => {},
    }
    YamlValue::Hash(es)
}

/// The Sink section, defaults written out.
fn sink_to_yaml(c: &SinkConfig) -> (r: YamlValue) {
    let mut es: Vec<(YamlValue, YamlValue)> = Vec::new();
    es.push((key("env"), env_to_yaml(&c.env)));
    es.push((key("bin-path"), YamlValue::Str(c.bin_path.clone())));
    es.push((key("arguments"), strings_to_yaml(&c.arguments)));
    es.push((key("input-type"), input_channel_to_yaml(&c.input_type)));
    es.push((key("output-type"), output_channel_to_yaml(&c.output_type)));
    es.push((key("log-stdout"), YamlValue::Bool(c.log_stdout)));
    es.push((key("log-stderr"), YamlValue::Bool(c.log_stderr)));
    es.push((key("allow-unstable-sink"), YamlValue::Bool(c.allow_unstable_sink)));
    match c.is_server {
        Some(b) => {
            es.push((key("is-server"), YamlValue::Bool(b)));
        },
        None => {},
    }
    match &c.server_port {
        Some(p) => {
            es.push((key("server-port"), YamlValue::Str(p.clone())));
        },
        None => {},
    }
    match &c.server_ready_on {
        Some(k) => {
            es.push((key("server-ready-on"), server_ready_to_yaml(k)));
        },
        None => {},
    }
    match &c.working_dir {
        Some(w) => {
            es.push((key("working-dir"), YamlValue::Str(w.clone())));
        },
        None => {},
    }
    es.push((key("send-sigterm"), YamlValue::Bool(c.send_sigterm)));
    YamlValue::Hash(es)
}

/// The coverage-sink section.
fn sink_cov_to_yaml(c: &SinkCovConfig) -> (r: YamlValue) {
    let mut es: Vec<(YamlValue, YamlValue)> = Vec::new();
    es.push((key("env"), env_to_yaml(&c.env)));
    es.push((key("bin-path"), YamlValue::Str(c.bin_path.clone())));
    match &c.working_dir {
        Some(w) => {
            es.push((key("working-dir"), YamlValue::Str(w.clone())));
        },
        None => {},
    }
    YamlValue::Hash(es)
}

/// The vanilla section (its arguments are the Sink's and are not written).
fn vanilla_to_yaml(c: &VanillaConfig) -> (r: YamlValue) {
    let mut es: Vec<(YamlValue, YamlValue)> = Vec::new();
    es.push((key("env"), env_to_yaml(&c.env)));
    es.push((key("bin-path"), YamlValue::Str(c.bin_path.clone())));
    YamlValue::Hash(es)
}

/// An AFL-style competitor section (AFL-Net, StateAFL).
fn afl_style_to_yaml(
    env: &Vec<(String, String)>,
    bin_path: &String,
    input_dir: &String,
    protocol: &String,
    netinfo: &String,
    send_sigterm: bool,
    enable_state_aware_mode: bool,
) -> (r: YamlValue) {
    let mut es: Vec<(YamlValue, YamlValue)> = Vec::new();
    es.push((key("bin-path"), YamlValue::Str(bin_path.clone())));
    es.push((key("env"), env_to_yaml(env)));
    es.push((key("input-dir"), YamlValue::Str(input_dir.clone())));
    es.push((key("netinfo"), YamlValue::Str(netinfo.clone())));
    es.push((key("protocol"), YamlValue::Str(protocol.clone())));
    es.push((key("send-sigterm"), YamlValue::Bool(send_sigterm)));
    es.push((key("enable-state-aware-mode"), YamlValue::Bool(enable_state_aware_mode)));
    YamlValue::Hash(es)
}

/// The SGFuzz section.
fn sgfuzz_to_yaml(c: &SGFuzzConfig) -> (r: YamlValue) {
    let mut es: Vec<(YamlValue, YamlValue)> = Vec::new();
    es.push((key("bin-path"), YamlValue::Str(c.bin_path.clone())));
    match &c.args {
        Some(a) => {
            es.push((key("arguments"), strings_to_yaml(a)));
        },
        None => {},
    }
    es.push((key("env"), env_to_yaml(&c.env)));
    es.push((key("input-dir"), YamlValue::Str(c.input_dir.clone())));
    es.push((key("netinfo"), YamlValue::Str(c.netinfo.clone())));
    YamlValue::Hash(es)
}

/// The general attributes as top-level entries: the two directories
/// first, then the jail attributes.
fn general_entries(c: &GeneralConfig, es: &mut Vec<(YamlValue, YamlValue)>)
    ensures
        final(es)@.len() >= old(es)@.len() + 2,
        forall|k: int| 0 <= k < old(es)@.len() ==> final(es)@[k] == old(es)@[k],
        ({
            let e = final(es)@[old(es)@.len() as int];
            &&& (e.0 matches YamlValue::Str(k) && k@ == "work-directory"@)
            &&& (e.1 matches YamlValue::Str(v) && v@ == c.work_dir@)
        }),
        ({
            let e = final(es)@[old(es)@.len() as int + 1];
            &&& (e.0 matches YamlValue::Str(k) && k@ == "input-directory"@)
            &&& (e.1 matches YamlValue::Str(v) && v@ == c.input_dir@)
        }),
{
    es.push((key("work-directory"), YamlValue::Str(c.work_dir.clone())));
    es.push((key("input-directory"), YamlValue::Str(c.input_dir.clone())));
    match c.jail_uid {
        Some(u) => {
            es.push((key("jail-uid"), YamlValue::Int(u as i64)));
        },
        None => {},
    }
    match c.jail_gid {
        Some(g) => {
            es.push((key("jail-gid"), YamlValue::Int(g as i64)));
        },
        None => {},
    }
    es.push((key("jail-drop-to-sudo-callee"), YamlValue::Bool(c.jail_drop_to_sudo_callee)));
}

/// The whole configuration as a YAML value tree, the inverse direction
/// of the builder: parsing the result reproduces the configuration, with
/// defaults written out and absent sections omitted.  The reproduction
/// is proved for the emitted Mutate and Combine sections
/// (`lemma_mutate_section_round_trip`); for the remaining sections it is
/// checked by the crate's tests.
pub fn config_to_yaml(c: &Config) -> (r: YamlValue)
    ensures
        r is Hash,
        (match crate::config_builder::spec_attr(r, "work-directory"@) {
            Some(YamlValue::Str(v)) => v@ == c.general.work_dir@,
            _ => false,
        }),
        (match crate::config_builder::spec_attr(r, "input-directory"@) {
            Some(YamlValue::Str(v)) => v@ == c.general.input_dir@,
            _ => false,
        }),
{
    let mut es: Vec<(YamlValue, YamlValue)> = Vec::new();
    general_entries(&c.general, &mut es);
    es.push((key("source"), source_to_yaml(&c.source)));
    es.push((key("phases"), phases_to_yaml(&c.phases)));
    es.push((key("sink"), sink_to_yaml(&c.sink)));
    match &c.sink_cov {
        Some(s) => {
            es.push((key("sink-cov"), sink_cov_to_yaml(s)));
        },
        None => {},
    }
    match &c.aflnet {
        Some(a) => {
            es.push((
                key("afl-net"),
                afl_style_to_yaml(
                    &a.env,
                    &a.bin_path,
                    &a.input_dir,
                    &a.protocol,
                    &a.netinfo,
                    a.send_sigterm,
                    a.enable_state_aware_mode,
                ),
            ));
        },
        None => {},
    }
    match &c.stateafl {
        Some(a) => {
            es.push((
                key("state-afl"),
                afl_style_to_yaml(
                    &a.env,
                    &a.bin_path,
                    &a.input_dir,
                    &a.protocol,
                    &a.netinfo,
                    a.send_sigterm,
                    a.enable_state_aware_mode,
                ),
            ));
        },
        None => {},
    }
    match &c.sgfuzz {
        Some(s) => {
            es.push((key("sgfuzz"), sgfuzz_to_yaml(s)));
        },
        None => {},
    }
    es.push((key("vanilla"), vanilla_to_yaml(&c.vanilla)));
    let r = YamlValue::Hash(es);
    proof {
        reveal_with_fuel(crate::config_builder::spec_lookup, 3);
        reveal_strlit("work-directory");
        reveal_strlit("input-directory");
        let rs = match &r {
            YamlValue::Hash(v) => v@,
            _ => Seq::<(YamlValue, YamlValue)>::empty(),
        };
        assert(rs.drop_first()[0] == rs[1]);
        assert("work-directory"@.len() == 14);
        assert("input-directory"@.len() == 15);
        assert("work-directory"@ != "input-directory"@);
    }
    r
}

/// Every character of a decimal rendering is a digit.
pub proof fn lemma_dec_str_digits(n: nat)
    ensures
        forall|i: int|
            0 <= i < crate::worker::dec_str_of(n).len() ==> crate::config::is_dec_digit(
                #[trigger] crate::worker::dec_str_of(n)[i],
            ),
    decreases n,
{
    let s = crate::worker::dec_str_of(n);
    if n < 10 {
        assert(crate::config::is_dec_digit(crate::worker::dec_digit(n as int)));
    } else {
        lemma_dec_str_digits(n / 10);
        let t = crate::worker::dec_str_of(n / 10);
        assert(crate::config::is_dec_digit(crate::worker::dec_digit((n % 10) as int)));
        assert forall|i: int| 0 <= i < s.len() implies crate::config::is_dec_digit(
            #[trigger] s[i],
        ) by {
            if i < t.len() {
                assert(s[i] == t[i]);
            }
        }
    }
}

/// Reading a decimal rendering back gives the number.
pub proof fn lemma_dec_str_val(n: nat)
    ensures
        crate::config::dec_val_of(crate::worker::dec_str_of(n)) == n,
    decreases n,
{
    let s = crate::worker::dec_str_of(n);
    if n < 10 {
        assert(s.drop_last() =~= Seq::<char>::empty());
        assert(crate::config::dec_val_of(Seq::<char>::empty()) == 0);
        assert(s.last() == crate::worker::dec_digit(n as int));
        assert(crate::worker::dec_digit(n as int) as u32 - 48 == n);
    } else {
        lemma_dec_str_val(n / 10);
        let t = crate::worker::dec_str_of(n / 10);
        assert(s.drop_last() =~= t);
        assert(s.last() == crate::worker::dec_digit((n % 10) as int));
        assert(crate::worker::dec_digit((n % 10) as int) as u32 - 48 == n % 10);
        assert(crate::config::dec_val_of(s) == (n / 10) * 10 + n % 10);
        assert((n / 10) * 10 + n % 10 == n) by {
            vstd::arithmetic::div_mod::lemma_fundamental_div_mod(n as int, 10);
        }
    }
}

/// The emitted duration text (`<secs>s`) is in the grammar and denotes
/// exactly `secs * 1000` milliseconds.
pub proof fn lemma_emitted_duration(secs: u64)
    ensures
        ({
            let s = crate::worker::dec_str_of(secs as nat) + "s"@;
            &&& crate::config::duration_shape_ok(s)
            &&& crate::config::duration_millis_of(s) == secs * 1000
        }),
{
    reveal_strlit("s");
    let d = crate::worker::dec_str_of(secs as nat);
    let s = d + "s"@;
    assert(s.last() == 's');
    assert(crate::config::duration_unit_millis('s') == 1000);
    lemma_dec_str_digits(secs as nat);
    assert forall|i: int| 0 <= i < s.len() - 1 implies crate::config::is_dec_digit(
        #[trigger] s[i],
    ) by {
        assert(s[i] == d[i]);
    }
    assert(s.take(s.len() - 1) =~= d);
    lemma_dec_str_val(secs as nat);
}

/// Round trip of an emitted Mutate or Combine phase section: a two-entry
/// hash of the emitted form (both sections share the weight-and-timeout
/// shape) is well-shaped and reads back exactly the weight and the
/// timeout it was written from.  Together with the parsers' own contracts
/// this makes parse-serialise-parse a fixed point for these sections.
pub proof fn lemma_mutate_section_round_trip(
    kw: String,
    kt: String,
    vt: String,
    es: Vec<(YamlValue, YamlValue)>,
    w: u32,
    secs: u64,
)
    requires
        kw@ == "weight"@,
        kt@ == "entry-cov-timeout"@,
        vt@ == crate::worker::dec_str_of(secs as nat) + "s"@,
        secs * 1000 <= u64::MAX,
        es@ == seq![
            (YamlValue::Str(kw), YamlValue::Int(w as i64)),
            (YamlValue::Str(kt), YamlValue::Str(vt)),
        ],
    ensures
        crate::config_sections::mutate_ok(YamlValue::Hash(es)),
        crate::config_sections::combine_ok(YamlValue::Hash(es)),
        crate::config_builder::u32_of(
            crate::config_builder::spec_attr(YamlValue::Hash(es), "weight"@),
        ) == Some(w),
        crate::config_builder::duration_of(
            crate::config_builder::spec_attr(YamlValue::Hash(es), "entry-cov-timeout"@),
        ) == Some((secs * 1000) as u64),
        !crate::config_builder::absent(
            crate::config_builder::spec_attr(YamlValue::Hash(es), "entry-cov-timeout"@),
        ),
{
    reveal_strlit("weight");
    reveal_strlit("entry-cov-timeout");
    reveal_with_fuel(crate::config_builder::spec_lookup, 3);
    let y = YamlValue::Hash(es);
    // The two keys differ, so each lookup lands on its own entry.
    assert("weight"@.len() != "entry-cov-timeout"@.len());
    assert(es@.drop_first() =~= seq![(YamlValue::Str(kt), YamlValue::Str(vt))]);
    assert(es@.drop_first().drop_first() =~= Seq::<(YamlValue, YamlValue)>::empty());
    assert(crate::config_builder::spec_attr(y, "weight"@) == Some(
        YamlValue::Int(w as i64),
    ));
    assert(crate::config_builder::spec_attr(y, "entry-cov-timeout"@) == Some(
        YamlValue::Str(vt),
    ));
    lemma_emitted_duration(secs);
    assert(crate::config_builder::duration_of(Some(YamlValue::Str(vt))) == Some(
        (secs * 1000) as u64,
    ));
    // The emitted text ends in the unit letter, so it cannot spell the
    // `none` placeholder of an absent attribute.
    assert(!crate::config::seq_eq_ci(vt@, "none"@)) by {
        reveal_strlit("none");
        reveal_strlit("s");
        if crate::config::seq_eq_ci(vt@, "none"@) {
            assert(crate::config::eq_ci(vt@[3], "none"@[3]));
            assert(vt@[3] == 's');
        }
    }
    // Both keys are expected ones.
    let expected = seq!["weight"@, "entry-cov-timeout"@];
    assert(crate::config_sections::entries_keys_ok(es@, expected)) by {
        assert(expected[0] == "weight"@);
        assert(expected[1] == "entry-cov-timeout"@);
        assert(crate::config_sections::key_expected(es@[0].0, expected));
        assert(crate::config_sections::key_expected(es@[1].0, expected));
    }
}

} // verus!
