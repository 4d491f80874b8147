use scheduler::config::{
    AddPhaseConfig, Config, FromStrDuration, GeneralConfig, InputChannel, OutputChannel,
    ServerReadySignalKind, TimeSpan, TransportType, parse_input_channel, parse_output_channel,
    parse_server_ready, SGFuzzConfig, AflNetConfig,
};
use scheduler::config_sections::ConfigBuilder;

fn sample_config_text() -> String {
    let mut s = String::new();
    s.push_str("work-directory: \"/tmp/work\"\n");
    s.push_str("input-directory: \"input\"\n");
    s.push_str("source:\n");
    s.push_str("  bin-path: \"/bin/source\"\n");
    s.push_str("  arguments: [\"a\", \"b\"]\n");
    s.push_str("  input-type: \"stdin\"\n");
    s.push_str("  output-type: \"file\"\n");
    s.push_str("  log-stdout: false\n");
    s.push_str("  log-stderr: true\n");
    s.push_str("sink:\n");
    s.push_str("  bin-path: \"sink\"\n");
    s.push_str("  arguments: [\"x\"]\n");
    s.push_str("  input-type: \"None\"\n");
    s.push_str("  output-type: \"stdout\"\n");
    s.push_str("  log-stdout: true\n");
    s.push_str("  log-stderr: false\n");
    s.push_str("  allow-unstable-sink: true\n");
    s.push_str("vanilla:\n");
    s.push_str("  bin-path: \"/bin/vanilla\"\n");
    s.push_str("phases:\n");
    s.push_str("  discovery:\n");
    s.push_str("    enabled: true\n");
    s.push_str("    batch-size: 50\n");
    s.push_str("    terminate-when-finished: false\n");
    s.push_str("    batch-cov-timeout: 5m\n");
    s.push_str("    phase-cov-timeout: 15m\n");
    s.push_str("  mutate:\n");
    s.push_str("    weight: 50\n");
    s.push_str("    entry-cov-timeout: 15m\n");
    s.push_str("  add:\n");
    s.push_str("    weight: 1\n");
    s.push_str("    batch-size: 60\n");
    s.push_str("    select-unfuzzed-weight: 1\n");
    s.push_str("    select-yielding-weight: 1\n");
    s.push_str("    select-random-weight: 1\n");
    s.push_str("    entry-cov-timeout: 15m\n");
    s.push_str("  combine:\n");
    s.push_str("    weight: 5\n");
    s.push_str("    entry-cov-timeout: 10m\n");
    s
}

#[test]
fn duration_grammar_accepts_the_five_units() {
    assert_eq!(FromStrDuration::from_str("30s").unwrap().0.millis, 30_000);
    assert_eq!(FromStrDuration::from_str("5m").unwrap().0.millis, 300_000);
    assert_eq!(FromStrDuration::from_str("2h").unwrap().0.millis, 7_200_000);
    assert_eq!(FromStrDuration::from_str("1d").unwrap().0.millis, 86_400_000);
    assert_eq!(FromStrDuration::from_str("1a").unwrap().0.millis, 31_536_000_000);
}

#[test]
fn duration_grammar_rejects_malformed_strings() {
    assert!(FromStrDuration::from_str("1").is_err());
    assert!(FromStrDuration::from_str("5min").is_err());
    assert!(FromStrDuration::from_str("").is_err());
    assert!(FromStrDuration::from_str("s").is_err());
    assert!(FromStrDuration::from_str("x5m").is_err());
    // A value beyond 64-bit milliseconds is rejected, not wrapped.
    assert!(FromStrDuration::from_str("99999999999999999999a").is_err());
}

#[test]
fn server_ready_grammar() {
    assert_eq!(parse_server_ready("bind").unwrap(), ServerReadySignalKind::Bind(0));
    assert_eq!(parse_server_ready("listen(3)").unwrap(), ServerReadySignalKind::Listen(3));
    assert_eq!(parse_server_ready("BIND").unwrap(), ServerReadySignalKind::Bind(0));
    assert_eq!(parse_server_ready("bind(12)").unwrap(), ServerReadySignalKind::Bind(12));
    // The count must be positive: a literal 0 is not part of the grammar.
    assert!(parse_server_ready("listen(0)").is_err());
    assert!(parse_server_ready("listen()").is_err());
    assert!(parse_server_ready("accept").is_err());
}

#[test]
fn channel_names() {
    assert_eq!(parse_input_channel("None").unwrap(), InputChannel::NoInput);
    assert_eq!(parse_input_channel("stdin").unwrap(), InputChannel::Stdin);
    assert_eq!(parse_input_channel("TCP").unwrap(), InputChannel::Tcp);
    assert!(parse_input_channel("pipe").is_err());
    assert_eq!(parse_output_channel("stdout").unwrap(), OutputChannel::Stdout);
    assert_eq!(parse_output_channel("udp").unwrap(), OutputChannel::Udp);
    assert!(parse_output_channel("stdin").is_err());
}

#[test]
fn full_config_parses() {
    let builder = ConfigBuilder::new(String::from("/base"));
    let config = builder.from_str(&sample_config_text()).unwrap();
    assert_eq!(config.general.work_dir, "/tmp/work");
    // A relative path is resolved against the base directory.
    assert_eq!(config.general.input_dir, "/base/input");
    assert_eq!(config.source.bin_path, "/bin/source");
    assert_eq!(config.source.input_type, InputChannel::Stdin);
    assert_eq!(config.source.output_type, OutputChannel::File);
    assert!(!config.source.log_stdout);
    assert!(config.source.log_stderr);
    assert_eq!(config.source.arguments, vec!["a", "b"]);
    assert_eq!(config.sink.bin_path, "/base/sink");
    assert_eq!(config.sink.input_type, InputChannel::NoInput);
    assert_eq!(config.sink.output_type, OutputChannel::Stdout);
    assert!(config.sink.allow_unstable_sink);
    // Vanilla inherits the Sink's arguments.
    assert_eq!(config.vanilla.arguments, vec!["x"]);
    assert_eq!(config.phases.mutate.weight, 50);
    assert_eq!(config.phases.add.batch_size, 60);
    assert_eq!(config.phases.combine.entry_cov_timeout, TimeSpan { millis: 600_000 });
    assert_eq!(config.phases.discovery.batch_cov_timeout, TimeSpan { millis: 300_000 });
    assert!(config.aflnet.is_none());
    assert!(config.sgfuzz.is_none());
}

#[test]
fn unknown_top_level_key_is_rejected() {
    let mut text = sample_config_text();
    text.push_str("foo: bar\n");
    let builder = ConfigBuilder::new(String::from("/base"));
    let err = builder.from_str(&text);
    assert!(err.is_err());
    let msg = err.err().unwrap().message();
    assert!(msg.contains("foo"));
}

#[test]
fn phase_timeouts_default_per_section() {
    // Phase sections present but without their timeout keys take the
    // interface defaults: Discovery 10 and 20 min, Mutate and Add 15 min,
    // Combine 10 min.
    let mut text = sample_config_text();
    text = text.replace("    batch-cov-timeout: 5m\n", "");
    text = text.replace("    phase-cov-timeout: 15m\n", "");
    text = text.replace("    entry-cov-timeout: 15m\n", "");
    text = text.replace("    entry-cov-timeout: 10m\n", "");
    let builder = ConfigBuilder::new(String::from("/base"));
    let c = builder.from_str(&text).unwrap();
    assert_eq!(c.phases.discovery.batch_cov_timeout.millis, 600_000);
    assert_eq!(c.phases.discovery.phase_cov_timeout.millis, 1_200_000);
    assert_eq!(c.phases.mutate.entry_cov_timeout.millis, 900_000);
    assert_eq!(c.phases.add.entry_cov_timeout.millis, 900_000);
    assert_eq!(c.phases.combine.entry_cov_timeout.millis, 600_000);
}

#[test]
fn phases_default_when_section_missing() {
    let mut text = String::new();
    for line in sample_config_text().lines() {
        if line.starts_with("phases:") {
            break;
        }
        text.push_str(line);
        text.push('\n');
    }
    let builder = ConfigBuilder::new(String::from("/base"));
    let config = builder.from_str(&text).unwrap();
    assert_eq!(config.phases.mutate.weight, 40);
    assert_eq!(config.phases.add.weight, 3);
    assert_eq!(config.phases.add.batch_size, 12);
    assert_eq!(config.phases.combine.weight, 10);
    assert!(config.phases.discovery.enabled);
    assert_eq!(config.phases.discovery.batch_size, 50);
}

#[test]
fn general_config_path_helpers() {
    let g = GeneralConfig {
        input_dir: String::from("/in"),
        work_dir: String::from("/work"),
        tracing_timeout: TimeSpan { millis: 300_000 },
        jail_uid: None,
        jail_gid: None,
        jail_drop_to_sudo_callee: true,
    };
    assert_eq!(g.aflnet_workdir(), "/work/aflnet-workdir");
    assert_eq!(g.interesting_pcaps_path(), "/work/interesting-pcaps");
    assert_eq!(g.crashing_pcaps_path(), "/work/crashing-pcaps");
    assert_eq!(g.stateafl_workdir(), "/work/stateafl-workdir");
    assert_eq!(g.sgfuzz_workdir(), "/work/sgfuzz-workdir");
    assert_eq!(g.sgfuzz_seed_out_dir(), "/work/sgfuzz-workdir/findings");
    assert_eq!(g.sgfuzz_seed_with_ts_out_dir(), "/work/sgfuzz-workdir/findings-ts");
    assert_eq!(g.sgfuzz_crash_out_dir(), "/work/sgfuzz-workdir/crashes");
    assert_eq!(g.llvm_cov_directory(), "/work/llvm-cov");
    assert_eq!(g.interesting_path(), "/work/interesting");
    assert_eq!(g.valgrind_path(), "/work/valgrind");
    assert_eq!(g.crashing_path(), "/work/crashing");
    assert_eq!(g.pcap_path(), "/work/pcaps");
    assert_eq!(g.asan_reports_path(), "/work/asan");
    assert_eq!(g.queue_path(), "/work/queue");
    assert_eq!(g.patch_points_path(), "/work/0/source/state/patch_points.json");
    assert_eq!(g.introspection_path(), "/work/introspection.json");
    assert!(!g.jail_enabled());
    assert!(g.jail_uid_gid().is_none());
}

#[test]
fn jail_ids_come_in_pairs() {
    let g = GeneralConfig {
        input_dir: String::from("/in"),
        work_dir: String::from("/work"),
        tracing_timeout: TimeSpan { millis: 300_000 },
        jail_uid: Some(1000),
        jail_gid: Some(1001),
        jail_drop_to_sudo_callee: false,
    };
    assert!(g.jail_enabled());
    assert_eq!(g.jail_uid_gid(), Some((1000, 1001)));
}

#[test]
fn weights_sum_adds_the_three_classes() {
    let c = AddPhaseConfig {
        weight: 3,
        batch_size: 12,
        select_unfuzzed_weight: 2,
        select_yielding_weight: 3,
        select_random_weight: 4,
        entry_cov_timeout: TimeSpan { millis: 1 },
    };
    assert_eq!(c.weights_sum(), 9);
}

#[test]
fn transport_types_from_netinfo() {
    let a = AflNetConfig {
        env: vec![],
        bin_path: String::from("/b"),
        input_dir: String::from("/i"),
        protocol: String::from("http"),
        netinfo: String::from("tcp/127.0.0.1/8080"),
        send_sigterm: false,
        enable_state_aware_mode: true,
    };
    assert_eq!(a.transport_type(), TransportType::TCP);
    let s = SGFuzzConfig {
        bin_path: String::from("/b"),
        env: vec![],
        args: None,
        input_dir: String::from("/i"),
        netinfo: String::from("UDP/10.0.0.1/4433"),
    };
    assert_eq!(s.transport_type(), TransportType::UDP);
    assert_eq!(s.dst_port(), 4433);
}

#[test]
fn parse_serialise_parse_is_a_fixed_point() {
    // Parse, serialise back into a value tree, parse again: the same
    // configuration comes out (defaults inlined on the way).
    let mut text = sample_config_text();
    text = text.replace(
        "  allow-unstable-sink: true\n",
        "  allow-unstable-sink: true\n  is-server: true\n  server-port: \"8080\"\n  server-ready-on: \"listen(3)\"\n",
    );
    text.push_str("afl-net:\n");
    text.push_str("  bin-path: \"/bin/aflnet\"\n");
    text.push_str("  input-dir: \"/seeds\"\n");
    text.push_str("  netinfo: \"tcp/127.0.0.1/80\"\n");
    text.push_str("  protocol: \"http\"\n");
    let builder = ConfigBuilder::new(String::from("/base"));
    let c1 = builder.from_str(&text).unwrap();
    let v = scheduler::config_emit::config_to_yaml(&c1);
    let c2 = builder.build_from_value(&v).unwrap();
    assert_eq!(c2.general.work_dir, c1.general.work_dir);
    assert_eq!(c2.general.input_dir, c1.general.input_dir);
    assert_eq!(c2.general.jail_uid, c1.general.jail_uid);
    assert_eq!(c2.general.jail_drop_to_sudo_callee, c1.general.jail_drop_to_sudo_callee);
    assert_eq!(c2.phases, c1.phases);
    assert_eq!(c2.source.bin_path, c1.source.bin_path);
    assert_eq!(c2.source.arguments, c1.source.arguments);
    assert_eq!(c2.source.input_type, c1.source.input_type);
    assert_eq!(c2.source.output_type, c1.source.output_type);
    assert_eq!(c2.source.log_stdout, c1.source.log_stdout);
    assert_eq!(c2.source.log_stderr, c1.source.log_stderr);
    assert_eq!(c2.sink.bin_path, c1.sink.bin_path);
    assert_eq!(c2.sink.arguments, c1.sink.arguments);
    assert_eq!(c2.sink.input_type, c1.sink.input_type);
    assert_eq!(c2.sink.output_type, c1.sink.output_type);
    assert_eq!(c2.sink.allow_unstable_sink, c1.sink.allow_unstable_sink);
    assert_eq!(c2.sink.is_server, Some(true));
    assert_eq!(c2.sink.server_port, Some(String::from("8080")));
    assert_eq!(c2.sink.server_ready_on, Some(ServerReadySignalKind::Listen(3)));
    assert_eq!(c2.sink.send_sigterm, c1.sink.send_sigterm);
    assert_eq!(c2.vanilla.bin_path, c1.vanilla.bin_path);
    assert_eq!(c2.vanilla.arguments, c1.vanilla.arguments);
    let a1 = c1.aflnet.unwrap();
    let a2 = c2.aflnet.unwrap();
    assert_eq!(a2.bin_path, a1.bin_path);
    assert_eq!(a2.netinfo, a1.netinfo);
    assert_eq!(a2.protocol, a1.protocol);
    assert_eq!(a2.send_sigterm, a1.send_sigterm);
    assert_eq!(a2.enable_state_aware_mode, a1.enable_state_aware_mode);
    assert!(c2.stateafl.is_none());
    assert!(c2.sgfuzz.is_none());
    assert!(c2.sink_cov.is_none());
}

#[test]
fn server_port_of_the_server_side() {
    let builder = ConfigBuilder::new(String::from("/base"));
    let mut text = sample_config_text();
    text = text.replace(
        "  allow-unstable-sink: true\n",
        "  allow-unstable-sink: true\n  is-server: true\n  server-port: \"8080\"\n",
    );
    let config: Config = builder.from_str(&text).unwrap();
    assert_eq!(config.server_port().unwrap(), "8080");
    assert!(!config.target_uses_network());
}
