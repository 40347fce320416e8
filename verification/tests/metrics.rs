//! The counters, the page that a scraper reads, and the requests for it.
use blackhole_linux::daemon::counters::{
    classify_tier, Counter, CounterVec, Gauge, GaugeVec, PerL2cpuBlkErrors, PerL2cpuBlkOpCounter,
    PerL2cpuCounter, PerL2cpuDirCounter, PerL2cpuGauge, PerL2cpuNetDirCounter, RpcMethod,
    RpcMethodCounter, Tier, WorkerKind, WorkerTierCounter,
};
use blackhole_linux::daemon::exposition::{Exposition, MetricKind};
use blackhole_linux::daemon::http::{
    handle_request, http_response, parse_request_line, read_request_headers, ReadEvent, ReadStep,
    RequestKind,
};
use blackhole_linux::daemon::metrics::{
    render_prometheus, ChipTelemetry, Metrics, ScrapeState, Seconds, SlotGauges, TierSeconds,
};

const MS: u128 = 1_000_000;
const SEC: u128 = 1_000_000_000;

fn no_seconds() -> TierSeconds {
    [[[Seconds { whole: 0, zeros: 0, digits: 0 }; 3]; 4]; 5]
}

/// A daemon that has just come up on card 0.
fn fresh() -> ScrapeState {
    ScrapeState {
        uptime_seconds: 0,
        card: 0,
        tier_seconds: no_seconds(),
        slots: [None, None, None, None],
        telemetry: None,
    }
}

/// The answer to a client that sends these pieces and keeps its side open.
fn answer_to(pieces: &[&[u8]]) -> String {
    let mut buf: Vec<u8> = Vec::new();
    let mut step = ReadStep::More;
    for piece in pieces {
        for chunk in piece.chunks(1024) {
            if matches!(step, ReadStep::More) {
                step = read_request_headers(&mut buf, &ReadEvent::Data(chunk.to_vec()));
            }
        }
    }
    if matches!(step, ReadStep::More) {
        step = read_request_headers(&mut buf, &ReadEvent::TimedOut);
    }
    handle_request(&buf, step, &Metrics::new(), &fresh()).expect("an answer")
}

fn validate_prometheus_text(text: &str) -> Result<(), String> {
    let valid_metric_name = |s: &str| -> bool {
        let mut chars = s.chars();
        match chars.next() {
            Some(c) if c.is_ascii_alphabetic() || c == '_' || c == ':' => {}
            _ => return false,
        }
        chars.all(|c| c.is_ascii_alphanumeric() || c == '_' || c == ':')
    };
    let valid_label_name = |s: &str| -> bool {
        let mut chars = s.chars();
        match chars.next() {
            Some(c) if c.is_ascii_alphabetic() || c == '_' => {}
            _ => return false,
        }
        chars.all(|c| c.is_ascii_alphanumeric() || c == '_')
    };
    let valid_label_value = |s: &str| -> bool {
        let mut iter = s.chars().peekable();
        while let Some(c) = iter.next() {
            if c == '\n' {
                return false;
            }
            if c == '\\' {
                match iter.next() {
                    Some('\\') | Some('"') | Some('n') => {}
                    _ => return false,
                }
            } else if c == '"' {
                return false; // unescaped quote inside the value
            }
        }
        true
    };

    for (lineno, raw) in text.lines().enumerate() {
        let line = raw.trim_end_matches('\r');
        if line.is_empty() || line.starts_with('#') {
            continue;
        }
        let space = line.find(' ').ok_or_else(|| {
            format!("line {}: missing value separator: {:?}", lineno + 1, line)
        })?;
        let (name_with_labels, _value) = line.split_at(space);

        let (name, labels) = if let Some(brace) = name_with_labels.find('{') {
            if !name_with_labels.ends_with('}') {
                return Err(format!("line {}: unclosed label brace", lineno + 1));
            }
            (
                &name_with_labels[..brace],
                Some(&name_with_labels[brace + 1..name_with_labels.len() - 1]),
            )
        } else {
            (name_with_labels, None)
        };

        if !valid_metric_name(name) {
            return Err(format!(
                "line {}: invalid metric name {:?}",
                lineno + 1,
                name
            ));
        }

        if let Some(labels) = labels {
            for pair in labels.split(',') {
                let eq = pair
                    .find('=')
                    .ok_or_else(|| format!("line {}: label missing '='", lineno + 1))?;
                let (lname, rest) = pair.split_at(eq);
                let value_part = &rest[1..]; // skip the '='
                if !valid_label_name(lname) {
                    return Err(format!(
                        "line {}: invalid label name {:?}",
                        lineno + 1,
                        lname
                    ));
                }
                if !value_part.starts_with('"') || !value_part.ends_with('"') {
                    return Err(format!(
                        "line {}: label value not quoted: {:?}",
                        lineno + 1,
                        value_part
                    ));
                }
                let inner = &value_part[1..value_part.len() - 1];
                if !valid_label_value(inner) {
                    return Err(format!(
                        "line {}: invalid label value escape: {:?}",
                        lineno + 1,
                        inner
                    ));
                }
            }
        }
    }
    Ok(())
}

#[test]
fn render_prometheus_emits_expected_metric_names() {
    let out = render_prometheus(&Metrics::new(), &fresh());

    for needle in [
        "# HELP bhx_daemon_uptime_seconds",
        "# TYPE bhx_daemon_uptime_seconds gauge",
        "\nbhx_daemon_uptime_seconds ",
        "# HELP bhx_daemon_clients_total",
        "# TYPE bhx_daemon_clients_total counter",
        "# HELP bhx_daemon_clients_active",
        "# TYPE bhx_daemon_clients_active gauge",
        "# HELP bhx_daemon_sandbox_status",
        "# TYPE bhx_daemon_sandbox_status gauge",
        "# HELP bhx_daemon_rpc_total",
        "# TYPE bhx_daemon_rpc_total counter",
        "bhx_daemon_rpc_total{method=\"boot\"} ",
        "bhx_daemon_rpc_total{method=\"add_disk\"} ",
        "bhx_daemon_rpc_errors_total{method=\"boot\"} ",
        "bhx_l2cpu_boot_total{idx=\"0\",kind=\"cold\"} ",
        "bhx_l2cpu_boot_total{idx=\"3\",kind=\"warm\"} ",
        "bhx_l2cpu_console_clients{idx=\"2\"} ",
        "bhx_l2cpu_console_bytes_total{idx=\"0\",direction=\"g2h\"} ",
        "bhx_l2cpu_console_bytes_total{idx=\"3\",direction=\"h2g\"} ",
        "bhx_l2cpu_disks{idx=\"0\"} ",
        "bhx_l2cpu_net{idx=\"3\"} ",
        "# HELP bhx_l2cpu_running",
        "# TYPE bhx_l2cpu_running gauge",
        "bhx_l2cpu_running{idx=\"0\"} 0",
        "bhx_l2cpu_running{idx=\"3\"} 0",
        "bhx_blk_requests_total{idx=\"0\",disk_id=\"0\",op=\"read\"} ",
        "bhx_blk_requests_total{idx=\"2\",disk_id=\"0\",op=\"write\"} ",
        "bhx_blk_bytes_total{idx=\"3\",disk_id=\"0\",op=\"read\"} ",
        "bhx_blk_errors_total{idx=\"0\",disk_id=\"0\",reason=\"ioerr\"} ",
        "bhx_blk_errors_total{idx=\"1\",disk_id=\"0\",reason=\"unsupp\"} ",
        "bhx_net_packets_total{idx=\"0\",direction=\"rx\"} ",
        "bhx_net_packets_total{idx=\"3\",direction=\"tx\"} ",
        "bhx_net_bytes_total{idx=\"2\",direction=\"rx\"} ",
        "bhx_blk_interrupts_total{idx=\"0\",disk_id=\"0\"} ",
        "bhx_net_interrupts_total{idx=\"3\"} ",
        "bhx_worker_poll_iterations_total{worker=\"virtio_blk\",idx=\"0\",tier=\"fast\"} ",
        "bhx_worker_poll_iterations_total{worker=\"chip_console\",idx=\"3\",tier=\"idle\"} ",
        "bhx_worker_tier_seconds_total{worker=\"virtio_net\",idx=\"2\",tier=\"slow\"} ",
        "# HELP bhx_kick_drops_total",
        "# TYPE bhx_kick_drops_total counter",
        "\nbhx_kick_drops_total ",
        "# HELP bhx_uart_feed_drops_total",
        "# TYPE bhx_uart_feed_drops_total counter",
        "bhx_uart_feed_drops_total{idx=\"0\"} ",
        "bhx_uart_feed_drops_total{idx=\"3\"} ",
    ] {
        assert!(
            out.contains(needle),
            "rendered output missing {:?}; first 200 chars:\n{}",
            needle,
            &out.chars().take(200).collect::<String>()
        );
    }
}

#[test]
fn render_prometheus_format_is_well_formed() {
    let out = render_prometheus(&Metrics::new(), &fresh());

    let mut help_count = 0;
    let mut type_count = 0;
    let mut value_count = 0;
    for line in out.lines() {
        if line.starts_with("# HELP ") {
            help_count += 1;
        } else if line.starts_with("# TYPE ") {
            type_count += 1;
        } else if !line.is_empty() {
            value_count += 1;
            assert_eq!(
                line.split_whitespace().count(),
                2,
                "metric line should be `name value`: {:?}",
                line
            );
        }
    }
    assert_eq!(help_count, type_count, "every HELP needs a matching TYPE");
    assert!(
        value_count >= help_count,
        "expected ≥ help_count value lines (got {} value, {} help)",
        value_count,
        help_count
    );
    assert!(
        help_count >= 8,
        "expected at least 8 metric names, got {help_count}"
    );
}

#[test]
fn per_l2cpu_dir_counter_separates_directions() {
    let mut m = PerL2cpuDirCounter::new();
    m.g2h(0).add(100);
    m.h2g(0).add(200);
    m.g2h(1).add(50);
    assert_eq!(m.g2h_values()[0], 100);
    assert_eq!(m.h2g_values()[0], 200);
    assert_eq!(m.g2h_values()[1], 50);
    assert_eq!(m.h2g_values()[1], 0);
    assert_eq!(m.g2h_values()[2], 0);
}

#[test]
fn rpc_method_counter_dispatches_per_method() {
    let mut m = RpcMethodCounter::new();
    m.at(RpcMethod::Boot).add(3);
    m.at(RpcMethod::AddDisk).inc();
    m.at(RpcMethod::AddDisk).inc();
    assert_eq!(m.value(RpcMethod::Boot), 3);
    assert_eq!(m.value(RpcMethod::AddDisk), 2);
    assert_eq!(m.value(RpcMethod::Status), 0);
}

#[test]
fn classify_tier_picks_correct_bucket() {
    let fast = 200 * MS;
    let idle = 2 * SEC;

    assert_eq!(
        classify_tier(0 * MS, fast, idle),
        Tier::Fast
    );
    assert_eq!(
        classify_tier(199 * MS, fast, idle),
        Tier::Fast
    );
    assert_eq!(
        classify_tier(200 * MS, fast, idle),
        Tier::Slow
    );
    assert_eq!(
        classify_tier(1999 * MS, fast, idle),
        Tier::Slow
    );
    assert_eq!(
        classify_tier(2 * SEC, fast, idle),
        Tier::Idle
    );
    assert_eq!(
        classify_tier(60 * SEC, fast, idle),
        Tier::Idle
    );
}

#[test]
fn worker_tier_counter_indexes_independently() {
    let mut m = WorkerTierCounter::new();
    m.at(WorkerKind::VirtioBlk, 0, Tier::Fast).add(10);
    m.at(WorkerKind::VirtioNet, 1, Tier::Slow).add(5);
    m.at(WorkerKind::ChipConsole, 3, Tier::Idle).inc();

    assert_eq!(m.value(WorkerKind::VirtioBlk, 0, Tier::Fast), 10);
    assert_eq!(m.value(WorkerKind::VirtioNet, 1, Tier::Slow), 5);
    assert_eq!(m.value(WorkerKind::ChipConsole, 3, Tier::Idle), 1);
    assert_eq!(m.value(WorkerKind::VirtioBlk, 0, Tier::Slow), 0);
    assert_eq!(m.value(WorkerKind::VirtioNet, 0, Tier::Slow), 0);
    assert_eq!(m.value(WorkerKind::ChipConsole, 3, Tier::Fast), 0);
}

#[test]
fn worker_kind_and_tier_names_are_stable() {
    for &(w, expected) in &[
        (WorkerKind::VirtioBlk, "virtio_blk"),
        (WorkerKind::VirtioNet, "virtio_net"),
        (WorkerKind::ChipConsole, "chip_console"),
    ] {
        assert_eq!(w.name(), expected);
    }
    for &(t, expected) in &[
        (Tier::Fast, "fast"),
        (Tier::Slow, "slow"),
        (Tier::Idle, "idle"),
    ] {
        assert_eq!(t.name(), expected);
    }
}

#[test]
fn per_l2cpu_blk_op_separates_read_and_write() {
    let mut m = PerL2cpuBlkOpCounter::new();
    m.read(0).add(100);
    m.write(0).add(200);
    m.read(3).add(50);
    assert_eq!(m.read_values()[0], 100);
    assert_eq!(m.write_values()[0], 200);
    assert_eq!(m.read_values()[3], 50);
    assert_eq!(m.write_values()[3], 0);
}

#[test]
fn per_l2cpu_blk_errors_separates_ioerr_and_unsupp() {
    let mut m = PerL2cpuBlkErrors::new();
    m.ioerr(1).inc();
    m.ioerr(1).inc();
    m.unsupp(2).inc();
    assert_eq!(m.ioerr_values()[0], 0);
    assert_eq!(m.ioerr_values()[1], 2);
    assert_eq!(m.unsupp_values()[2], 1);
    assert_eq!(m.unsupp_values()[1], 0);
}

#[test]
fn per_l2cpu_net_dir_separates_rx_and_tx() {
    let mut m = PerL2cpuNetDirCounter::new();
    m.rx(0).add(1500);
    m.tx(0).add(64);
    m.rx(2).add(1500);
    assert_eq!(m.rx_values()[0], 1500);
    assert_eq!(m.tx_values()[0], 64);
    assert_eq!(m.rx_values()[2], 1500);
    assert_eq!(m.tx_values()[2], 0);
}

#[test]
fn http_exporter_serves_metrics_and_404s() {
    let request = |path: &str| -> (u16, String) {
        let raw = format!("GET {path} HTTP/1.1\r\nHost: localhost\r\n\r\n");
        let text = answer_to(&[raw.as_bytes()]);
        let status: u16 = text
            .lines()
            .next()
            .and_then(|l| l.split_whitespace().nth(1))
            .and_then(|c| c.parse().ok())
            .unwrap_or(0);
        (status, text)
    };

    let (code, body) = request("/metrics");
    assert_eq!(code, 200, "got status {code}; body:\n{body}");
    assert!(
        body.contains("\r\n\r\nbhx_daemon_uptime_seconds")
            || body.contains("\r\n\r\n# HELP bhx_daemon_uptime_seconds"),
        "metrics body missing daemon uptime line; body:\n{body}"
    );
    assert!(
        body.contains("Content-Type: text/plain"),
        "missing or wrong Content-Type; body:\n{body}"
    );

    let (code, _) = request("/healthz");
    assert_eq!(code, 404);

    let (code, _) = request("/metrics?foo=bar");
    assert_eq!(code, 200);

    let (code, _) = request("/metricsfoo");
    assert_eq!(code, 404, "/metricsfoo must not match /metrics");
}

#[test]
fn http_exporter_handles_adversarial_inputs() {
    let big_garbage: Vec<u8> = vec![b'X'; 5000];
    let text = answer_to(&[&big_garbage]);
    assert!(text.starts_with("HTTP/1.1 404"), "oversize garbage: {text}");

    let text = answer_to(&[b"\xff\xfe\xc3\x28GET /metrics HTTP/1.1\r\n\r\n"]);
    assert!(text.starts_with("HTTP/1.1 404"), "non-UTF8 prefix: {text}");

    let text = answer_to(&[
        b"GET /metrics HTTP/1.1\r\nHost: x\r\n\r\nGET /metrics HTTP/1.1\r\nHost: x\r\n\r\n",
    ]);
    assert!(text.starts_with("HTTP/1.1 200"), "pipelined: {text}");

    let text = answer_to(&[b"\r\n\r\n"]);
    assert!(text.starts_with("HTTP/1.1 404"), "empty request line: {text}");

    let mut huge = b"GET /metrics HTTP/1.1\r\nHost: ".to_vec();
    huge.extend(vec![b'X'; 9000]);
    let text = answer_to(&[&huge]);
    assert!(text.starts_with("HTTP/1.1 413"), "more than 8 KiB of headers: {text}");

    let text = answer_to(&[b"POST /metrics HTTP/1.1\r\nHost: x\r\nContent-Length: 0\r\n\r\n"]);
    assert!(text.starts_with("HTTP/1.1 405"), "POST: {text}");
}

#[test]
fn http_exporter_handles_split_read() {
    let text = answer_to(&[b"GET /metr", b"ics HTTP/1.1\r\nHost: x\r\n\r\n"]);
    assert!(text.starts_with("HTTP/1.1 200"), "split read: {text}");
}

#[test]
fn parse_request_line_serves_metrics_for_exact_path() {
    assert_eq!(
        parse_request_line("GET /metrics HTTP/1.1"),
        RequestKind::Metrics
    );
}

#[test]
fn parse_request_line_serves_metrics_with_query_string() {
    assert_eq!(
        parse_request_line("GET /metrics?probe=node HTTP/1.1"),
        RequestKind::Metrics
    );
    assert_eq!(
        parse_request_line("GET /metrics? HTTP/1.1"),
        RequestKind::Metrics
    );
}

#[test]
fn parse_request_line_rejects_path_with_metrics_prefix() {
    assert_eq!(
        parse_request_line("GET /metricsfoo HTTP/1.1"),
        RequestKind::NotFound
    );
    assert_eq!(
        parse_request_line("GET /metrics/extra HTTP/1.1"),
        RequestKind::NotFound
    );
}

#[test]
fn parse_request_line_405_on_non_get_to_metrics() {
    assert_eq!(
        parse_request_line("POST /metrics HTTP/1.1"),
        RequestKind::MethodNotAllowed
    );
    assert_eq!(
        parse_request_line("PUT /metrics HTTP/1.1"),
        RequestKind::MethodNotAllowed
    );
}

#[test]
fn parse_request_line_404_on_unknown_path() {
    assert_eq!(
        parse_request_line("GET /healthz HTTP/1.1"),
        RequestKind::NotFound
    );
    assert_eq!(parse_request_line(""), RequestKind::NotFound);
    assert_eq!(parse_request_line("garbage"), RequestKind::NotFound);
}

#[test]
fn render_prometheus_passes_spec_validator() {
    let out = render_prometheus(&Metrics::new(), &fresh());
    if let Err(reason) = validate_prometheus_text(&out) {
        panic!("render_prometheus output failed spec validation: {reason}\nfull output:\n{out}");
    }
}

#[test]
fn validator_rejects_malformed_inputs() {
    assert!(validate_prometheus_text("1bad_name 5\n").is_err());
    assert!(validate_prometheus_text("foo{1bad=\"x\"} 5\n").is_err());
    assert!(validate_prometheus_text("foo{x=\"a\"b\"} 5\n").is_err());
    assert!(validate_prometheus_text("foo{x=\"a\nb\"} 5\n").is_err());
    assert!(validate_prometheus_text("foo{x=\"y\" 5\n").is_err());
    assert!(validate_prometheus_text("foo\n").is_err());

    assert!(validate_prometheus_text("foo 42\n").is_ok());
    assert!(validate_prometheus_text("foo_bar:baz 42\n").is_ok());
    assert!(validate_prometheus_text("foo{a=\"1\",b=\"two\"} 42\n").is_ok());
    assert!(validate_prometheus_text("# HELP foo blah\n").is_ok());
    assert!(validate_prometheus_text("# TYPE foo counter\n").is_ok());
    assert!(validate_prometheus_text("foo{x=\"a\\\"b\"} 42\n").is_ok());
    assert!(validate_prometheus_text("foo{x=\"a\\\\b\"} 42\n").is_ok());
    assert!(validate_prometheus_text("foo{x=\"a\\nb\"} 42\n").is_ok());
}

#[test]
fn rpc_method_names_cover_every_variant() {
    let names: Vec<_> = RpcMethod::all().iter().map(|m| m.name()).collect();
    for expected in [
        "status",
        "boot",
        "attach_console",
        "add_disk",
        "remove_disk",
        "add_net",
        "remove_net",
        "stop",
        "shutdown",
    ] {
        assert!(
            names.contains(&expected),
            "expected method name {:?} in {:?}",
            expected,
            names
        );
    }
}

#[test]
fn counters_count_and_wrap() {
    let mut c = Counter::new();
    c.inc();
    c.add(41);
    assert_eq!(c.get(), 42);
    c.add(u64::MAX);
    assert_eq!(c.get(), 41);

    let mut g = Gauge::default();
    g.dec();
    assert_eq!(g.get(), -1);
    g.set(i64::MAX);
    g.inc();
    assert_eq!(g.get(), i64::MIN);
    g.dec();
    assert_eq!(g.get(), i64::MAX);

    let mut row: CounterVec<3> = CounterVec::new();
    row.at(2).add(7);
    assert_eq!((row.value(0), row.value(1), row.value(2)), (0, 0, 7));
    let mut levels: GaugeVec<2> = GaugeVec::new();
    levels.at(1).set(-3);
    assert_eq!((levels.value(0), levels.value(1)), (0, -3));

    let mut per = PerL2cpuCounter::new();
    per.at(3).inc();
    assert_eq!(per.values(), [0, 0, 0, 1]);
    let mut gauge = PerL2cpuGauge::new();
    gauge.at(1).set(5);
    assert_eq!(gauge.values(), [0, 5, 0, 0]);
}

#[test]
fn every_index_is_its_place_in_the_list() {
    for (i, t) in Tier::all().into_iter().enumerate() {
        assert_eq!(t.idx(), i);
    }
    for (i, w) in WorkerKind::all().into_iter().enumerate() {
        assert_eq!(w.idx(), i);
    }
    for (i, m) in RpcMethod::all().into_iter().enumerate() {
        assert_eq!(m.idx(), i);
    }
}

#[test]
fn a_metric_is_introduced_before_its_samples() {
    let mut e = Exposition::new();
    e.introduce("bhx_things", "Things seen.", MetricKind::Counter);
    e.sample("bhx_things", &[("idx", "0"), ("op", "read")], "17");
    e.sample("bhx_things", &[], "3");
    assert_eq!(
        e.into_text(),
        "# HELP bhx_things Things seen.\n# TYPE bhx_things counter\n\
         bhx_things{idx=\"0\",op=\"read\"} 17\nbhx_things 3\n"
    );
}

#[test]
fn the_page_shows_what_was_counted() {
    let mut m = Metrics::new();
    m.daemon_rpc_total.at(RpcMethod::Boot).add(3);
    let mut s = fresh();
    s.uptime_seconds = 61;
    s.slots[2] = Some(SlotGauges { uptime_seconds: 9, disks: 2, net: true });
    s.tier_seconds[0][1][2] = Seconds { whole: 1, zeros: 0, digits: 5 };
    let out = render_prometheus(&m, &s);
    for line in [
        "\nbhx_daemon_uptime_seconds 61\n",
        "\nbhx_daemon_rpc_total{method=\"boot\"} 3\n",
        "\nbhx_l2cpu_running{idx=\"1\"} 0\n",
        "\nbhx_l2cpu_running{idx=\"2\"} 1\n",
        "\nbhx_l2cpu_disks{idx=\"2\"} 2\n",
        "\nbhx_l2cpu_net{idx=\"2\"} 1\n",
        "\nbhx_worker_tier_seconds_total{worker=\"virtio_blk\",idx=\"1\",tier=\"idle\"} 1.5\n",
    ] {
        assert!(out.contains(line), "missing {line:?}");
    }
    assert!(!out.contains("bhx_chip_"));
}

#[test]
fn seconds_are_written_in_decimal() {
    for (whole, zeros, digits, text) in [
        (0, 0, 0, "0"),
        (7, 3, 0, "7"),
        (0, 8, 1, "0.000000001"),
        (1, 0, 5, "1.5"),
        (12, 1, 34, "12.034"),
        (u64::MAX, 0, 25, "18446744073709551615.25"),
    ] {
        assert_eq!(Seconds { whole, zeros, digits }.text(), text);
    }
}

#[test]
fn telemetry_is_shown_where_there_is_some() {
    let mut s = fresh();
    s.card = 7;
    s.telemetry = Some(telemetry());
    let out = render_prometheus(&Metrics::new(), &s);
    assert!(validate_prometheus_text(&out).is_ok());
    assert!(out.contains("card=\"7\""));
    s.telemetry = None;
    assert!(!render_prometheus(&Metrics::new(), &s).contains("card=\"7\""));
}

fn telemetry() -> ChipTelemetry {
    ChipTelemetry {
        board_id: 0x1234,
        asic_id: 0x5678,
        asic_location: 1,
        harvesting_state: 2,
        enabled_l2cpu: 15,
        enabled_gddr: 255,
        enabled_eth: 3,
        pcie_usage: 4,
        asic_temperature_mc: 45_250,
        vreg_temperature_mc: 50_000,
        board_temperature_mc: -1_500,
        max_gddr_temperature_c: 61,
        gddr_temperature_c: [60, 61, 59, 58],
        gddr_corr_errs: [0, 1, 2, 3],
        gddr_uncorr_errs: 4,
        aiclk_mhz: 1350,
        axiclk_mhz: 960,
        arcclk_mhz: 800,
        aiclk_limit_max_mhz: 1400,
        l2cpuclk_mhz: [1750, 1750, 200, 200],
        tdp_w: 100,
        tdc_a: 90,
        input_power_w: 130,
        vcore_mv: 800,
        vdd_min_mv: 700,
        vdd_max_mv: 900,
        tdp_limit_max_w: 150,
        tdc_limit_max_a: 200,
        board_power_limit_w: 300,
        thm_limit_throttle_c: 85,
        fan_speed_pct: 40,
        fan_rpm: 2000,
        ddr_status: 0x55,
        ddr_speed_mts: 16000,
        timer_heartbeat: 99,
        therm_trip_count: 0,
        eth_live_status: 6,
    }
}

#[test]
fn a_response_carries_its_length() {
    assert_eq!(
        http_response("404 Not Found", "text/plain", "gone\n"),
        "HTTP/1.1 404 Not Found\r\nContent-Type: text/plain\r\nContent-Length: 5\r\nConnection: close\r\n\r\ngone\n"
    );
    // The length counts bytes, not characters.
    assert!(http_response("200 OK", "text/plain", "\u{2026}").contains("Content-Length: 3\r\n"));
}

#[test]
fn a_read_that_fails_is_answered_with_what_was_read() {
    let mut buf: Vec<u8> = Vec::new();
    let first = ReadEvent::Data(b"GET /metrics HTTP/1.1\r\n".to_vec());
    assert_eq!(read_request_headers(&mut buf, &first), ReadStep::More);
    assert!(handle_request(&buf, ReadStep::More, &Metrics::new(), &fresh()).is_none());
    let step = read_request_headers(&mut buf, &ReadEvent::Failed);
    assert_eq!(step, ReadStep::Done);
    let answer = handle_request(&buf, step, &Metrics::new(), &fresh()).unwrap();
    assert!(answer.starts_with("HTTP/1.1 200 OK\r\n"));

    let mut nothing: Vec<u8> = Vec::new();
    let step = read_request_headers(&mut nothing, &ReadEvent::Failed);
    let answer = handle_request(&nothing, step, &Metrics::new(), &fresh()).unwrap();
    assert!(answer.starts_with("HTTP/1.1 404 Not Found\r\n"));
}
