use metalens::{
    parse_formula, AttachSpec, LabelNode, LoadedState, NodeProperties, ProbeRecord, RuntimeError,
    Session, UProbe,
};

fn props(pairs: Vec<(&str, &str)>) -> NodeProperties {
    let mut p = NodeProperties::new();
    for (k, v) in pairs {
        p.insert(k, parse_formula(v).unwrap());
    }
    p
}

#[test]
fn decode_record_reads_one_little_endian_integer() {
    assert_eq!(
        metalens::decode_record(&vec![1, 0, 0, 0, 0, 0, 0, 0]),
        Some(1)
    );
    assert_eq!(
        metalens::decode_record(&vec![0x78, 0x56, 0x34, 0x12, 0, 0, 0, 0]),
        Some(0x12345678)
    );
    assert_eq!(
        metalens::decode_record(&vec![0xff; 8]),
        Some(u64::MAX)
    );
    assert_eq!(metalens::decode_record(&vec![1, 2, 3]), None);
    assert_eq!(metalens::decode_record(&vec![]), None);
    assert_eq!(metalens::decode_record(&vec![0; 9]), None);
}

#[test]
fn counter_poller_is_edge_triggered_and_observes_teardown() {
    let (emit, prev, go_on) = metalens::counter_poll_step(3, 7, false);
    assert_eq!(emit, Some(7));
    assert_eq!(prev, 7);
    assert!(go_on);

    let (emit, prev, go_on) = metalens::counter_poll_step(7, 7, false);
    assert_eq!(emit, None);
    assert_eq!(prev, 7);
    assert!(go_on);

    let (_, _, go_on) = metalens::counter_poll_step(7, 8, true);
    assert!(!go_on);
}

#[test]
fn ringbuf_drainer_decodes_and_observes_teardown() {
    let (emit, go_on) = metalens::ringbuf_drain_step(&vec![9, 0, 0, 0, 0, 0, 0, 0], false);
    assert_eq!(emit, Some(9));
    assert!(go_on);
    let (emit, go_on) = metalens::ringbuf_drain_step(&vec![1, 2], true);
    assert_eq!(emit, None);
    assert!(!go_on);
}

#[test]
fn replacing_a_loaded_program_raises_its_teardown_flag_once() {
    let mut session = Session::new();
    let first = LoadedState::new();
    assert!(!first.torn_down);
    assert!(session.replace(first).is_none());

    let second = LoadedState::new();
    let old = session.replace(second).expect("the first program is handed back");
    assert!(old.torn_down);

    let last = session.close().expect("the second program is handed back");
    assert!(last.torn_down);
    assert!(session.close().is_none());
}

#[test]
fn label_load_plan_mirrors_the_available_maps() {
    let label = LabelNode::new(4, props(vec![("value", "count(input)")]));
    let plan = label.load(true, false);
    assert_eq!(plan.node_id, 4);
    assert!(plan.poll_counters);
    assert!(!plan.drain_ringbuf);
}

#[test]
fn attach_spec_prefers_a_static_probe() {
    let u = UProbe::new(
        1,
        props(vec![("program", "\"/bin/bash\""), ("probe", "\"mark\"")]),
    );
    match u.attach_spec().unwrap() {
        AttachSpec::StaticProbe { program, probe } => {
            assert_eq!(program, "/bin/bash");
            assert_eq!(probe, "mark");
        }
        other => panic!("expected a static probe, got {:?}", other),
    }
}

#[test]
fn attach_spec_falls_back_to_a_function_symbol() {
    let u = UProbe::new(
        1,
        props(vec![("program", "\"/bin/bash\""), ("function", "\"main\"")]),
    );
    match u.attach_spec().unwrap() {
        AttachSpec::FunctionSymbol { program, function } => {
            assert_eq!(program, "/bin/bash");
            assert_eq!(function, "main");
        }
        other => panic!("expected a function symbol, got {:?}", other),
    }
}

#[test]
fn attach_spec_reports_missing_properties() {
    let u = UProbe::new(1, props(vec![]));
    assert!(matches!(
        u.attach_spec(),
        Err(RuntimeError::ExpectedProperty("program"))
    ));

    let u = UProbe::new(1, props(vec![("program", "\"/bin/bash\"")]));
    assert!(matches!(
        u.attach_spec(),
        Err(RuntimeError::ExpectedProperty("function"))
    ));
}

#[test]
fn attach_spec_rejects_non_string_properties() {
    let u = UProbe::new(1, props(vec![("program", "42")]));
    assert!(matches!(u.attach_spec(), Err(RuntimeError::Other(_))));
    let u = UProbe::new(1, props(vec![("program", "input.a = 1")]));
    assert!(matches!(u.attach_spec(), Err(RuntimeError::Other(_))));
}

fn record(name: &str, addr: u64, sem: u64) -> ProbeRecord {
    ProbeRecord {
        probe_name: name.to_string(),
        sh_addr: addr,
        semaphore_offset: sem,
    }
}

#[test]
fn static_probe_resolution_keeps_every_match() {
    let u = UProbe::new(
        1,
        props(vec![("program", "\"/bin/bash\""), ("probe", "\"mark\"")]),
    );
    let records = vec![
        record("mark", 0x100, 4),
        record("other", 0x200, 0),
        record("mark", 0x300, 8),
    ];
    let points = u.generate_trace_points(&records).unwrap();
    assert_eq!(points.len(), 2);
    assert_eq!(points[0].offset, 0x100);
    assert_eq!(points[0].semaphore_offset, 4);
    assert!(points[0].fn_name.is_none());
    assert_eq!(points[1].offset, 0x300);
    assert_eq!(points[1].semaphore_offset, 8);
}

#[test]
fn unmatched_static_probe_is_fatal() {
    let u = UProbe::new(
        1,
        props(vec![("program", "\"/bin/bash\""), ("probe", "\"mark\"")]),
    );
    let records = vec![record("other", 0x200, 0)];
    assert!(matches!(
        u.generate_trace_points(&records),
        Err(RuntimeError::ProbeNotFound(p)) if p == "mark"
    ));
}

#[test]
fn function_symbol_resolves_to_one_point_at_offset_zero() {
    let u = UProbe::new(
        1,
        props(vec![("program", "\"/bin/bash\""), ("function", "\"main\"")]),
    );
    let points = u.generate_trace_points(&Vec::new()).unwrap();
    assert_eq!(points.len(), 1);
    assert_eq!(points[0].fn_name.as_deref(), Some("main"));
    assert_eq!(points[0].offset, 0);
    assert_eq!(points[0].semaphore_offset, 0);
}

#[test]
fn property_bag_replaces_on_insert() {
    let mut p = NodeProperties::new();
    p.insert("value", parse_formula("1").unwrap());
    p.insert("value", parse_formula("2").unwrap());
    assert_eq!(
        p.get("value"),
        Some(&parse_formula("2").unwrap())
    );
    assert_eq!(p.get("missing"), None);
}

#[test]
fn elem_accessors_expose_identity_and_inputs() {
    let e = metalens::Elem::Node {
        id: 9,
        inputs: vec![1, 2],
        name: Some("n".to_string()),
        node_type: "Label".to_string(),
        properties: vec![],
    };
    assert_eq!(e.node_id(), Some(9));
    assert_eq!(e.inputs().unwrap(), &vec![1, 2]);
}
