use metalens::{
    compile, schedule, CodegenError, Elem, FormulaError, Instr, LabelNode, ModuleIr, Node,
    NodeProperties, ProgGraph, RuntimeError,
};

fn elem(id: usize, inputs: Vec<usize>, node_type: &str, props: Vec<(&str, &str)>) -> Elem {
    Elem::Node {
        id,
        inputs,
        name: None,
        node_type: node_type.to_string(),
        properties: props
            .into_iter()
            .map(|(k, v)| (k.to_string(), v.to_string()))
            .collect(),
    }
}

fn probe_graph(label_value: &str) -> Vec<Elem> {
    vec![
        elem(
            1,
            vec![],
            "UProbe",
            vec![("program", "\"/bin/bash\""), ("probe", "\"mark\"")],
        ),
        elem(2, vec![1], "Label", vec![("value", label_value)]),
    ]
}

fn count_instrs(m: &ModuleIr, pred: impl Fn(&Instr) -> bool) -> usize {
    m.blocks
        .iter()
        .map(|b| b.instrs.iter().filter(|i| pred(i)).count())
        .sum()
}

fn global_names(m: &ModuleIr) -> Vec<String> {
    m.globals
        .iter()
        .map(|g| match g {
            metalens::GlobalDef::MapGlobal { name, .. } => name.clone(),
            metalens::GlobalDef::BytesGlobal { name, .. } => name.clone(),
        })
        .collect()
}

#[test]
fn counting_formula_generates_the_counting_path() {
    let (module, _graph) = compile(probe_graph("count(input)")).unwrap();
    let names = global_names(&module);
    assert!(names.contains(&"counters".to_string()));
    assert!(!names.contains(&"ringbuf".to_string()));
    assert_eq!(count_instrs(&module, |i| matches!(i, Instr::AtomicAdd { .. })), 1);
    assert_eq!(
        count_instrs(&module, |i| matches!(i, Instr::HelperCall { helper: 131, .. })),
        0
    );
    assert_eq!(
        count_instrs(&module, |i| matches!(i, Instr::HelperCall { helper: 132, .. })),
        0
    );
}

#[test]
fn value_formula_generates_the_ring_buffer_path() {
    let (module, _graph) = compile(probe_graph("input.pid")).unwrap();
    let names = global_names(&module);
    assert!(names.contains(&"ringbuf".to_string()));
    assert!(!names.contains(&"counters".to_string()));
    assert_eq!(count_instrs(&module, |i| matches!(i, Instr::AtomicAdd { .. })), 0);
    assert_eq!(
        count_instrs(&module, |i| matches!(i, Instr::HelperCall { helper: 131, .. })),
        1
    );
    assert_eq!(
        count_instrs(&module, |i| matches!(i, Instr::HelperCall { helper: 132, .. })),
        1
    );
}

#[test]
fn string_comparison_emits_one_decision_point_per_literal_byte() {
    let (module, _graph) = compile(probe_graph("input.process_name = \"bash\"")).unwrap();
    let exit = module.exit_block;
    // Four per-byte comparisons for "bash", each failing straight to the
    // exit block, plus the null check of the ring-buffer reserve.
    assert_eq!(
        count_instrs(&module, |i| matches!(i, Instr::Compare { .. })),
        4
    );
    assert_eq!(
        count_instrs(
            &module,
            |i| matches!(i, Instr::CondBranch { else_block, .. } if *else_block == exit)
        ),
        5
    );
    // Every conditional branch in the module fails to the single exit block.
    assert_eq!(
        count_instrs(&module, |i| matches!(i, Instr::CondBranch { .. })),
        5
    );
}

#[test]
fn comparing_counter_with_anything_is_rejected() {
    let r = compile(probe_graph("count(input) = count(input)"));
    assert!(matches!(r, Err(CodegenError::InvalidCounterComparison)));
    let r = compile(probe_graph("count(input) = 5"));
    assert!(matches!(r, Err(CodegenError::InvalidCounterComparison)));
    let r = compile(probe_graph("5 = count(input)"));
    assert!(matches!(r, Err(CodegenError::InvalidCounterComparison)));
}

#[test]
fn comparing_string_with_number_or_boolean_is_rejected() {
    let r = compile(probe_graph("input.process_name = 5"));
    assert!(matches!(r, Err(CodegenError::TypeMismatch)));
    let r = compile(probe_graph("input.process_name = true"));
    assert!(matches!(r, Err(CodegenError::TypeMismatch)));
}

#[test]
fn strings_admit_only_equality_and_inequality() {
    let r = compile(probe_graph("input.process_name > \"a\""));
    assert!(matches!(r, Err(CodegenError::InvalidStringOperation)));
}

#[test]
fn declared_but_unimplemented_lowerings_are_typed_errors() {
    let r = compile(probe_graph("input.pid = 5"));
    assert!(matches!(r, Err(CodegenError::UnsupportedOperation)));
    let r = compile(probe_graph("\"a\" = \"b\""));
    assert!(matches!(r, Err(CodegenError::UnsupportedOperation)));
}

#[test]
fn unknown_property_and_scope_are_rejected() {
    let r = compile(probe_graph("input.bogus"));
    assert!(matches!(r, Err(CodegenError::UnknownProperty(p)) if p == "bogus"));
    let r = compile(probe_graph("other.pid"));
    assert!(matches!(r, Err(CodegenError::InvalidPropertyScope(s)) if s == "other"));
}

#[test]
fn label_without_value_property_is_rejected() {
    let r = compile(vec![
        elem(1, vec![], "UProbe", vec![("program", "\"/bin/bash\"")]),
        elem(2, vec![1], "Label", vec![]),
    ]);
    assert!(matches!(r, Err(CodegenError::ExpectedProperty("value"))));
}

#[test]
fn unknown_node_type_is_a_construction_error() {
    let r = compile(vec![elem(1, vec![], "Widget", vec![])]);
    assert!(matches!(
        r,
        Err(CodegenError::FormulaError(FormulaError::Other(_)))
    ));
}

#[test]
fn bad_property_formula_fails_the_compile() {
    let r = compile(vec![elem(1, vec![], "Label", vec![("value", "")])]);
    assert!(matches!(
        r,
        Err(CodegenError::FormulaError(FormulaError::Empty))
    ));
}

#[test]
fn duplicate_identity_is_rejected() {
    let r = compile(vec![
        elem(1, vec![], "UProbe", vec![("program", "\"/bin/bash\"")]),
        elem(1, vec![], "Label", vec![("value", "count(input)")]),
    ]);
    assert!(matches!(
        r,
        Err(CodegenError::FormulaError(FormulaError::Other(_)))
    ));
}

#[test]
fn input_must_be_declared_earlier() {
    let r = compile(vec![
        elem(1, vec![], "UProbe", vec![("program", "\"/bin/bash\"")]),
        elem(2, vec![7], "Label", vec![("value", "count(input)")]),
    ]);
    assert!(matches!(
        r,
        Err(CodegenError::FormulaError(FormulaError::Other(_)))
    ));
}

#[test]
fn compiled_module_carries_license_and_attach_section() {
    let (module, graph) = compile(probe_graph("count(input)")).unwrap();
    assert_eq!(module.func_section, "uprobe/mlens");
    match module.globals.last().unwrap() {
        metalens::GlobalDef::BytesGlobal { name, section, bytes } => {
            assert_eq!(name, "LICENSE");
            assert_eq!(section, "license");
            assert_eq!(bytes, &vec![b'G', b'P', b'L', 0u8]);
        }
        other => panic!("expected the license global, got {:?}", other),
    }
    assert_eq!(graph.nodes.len(), 2);
    assert_eq!(graph.edges, vec![(0, 1)]);
}

#[test]
fn filter_compiles_its_predicate_against_its_input() {
    let r = compile(vec![
        elem(1, vec![], "UProbe", vec![("program", "\"/bin/bash\"")]),
        elem(2, vec![1], "Filter", vec![("value", "input.process_name = \"sh\"")]),
        elem(3, vec![2], "Label", vec![("value", "count(input)")]),
    ]);
    let (module, graph) = r.unwrap();
    assert_eq!(graph.nodes.len(), 3);
    assert_eq!(graph.edges, vec![(0, 1), (1, 2)]);
    // Two per-byte comparisons for the filter's "sh" literal.
    assert_eq!(
        count_instrs(&module, |i| matches!(i, Instr::Compare { .. })),
        2
    );
    // The sink still takes the counting path.
    assert_eq!(count_instrs(&module, |i| matches!(i, Instr::AtomicAdd { .. })), 1);
}

#[test]
fn filter_formula_errors_bubble_up() {
    let r = compile(vec![
        elem(1, vec![], "UProbe", vec![("program", "\"/bin/bash\"")]),
        elem(2, vec![1], "Filter", vec![("value", "count(input) = 5")]),
        elem(3, vec![2], "Label", vec![("value", "count(input)")]),
    ]);
    assert!(matches!(r, Err(CodegenError::InvalidCounterComparison)));
}

#[test]
fn filter_without_value_property_is_rejected() {
    let r = compile(vec![
        elem(1, vec![], "UProbe", vec![("program", "\"/bin/bash\"")]),
        elem(2, vec![1], "Filter", vec![]),
        elem(3, vec![2], "Label", vec![("value", "count(input)")]),
    ]);
    assert!(matches!(r, Err(CodegenError::ExpectedProperty("value"))));
}

#[test]
fn filter_with_no_input_is_a_structural_error() {
    let r = compile(vec![elem(1, vec![], "Filter", vec![("value", "count(input)")])]);
    assert!(matches!(r, Err(CodegenError::UnsupportedInputArity)));
}

#[test]
fn scheduling_a_chain_orders_every_node_after_its_inputs() {
    let mut g = ProgGraph::new();
    let a = g.add_node(Node::Label(LabelNode::new(0, NodeProperties::new())));
    let b = g.add_node(Node::Label(LabelNode::new(1, NodeProperties::new())));
    let c = g.add_node(Node::Label(LabelNode::new(2, NodeProperties::new())));
    g.add_edge(a, b);
    g.add_edge(b, c);
    let order = schedule(&g).unwrap();
    let pos = |v: usize| order.iter().position(|x| *x == v).unwrap();
    assert_eq!(order.len(), 3);
    assert!(pos(a) < pos(b));
    assert!(pos(b) < pos(c));
}

#[test]
fn scheduling_a_cycle_fails_with_the_cycle_error() {
    let mut g = ProgGraph::new();
    let a = g.add_node(Node::Label(LabelNode::new(0, NodeProperties::new())));
    let b = g.add_node(Node::Label(LabelNode::new(1, NodeProperties::new())));
    g.add_edge(a, b);
    g.add_edge(b, a);
    let r = schedule(&g);
    assert!(matches!(r, Err(RuntimeError::ProgContainsCycles)));
}
