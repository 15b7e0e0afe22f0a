use snurr::{
    build_diagram, inclusive_targets, parse_events, Bpmn, Error, HandlerMap, HandlerType, Process,
    ProcessData, With,
};

const CONDITIONAL_FLOW_XML: &str = r#"<definitions id="defs">
 <process id="p">
  <startEvent id="start"><outgoing>f1</outgoing></startEvent>
  <sequenceFlow id="f1" sourceRef="start" targetRef="endE"><conditionExpression>x &gt; 1</conditionExpression></sequenceFlow>
  <endEvent id="endE"><incoming>f1</incoming></endEvent>
 </process>
</definitions>"#;

#[test]
fn conditional_sequence_flow_is_not_supported() {
    let err = Process::from_str(CONDITIONAL_FLOW_XML).unwrap_err();
    assert!(matches!(err, Error::NotSupported(_)), "got {err:?}");
}

const TWO_STARTS_XML: &str = r#"<definitions id="defs">
 <process id="p">
  <startEvent id="s1"><outgoing>f1</outgoing></startEvent>
  <startEvent id="s2"><outgoing>f2</outgoing></startEvent>
  <sequenceFlow id="f1" sourceRef="s1" targetRef="endE"/>
  <sequenceFlow id="f2" sourceRef="s2" targetRef="endE"/>
  <endEvent id="endE"><incoming>f1</incoming><incoming>f2</incoming></endEvent>
 </process>
</definitions>"#;

#[test]
fn two_none_start_events_are_rejected() {
    let err = Process::from_str(TWO_STARTS_XML).unwrap_err();
    assert!(matches!(err, Error::BpmnRequirement(_)), "got {err:?}");
}

const COUNTER_XML: &str = r#"<definitions id="defs">
 <process id="p1">
  <startEvent id="start"><outgoing>f1</outgoing></startEvent>
  <sequenceFlow id="f1" sourceRef="start" targetRef="t1"/>
  <task id="t1" name="Count 1"><incoming>f1</incoming><outgoing>f2</outgoing></task>
  <sequenceFlow id="f2" sourceRef="t1" targetRef="g1"/>
  <exclusiveGateway id="g1" name="equal to 3" default="fYes"><incoming>f2</incoming><outgoing>fNo</outgoing><outgoing>fYes</outgoing></exclusiveGateway>
  <sequenceFlow id="fNo" name="NO" sourceRef="g1" targetRef="t1"/>
  <sequenceFlow id="fYes" name="YES" sourceRef="g1" targetRef="endE"/>
  <endEvent id="endE"><incoming>fYes</incoming></endEvent>
 </process>
</definitions>"#;

#[test]
fn parsing_twice_yields_equal_diagrams() {
    let d1 = build_diagram(parse_events(COUNTER_XML).unwrap()).unwrap();
    let d2 = build_diagram(parse_events(COUNTER_XML).unwrap()).unwrap();
    assert_eq!(d1, d2);
}

#[test]
fn unbound_handlers_fail_the_build_with_every_offender() {
    let err = Process::from_str(COUNTER_XML).unwrap().build().unwrap_err();
    match err {
        Error::MissingImplementations(missing) => {
            assert_eq!(
                missing,
                vec!["Task: Count 1".to_string(), "Exclusive: equal to 3".to_string()]
            );
        }
        other => panic!("unexpected error {other:?}"),
    }
}

#[test]
fn element_without_id_is_rejected() {
    let xml = r#"<definitions id="d"><process id="p"><task name="x"/></process></definitions>"#;
    let err = Process::from_str(xml).unwrap_err();
    assert!(matches!(err, Error::MissingId(_)), "got {err:?}");
}

#[test]
fn sequence_flow_without_target_is_rejected() {
    let xml = r#"<definitions id="d"><process id="p"><sequenceFlow id="f1" sourceRef="a"/></process></definitions>"#;
    let err = Process::from_str(xml).unwrap_err();
    assert!(matches!(err, Error::MissingTargetRef), "got {err:?}");
}

#[test]
fn process_without_start_event_cannot_run() {
    let xml = r#"<definitions id="d"><process id="p"><endEvent id="e"/></process></definitions>"#;
    let bpmn = Process::from_str(xml).unwrap().build().unwrap();
    let err = bpmn.run((), &Noop).unwrap_err();
    assert!(matches!(err, Error::MissingStartEvent), "got {err:?}");
}

const NO_DEFAULT_XML: &str = r#"<definitions id="defs">
 <process id="p">
  <startEvent id="start"><outgoing>f1</outgoing></startEvent>
  <sequenceFlow id="f1" sourceRef="start" targetRef="g1"/>
  <exclusiveGateway id="g1" name="pick"><incoming>f1</incoming><outgoing>fa</outgoing><outgoing>fb</outgoing></exclusiveGateway>
  <sequenceFlow id="fa" name="a" sourceRef="g1" targetRef="endA"/>
  <sequenceFlow id="fb" name="b" sourceRef="g1" targetRef="endB"/>
  <endEvent id="endA"><incoming>fa</incoming></endEvent>
  <endEvent id="endB"><incoming>fb</incoming></endEvent>
 </process>
</definitions>"#;

struct Noop;

impl snurr::Callbacks<()> for Noop {
    fn task(&self, _key: &str, _data: &mut ()) -> Result<Option<snurr::Boundary>, Error> {
        Ok(None)
    }
    fn exclusive(&self, _key: &str, _data: &mut ()) -> Result<Option<String>, Error> {
        Ok(None)
    }
    fn inclusive(&self, _key: &str, _data: &mut ()) -> Result<With, Error> {
        Ok(With::Default)
    }
    fn event_based(&self, _key: &str, _data: &mut ()) -> Result<snurr::IntermediateEvent, Error> {
        Err(Error::ProcessExecution("unused".to_string()))
    }
}

#[test]
fn exclusive_without_default_flow_is_missing_default() {
    let bpmn = Process::from_str(NO_DEFAULT_XML).unwrap().exclusive("pick").build().unwrap();
    let err = bpmn.run((), &Noop).unwrap_err();
    match err {
        Error::MissingDefault(who) => assert_eq!(who, "pick"),
        other => panic!("unexpected error {other:?}"),
    }
}

const EVENT_GATEWAY_ONE_OUT_XML: &str = r#"<definitions id="defs">
 <process id="p">
  <startEvent id="start"><outgoing>f1</outgoing></startEvent>
  <sequenceFlow id="f1" sourceRef="start" targetRef="g1"/>
  <eventBasedGateway id="g1" name="pick"><incoming>f1</incoming><incoming>fx</incoming><outgoing>fa</outgoing></eventBasedGateway>
  <sequenceFlow id="fa" sourceRef="g1" targetRef="endA"/>
  <endEvent id="endA"><incoming>fa</incoming></endEvent>
 </process>
</definitions>"#;

#[test]
fn event_gateway_with_one_output_violates_the_standard() {
    let bpmn = Process::from_str(EVENT_GATEWAY_ONE_OUT_XML).unwrap().build().unwrap();
    let err = bpmn.run((), &Noop).unwrap_err();
    assert!(matches!(err, Error::BpmnRequirement(_)), "got {err:?}");
}

/// The inclusive gateway of `INCLUSIVE_TARGETS_XML`, found by name.
fn gateway_index(pd: &ProcessData) -> usize {
    for node in pd.iter() {
        if let Bpmn::Gateway(g) = node {
            if g.name.as_deref() == Some("choose") {
                return g.id.local_id;
            }
        }
    }
    panic!("gateway not found");
}

/// The sequence flow with this name, by local index.
fn flow_index(pd: &ProcessData, name: &str) -> usize {
    for node in pd.iter() {
        if let Bpmn::SequenceFlow { id, name: n, .. } = node {
            if n.as_deref() == Some(name) {
                return id.local_id;
            }
        }
    }
    panic!("flow not found");
}

const INCLUSIVE_TARGETS_XML: &str = r#"<definitions id="defs">
 <process id="p">
  <startEvent id="start"><outgoing>f0</outgoing></startEvent>
  <sequenceFlow id="f0" sourceRef="start" targetRef="g1"/>
  <inclusiveGateway id="g1" name="choose" default="fB"><incoming>f0</incoming><outgoing>fA</outgoing><outgoing>fB</outgoing></inclusiveGateway>
  <sequenceFlow id="fA" name="A" sourceRef="g1" targetRef="endA"/>
  <sequenceFlow id="fB" name="B" sourceRef="g1" targetRef="endB"/>
  <endEvent id="endA"><incoming>fA</incoming></endEvent>
  <endEvent id="endB"><incoming>fB</incoming></endEvent>
 </process>
</definitions>"#;

fn inclusive_process() -> snurr::Diagram {
    build_diagram(parse_events(INCLUSIVE_TARGETS_XML).unwrap()).unwrap()
}

#[test]
fn inclusive_empty_fork_follows_the_default_flow() {
    let diagram = inclusive_process();
    let pd = diagram.get_process(0).unwrap();
    let g = gateway_index(pd);
    let expected = vec![flow_index(pd, "B")];
    assert_eq!(inclusive_targets(pd, g, With::Fork(vec![])).unwrap(), expected);
    assert_eq!(inclusive_targets(pd, g, With::Default).unwrap(), expected);
}

#[test]
fn inclusive_fork_discards_duplicate_flows() {
    let diagram = inclusive_process();
    let pd = diagram.get_process(0).unwrap();
    let g = gateway_index(pd);
    let selected = With::Fork(vec!["A".to_string(), "A".to_string(), "B".to_string()]);
    let out = inclusive_targets(pd, g, selected).unwrap();
    assert_eq!(out, vec![flow_index(pd, "A"), flow_index(pd, "B")]);
}

#[test]
fn inclusive_unknown_flow_is_missing_output() {
    let diagram = inclusive_process();
    let pd = diagram.get_process(0).unwrap();
    let g = gateway_index(pd);
    let err = inclusive_targets(pd, g, With::Flow("nope".to_string())).unwrap_err();
    assert!(matches!(err, Error::MissingOutput(_)), "got {err:?}");
}

#[test]
fn later_handler_registration_wins() {
    let mut map = HandlerMap::new();
    map.insert(HandlerType::Task, "t".to_string(), 0);
    map.insert(HandlerType::Task, "t".to_string(), 7);
    map.insert(HandlerType::Exclusive, "t".to_string(), 3);
    assert_eq!(map.get(HandlerType::Task, "t"), Some(7));
    assert_eq!(map.get(HandlerType::Exclusive, "t"), Some(3));
    assert_eq!(map.get(HandlerType::Inclusive, "t"), None);
}

#[test]
fn finalized_outputs_point_at_sequence_flows() {
    let diagram = build_diagram(parse_events(COUNTER_XML).unwrap()).unwrap();
    let pd = diagram.get_process(0).unwrap();
    for node in pd.iter() {
        let outputs = match node {
            Bpmn::Event(e) => &e.outputs,
            Bpmn::Activity(a) => &a.outputs,
            Bpmn::Gateway(g) => &g.outputs,
            _ => continue,
        };
        for &idx in outputs.ids() {
            let target = pd.get(idx).expect("output index in range");
            assert!(matches!(target, Bpmn::SequenceFlow { .. }));
        }
    }
}

#[test]
fn finalized_flow_targets_exist() {
    let diagram = build_diagram(parse_events(COUNTER_XML).unwrap()).unwrap();
    let pd = diagram.get_process(0).unwrap();
    for node in pd.iter() {
        if let Bpmn::SequenceFlow { target_ref, .. } = node {
            assert!(pd.get(target_ref.local_id).is_some());
        }
    }
}

const VANISHING_TOKEN_XML: &str = r#"<definitions id="defs">
 <process id="p">
  <startEvent id="start"><outgoing>f1</outgoing></startEvent>
  <sequenceFlow id="f1" sourceRef="start" targetRef="g1"/>
  <parallelGateway id="g1"><incoming>f1</incoming><incoming>fx</incoming><outgoing>f2</outgoing></parallelGateway>
  <sequenceFlow id="f2" sourceRef="g1" targetRef="endE"/>
  <endEvent id="endE"><incoming>f2</incoming></endEvent>
 </process>
</definitions>"#;

#[test]
fn run_that_never_reaches_an_end_event_is_rejected() {
    let bpmn = Process::from_str(VANISHING_TOKEN_XML).unwrap().build().unwrap();
    let err = bpmn.run((), &Noop).unwrap_err();
    assert!(matches!(err, Error::MissingEndEvent), "got {err:?}");
}

const EXCLUSIVE_BY_ID_XML: &str = r#"<definitions id="defs">
 <process id="p">
  <startEvent id="start"><outgoing>f1</outgoing></startEvent>
  <sequenceFlow id="f1" sourceRef="start" targetRef="g1"/>
  <exclusiveGateway id="g1" name="pick"><incoming>f1</incoming><outgoing>fa</outgoing><outgoing>fb</outgoing></exclusiveGateway>
  <sequenceFlow id="fa" sourceRef="g1" targetRef="endA"/>
  <sequenceFlow id="fb" sourceRef="g1" targetRef="endB"/>
  <endEvent id="endA"><incoming>fa</incoming></endEvent>
  <endEvent id="endB"><incoming>fb</incoming></endEvent>
 </process>
</definitions>"#;

struct PickFlowB;

impl snurr::Callbacks<()> for PickFlowB {
    fn task(&self, _key: &str, _data: &mut ()) -> Result<Option<snurr::Boundary>, Error> {
        Ok(None)
    }
    fn exclusive(&self, _key: &str, _data: &mut ()) -> Result<Option<String>, Error> {
        Ok(Some("fb".to_string()))
    }
    fn inclusive(&self, _key: &str, _data: &mut ()) -> Result<With, Error> {
        Ok(With::Default)
    }
    fn event_based(&self, _key: &str, _data: &mut ()) -> Result<snurr::IntermediateEvent, Error> {
        Err(Error::ProcessExecution("unused".to_string()))
    }
}

#[test]
fn exclusive_selection_matches_flow_ids_too() {
    let bpmn = Process::from_str(EXCLUSIVE_BY_ID_XML).unwrap().exclusive("pick").build().unwrap();
    let result = bpmn.run((), &PickFlowB).unwrap();
    assert_eq!(result.end_node.id, "endB");
}

const NESTED_SUBPROCESS_XML: &str = r#"<definitions id="defs">
 <process id="p">
  <startEvent id="start"><outgoing>f1</outgoing></startEvent>
  <sequenceFlow id="f1" sourceRef="start" targetRef="outer"/>
  <subProcess id="outer">
   <incoming>f1</incoming><outgoing>f2</outgoing>
   <startEvent id="os"><outgoing>of1</outgoing></startEvent>
   <sequenceFlow id="of1" sourceRef="os" targetRef="inner"/>
   <subProcess id="inner">
    <incoming>of1</incoming><outgoing>of2</outgoing>
    <startEvent id="is"><outgoing>if1</outgoing></startEvent>
    <sequenceFlow id="if1" sourceRef="is" targetRef="ie"/>
    <endEvent id="ie"><incoming>if1</incoming></endEvent>
   </subProcess>
   <sequenceFlow id="of2" sourceRef="inner" targetRef="oe"/>
   <endEvent id="oe"><incoming>of2</incoming></endEvent>
  </subProcess>
  <sequenceFlow id="f2" sourceRef="outer" targetRef="endE"/>
  <endEvent id="endE" name="top"><incoming>f2</incoming></endEvent>
 </process>
</definitions>"#;

#[test]
fn nested_subprocesses_run_bottom_up_and_continue() {
    let bpmn = Process::from_str(NESTED_SUBPROCESS_XML).unwrap().build().unwrap();
    let result = bpmn.run((), &Noop).unwrap();
    assert_eq!(result.end_node.id, "endE");
    assert_eq!(result.end_node.name, Some("top".to_string()));
}

const THROW_PASSTHROUGH_XML: &str = r#"<definitions id="defs">
 <process id="p">
  <startEvent id="start"><outgoing>f1</outgoing></startEvent>
  <sequenceFlow id="f1" sourceRef="start" targetRef="th"/>
  <intermediateThrowEvent id="th" name="shout"><signalEventDefinition/><incoming>f1</incoming><outgoing>f2</outgoing></intermediateThrowEvent>
  <sequenceFlow id="f2" sourceRef="th" targetRef="endE"/>
  <endEvent id="endE"><incoming>f2</incoming></endEvent>
 </process>
</definitions>"#;

#[test]
fn named_throw_event_without_link_passes_through() {
    let bpmn = Process::from_str(THROW_PASSTHROUGH_XML).unwrap().build().unwrap();
    let result = bpmn.run((), &Noop).unwrap();
    assert_eq!(result.end_node.id, "endE");
}

const NAMELESS_THROW_XML: &str = r#"<definitions id="defs">
 <process id="p">
  <startEvent id="start"><outgoing>f1</outgoing></startEvent>
  <sequenceFlow id="f1" sourceRef="start" targetRef="th"/>
  <intermediateThrowEvent id="th"><incoming>f1</incoming><outgoing>f2</outgoing></intermediateThrowEvent>
  <sequenceFlow id="f2" sourceRef="th" targetRef="endE"/>
  <endEvent id="endE"><incoming>f2</incoming></endEvent>
 </process>
</definitions>"#;

#[test]
fn nameless_throw_event_is_rejected() {
    let bpmn = Process::from_str(NAMELESS_THROW_XML).unwrap().build().unwrap();
    let err = bpmn.run((), &Noop).unwrap_err();
    match err {
        Error::MissingIntermediateThrowEventName(id) => assert_eq!(id, "th"),
        other => panic!("unexpected error {other:?}"),
    }
}
