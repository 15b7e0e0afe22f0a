use snurr::{Boundary, Callbacks, Error, IntermediateEvent, Process, Symbol, With};

const COUNTER_XML: &str = r#"<?xml version="1.0" encoding="UTF-8"?>
<definitions id="defs">
 <process id="p1">
  <startEvent id="start"><outgoing>f1</outgoing></startEvent>
  <sequenceFlow id="f1" sourceRef="start" targetRef="t1"/>
  <task id="t1" name="Count 1"><incoming>f1</incoming><outgoing>f2</outgoing></task>
  <sequenceFlow id="f2" sourceRef="t1" targetRef="g1"/>
  <exclusiveGateway id="g1" name="equal to 3" default="fYes"><incoming>f2</incoming><outgoing>fNo</outgoing><outgoing>fYes</outgoing></exclusiveGateway>
  <sequenceFlow id="fNo" name="NO" sourceRef="g1" targetRef="t1"/>
  <sequenceFlow id="fYes" name="YES" sourceRef="g1" targetRef="endE"/>
  <endEvent id="endE"><incoming>fYes</incoming></endEvent>
 </process>
</definitions>"#;

#[derive(Debug, Default)]
struct Counter {
    count: u32,
}

struct NoopHandlers;

impl Callbacks<()> for NoopHandlers {
    fn task(&self, _key: &str, _data: &mut ()) -> Result<Option<Boundary>, Error> {
        Ok(None)
    }
    fn exclusive(&self, _key: &str, _data: &mut ()) -> Result<Option<String>, Error> {
        Ok(None)
    }
    fn inclusive(&self, _key: &str, _data: &mut ()) -> Result<With, Error> {
        Ok(With::Default)
    }
    fn event_based(&self, _key: &str, _data: &mut ()) -> Result<IntermediateEvent, Error> {
        Err(Error::ProcessExecution("no event-based gateway here".to_string()))
    }
}

#[test]
fn create_and_run() -> Result<(), Error> {
    let bpmn = Process::from_str(COUNTER_XML)?
        .task("Count 1")
        .exclusive("equal to 3")
        .build()?;
    let _result = bpmn.run((), &NoopHandlers)?;
    Ok(())
}

struct CounterHandlers;

impl Callbacks<Counter> for CounterHandlers {
    fn task(&self, _key: &str, data: &mut Counter) -> Result<Option<Boundary>, Error> {
        data.count += 1;
        Ok(None)
    }
    fn exclusive(&self, _key: &str, data: &mut Counter) -> Result<Option<String>, Error> {
        if data.count == 3 {
            Ok(Some("YES".to_string()))
        } else {
            Ok(Some("NO".to_string()))
        }
    }
    fn inclusive(&self, _key: &str, _data: &mut Counter) -> Result<With, Error> {
        Ok(With::Default)
    }
    fn event_based(&self, _key: &str, _data: &mut Counter) -> Result<IntermediateEvent, Error> {
        Err(Error::ProcessExecution("unused".to_string()))
    }
}

#[test]
fn counter_runs_three_times() {
    let bpmn = Process::from_str(COUNTER_XML)
        .unwrap()
        .task("Count 1")
        .exclusive("equal to 3")
        .build()
        .unwrap();
    let result = bpmn.run(Counter::default(), &CounterHandlers).unwrap();
    assert_eq!(result.data.count, 3);
    assert_eq!(result.end_node.id, "endE");
    assert_eq!(result.end_node.symbol, Symbol::Blank);
}

const PARALLEL_XML: &str = r#"<definitions id="defs">
 <process id="p">
  <startEvent id="start"><outgoing>f0</outgoing></startEvent>
  <sequenceFlow id="f0" sourceRef="start" targetRef="g1"/>
  <parallelGateway id="g1"><incoming>f0</incoming><outgoing>fa</outgoing><outgoing>fb</outgoing><outgoing>fc</outgoing></parallelGateway>
  <sequenceFlow id="fa" sourceRef="g1" targetRef="ta"/>
  <sequenceFlow id="fb" sourceRef="g1" targetRef="tb"/>
  <sequenceFlow id="fc" sourceRef="g1" targetRef="tc"/>
  <task id="ta" name="inc"><incoming>fa</incoming><outgoing>fa2</outgoing></task>
  <task id="tb" name="inc"><incoming>fb</incoming><outgoing>fb2</outgoing></task>
  <task id="tc" name="inc"><incoming>fc</incoming><outgoing>fc2</outgoing></task>
  <sequenceFlow id="fa2" sourceRef="ta" targetRef="g2"/>
  <sequenceFlow id="fb2" sourceRef="tb" targetRef="g2"/>
  <sequenceFlow id="fc2" sourceRef="tc" targetRef="g2"/>
  <parallelGateway id="g2"><incoming>fa2</incoming><incoming>fb2</incoming><incoming>fc2</incoming><outgoing>fj</outgoing></parallelGateway>
  <sequenceFlow id="fj" sourceRef="g2" targetRef="endE"/>
  <endEvent id="endE"><incoming>fj</incoming></endEvent>
 </process>
</definitions>"#;

#[derive(Debug, Default)]
struct Tally {
    n: u32,
}

struct TallyHandlers;

impl Callbacks<Tally> for TallyHandlers {
    fn task(&self, _key: &str, data: &mut Tally) -> Result<Option<Boundary>, Error> {
        data.n += 1;
        Ok(None)
    }
    fn exclusive(&self, _key: &str, _data: &mut Tally) -> Result<Option<String>, Error> {
        Ok(None)
    }
    fn inclusive(&self, _key: &str, _data: &mut Tally) -> Result<With, Error> {
        Ok(With::Default)
    }
    fn event_based(&self, _key: &str, _data: &mut Tally) -> Result<IntermediateEvent, Error> {
        Err(Error::ProcessExecution("unused".to_string()))
    }
}

#[test]
fn parallel_fan_counts_every_branch() {
    let bpmn = Process::from_str(PARALLEL_XML).unwrap().task("inc").build().unwrap();
    let result = bpmn.run(Tally::default(), &TallyHandlers).unwrap();
    assert_eq!(result.data.n, 3);
    assert_eq!(result.end_node.symbol, Symbol::Blank);
}

const PARALLEL_SHORT_XML: &str = r#"<definitions id="defs">
 <process id="p">
  <startEvent id="start"><outgoing>f0</outgoing></startEvent>
  <sequenceFlow id="f0" sourceRef="start" targetRef="g1"/>
  <parallelGateway id="g1"><incoming>f0</incoming><outgoing>fa</outgoing><outgoing>fb</outgoing></parallelGateway>
  <sequenceFlow id="fa" sourceRef="g1" targetRef="g2"/>
  <sequenceFlow id="fb" sourceRef="g1" targetRef="g2"/>
  <parallelGateway id="g2"><incoming>fa</incoming><incoming>fb</incoming><incoming>fx</incoming><outgoing>fj</outgoing></parallelGateway>
  <sequenceFlow id="fj" sourceRef="g2" targetRef="endE"/>
  <endEvent id="endE"><incoming>fj</incoming></endEvent>
 </process>
</definitions>"#;

#[test]
fn parallel_join_with_too_few_tokens_is_rejected() {
    let bpmn = Process::from_str(PARALLEL_SHORT_XML).unwrap().build().unwrap();
    let err = bpmn.run(Tally::default(), &TallyHandlers).unwrap_err();
    assert!(matches!(err, Error::BpmnRequirement(_)), "got {err:?}");
}

const INCLUSIVE_XML: &str = r#"<definitions id="defs">
 <process id="p">
  <startEvent id="start"><outgoing>f0</outgoing></startEvent>
  <sequenceFlow id="f0" sourceRef="start" targetRef="g1"/>
  <inclusiveGateway id="g1" name="choose" default="fA"><incoming>f0</incoming><outgoing>fA</outgoing><outgoing>fB</outgoing><outgoing>fC</outgoing></inclusiveGateway>
  <sequenceFlow id="fA" name="A" sourceRef="g1" targetRef="ta"/>
  <sequenceFlow id="fB" name="B" sourceRef="g1" targetRef="tb"/>
  <sequenceFlow id="fC" name="C" sourceRef="g1" targetRef="tc"/>
  <task id="ta" name="a"><incoming>fA</incoming><outgoing>fa2</outgoing></task>
  <task id="tb" name="b"><incoming>fB</incoming><outgoing>fb2</outgoing></task>
  <task id="tc" name="c"><incoming>fC</incoming><outgoing>fc2</outgoing></task>
  <sequenceFlow id="fa2" sourceRef="ta" targetRef="g2"/>
  <sequenceFlow id="fb2" sourceRef="tb" targetRef="g2"/>
  <sequenceFlow id="fc2" sourceRef="tc" targetRef="g2"/>
  <inclusiveGateway id="g2"><incoming>fa2</incoming><incoming>fb2</incoming><incoming>fc2</incoming><outgoing>fj</outgoing></inclusiveGateway>
  <sequenceFlow id="fj" sourceRef="g2" targetRef="endE"/>
  <endEvent id="endE"><incoming>fj</incoming></endEvent>
 </process>
</definitions>"#;

#[derive(Debug, Default)]
struct Three {
    a: u32,
    b: u32,
    c: u32,
}

struct ThreeHandlers;

impl Callbacks<Three> for ThreeHandlers {
    fn task(&self, key: &str, data: &mut Three) -> Result<Option<Boundary>, Error> {
        match key {
            "a" => data.a += 1,
            "b" => data.b += 1,
            "c" => data.c += 1,
            _ => {}
        }
        Ok(None)
    }
    fn exclusive(&self, _key: &str, _data: &mut Three) -> Result<Option<String>, Error> {
        Ok(None)
    }
    fn inclusive(&self, _key: &str, _data: &mut Three) -> Result<With, Error> {
        Ok(With::Fork(vec!["A".to_string(), "C".to_string()]))
    }
    fn event_based(&self, _key: &str, _data: &mut Three) -> Result<IntermediateEvent, Error> {
        Err(Error::ProcessExecution("unused".to_string()))
    }
}

#[test]
fn inclusive_fork_takes_only_selected_branches() {
    let bpmn = Process::from_str(INCLUSIVE_XML)
        .unwrap()
        .task("a")
        .task("b")
        .task("c")
        .inclusive("choose")
        .build()
        .unwrap();
    let result = bpmn.run(Three::default(), &ThreeHandlers).unwrap();
    assert_eq!(result.data.a, 1);
    assert_eq!(result.data.b, 0);
    assert_eq!(result.data.c, 1);
    assert_eq!(result.end_node.symbol, Symbol::Blank);
}

const TERMINATE_XML: &str = r#"<definitions id="defs">
 <process id="p">
  <startEvent id="start"><outgoing>f0</outgoing></startEvent>
  <sequenceFlow id="f0" sourceRef="start" targetRef="g1"/>
  <parallelGateway id="g1"><incoming>f0</incoming><outgoing>f1</outgoing><outgoing>fT</outgoing></parallelGateway>
  <sequenceFlow id="f1" sourceRef="g1" targetRef="t1"/>
  <task id="t1" name="work"><incoming>f1</incoming><outgoing>f2</outgoing></task>
  <sequenceFlow id="f2" sourceRef="t1" targetRef="end1"/>
  <endEvent id="end1"><incoming>f2</incoming></endEvent>
  <sequenceFlow id="fT" sourceRef="g1" targetRef="end2"/>
  <endEvent id="end2"><incoming>fT</incoming><terminateEventDefinition/></endEvent>
 </process>
</definitions>"#;

#[test]
fn terminate_end_stops_the_run_at_once() {
    let bpmn = Process::from_str(TERMINATE_XML).unwrap().task("work").build().unwrap();
    let result = bpmn.run(Tally::default(), &TallyHandlers).unwrap();
    assert_eq!(result.end_node.id, "end2");
    assert_eq!(result.end_node.symbol, Symbol::Terminate);
}

const BOUNDARY_XML: &str = r#"<definitions id="defs">
 <process id="p">
  <startEvent id="start"><outgoing>f1</outgoing></startEvent>
  <sequenceFlow id="f1" sourceRef="start" targetRef="t1"/>
  <task id="t1" name="Risky"><incoming>f1</incoming><outgoing>f2</outgoing></task>
  <boundaryEvent id="b1" attachedToRef="t1"><errorEventDefinition/><outgoing>fb</outgoing></boundaryEvent>
  <sequenceFlow id="f2" sourceRef="t1" targetRef="endOk"/>
  <sequenceFlow id="fb" sourceRef="b1" targetRef="endB"/>
  <endEvent id="endOk"><incoming>f2</incoming></endEvent>
  <endEvent id="endB" name="afterFail"><incoming>fb</incoming></endEvent>
 </process>
</definitions>"#;

struct FailingTask(Symbol);

impl Callbacks<()> for FailingTask {
    fn task(&self, _key: &str, _data: &mut ()) -> Result<Option<Boundary>, Error> {
        Ok(Some(Boundary::Symbol(self.0)))
    }
    fn exclusive(&self, _key: &str, _data: &mut ()) -> Result<Option<String>, Error> {
        Ok(None)
    }
    fn inclusive(&self, _key: &str, _data: &mut ()) -> Result<With, Error> {
        Ok(With::Default)
    }
    fn event_based(&self, _key: &str, _data: &mut ()) -> Result<IntermediateEvent, Error> {
        Err(Error::ProcessExecution("unused".to_string()))
    }
}

#[test]
fn boundary_symbol_routes_through_boundary_event() {
    let bpmn = Process::from_str(BOUNDARY_XML).unwrap().task("Risky").build().unwrap();
    let result = bpmn.run((), &FailingTask(Symbol::Error)).unwrap();
    assert_eq!(result.end_node.id, "endB");
    assert_eq!(result.end_node.name, Some("afterFail".to_string()));
}

#[test]
fn unmatched_boundary_symbol_is_missing_boundary() {
    let bpmn = Process::from_str(BOUNDARY_XML).unwrap().task("Risky").build().unwrap();
    let err = bpmn.run((), &FailingTask(Symbol::Signal)).unwrap_err();
    assert!(matches!(err, Error::MissingBoundary(_, _)), "got {err:?}");
}

const LINK_XML: &str = r#"<definitions id="defs">
 <process id="p">
  <startEvent id="start"><outgoing>f1</outgoing></startEvent>
  <sequenceFlow id="f1" sourceRef="start" targetRef="th"/>
  <intermediateThrowEvent id="th" name="k"><incoming>f1</incoming><linkEventDefinition/></intermediateThrowEvent>
  <intermediateCatchEvent id="ca" name="k"><linkEventDefinition/><outgoing>f2</outgoing></intermediateCatchEvent>
  <sequenceFlow id="f2" sourceRef="ca" targetRef="endE"/>
  <endEvent id="endE"><incoming>f2</incoming></endEvent>
 </process>
</definitions>"#;

#[test]
fn link_throw_jumps_to_matching_catch() {
    let bpmn = Process::from_str(LINK_XML).unwrap().build().unwrap();
    let result = bpmn.run((), &NoopHandlers).unwrap();
    assert_eq!(result.end_node.id, "endE");
}

const LINK_NO_CATCH_XML: &str = r#"<definitions id="defs">
 <process id="p">
  <startEvent id="start"><outgoing>f1</outgoing></startEvent>
  <sequenceFlow id="f1" sourceRef="start" targetRef="th"/>
  <intermediateThrowEvent id="th" name="k"><incoming>f1</incoming><linkEventDefinition/></intermediateThrowEvent>
 </process>
</definitions>"#;

#[test]
fn link_throw_without_catch_is_rejected() {
    let bpmn = Process::from_str(LINK_NO_CATCH_XML).unwrap().build().unwrap();
    let err = bpmn.run((), &NoopHandlers).unwrap_err();
    match err {
        Error::MissingIntermediateCatchEvent(symbol, name) => {
            assert_eq!(symbol, "Link");
            assert_eq!(name, "k");
        }
        other => panic!("unexpected error {other:?}"),
    }
}

const EVENT_BASED_XML: &str = r#"<definitions id="defs">
 <process id="p">
  <startEvent id="start"><outgoing>f0</outgoing></startEvent>
  <sequenceFlow id="f0" sourceRef="start" targetRef="g1"/>
  <eventBasedGateway id="g1" name="pick"><incoming>f0</incoming><outgoing>fx</outgoing><outgoing>fy</outgoing></eventBasedGateway>
  <sequenceFlow id="fx" sourceRef="g1" targetRef="evx"/>
  <sequenceFlow id="fy" sourceRef="g1" targetRef="evy"/>
  <intermediateCatchEvent id="evx" name="go"><messageEventDefinition/><outgoing>f1</outgoing></intermediateCatchEvent>
  <intermediateCatchEvent id="evy" name="wait"><timerEventDefinition/><outgoing>f2</outgoing></intermediateCatchEvent>
  <sequenceFlow id="f1" sourceRef="evx" targetRef="endX"/>
  <sequenceFlow id="f2" sourceRef="evy" targetRef="endY"/>
  <endEvent id="endX"><incoming>f1</incoming></endEvent>
  <endEvent id="endY"><incoming>f2</incoming></endEvent>
 </process>
</definitions>"#;

struct PickGo;

impl Callbacks<()> for PickGo {
    fn task(&self, _key: &str, _data: &mut ()) -> Result<Option<Boundary>, Error> {
        Ok(None)
    }
    fn exclusive(&self, _key: &str, _data: &mut ()) -> Result<Option<String>, Error> {
        Ok(None)
    }
    fn inclusive(&self, _key: &str, _data: &mut ()) -> Result<With, Error> {
        Ok(With::Default)
    }
    fn event_based(&self, _key: &str, _data: &mut ()) -> Result<IntermediateEvent, Error> {
        Ok(IntermediateEvent("go".to_string(), Symbol::Message))
    }
}

#[test]
fn event_based_gateway_routes_to_selected_event() {
    let bpmn = Process::from_str(EVENT_BASED_XML).unwrap().event_based("pick").build().unwrap();
    let result = bpmn.run((), &PickGo).unwrap();
    assert_eq!(result.end_node.id, "endX");
}

struct FailingHandlers;

impl Callbacks<()> for FailingHandlers {
    fn task(&self, _key: &str, _data: &mut ()) -> Result<Option<Boundary>, Error> {
        Err(Error::ProcessExecution("task failed on purpose".to_string()))
    }
    fn exclusive(&self, _key: &str, _data: &mut ()) -> Result<Option<String>, Error> {
        Ok(None)
    }
    fn inclusive(&self, _key: &str, _data: &mut ()) -> Result<With, Error> {
        Ok(With::Default)
    }
    fn event_based(&self, _key: &str, _data: &mut ()) -> Result<IntermediateEvent, Error> {
        Err(Error::ProcessExecution("unused".to_string()))
    }
}

#[test]
fn handler_error_stops_the_run() {
    let bpmn = Process::from_str(COUNTER_XML)
        .unwrap()
        .task("Count 1")
        .exclusive("equal to 3")
        .build()
        .unwrap();
    let err = bpmn.run((), &FailingHandlers).unwrap_err();
    match err {
        Error::ProcessExecution(message) => assert_eq!(message, "task failed on purpose"),
        other => panic!("unexpected error {other:?}"),
    }
}

const SUBPROCESS_XML: &str = r#"<definitions id="defs">
 <process id="p">
  <startEvent id="start"><outgoing>f1</outgoing></startEvent>
  <sequenceFlow id="f1" sourceRef="start" targetRef="sp"/>
  <subProcess id="sp" name="inner">
   <incoming>f1</incoming><outgoing>f2</outgoing>
   <startEvent id="sstart"><outgoing>sf1</outgoing></startEvent>
   <sequenceFlow id="sf1" sourceRef="sstart" targetRef="send"/>
   <endEvent id="send"><incoming>sf1</incoming><errorEventDefinition/></endEvent>
  </subProcess>
  <boundaryEvent id="b1" attachedToRef="sp"><errorEventDefinition/><outgoing>fb</outgoing></boundaryEvent>
  <sequenceFlow id="f2" sourceRef="sp" targetRef="endOk"/>
  <sequenceFlow id="fb" sourceRef="b1" targetRef="endErr"/>
  <endEvent id="endOk"><incoming>f2</incoming></endEvent>
  <endEvent id="endErr" name="caught"><incoming>fb</incoming></endEvent>
 </process>
</definitions>"#;

#[test]
fn subprocess_error_end_routes_to_boundary() {
    let bpmn = Process::from_str(SUBPROCESS_XML).unwrap().build().unwrap();
    let result = bpmn.run((), &NoopHandlers).unwrap();
    assert_eq!(result.end_node.id, "endErr");
    assert_eq!(result.end_node.name, Some("caught".to_string()));
}

const SUBPROCESS_NO_BOUNDARY_XML: &str = r#"<definitions id="defs">
 <process id="p">
  <startEvent id="start"><outgoing>f1</outgoing></startEvent>
  <sequenceFlow id="f1" sourceRef="start" targetRef="sp"/>
  <subProcess id="sp" name="inner">
   <incoming>f1</incoming><outgoing>f2</outgoing>
   <startEvent id="sstart"><outgoing>sf1</outgoing></startEvent>
   <sequenceFlow id="sf1" sourceRef="sstart" targetRef="send"/>
   <endEvent id="send"><incoming>sf1</incoming><errorEventDefinition/></endEvent>
  </subProcess>
  <sequenceFlow id="f2" sourceRef="sp" targetRef="endOk"/>
  <endEvent id="endOk"><incoming>f2</incoming></endEvent>
 </process>
</definitions>"#;

#[test]
fn subprocess_error_end_without_boundary_is_rejected() {
    let bpmn = Process::from_str(SUBPROCESS_NO_BOUNDARY_XML).unwrap().build().unwrap();
    let err = bpmn.run((), &NoopHandlers).unwrap_err();
    assert!(matches!(err, Error::MissingBoundary(_, _)), "got {err:?}");
}

const SUBPROCESS_PLAIN_END_XML: &str = r#"<definitions id="defs">
 <process id="p">
  <startEvent id="start"><outgoing>f1</outgoing></startEvent>
  <sequenceFlow id="f1" sourceRef="start" targetRef="sp"/>
  <subProcess id="sp" name="inner">
   <incoming>f1</incoming><outgoing>f2</outgoing>
   <startEvent id="sstart"><outgoing>sf1</outgoing></startEvent>
   <sequenceFlow id="sf1" sourceRef="sstart" targetRef="send"/>
   <endEvent id="send"><incoming>sf1</incoming></endEvent>
  </subProcess>
  <sequenceFlow id="f2" sourceRef="sp" targetRef="endOk"/>
  <endEvent id="endOk" name="done"><incoming>f2</incoming></endEvent>
 </process>
</definitions>"#;

#[test]
fn subprocess_plain_end_continues_through_outputs() {
    let bpmn = Process::from_str(SUBPROCESS_PLAIN_END_XML).unwrap().build().unwrap();
    let result = bpmn.run((), &NoopHandlers).unwrap();
    assert_eq!(result.end_node.id, "endOk");
    assert_eq!(result.end_node.name, Some("done".to_string()));
}
