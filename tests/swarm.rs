use swarm::collector::Collector;
use swarm::entry::{decimal_text, frame_line, log_line};
use swarm::error::SwarmError;
use swarm::ledger::Ledger;
use swarm::openai::{bearer, request_body, CHAT_COMPLETIONS_URL};

/// Feeds the outcomes of a swarm of `n` tasks through the ledger and the
/// collector, completing the tasks in `order`; invocation `k` (from 1) of the
/// callable gives `call(k)`. Returns the sink's lines and the run's result.
fn simulate(
    n: usize,
    order: &[usize],
    call: impl Fn(usize) -> Result<u32, String>,
) -> (Vec<String>, Result<Vec<Result<u32, String>>, SwarmError>) {
    let mut ledger = Ledger::new(n);
    let mut collector: Collector<u32, String> = Collector::new(n);
    let mut sink = Vec::new();
    for (k, &index) in order.iter().enumerate() {
        let outcome = call(k + 1);
        let rendered = match &outcome {
            Ok(v) => Ok(serde_json::to_string(v).unwrap()),
            Err(e) => Err(format!("{:?}", e)),
        };
        sink.push(ledger.append(index, &rendered).unwrap());
        collector.receive(index, outcome).unwrap();
    }
    (sink, collector.finish(&ledger))
}

fn parse(line: &str) -> serde_json::Value {
    serde_json::from_str(line).unwrap()
}

#[test]
fn decimal_text_writes_numerals() {
    assert_eq!(decimal_text(0), "0");
    assert_eq!(decimal_text(7), "7");
    assert_eq!(decimal_text(10), "10");
    assert_eq!(decimal_text(12345), "12345");
    assert_eq!(decimal_text(usize::MAX), usize::MAX.to_string());
}

#[test]
fn frame_line_places_value() {
    assert_eq!(frame_line(3, true, "[1]"), "{\"response\":[1],\"status\":\"success\",\"task\":3}");
    assert_eq!(frame_line(40, false, "\"x\""), "{\"error\":\"x\",\"status\":\"error\",\"task\":40}");
}

#[test]
fn log_line_for_success() {
    let line = log_line(1, &Ok("{\"a\":[1,2]}".to_string()));
    assert_eq!(line, "{\"response\":{\"a\":[1,2]},\"status\":\"success\",\"task\":1}");
}

#[test]
fn log_line_quotes_error_text() {
    let line = log_line(12, &Err("bad \"quote\"\nnext".to_string()));
    assert_eq!(
        line,
        "{\"error\":\"bad \\\"quote\\\"\\nnext\",\"status\":\"error\",\"task\":12}"
    );
    let v = parse(&line);
    assert_eq!(v["error"], "bad \"quote\"\nnext");
}

#[test]
fn log_line_matches_json_object_rendering() {
    let line = log_line(5, &Err("e".to_string()));
    let mut m = serde_json::Map::new();
    m.insert("task".to_string(), serde_json::Value::from(5));
    m.insert("status".to_string(), serde_json::Value::from("error"));
    m.insert("error".to_string(), serde_json::Value::from("e"));
    assert_eq!(line, serde_json::Value::Object(m).to_string());
}

#[test]
fn ledger_refuses_out_of_range_task() {
    let mut ledger = Ledger::new(2);
    assert_eq!(ledger.append(2, &Ok("1".to_string())), Err(SwarmError::TaskOutOfRange));
    assert!(!ledger.is_complete());
}

#[test]
fn ledger_refuses_second_line_of_task() {
    let mut ledger = Ledger::new(2);
    assert!(ledger.append(1, &Ok("1".to_string())).is_ok());
    assert_eq!(ledger.append(1, &Err("x".to_string())), Err(SwarmError::DuplicateTask));
    assert!(ledger.append(0, &Err("x".to_string())).is_ok());
    assert!(ledger.is_complete());
}

#[test]
fn collector_refuses_bad_reports() {
    let mut c: Collector<u32, String> = Collector::new(1);
    assert_eq!(c.receive(1, Ok(1)), Err(SwarmError::TaskOutOfRange));
    assert_eq!(c.receive(0, Ok(1)), Ok(()));
    assert_eq!(c.receive(0, Ok(2)), Err(SwarmError::DuplicateTask));
    assert!(c.is_complete());
}

#[test]
fn finish_before_all_reports_is_incomplete() {
    let ledger = Ledger::new(2);
    let mut c: Collector<u32, String> = Collector::new(2);
    c.receive(0, Ok(1)).unwrap();
    assert_eq!(c.finish(&ledger), Err(SwarmError::Incomplete));
}

#[test]
fn finish_without_sink_lines_is_incomplete() {
    let ledger = Ledger::new(1);
    let mut c: Collector<u32, String> = Collector::new(1);
    c.receive(0, Ok(1)).unwrap();
    assert_eq!(c.finish(&ledger), Err(SwarmError::Incomplete));
}

#[test]
fn finish_with_other_width_is_incomplete() {
    let ledger = Ledger::new(0);
    let mut c: Collector<u32, String> = Collector::new(1);
    c.receive(0, Ok(1)).unwrap();
    assert_eq!(c.finish(&ledger), Err(SwarmError::Incomplete));
}

#[test]
fn result_has_one_outcome_per_task() {
    for n in 0..6usize {
        let order: Vec<usize> = (0..n).rev().collect();
        let (sink, result) = simulate(n, &order, |k| Ok(k as u32));
        assert_eq!(result.unwrap().len(), n);
        assert_eq!(sink.len(), n);
    }
}

#[test]
fn empty_swarm_logs_nothing() {
    let (sink, result) = simulate(0, &[], |_| Ok(1));
    assert!(result.unwrap().is_empty());
    assert!(sink.is_empty());
}

#[test]
fn sink_lines_are_json_objects() {
    let order = [2usize, 0, 4, 1, 3];
    let (sink, result) = simulate(5, &order, |k| if k % 2 == 0 { Ok(9) } else { Err("no".into()) });
    assert!(result.is_ok());
    assert_eq!(sink.len(), 5);
    for line in &sink {
        let v = parse(line);
        let obj = v.as_object().unwrap();
        assert_eq!(obj.len(), 3);
        let task = obj["task"].as_u64().unwrap();
        assert!((1..=5).contains(&task));
        let status = obj["status"].as_str().unwrap();
        assert!(status == "success" || status == "error");
        assert!(obj.contains_key("response") != obj.contains_key("error"));
    }
}

#[test]
fn sink_tasks_cover_every_number_once() {
    let order = [3usize, 1, 0, 2];
    let (sink, _) = simulate(4, &order, |_| Ok(0));
    let mut tasks: Vec<u64> = sink.iter().map(|l| parse(l)["task"].as_u64().unwrap()).collect();
    assert_eq!(tasks, vec![4, 2, 1, 3]);
    tasks.sort();
    assert_eq!(tasks, vec![1, 2, 3, 4]);
}

#[test]
fn result_follows_completion_order() {
    let order = [1usize, 0];
    let (_, result) = simulate(2, &order, |k| Ok(k as u32 * 10));
    assert_eq!(result.unwrap(), vec![Ok(10), Ok(20)]);
}

#[test]
fn uniform_success_is_logged_as_success() {
    let (sink, result) = simulate(3, &[0, 2, 1], |_| Ok(42));
    assert_eq!(result.unwrap(), vec![Ok(42), Ok(42), Ok(42)]);
    for line in &sink {
        let v = parse(line);
        assert_eq!(v["status"], "success");
        assert_eq!(v["response"], 42);
    }
}

#[test]
fn uniform_failure_is_logged_as_error() {
    let (sink, result) = simulate(3, &[1, 0, 2], |_| Err("down".to_string()));
    assert!(result.unwrap().iter().all(|r| r.is_err()));
    for line in &sink {
        let v = parse(line);
        assert_eq!(v["status"], "error");
        assert_eq!(v["error"], "\"down\"");
        assert!(v.get("response").is_none());
    }
}

#[test]
fn odd_invocations_fail() {
    let (sink, result) = simulate(4, &[2, 3, 0, 1], |k| {
        if k % 2 == 1 { Err(format!("call {}", k)) } else { Ok(k as u32) }
    });
    let outcomes = result.unwrap();
    assert_eq!(outcomes.iter().filter(|r| r.is_ok()).count(), 2);
    assert_eq!(outcomes.iter().filter(|r| r.is_err()).count(), 2);
    assert_eq!(sink.len(), 4);
    let successes = sink.iter().filter(|l| parse(l)["status"] == "success").count();
    let errors = sink.iter().filter(|l| parse(l)["status"] == "error").count();
    assert_eq!((successes, errors), (2, 2));
}

#[test]
fn fresh_ledger_starts_empty() {
    let mut first = Ledger::new(1);
    first.append(0, &Ok("1".to_string())).unwrap();
    let mut second = Ledger::new(1);
    assert!(!second.is_complete());
    assert!(second.append(0, &Ok("2".to_string())).is_ok());
}

#[test]
fn request_body_fills_template() {
    let body = request_body("gpt-4o-mini", "Be brief.", "Hi?");
    let expected = format!(
        r#"{{
            "model": "{}",
            "messages": [
                {{"role": "system", "content": "{}"}},
                {{"role": "user", "content": "{}"}}
            ]
        }}"#,
        "gpt-4o-mini", "Be brief.", "Hi?"
    );
    assert_eq!(body, expected);
    let v = parse(&body);
    assert_eq!(v["messages"][1]["content"], "Hi?");
}

#[test]
fn bearer_prefixes_key() {
    assert_eq!(bearer("k-1"), "Bearer k-1");
    assert!(CHAT_COMPLETIONS_URL.starts_with("https://"));
}
