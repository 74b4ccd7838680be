use rag_embeddings::config::PipelineConfig;
use rag_embeddings::driver::{Driver, Job, Phase};
use rag_embeddings::embedding::{ComputeOutcome, EmbedError, EmbeddingVector, Severity};
use rag_embeddings::point::UpsertRequest;

fn config(max: Option<usize>, start: Option<u64>) -> PipelineConfig {
    PipelineConfig::new("model".to_string(), "docs".to_string(), 3, max, start).ok().unwrap()
}

fn stub_vector() -> Vec<u64> {
    vec![0.5f64.to_bits(), 1.5f64.to_bits(), (-2.0f64).to_bits()]
}

/// Lets the engine answer the job in flight with the stub vector, and the
/// store with `stored`.
fn handle(driver: &mut Driver, stored: bool) -> UpsertRequest {
    assert_eq!(driver.phase(), Phase::Computing);
    let read = driver.computed(ComputeOutcome::Success);
    assert_eq!(read.log, None);
    assert_eq!(read.buffer_size, 3 * 15 + 128);
    assert_eq!(driver.phase(), Phase::ReadingOutput);
    let request = driver.embedded(Ok(EmbeddingVector { bits: stub_vector() })).unwrap();
    assert_eq!(driver.phase(), Phase::Upserting);
    assert!(driver.has_room());
    driver.upserted(stored);
    assert_eq!(driver.phase(), Phase::Reading);
    request
}

/// Runs a whole document with an engine that always answers with the stub
/// vector, and a store that answers as `store` says for each section.
fn run(
    driver: &mut Driver,
    lines: &[&str],
    store: &dyn Fn(u64) -> bool,
) -> (Vec<Job>, Vec<UpsertRequest>) {
    let mut jobs = Vec::new();
    let mut requests = Vec::new();
    for line in lines {
        assert!(!driver.closes(line) || driver.can_identify());
        if let Some(job) = driver.feed_line(line) {
            requests.push(handle(driver, store(job.index)));
            jobs.push(job);
        }
    }
    assert!(!driver.holds_section() || driver.can_identify());
    if let Some(job) = driver.finish() {
        requests.push(handle(driver, store(job.index)));
        jobs.push(job);
    }
    (jobs, requests)
}

#[test]
fn identifiers_start_at_the_start_identifier() {
    let mut driver = Driver::new(config(None, Some(100)));
    let lines = ["a", "", "b", "", "c", "", "d"];
    let (jobs, requests) = run(&mut driver, &lines, &|_| true);
    assert_eq!(jobs.len(), 4);
    for (k, job) in jobs.iter().enumerate() {
        assert_eq!(job.index, k as u64);
        assert_eq!(job.id, 100 + k as u64);
        assert_eq!(requests[k].points[0].id, 100 + k as u64);
    }
    assert_eq!(driver.next_index(), 4);
}

#[test]
fn identifiers_start_at_zero_by_default() {
    let mut driver = Driver::new(config(None, None));
    let (jobs, requests) = run(&mut driver, &["a", "", "b"], &|_| true);
    assert_eq!(jobs[0].id, 0);
    assert_eq!(jobs[1].id, 1);
    assert_eq!(requests[0].points[0].id, 0);
    assert_eq!(requests[1].points[0].id, 1);
}

#[test]
fn every_point_carries_the_vector_and_the_text() {
    let mut driver = Driver::new(config(Some(5), Some(7)));
    let lines = ["hello world", "", "abc", "", "```", "", "```"];
    let (jobs, requests) = run(&mut driver, &lines, &|_| true);
    assert_eq!(jobs.len(), 3);
    assert_eq!(requests.len(), 3);
    let texts = ["hello", "abc\n", "```\n\n"];
    for k in 0..3 {
        assert_eq!(requests[k].collection, "docs");
        assert_eq!(requests[k].points.len(), 1);
        let point = &requests[k].points[0];
        assert_eq!(point.vector.bits, stub_vector());
        assert_eq!(point.source, texts[k]);
        assert_eq!(point.source, jobs[k].text);
        assert_eq!(point.payload(), vec![("source".to_string(), texts[k].to_string())]);
    }
}

#[test]
fn a_failed_upsert_does_not_stop_the_next_section() {
    let mut driver = Driver::new(config(None, Some(10)));
    let lines = ["a", "", "b", "", "c"];
    let (jobs, requests) = run(&mut driver, &lines, &|index| index != 1);
    assert_eq!(jobs.len(), 3);
    assert_eq!(requests.len(), 3);
    assert_eq!(jobs[2].index, 2);
    assert_eq!(jobs[2].id, 12);
    assert_eq!(jobs[2].text, "c\n");
    assert_eq!(driver.next_index(), 3);

    let mut always = Driver::new(config(None, Some(10)));
    let (same_jobs, _) = run(&mut always, &lines, &|_| true);
    for k in 0..3 {
        assert_eq!(jobs[k].id, same_jobs[k].id);
        assert_eq!(jobs[k].text, same_jobs[k].text);
    }
}

#[test]
fn the_output_is_read_after_every_outcome() {
    let outcomes = [
        (ComputeOutcome::Success, None),
        (ComputeOutcome::ContextFull, Some(Severity::Info)),
        (ComputeOutcome::PromptTooLong, Some(Severity::Info)),
        (ComputeOutcome::Failed, Some(Severity::Error)),
    ];
    for (outcome, log) in outcomes {
        let mut driver = Driver::new(config(None, None));
        assert!(driver.feed_line("a").is_none());
        assert!(driver.finish().is_some());
        let read = driver.computed(outcome);
        assert_eq!(read.log, log);
        assert_eq!(read.buffer_size, 173);
        assert_eq!(driver.phase(), Phase::ReadingOutput);
    }
}

#[test]
fn the_vector_is_read_out_of_the_output() {
    let mut driver = Driver::new(config(None, Some(40)));
    assert!(driver.feed_line("some text").is_none());
    let job = driver.finish().unwrap();
    let read = driver.computed(ComputeOutcome::Success);
    let mut buffer = vec![0u8; read.buffer_size];
    let output = b"{\"n_embedding\":3,\"embedding\":[0.5,1.5,-2.0,9.0]}";
    buffer[..output.len()].copy_from_slice(output);
    let request = driver.output(&buffer, output.len()).ok().unwrap();
    assert_eq!(request.collection, "docs");
    assert_eq!(request.points.len(), 1);
    assert_eq!(request.points[0].id, 40);
    assert_eq!(request.points[0].vector.bits, stub_vector());
    assert_eq!(request.points[0].source, job.text);
    assert_eq!(driver.phase(), Phase::Upserting);
}

#[test]
fn an_output_without_a_vector_skips_only_its_section() {
    let mut driver = Driver::new(config(None, Some(100)));
    assert!(driver.feed_line("a").is_none());
    let job = driver.feed_line("").unwrap();
    assert_eq!(job.id, 100);
    let read = driver.computed(ComputeOutcome::Failed);
    assert_eq!(read.log, Some(Severity::Error));
    let buffer = b"no json at all".to_vec();
    assert_eq!(driver.output(&buffer, buffer.len()).err(), Some(EmbedError::NotJson));
    assert_eq!(driver.phase(), Phase::Reading);
    assert_eq!(driver.next_index(), 1);

    assert!(driver.feed_line("b").is_none());
    let job = driver.feed_line("").unwrap();
    assert_eq!(job.id, 101);
    driver.computed(ComputeOutcome::Success);
    let buffer = b"{\"embedding\":[1.0,2.0]}".to_vec();
    assert_eq!(
        driver.output(&buffer, buffer.len()).err(),
        Some(EmbedError::BadEntry { index: 2 })
    );
    assert_eq!(driver.next_index(), 2);

    assert!(driver.feed_line("c").is_none());
    let job = driver.finish().unwrap();
    assert_eq!(job.index, 2);
    assert_eq!(job.id, 102);
    assert_eq!(job.text, "c\n");
    driver.computed(ComputeOutcome::Success);
    assert_eq!(driver.embedded(Err(EmbedError::NoArray)).err(), Some(EmbedError::NoArray));
    assert_eq!(driver.next_index(), 3);
}

#[test]
fn long_sections_are_cut_and_flagged() {
    let mut driver = Driver::new(config(Some(5), None));
    assert!(driver.feed_line("hello world").is_none());
    let job = driver.finish().unwrap();
    assert_eq!(job.text, "hello");
    assert!(job.truncated);
    assert_eq!(job.index, 0);
}

#[test]
fn sections_that_fit_are_not_cut() {
    let mut driver = Driver::new(config(Some(6), None));
    assert!(driver.feed_line("hello").is_none());
    let job = driver.finish().unwrap();
    assert_eq!(job.text, "hello\n");
    assert!(!job.truncated);

    let mut driver = Driver::new(config(None, None));
    assert!(driver.feed_line("hello world").is_none());
    let job = driver.finish().unwrap();
    assert_eq!(job.text, "hello world\n");
    assert!(!job.truncated);
}

#[test]
fn the_cut_counts_characters() {
    let mut driver = Driver::new(config(Some(3), None));
    assert!(driver.feed_line("\u{65E5}\u{672C}\u{8A9E}\u{3067}\u{3059}").is_none());
    let job = driver.finish().unwrap();
    assert_eq!(job.text, "\u{65E5}\u{672C}\u{8A9E}");
    assert!(job.truncated);
}

#[test]
fn the_trailing_section_is_processed_once() {
    let mut driver = Driver::new(config(None, None));
    let (jobs, requests) = run(&mut driver, &["a", "", "tail"], &|_| true);
    assert_eq!(jobs.len(), 2);
    assert_eq!(requests.len(), 2);
    assert_eq!(jobs[1].text, "tail\n");
    assert!(!driver.holds_section());
    assert!(driver.finish().is_none());
    assert_eq!(driver.next_index(), 2);
}

#[test]
fn a_document_without_content_gives_no_job() {
    let mut driver = Driver::new(config(None, None));
    let (jobs, requests) = run(&mut driver, &["", "  ", ""], &|_| true);
    assert!(jobs.is_empty());
    assert!(requests.is_empty());
    assert_eq!(driver.next_index(), 0);
}

#[test]
fn the_driver_keeps_its_configuration() {
    let driver = Driver::new(config(Some(9), Some(3)));
    assert_eq!(driver.config().collection_name(), "docs");
    assert_eq!(driver.config().vector_size(), 3);
    assert_eq!(driver.config().max_context_length(), Some(9));
    assert_eq!(driver.config().start_vector_id(), 3);
    assert_eq!(driver.phase(), Phase::Reading);
    assert_eq!(driver.next_index(), 0);
}

#[test]
fn closes_tells_whether_a_line_ends_a_section() {
    let mut driver = Driver::new(config(None, None));
    assert!(!driver.closes(""));
    assert!(!driver.holds_section());
    assert!(driver.feed_line("a").is_none());
    assert!(driver.closes(""));
    assert!(driver.closes("  \t"));
    assert!(!driver.closes("b"));
    assert!(driver.holds_section());
    assert!(driver.feed_line("```").is_none());
    assert!(!driver.closes(""));
    assert!(driver.holds_section());
}

#[test]
fn the_largest_identifier_can_be_used() {
    let mut driver = Driver::new(config(None, Some(u64::MAX)));
    assert!(driver.can_identify());
    assert!(driver.has_room());
    let (jobs, requests) = run(&mut driver, &["a", "", "", "  "], &|_| true);
    assert_eq!(jobs.len(), 1);
    assert_eq!(jobs[0].id, u64::MAX);
    assert_eq!(requests[0].points[0].id, u64::MAX);
    assert_eq!(driver.next_index(), 1);
    assert!(!driver.can_identify());
    assert!(driver.feed_line("more").is_none());
    assert!(driver.holds_section());
}

#[test]
fn identifiers_run_out_past_the_largest() {
    let mut driver = Driver::new(config(None, Some(u64::MAX - 1)));
    let (jobs, _) = run(&mut driver, &["a", "", "b", ""], &|_| true);
    assert_eq!(jobs[0].id, u64::MAX - 1);
    assert_eq!(jobs[1].id, u64::MAX);
    assert!(!driver.can_identify());
    assert!(driver.has_room());
}
