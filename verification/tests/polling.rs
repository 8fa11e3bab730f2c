use tweet_cycle::error::PollError;
use tweet_cycle::polling::{
    await_result, classify_status, http_success, read_outcome, FalClient,
    PollAction, PollConfig, PollRun, ReadOutcome, StatusKind, StatusResponse, SubmitResponse,
};

fn config(max_attempts: u32) -> PollConfig {
    PollConfig { interval_secs: 1, max_attempts }
}

fn status(name: &str) -> StatusResponse {
    StatusResponse { http_code: Some(200), status: Some(name.to_string()), images: vec![] }
}

fn success(result: &str) -> StatusResponse {
    StatusResponse {
        http_code: Some(200),
        status: Some("SUCCESS".to_string()),
        images: vec![result.to_string(), "second".to_string()],
    }
}

#[test]
fn result_on_the_third_read_comes_after_three_reads() {
    let answers = vec![status("PENDING"), status("PENDING"), success("aGk=")];
    let run = await_result(&config(10), &answers);
    assert_eq!(run, PollRun { outcome: Some(Ok("aGk=".to_string())), reads: 3 });
    let run = await_result(&config(3), &answers);
    assert_eq!(run, PollRun { outcome: Some(Ok("aGk=".to_string())), reads: 3 });
}

#[test]
fn job_still_pending_times_out_after_the_permitted_reads() {
    for max_attempts in [1u32, 2, 5] {
        let answers: Vec<StatusResponse> =
            (0..max_attempts + 1).map(|_| status("PENDING")).collect();
        let run = await_result(&config(max_attempts), &answers);
        assert_eq!(
            run,
            PollRun { outcome: Some(Err(PollError::PollingTimedOut)), reads: max_attempts as usize }
        );
    }
}

#[test]
fn result_behind_the_last_permitted_read_is_not_reached() {
    let answers = vec![status("PENDING"), status("RUNNING"), success("late")];
    let run = await_result(&config(2), &answers);
    assert_eq!(run, PollRun { outcome: Some(Err(PollError::PollingTimedOut)), reads: 2 });
}

#[test]
fn failed_status_ends_polling_at_once() {
    let answers = vec![status("failed"), success("never read")];
    let run = await_result(&config(10), &answers);
    assert_eq!(
        run,
        PollRun { outcome: Some(Err(PollError::RemoteJobFailed("failed".to_string()))), reads: 1 }
    );
}

#[test]
fn no_read_is_made_where_none_is_permitted() {
    let run = await_result(&config(0), &vec![success("x")]);
    assert_eq!(run, PollRun { outcome: Some(Err(PollError::PollingTimedOut)), reads: 0 });
    assert_eq!(config(0).begin(), PollAction::Finish(Err(PollError::PollingTimedOut)));
    assert_eq!(config(4).begin(), PollAction::ReadAfter(1));
}

#[test]
fn answers_that_run_out_leave_the_job_open() {
    let run = await_result(&config(5), &vec![status("STARTED"), status("RUNNING")]);
    assert_eq!(run, PollRun { outcome: None, reads: 2 });
    let run = await_result(&config(5), &vec![]);
    assert_eq!(run, PollRun { outcome: None, reads: 0 });
}

#[test]
fn statuses_fall_into_three_kinds() {
    for name in ["PENDING", "STARTED", "RUNNING"] {
        assert_eq!(classify_status(name), StatusKind::InProgress);
    }
    assert_eq!(classify_status("SUCCESS"), StatusKind::Succeeded);
    for name in ["FAILED", "failed", "pending", "Success", "", "SUCCESS ", "CANCELLED"] {
        assert_eq!(classify_status(name), StatusKind::Other, "{name:?}");
    }
}

#[test]
fn each_answer_settles_what_it_should() {
    assert_eq!(read_outcome(&status("RUNNING")), ReadOutcome::InProgress);
    assert_eq!(read_outcome(&success("img")), ReadOutcome::Done("img".to_string()));
    assert_eq!(read_outcome(&status("SUCCESS")), ReadOutcome::Failed(PollError::EmptyResult));
    assert_eq!(
        read_outcome(&status("CANCELLED")),
        ReadOutcome::Failed(PollError::RemoteJobFailed("CANCELLED".to_string()))
    );
    let bare = StatusResponse { http_code: Some(200), status: None, images: vec!["img".to_string()] };
    assert_eq!(read_outcome(&bare), ReadOutcome::Done("img".to_string()));
    let empty = StatusResponse { http_code: Some(200), status: None, images: vec![] };
    assert_eq!(read_outcome(&empty), ReadOutcome::Failed(PollError::MalformedResponse));
    let refused = StatusResponse { http_code: Some(500), ..success("img") };
    assert_eq!(read_outcome(&refused), ReadOutcome::Failed(PollError::SubmissionFailed));
    let unanswered = StatusResponse { http_code: None, ..success("img") };
    assert_eq!(read_outcome(&unanswered), ReadOutcome::Failed(PollError::SubmissionFailed));
}

#[test]
fn step_after_each_read_follows_the_budget() {
    let c = PollConfig { interval_secs: 3, max_attempts: 2 };
    assert_eq!(c.poll_step(1, &status("PENDING")), PollAction::ReadAfter(3));
    assert_eq!(c.poll_step(2, &status("PENDING")), PollAction::Finish(Err(PollError::PollingTimedOut)));
    assert_eq!(c.poll_step(2, &success("r")), PollAction::Finish(Ok("r".to_string())));
    assert_eq!(
        c.poll_step(1, &status("nope")),
        PollAction::Finish(Err(PollError::RemoteJobFailed("nope".to_string())))
    );
}

#[test]
fn success_codes_are_the_two_hundreds() {
    assert!(http_success(Some(200)));
    assert!(http_success(Some(299)));
    assert!(!http_success(Some(199)));
    assert!(!http_success(Some(300)));
    assert!(!http_success(Some(404)));
    assert!(!http_success(None));
}

#[test]
fn submission_hands_out_the_job_identifier() {
    let client = FalClient::new("https://queue.fal.run/fal-ai/fast-sdxl", "secret");
    let accepted = SubmitResponse { http_code: Some(200), request_id: Some("job-1".to_string()) };
    assert_eq!(client.start_generation(&accepted), Ok("job-1".to_string()));
    let nameless = SubmitResponse { http_code: Some(201), request_id: None };
    assert_eq!(client.start_generation(&nameless), Err(PollError::MalformedResponse));
    let refused = SubmitResponse { http_code: Some(403), request_id: Some("job-1".to_string()) };
    assert_eq!(client.start_generation(&refused), Err(PollError::SubmissionFailed));
    let unanswered = SubmitResponse { http_code: None, request_id: None };
    assert_eq!(client.start_generation(&unanswered), Err(PollError::SubmissionFailed));
}

#[test]
fn client_knows_its_addresses() {
    let client = FalClient::new("https://queue.fal.run/fal-ai/fast-sdxl//", "secret");
    assert_eq!(client.config, PollConfig { interval_secs: 3, max_attempts: 30 });
    assert_eq!(client.authorization(), "Key secret");
    assert_eq!(client.status_url("abc-123"), "https://queue.fal.run/fal-ai/fast-sdxl/requests/abc-123");
    let plain = FalClient::with_config("http://host", "k", config(2));
    assert_eq!(plain.status_url("7"), "http://host/requests/7");
    assert_eq!(plain.config, config(2));
}

#[test]
fn one_generation_is_one_submission_and_its_polling() {
    let client = FalClient::with_config("http://host", "k", config(3));
    let accepted = SubmitResponse { http_code: Some(200), request_id: Some("job".to_string()) };
    let answers = vec![status("PENDING"), success("done")];
    assert_eq!(
        client.generate_image(&accepted, &answers),
        PollRun { outcome: Some(Ok("done".to_string())), reads: 2 }
    );
    assert_eq!(client.poll_for_image(&answers), client.generate_image(&accepted, &answers));
    let refused = SubmitResponse { http_code: Some(500), request_id: None };
    assert_eq!(
        client.generate_image(&refused, &answers),
        PollRun { outcome: Some(Err(PollError::SubmissionFailed)), reads: 0 }
    );
}
