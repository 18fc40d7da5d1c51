use memx::embed::{
    bearer_header, check_vector_len, detected_dimension, embeddings_url, initial_retry_state,
    next_step, sanitize_base_url, EmbedEvent, EmbedFailure, EmbedStep, VectorError,
    INITIAL_RETRY_DELAY_SECS, MAX_ATTEMPTS,
};

#[test]
fn base_url_loses_trailing_slashes() {
    assert_eq!(sanitize_base_url("https://api.example/v1//"), "https://api.example/v1");
    assert_eq!(embeddings_url("https://api.example/v1"), "https://api.example/v1/embeddings");
}

#[test]
fn authorization_header_is_bearer() {
    assert_eq!(bearer_header("sk-1"), "Bearer sk-1");
}

#[test]
fn rate_limits_are_retried_with_doubling_delay() {
    let mut state = initial_retry_state();
    assert_eq!(state.delay_secs, INITIAL_RETRY_DELAY_SECS);
    let mut waits = Vec::new();
    loop {
        match next_step(state, EmbedEvent::RateLimited) {
            EmbedStep::Retry { secs, next } => {
                waits.push(secs);
                state = next;
            }
            EmbedStep::Fail(failure) => {
                assert_eq!(failure, EmbedFailure::RateLimited { attempts: MAX_ATTEMPTS });
                break;
            }
            EmbedStep::Done => panic!("rate limit cannot succeed"),
        }
    }
    assert_eq!(waits, vec![5, 10, 20, 40]);
}

#[test]
fn other_outcomes_end_the_request() {
    let s = initial_retry_state();
    assert_eq!(next_step(s, EmbedEvent::SendFailed), EmbedStep::Fail(EmbedFailure::RequestFailed));
    assert_eq!(
        next_step(s, EmbedEvent::HttpError { status: 500 }),
        EmbedStep::Fail(EmbedFailure::Status { status: 500 })
    );
    assert_eq!(next_step(s, EmbedEvent::BadBody), EmbedStep::Fail(EmbedFailure::BadResponse));
    assert_eq!(next_step(s, EmbedEvent::EmptyData), EmbedStep::Fail(EmbedFailure::EmptyResponse));
    assert_eq!(next_step(s, EmbedEvent::Embedding), EmbedStep::Done);
}

#[test]
fn vectors_are_checked_against_the_dimension() {
    assert_eq!(check_vector_len(3, 3), Ok(()));
    assert_eq!(check_vector_len(2, 3), Err(VectorError::WrongDimension { expected: 3, got: 2 }));
    assert_eq!(detected_dimension(0), Err(VectorError::Empty));
    assert_eq!(detected_dimension(1024), Ok(1024));
}
