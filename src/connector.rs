//! The shapes of the messages exchanged with outside services.
use vstd::prelude::*;

verus! {

/// The HTTP method of a call to an outside service.
#[derive(Debug, Clone, Copy, PartialEq, Eq, Structural)]
pub enum HttpMethod {
    Post,
    Get,
    Put,
    Delete,
}

/// Where a job reports back, and under which id.
#[derive(Debug)]
pub struct BaseParameters {
    pub webhook_url: String,
    pub job_id: String,
}

/// The state of a job on the compute service.
#[derive(Debug, Clone, Copy, PartialEq, Eq, Structural)]
pub enum Status {
    Starting,
    Processing,
    Success,
    Error,
    Cancelled,
}

/// The handle of a job started on the compute service.
#[derive(Debug)]
pub struct ToolAsyncIO {
    pub call_id: String,
}

/// A change pushed to connected clients.
#[derive(Debug)]
pub struct UpdatePayload<D> {
    pub data: D,
}

/// The storage service's answer to an account authorization.
#[derive(Debug)]
pub struct AuthorizationResponse {
    pub account_id: String,
    pub api_url: String,
    pub authorization_token: String,
    pub download_url: String,
    pub recommended_part_size: usize,
    pub absolute_minimum_part_size: usize,
    pub s3_api_url: String,
}

/// The storage service.
#[derive(Debug)]
pub struct BackBlaze;

/// Token and audio usage reported by the transcription service.
#[derive(Debug)]
pub struct Usage {
    pub completion_tokens: usize,
    pub prompt_audio_seconds: usize,
    pub prompt_tokens: usize,
    pub total_tokens: usize,
}

/// The compute service's base URL in the named deployment.
pub open spec fn modal_base(project_env: Seq<char>) -> Seq<char> {
    if project_env == "prod"@ {
        "https://litsdm--orestiad-main.modal.run"@
    } else {
        "https://litsdm--orestiad-main-dev.modal.run"@
    }
}

/// The compute service's base URL in the deployment named `project_env`.
pub fn modal_base_url(project_env: &str) -> (r: String)
    ensures
        r@ == modal_base(project_env@),
{
    if project_env.to_owned() == String::from_str("prod") {
        String::from_str("https://litsdm--orestiad-main.modal.run")
    } else {
        String::from_str("https://litsdm--orestiad-main-dev.modal.run")
    }
}

/// The update relay's base URL in the named deployment.
pub open spec fn reverb_base(project_env: Seq<char>) -> Seq<char> {
    if project_env == "prod"@ {
        "https://reverb.fly.dev"@
    } else {
        "http://localhost:4000"@
    }
}

/// The update relay's base URL in the deployment named `project_env`.
pub fn reverb_base_url(project_env: &str) -> (r: String)
    ensures
        r@ == reverb_base(project_env@),
{
    if project_env.to_owned() == String::from_str("prod") {
        String::from_str("https://reverb.fly.dev")
    } else {
        String::from_str("http://localhost:4000")
    }
}

} // verus!
