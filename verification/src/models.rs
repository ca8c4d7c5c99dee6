use vstd::prelude::*;
use std::collections::HashMap;
use std::sync::Arc;

verus! {

/// A request for a sign-in link.
pub struct SendMagicLinkRequest {
    pub email: String,
    pub captcha_token: String,
}

/// A sign-in token to check.
pub struct VerifyTokenRequest {
    pub token: String,
}

/// The answer to a sign-in attempt.
pub struct AuthResponse {
    pub success: bool,
    pub message: String,
    pub session_token: Option<String>,
}

/// Whether a session is valid, and whose it is.
pub struct SessionCheckResponse {
    pub valid: bool,
    pub user_email: String,
}

/// An authentication error.
pub struct AuthError {
    pub error: String,
}

/// A request to prepare the upload of a video for dubbing.
pub struct DubbingPipelinePrepareRequest {
    pub filename: String,
    pub content_type: String,
}

/// Where a video for dubbing is to be uploaded.
pub struct DubbingPipelinePrepareResponse {
    pub pipeline_id: String,
    pub job_id: String,
    pub upload_url: String,
    pub video_s3_url: String,
    pub expires_in: u64,
}

/// A request to dub an uploaded video.
pub struct DubbingPipelineRequest {
    pub pipeline_id: String,
    pub job_id: String,
    pub video_url: String,
    pub target_language: String,
    pub tts_provider: String,
    pub tts_voice: String,
    pub source_language: Option<String>,
    pub api_keys: HashMap<String, String>,
}

/// The answer to a dubbing request.
pub struct DubbingPipelineResponse {
    pub pipeline_id: String,
    pub job_id: String,
    pub status: String,
    pub created_at: String,
}

/// The state of a dubbing pipeline as shown to its user.
pub struct DubbingPipelineStatus {
    pub pipeline_id: String,
    pub job_id: String,
    pub status: String,
    pub step_description: String,
    pub progress_percentage: Option<i32>,
    pub created_at: String,
    pub updated_at: String,
    pub completed_at: Option<String>,
    pub result_urls: Option<HashMap<String, String>>,
    pub error_message: Option<String>,
    pub processing_steps: Option<Vec<String>>,
}

/// A job submitted to the dubbing service.
pub struct DubbingJobRequest {
    pub job_id: String,
    pub video_url: String,
    pub target_language: String,
    pub tts_provider: String,
    pub tts_voice: String,
    pub source_language: Option<String>,
    pub is_premium: bool,
    pub api_keys: HashMap<String, String>,
}

/// The dubbing service's report on a job.
pub struct DubbingJobStatus {
    pub job_id: String,
    pub status: String,
    pub created_at: String,
    pub completed_at: Option<String>,
    pub step: Option<i32>,
    pub total_steps: Option<i32>,
    pub step_description: Option<String>,
    pub progress_percentage: Option<i32>,
    pub error_message: Option<String>,
    pub processing_steps: Option<Vec<String>>,
}

/// The dubbing service's result of a job.
pub struct DubbingJobResult {
    pub job_id: String,
    pub status: String,
    pub result_urls: Option<HashMap<String, String>>,
    pub error_message: Option<String>,
}

/// An error as the API reports it.
pub struct ApiError {
    pub code: String,
    pub message: String,
}

/// The shared state of the web server.
pub struct ServerAppState<C> {
    pub config: Arc<C>,
}

impl<C> ServerAppState<C> {
    /// The state around a configuration.
    pub fn new(config: Arc<C>) -> (res: ServerAppState<C>)
        ensures
            res.config == config,
    {
        ServerAppState { config }
    }
}

/// What the podcast bot knows of a user.
pub struct UserData {
    pub user_system_nickname: String,
}

impl Default for UserData {
    fn default() -> (res: Self)
        ensures
            res.user_system_nickname@ == Seq::<char>::empty(),
    {
        UserData { user_system_nickname: String::new() }
    }
}

} // verus!
