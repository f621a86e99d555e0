//! The data that a Cup instance reports about the images it monitors.

use crate::pipeline::RunError;
use vstd::prelude::*;
use vstd::string::*;

verus! {

/// A snapshot of all monitored images.
#[derive(Debug, Clone)]
pub struct Root {
    pub images: Vec<Image>,
    pub last_updated: String,
    pub metrics: Metrics,
}

/// One monitored image and its update status.
#[derive(Debug, Clone)]
pub struct Image {
    pub in_use: bool,
    pub parts: Parts,
    pub reference: String,
    pub result: ImageResult,
    pub server: Option<String>,
    pub time: i64,
    pub url: Option<String>,
}

/// The parts of an image reference.
#[derive(Debug, Clone)]
pub struct Parts {
    pub registry: String,
    pub repository: String,
    pub tag: String,
}

/// Outcome of the update check of one image.
#[derive(Debug, Clone)]
pub struct ImageResult {
    pub error: Option<String>,
    pub has_update: bool,
    pub info: Option<Info>,
}

/// What kind of update is available.
#[derive(Debug, Clone)]
pub enum Info {
    Version {
        current_version: String,
        new_tag: String,
        new_version: String,
        version_update_type: String,
    },
    Digest {
        local_digests: Vec<String>,
        remote_digest: String,
    },
}

/// Counters that come with a snapshot.
#[derive(Debug, Clone)]
pub struct Metrics {
    pub major_updates: u32,
    pub minor_updates: u32,
    pub monitored_images: u32,
    pub other_updates: u32,
    pub patch_updates: u32,
    pub unknown: u32,
    pub up_to_date: u32,
    pub updates_available: u32,
}

/// Checks the answer to the refresh call, which must be exactly `OK`.
pub fn check_refresh(body: &String) -> (r: Result<(), RunError>)
    ensures
        r is Ok <==> body@ == "OK"@,
        r is Err ==> r == Err::<(), RunError>(RunError::SourceUnavailable),
{
    proof {
        reveal_strlit("OK");
    }
    let s = body.as_str();
    if s.unicode_len() == 2 && s.get_char(0) == 'O' && s.get_char(1) == 'K' {
        assert(body@ =~= "OK"@);
        Ok(())
    } else {
        Err(RunError::SourceUnavailable)
    }
}

} // verus!
