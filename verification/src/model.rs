//! The request and the response of the mode in which one question to the
//! model answers everything.

use vstd::prelude::*;
use crate::types::{AgeGroup, Confidence, Gender};

verus! {

/// A request for gender and age from a name and an address.
#[derive(Debug, Clone, PartialEq, Eq)]
pub struct InferRequest {
    pub name: String,
    pub email: String,
}

/// A request for everything that the inputs tell.
#[derive(Debug, Clone, PartialEq, Eq)]
pub struct GazeRequest {
    pub email: String,
    pub name: Option<String>,
    pub profile_pic_url: Option<String>,
    pub browsing_history: Option<Vec<String>>,
}

/// The options of a request.
#[derive(Debug, Clone, Copy, PartialEq, Eq, Structural)]
pub struct AnalyzeQuery {
    pub minimal: Option<bool>,
}

impl AnalyzeQuery {
    /// Whether the response carries the diagnostic record: it does unless
    /// the request asks for a minimal response.
    pub fn include_metrics(&self) -> (wanted: bool)
        ensures
            wanted == (self.minimal != Some(true)),
    {
        match self.minimal {
            Some(minimal) => !minimal,
            None => true,
        }
    }
}

/// Where a year of birth was read from.
#[derive(Debug, Clone, Copy, PartialEq, Eq, Structural)]
pub enum BirthYearSource {
    EmailPattern,
    ProfileImage,
    BrowsingHistory,
}

/// What the model is to answer to a request for everything.
#[derive(Debug, Clone, PartialEq, Eq)]
pub struct GazeResponse {
    pub gender: Gender,
    pub gender_confidence: Confidence,
    pub ethnicity: String,
    pub ethnicity_confidence: Confidence,
    pub age_group: Option<AgeGroup>,
    pub age_group_confidence: Option<Confidence>,
    pub birth_year: Option<u16>,
    pub birth_year_source: Option<BirthYearSource>,
    pub organization: Option<String>,
    pub reasoning: Vec<String>,
    pub edge_case: bool,
}

} // verus!
