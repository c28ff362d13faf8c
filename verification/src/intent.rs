//! What the language model makes of a request.
use vstd::prelude::*;

use crate::confidence::Confidence;
use crate::settings::SettingValue;

verus! {

/// What the assistant can do.
#[derive(Clone, Copy, Debug, PartialEq, Eq, Structural)]
pub enum Action {
    SearchFiles,
    GetSystemInfo,
    ListLargeFiles,
    GetNetworkStatus,
    ToggleSetting,
    ReadRecentLogs,
}

/// How much an action can change.
#[derive(Clone, Copy, Debug, PartialEq, Eq, Structural)]
pub enum RiskTier {
    Low,
    Medium,
    High,
}

/// Bounds on the files of a search.
#[derive(Debug)]
pub struct FileFilters {
    pub file_type: Option<String>,
    pub date_range: Option<String>,
    pub size_min: Option<u64>,
    pub size_max: Option<u64>,
    pub path: Option<String>,
}

/// The parameters of an intent.
#[derive(Debug)]
pub struct IntentParams {
    pub query: Option<String>,
    pub filters: Option<FileFilters>,
    pub directory: Option<String>,
    pub threshold_mb: Option<u64>,
    pub setting_name: Option<String>,
    pub value: Option<SettingValue>,
    pub service_name: Option<String>,
    pub lines: Option<u32>,
}

/// The names of the parameters.
pub enum Param {
    Query,
    Filters,
    Directory,
    ThresholdMb,
    SettingName,
    Value,
    ServiceName,
    Lines,
}

impl IntentParams {
    /// The parameter is there.
    pub open spec fn has(&self, param: Param) -> bool {
        match param {
            Param::Query => self.query is Some,
            Param::Filters => self.filters is Some,
            Param::Directory => self.directory is Some,
            Param::ThresholdMb => self.threshold_mb is Some,
            Param::SettingName => self.setting_name is Some,
            Param::Value => self.value is Some,
            Param::ServiceName => self.service_name is Some,
            Param::Lines => self.lines is Some,
        }
    }

    /// The parameters that are there.
    pub open spec fn present(&self) -> Set<Param> {
        Set::new(|param: Param| self.has(param))
    }
}

impl Default for IntentParams {
    /// No parameter at all.
    fn default() -> (r: Self)
        ensures
            r.present() == Set::<Param>::empty(),
    {
        let r = IntentParams {
            query: None,
            filters: None,
            directory: None,
            threshold_mb: None,
            setting_name: None,
            value: None,
            service_name: None,
            lines: None,
        };
        assert(r.present() =~= Set::<Param>::empty());
        r
    }
}

/// An action with its parameters, as the model understood the request.
#[derive(Debug)]
pub struct Intent {
    pub action: Action,
    pub params: IntentParams,
    pub risk_tier: RiskTier,
    pub confidence: Confidence,
    pub clarification_needed: bool,
    pub clarification_question: Option<String>,
}

impl Intent {
    /// The intent comes with a question to the user.
    pub open spec fn has_question(&self) -> bool {
        self.clarification_question matches Some(q) && q@.len() > 0
    }
}

} // verus!
