//! The inference-backed classifier: a lifecycle state machine around an
//! external inference backend, a deterministic rule-based fallback that
//! never fails, and the parser that turns a raw backend reply into a
//! classification suggestion. The backend's I/O itself is performed by
//! the caller, which hands its outcomes in as plain values; every
//! decision taken on those outcomes is verified here.

use vstd::prelude::*;
use vstd::string::*;
use crate::error::AppError;
use crate::johnny_decimal::{area_name, area_name_spec};
use crate::json_read::{
    conf_hundredths, conf_hundredths_spec, json_number_field_text, json_number_text_of,
    json_object_string_items_of, json_parse_error, json_parses, json_reply_parses,
    json_str_field, json_str_field_of, json_string_items_of, object_string_items_from_reply,
    string_items_from_reply,
};
use crate::rules::{mapped_pair_spec, lookup_extension_or_default};
use crate::text::{
    ascii_lower, contains_seq, contains_str, dec_digits, find_char, find_char_str, lower_seq,
    rfind_char, rfind_char_str, str_eq, u64_to_string,
};

verus! {

/// One file described to the classifier.
#[derive(Debug, Clone, PartialEq, Eq)]
pub struct AnalysisRequest {
    pub file_path: String,
    pub file_name: String,
    pub file_extension: String,
    pub file_size: u64,
    pub mime_type: Option<String>,
    /// An already-serialized structure to classify against, if any.
    pub existing_structure: Option<String>,
    pub organization_scheme: String,
}

/// A classification suggestion.
#[derive(Debug, Clone, PartialEq, Eq)]
pub struct AnalysisResult {
    pub suggested_category: String,
    /// Confidence in hundredths: 0 stands for 0.0, 100 for 1.0.
    pub confidence: u32,
    pub reasoning: String,
    pub alternative_categories: Vec<String>,
    pub tags: Vec<String>,
}

/// Mathematical view of an `AnalysisRequest`.
pub struct ReqV {
    pub file_path: Seq<char>,
    pub file_name: Seq<char>,
    pub file_extension: Seq<char>,
    pub file_size: u64,
    pub mime_type: Option<Seq<char>>,
    pub existing_structure: Option<Seq<char>>,
    pub organization_scheme: Seq<char>,
}

/// Mathematical view of an `AnalysisResult`.
pub struct ResV {
    pub suggested_category: Seq<char>,
    pub confidence: u32,
    pub reasoning: Seq<char>,
    pub alternative_categories: Seq<Seq<char>>,
    pub tags: Seq<Seq<char>>,
}

impl View for AnalysisRequest {
    type V = ReqV;

    open spec fn view(&self) -> ReqV {
        ReqV {
            file_path: self.file_path@,
            file_name: self.file_name@,
            file_extension: self.file_extension@,
            file_size: self.file_size,
            mime_type: self.mime_type.deep_view(),
            existing_structure: self.existing_structure.deep_view(),
            organization_scheme: self.organization_scheme@,
        }
    }
}

impl View for AnalysisResult {
    type V = ResV;

    open spec fn view(&self) -> ResV {
        ResV {
            suggested_category: self.suggested_category@,
            confidence: self.confidence,
            reasoning: self.reasoning@,
            alternative_categories: self.alternative_categories.deep_view(),
            tags: self.tags.deep_view(),
        }
    }
}

/// The classifier's lifecycle. Only `Running` permits the inference-backed
/// path; every other state answers through the deterministic fallback.
#[derive(Debug, Clone, Copy, PartialEq, Eq)]
pub enum LifecycleState {
    Stopped,
    Starting,
    Running,
    Error,
}

/// The outcome of the launch-and-probe sequence the caller performs
/// against the backend on behalf of `start`.
pub enum StartProbe {
    /// The backend answered the availability probe before any launch.
    AlreadyRunning,
    /// The backend was launched and the follow-up probe succeeded. Carries
    /// the model-list query's outcome: `None` when that query failed.
    LaunchedReachable(Option<Vec<String>>),
    /// The backend was launched but the follow-up probe failed.
    LaunchedUnreachable,
    /// The backend could not be launched; carries the launcher's message.
    LaunchFailed(String),
}

/// The classifier service: one lifecycle state and one selected model per
/// instance.
pub struct OllamaService {
    pub state: LifecycleState,
    pub current_model: Option<String>,
    pub base_url: String,
}

/// A lifecycle and model report.
#[derive(Debug, Clone, PartialEq, Eq)]
pub struct ServiceStatus {
    pub status: String,
    pub model: Option<String>,
    pub available: bool,
    pub models: Option<Vec<String>>,
}

/// How `start` must leave the service for each probe outcome.
pub open spec fn start_post(
    pre: OllamaService,
    probe: StartProbe,
    post: OllamaService,
    r: Result<String, AppError>,
) -> bool {
    &&& post.base_url == pre.base_url
    &&& match probe {
        StartProbe::AlreadyRunning => {
            &&& post.state is Running
            &&& post.current_model == pre.current_model
            &&& r matches Ok(m) && m@ == "Ollama service is already running"@
        },
        StartProbe::LaunchedReachable(mq) => {
            &&& post.state is Running
            &&& match mq {
                Some(_) => post.current_model matches Some(m) && m@ == "llama3.2:1b"@,
                None => post.current_model == pre.current_model,
            }
            &&& r matches Ok(m) && m@ == "Ollama service started successfully"@
        },
        StartProbe::LaunchedUnreachable => {
            &&& post.state is Error
            &&& post.current_model == pre.current_model
            &&& r matches Err(e) && e matches AppError::AiService(m) && m@
                == "Failed to start Ollama service"@
        },
        StartProbe::LaunchFailed(msg) => {
            &&& post.state is Error
            &&& post.current_model == pre.current_model
            &&& r matches Err(e) && e matches AppError::AiService(m) && m@
                == "Failed to start Ollama: "@ + msg@
        },
    }
}

/// A suggestion label: the area's canonical name, a slash, then the
/// category label.
pub open spec fn slash_label(area: u8, label: Seq<char>) -> Seq<char> {
    area_name_spec(area) + "/"@ + label
}

/// The miscellaneous suggestion label.
pub open spec fn misc_label() -> Seq<char> {
    slash_label(90, "Miscellaneous"@)
}

/// The deterministic fallback's category for a lower-cased extension,
/// derived from the one shared rule table.
pub open spec fn rule_based_category(ext: Seq<char>) -> Seq<char> {
    slash_label(mapped_pair_spec(ext).0, mapped_pair_spec(ext).1)
}

/// What the deterministic fallback suggests: a category from the
/// extension, confidence 0.75, reasoning naming the extension and the
/// fallback, the miscellaneous category as the alternative, and the
/// extension plus a fallback marker as tags.
pub open spec fn rule_based_spec(req: ReqV) -> ResV {
    ResV {
        suggested_category: rule_based_category(lower_seq(req.file_extension)),
        confidence: 75,
        reasoning: "File categorized based on extension '"@ + req.file_extension
            + "' using rule-based fallback"@,
        alternative_categories: seq![misc_label()],
        tags: seq![req.file_extension, "rule-based"@],
    }
}

/// What the keyword heuristic suggests for a reply that could not be
/// parsed as JSON.
pub open spec fn heuristic_spec(raw: Seq<char>) -> ResV {
    ResV {
        suggested_category: if contains_seq(raw, "Documents"@) {
            slash_label(20, "Text Documents"@)
        } else if contains_seq(raw, "Media"@) || contains_seq(raw, "Images"@) {
            slash_label(30, "Images"@)
        } else {
            misc_label()
        },
        confidence: 60,
        reasoning: "Parsed from AI text response"@,
        alternative_categories: Seq::empty(),
        tags: seq!["ai-parsed"@],
    }
}

/// What a successfully parsed reply yields, with each absent or
/// wrongly-typed field replaced by its default.
pub open spec fn fields_suggestion_spec(
    category: Option<Seq<char>>,
    confidence: Option<u32>,
    reasoning: Option<Seq<char>>,
    alternatives: Seq<Seq<char>>,
    tags: Seq<Seq<char>>,
) -> ResV {
    ResV {
        suggested_category: match category {
            Some(c) => c,
            None => misc_label(),
        },
        confidence: match confidence {
            Some(c) => c,
            None => 50,
        },
        reasoning: match reasoning {
            Some(t) => t,
            None => "AI analysis"@,
        },
        alternative_categories: alternatives,
        tags: tags,
    }
}

/// Whether the raw reply holds a candidate JSON span: a first `{` at or
/// before a last `}`.
pub open spec fn has_json_span(raw: Seq<char>) -> bool {
    find_char(raw, '{') >= 0 && rfind_char(raw, '}') >= 0 && find_char(raw, '{') <= rfind_char(
        raw,
        '}',
    )
}

/// The JSON span of a raw reply: first `{` through last `}`.
pub open spec fn json_span_of(raw: Seq<char>) -> Seq<char> {
    raw.subrange(find_char(raw, '{'), rfind_char(raw, '}') + 1)
}

/// The confidence a parsed reply carries, in clamped hundredths: the
/// decimal text of its "confidence" number, read and clamped.
pub open spec fn confidence_of_reply(span: Seq<char>) -> Option<u32> {
    match json_number_text_of(span, "confidence"@) {
        Some(t) => conf_hundredths_spec(t),
        None => None,
    }
}

/// What a reply whose span parses yields: each field extracted, each
/// absent or wrongly-typed field replaced by its default.
pub open spec fn parsed_suggestion_spec(span: Seq<char>) -> ResV {
    fields_suggestion_spec(
        json_str_field_of(span, "category"@),
        confidence_of_reply(span),
        json_str_field_of(span, "reasoning"@),
        json_string_items_of(span, "alternatives"@),
        json_string_items_of(span, "tags"@),
    )
}

/// What the reply parser returns for any raw reply: the parsed fields
/// when the span between the first `{` and the last `}` parses as JSON,
/// and the keyword heuristic otherwise.
pub open spec fn parse_reply_spec(raw: Seq<char>) -> ResV {
    if has_json_span(raw) {
        if json_parses(json_span_of(raw)) {
            parsed_suggestion_spec(json_span_of(raw))
        } else {
            heuristic_spec(raw)
        }
    } else {
        heuristic_spec(raw)
    }
}

/// The names of the models a model-list reply carries: the "name" string
/// of each entry of its "models" array, in order.
pub open spec fn model_names_of(body: Seq<char>) -> Seq<Seq<char>> {
    json_object_string_items_of(body, "models"@, "name"@)
}

/// What the HTTP fetch of the model list yielded; handed to
/// `get_available_models` by the caller that performed it.
pub enum ModelsReply<'a> {
    /// The transport failed; carries the transport error's message.
    TransportError(String),
    /// A reply came back with a non-success status.
    BadStatus,
    /// The reply body, from a success status.
    Body(&'a str),
}

impl OllamaService {
    /// A fresh classifier: stopped, no model selected, aimed at the local
    /// backend.
    pub fn new() -> (r: Result<OllamaService, AppError>)
        ensures
            r matches Ok(s) && s.state is Stopped && s.current_model is None && s.base_url@
                == "http://127.0.0.1:11434"@,
    {
        Ok(
            OllamaService {
                state: LifecycleState::Stopped,
                current_model: None,
                base_url: String::from_str("http://127.0.0.1:11434"),
            },
        )
    }

    /// Applies the outcome of the caller's launch-and-probe sequence: a
    /// reachable backend moves the service to `Running` (best-effort
    /// selecting the default model); anything else moves it to `Error`
    /// and surfaces the failure.
    pub fn start(&mut self, probe: StartProbe) -> (r: Result<String, AppError>)
        ensures
            start_post(*old(self), probe, *final(self), r),
    {
        match probe {
            StartProbe::AlreadyRunning => {
                self.state = LifecycleState::Running;
                Ok(String::from_str("Ollama service is already running"))
            },
            StartProbe::LaunchedReachable(models_query) => {
                self.state = LifecycleState::Running;
                match models_query {
                    Some(_) => {
                        self.current_model = Some(String::from_str("llama3.2:1b"));
                    },
                    None => {
                        // A failed model-list query selects nothing; a model
                        // chosen earlier stays selected.
                    },
                }
                Ok(String::from_str("Ollama service started successfully"))
            },
            StartProbe::LaunchedUnreachable => {
                self.state = LifecycleState::Error;
                Err(AppError::AiService(String::from_str("Failed to start Ollama service")))
            },
            StartProbe::LaunchFailed(msg) => {
                self.state = LifecycleState::Error;
                let mut m = String::from_str("Failed to start Ollama: ");
                m.append(msg.as_str());
                Err(AppError::AiService(m))
            },
        }
    }

    /// Stops the classifier and clears the selected model. Idempotent:
    /// the resulting state does not depend on the state before the call.
    pub fn stop(&mut self) -> (r: Result<(), AppError>)
        ensures
            final(self).state is Stopped,
            final(self).current_model is None,
            final(self).base_url == old(self).base_url,
            r is Ok,
    {
        self.state = LifecycleState::Stopped;
        self.current_model = None;
        Ok(())
    }

    /// Reports the lifecycle and, when running, the models the backend
    /// listed; `models_query` is the outcome of that query, `None` when
    /// it failed.
    pub fn get_status(&self, models_query: Option<Vec<String>>) -> (r: ServiceStatus)
        ensures
            !(self.state is Running) ==> r.status@ == "stopped"@ && r.model is None && !r.available
                && r.models is None,
            self.state is Running && models_query is Some ==> r.status@ == "running"@ && r.model
                == self.current_model && r.available && r.models == models_query,
            self.state is Running && models_query is None ==> r.status@ == "error"@ && r.model
                is None && !r.available && r.models is None,
    {
        match self.state {
            LifecycleState::Running => {
                match models_query {
                    Some(models) => ServiceStatus {
                        status: String::from_str("running"),
                        model: match &self.current_model {
                            Some(m) => Some(m.clone()),
                            None => None,
                        },
                        available: true,
                        models: Some(models),
                    },
                    None => ServiceStatus {
                        status: String::from_str("error"),
                        model: None,
                        available: false,
                        models: None,
                    },
                }
            },
            _ => ServiceStatus {
                status: String::from_str("stopped"),
                model: None,
                available: false,
                models: None,
            },
        }
    }

    /// Reads the backend's model-list reply. A service that is not
    /// running lists nothing. A transport failure or a non-success status
    /// is an error; a body that does not parse is an HTTP-class error; a
    /// body that parses yields exactly the "name" strings of the entries
    /// of its "models" array, in order.
    pub fn get_available_models(&self, reply: ModelsReply<'_>) -> (r: Result<
        Vec<String>,
        AppError,
    >)
        ensures
            !(self.state is Running) ==> (r matches Ok(v) && v@.len() == 0),
            self.state is Running ==> (match reply {
                ModelsReply::TransportError(m) => r matches Err(e) && (e matches AppError::Http(t)
                    && t@ == m@),
                ModelsReply::BadStatus => r matches Err(e) && (e matches AppError::AiService(t)
                    && t@ == "Failed to fetch models"@),
                ModelsReply::Body(body) => {
                    &&& json_parses(body@) ==> (r matches Ok(v) && v.deep_view() == model_names_of(
                        body@,
                    ))
                    &&& !json_parses(body@) ==> (r matches Err(e) && e is Http)
                },
            }),
    {
        if !matches!(self.state, LifecycleState::Running) {
            return Ok(Vec::new());
        }
        match reply {
            ModelsReply::TransportError(m) => Err(AppError::Http(m)),
            ModelsReply::BadStatus => Err(
                AppError::AiService(String::from_str("Failed to fetch models")),
            ),
            ModelsReply::Body(body) => {
                match json_parse_error(body) {
                    Some(msg) => Err(AppError::Http(msg)),
                    None => Ok(object_string_items_from_reply(body, "models", "name")),
                }
            },
        }
    }

    /// The deterministic rule-based suggestion; always succeeds.
    pub fn rule_based_analysis(&self, request: &AnalysisRequest) -> (r: Result<
        AnalysisResult,
        AppError,
    >)
        ensures
            r matches Ok(res) && res@ == rule_based_spec(request@),
    {
        let ext_low = ascii_lower(request.file_extension.as_str());
        let category = rule_based_category_exec(ext_low.as_str());
        let mut reasoning = String::from_str("File categorized based on extension '");
        reasoning.append(request.file_extension.as_str());
        reasoning.append("' using rule-based fallback");
        let mut alternative_categories: Vec<String> = Vec::new();
        alternative_categories.push(slash_label_exec(90, "Miscellaneous"));
        let mut tags: Vec<String> = Vec::new();
        tags.push(request.file_extension.clone());
        tags.push(String::from_str("rule-based"));
        let res = AnalysisResult {
            suggested_category: category,
            confidence: 75,
            reasoning,
            alternative_categories,
            tags,
        };
        proof {
            assert(res@.alternative_categories =~= rule_based_spec(
                request@,
            ).alternative_categories);
            assert(res@.tags =~= rule_based_spec(request@).tags);
        }
        Ok(res)
    }

    /// Builds the prompt describing one file to the backend.
    pub fn build_analysis_prompt(&self, request: &AnalysisRequest) -> (r: String)
        ensures
            r@ == prompt_spec(request@),
    {
        let mut p = String::from_str(
            "You are a file organization assistant using the Johnny Decimal system. \nAnalyze the following file and suggest the most appropriate category:\n\nFile: ",
        );
        p.append(request.file_name.as_str());
        p.append("\nExtension: ");
        p.append(request.file_extension.as_str());
        p.append("\nSize: ");
        let size = u64_to_string(request.file_size);
        p.append(size.as_str());
        p.append(" bytes\nType: ");
        match &request.mime_type {
            Some(m) => p.append(m.as_str()),
            None => p.append("unknown"),
        }
        p.append(
            "\n\nJohnny Decimal areas (10-19, 20-29, 30-39, etc.) should be used for broad categories.\nCategories (11, 12, 13, etc.) should be specific within each area.\n\nRespond with JSON:\n{\n    \"category\": \"Area Name/Category Name\",\n    \"confidence\": 0.0-1.0,\n    \"reasoning\": \"explanation\",\n    \"alternatives\": [\"alt1\", \"alt2\"],\n    \"tags\": [\"tag1\", \"tag2\"]\n}\n\nBe concise and practical in your categorization.",
        );
        p
    }

    /// Parses a raw backend reply: the span from the first `{` to the
    /// last `}` is tried as JSON and its fields extracted with the
    /// documented defaults; failing that, the keyword heuristic answers.
    /// Never fails.
    pub fn parse_ai_response(&self, response: &str) -> (r: Result<AnalysisResult, AppError>)
        ensures
            r matches Ok(res) && res@ == parse_reply_spec(response@),
            r matches Ok(res) && res@.confidence <= 100,
    {
        let len = response.unicode_len();
        let s_idx = find_char_str(response, '{');
        let e_idx = rfind_char_str(response, '}');
        match (s_idx, e_idx) {
            (Some(si), Some(ei)) => {
                if si <= ei {
                    proof {
                        crate::text::lemma_find_char(response@, '{');
                        crate::text::lemma_rfind_char(response@, '}');
                    }
                    let span = response.substring_char(si, ei + 1);
                    proof {
                        assert(span@ == json_span_of(response@));
                    }
                    if json_reply_parses(span) {
                        let category = json_str_field(span, "category");
                        let confidence: Option<u32> = match json_number_field_text(
                            span,
                            "confidence",
                        ) {
                            Some(t) => conf_hundredths(t.as_str()),
                            None => None,
                        };
                        let reasoning = json_str_field(span, "reasoning");
                        let alternatives = string_items_from_reply(span, "alternatives");
                        let tags = string_items_from_reply(span, "tags");
                        proof {
                            assert(confidence == confidence_of_reply(span@));
                        }
                        Ok(suggestion_from_fields(category, confidence, reasoning, alternatives,
                            tags))
                    } else {
                        Ok(heuristic_suggestion(response))
                    }
                } else {
                    Ok(heuristic_suggestion(response))
                }
            },
            _ => Ok(heuristic_suggestion(response)),
        }
    }

    /// Classifies one file; never fails. Only a running service attempts
    /// the inference-backed path: every other state, and every failed
    /// inference call (`ai_response` is `None` on any such failure: no
    /// model selected, transport error, bad status, or timeout), answers
    /// through the deterministic rule-based path.
    pub fn analyze_file(&self, request: &AnalysisRequest, ai_response: Option<&str>) -> (r: Result<
        AnalysisResult,
        AppError,
    >)
        ensures
            r is Ok,
            !(self.state is Running) ==> (r matches Ok(res) && res@ == rule_based_spec(request@)),
            self.state is Running && ai_response is None ==> (r matches Ok(res) && res@
                == rule_based_spec(request@)),
            self.state is Running ==> (ai_response matches Some(raw) ==> (r matches Ok(res)
                && res@ == parse_reply_spec(raw@))),
    {
        if !matches!(self.state, LifecycleState::Running) {
            return self.rule_based_analysis(request);
        }
        match ai_response {
            None => self.rule_based_analysis(request),
            Some(raw) => self.parse_ai_response(raw),
        }
    }
}

/// The deterministic fallback's category for a lower-cased extension:
/// the shared rule table's area name and label, slash-joined.
fn rule_based_category_exec(ext: &str) -> (r: String)
    ensures
        r@ == rule_based_category(ext@),
{
    let pair = lookup_extension_or_default(ext);
    slash_label_exec(pair.0, pair.1.as_str())
}

/// A suggestion label: the area's canonical name, a slash, then the
/// category label.
fn slash_label_exec(area: u8, label: &str) -> (r: String)
    ensures
        r@ == slash_label(area, label@),
{
    let mut s = area_name(area);
    s.append("/");
    s.append(label);
    s
}

/// The prompt text for one request.
pub open spec fn prompt_spec(req: ReqV) -> Seq<char> {
    "You are a file organization assistant using the Johnny Decimal system. \nAnalyze the following file and suggest the most appropriate category:\n\nFile: "@
        + req.file_name + "\nExtension: "@ + req.file_extension + "\nSize: "@ + dec_digits(
        req.file_size as nat,
    ) + " bytes\nType: "@ + (match req.mime_type {
        Some(m) => m,
        None => "unknown"@,
    })
        + "\n\nJohnny Decimal areas (10-19, 20-29, 30-39, etc.) should be used for broad categories.\nCategories (11, 12, 13, etc.) should be specific within each area.\n\nRespond with JSON:\n{\n    \"category\": \"Area Name/Category Name\",\n    \"confidence\": 0.0-1.0,\n    \"reasoning\": \"explanation\",\n    \"alternatives\": [\"alt1\", \"alt2\"],\n    \"tags\": [\"tag1\", \"tag2\"]\n}\n\nBe concise and practical in your categorization."@
}

/// Assembles a suggestion from the fields a parsed reply carried,
/// applying the documented default for each absent field.
pub fn suggestion_from_fields(
    category: Option<String>,
    confidence: Option<u32>,
    reasoning: Option<String>,
    alternatives: Vec<String>,
    tags: Vec<String>,
) -> (r: AnalysisResult)
    requires
        confidence matches Some(c) ==> c <= 100,
    ensures
        r@ == fields_suggestion_spec(
            category.deep_view(),
            confidence,
            reasoning.deep_view(),
            alternatives.deep_view(),
            tags.deep_view(),
        ),
        r@.confidence <= 100,
{
    let suggested_category = match category {
        Some(c) => c,
        None => slash_label_exec(90, "Miscellaneous"),
    };
    let conf = match confidence {
        Some(c) => c,
        None => 50,
    };
    let reas = match reasoning {
        Some(t) => t,
        None => String::from_str("AI analysis"),
    };
    AnalysisResult {
        suggested_category,
        confidence: conf,
        reasoning: reas,
        alternative_categories: alternatives,
        tags,
    }
}

/// The keyword heuristic over a raw reply that could not be parsed.
pub fn heuristic_suggestion(raw: &str) -> (r: AnalysisResult)
    ensures
        r@ == heuristic_spec(raw@),
{
    let suggested_category = if contains_str(raw, "Documents") {
        slash_label_exec(20, "Text Documents")
    } else if contains_str(raw, "Media") || contains_str(raw, "Images") {
        slash_label_exec(30, "Images")
    } else {
        slash_label_exec(90, "Miscellaneous")
    };
    let mut tags: Vec<String> = Vec::new();
    tags.push(String::from_str("ai-parsed"));
    let r = AnalysisResult {
        suggested_category,
        confidence: 60,
        reasoning: String::from_str("Parsed from AI text response"),
        alternative_categories: Vec::new(),
        tags,
    };
    proof {
        assert(r@.tags =~= heuristic_spec(raw@).tags);
        assert(r@.alternative_categories =~= heuristic_spec(raw@).alternative_categories);
    }
    r
}

} // verus!
