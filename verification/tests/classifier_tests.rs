use jd_organizer::ai_service::{
    AnalysisRequest, LifecycleState, ModelsReply, OllamaService, StartProbe,
};
use jd_organizer::json_read::conf_hundredths;

fn request(name: &str, ext: &str) -> AnalysisRequest {
    AnalysisRequest {
        file_path: format!("/test/{}", name),
        file_name: name.to_string(),
        file_extension: ext.to_string(),
        file_size: 1024,
        mime_type: Some("application/pdf".to_string()),
        existing_structure: None,
        organization_scheme: "JOHNNY_DECIMAL".to_string(),
    }
}

fn running_service() -> OllamaService {
    let mut service = OllamaService::new().unwrap();
    service.start(StartProbe::AlreadyRunning).unwrap();
    service
}

#[test]
fn test_ollama_service_new() {
    let service = OllamaService::new().unwrap();
    assert!(!matches!(service.state, LifecycleState::Running));
    assert!(service.current_model.is_none());
}

#[test]
fn test_rule_based_analysis() {
    let service = OllamaService::new().unwrap();

    let req = request("document.pdf", "pdf");

    let result = service.rule_based_analysis(&req).unwrap();
    assert!(result.suggested_category.contains("Documents"));
    assert_eq!(result.confidence, 75);
}

#[test]
fn deterministic_path_names_the_extension() {
    let service = running_service();
    let req = request("document.pdf", "pdf");
    // No backend reply: the classifier degrades to the deterministic path.
    let result = service.analyze_file(&req, None).unwrap();
    assert_eq!(result.confidence, 75);
    assert!(result.reasoning.contains("pdf"));
    assert_eq!(result.suggested_category, "20-29 Documents/Reports and Documents");
    assert_eq!(result.tags, vec!["pdf".to_string(), "rule-based".to_string()]);
    assert_eq!(
        result.alternative_categories,
        vec!["90-99 Miscellaneous/Miscellaneous".to_string()]
    );
}

#[test]
fn stopped_service_answers_through_the_deterministic_path() {
    let service = OllamaService::new().unwrap();
    let req = request("a.txt", "txt");
    let result = service.analyze_file(&req, None).unwrap();
    assert_eq!(result.confidence, 75);
    assert_eq!(result.suggested_category, "20-29 Documents/Text Documents");
}

#[test]
fn archives_classify_into_the_archives_area() {
    let service = OllamaService::new().unwrap();
    let req = request("backup.zip", "zip");
    let result = service.rule_based_analysis(&req).unwrap();
    assert_eq!(result.suggested_category, "50-59 Archives/Compressed Files");
    let unmapped = service.rule_based_analysis(&request("setup.exe", "exe")).unwrap();
    assert_eq!(unmapped.suggested_category, "90-99 Miscellaneous/Miscellaneous");
}

#[test]
fn parsed_reply_fields_are_extracted() {
    let service = running_service();
    let req = request("a.pdf", "pdf");
    let reply = "Sure! Here is my answer:\n{\"category\": \"20-29 Documents/21 Text Documents\", \"confidence\": 0.9, \"reasoning\": \"looks like text\", \"alternatives\": [\"alt one\", 7], \"tags\": [\"paper\"]}";
    let result = service.analyze_file(&req, Some(reply)).unwrap();
    assert_eq!(result.suggested_category, "20-29 Documents/21 Text Documents");
    assert_eq!(result.confidence, 90);
    assert_eq!(result.reasoning, "looks like text");
    // Non-string array elements are dropped.
    assert_eq!(result.alternative_categories, vec!["alt one".to_string()]);
    assert_eq!(result.tags, vec!["paper".to_string()]);
}

#[test]
fn parsed_reply_missing_fields_take_defaults() {
    let service = running_service();
    let req = request("a.pdf", "pdf");
    let result = service.analyze_file(&req, Some("{}")).unwrap();
    assert_eq!(result.suggested_category, "90-99 Miscellaneous/Miscellaneous");
    assert_eq!(result.confidence, 50);
    assert_eq!(result.reasoning, "AI analysis");
    assert!(result.alternative_categories.is_empty());
    assert!(result.tags.is_empty());
}

#[test]
fn unparseable_reply_falls_back_to_keywords() {
    let service = running_service();
    let req = request("a.pdf", "pdf");
    let result = service
        .analyze_file(&req, Some("I think this belongs with your Documents."))
        .unwrap();
    assert_eq!(result.suggested_category, "20-29 Documents/Text Documents");
    assert_eq!(result.confidence, 60);
    assert_eq!(result.reasoning, "Parsed from AI text response");
    assert_eq!(result.tags, vec!["ai-parsed".to_string()]);

    let media = service.analyze_file(&req, Some("Probably Images.")).unwrap();
    assert_eq!(media.suggested_category, "30-39 Media/Images");

    let misc = service.analyze_file(&req, Some("no idea")).unwrap();
    assert_eq!(misc.suggested_category, "90-99 Miscellaneous/Miscellaneous");
}

#[test]
fn malformed_json_span_falls_back_to_keywords() {
    let service = running_service();
    let req = request("a.pdf", "pdf");
    let result = service.analyze_file(&req, Some("{ not json } Media")).unwrap();
    assert_eq!(result.suggested_category, "30-39 Media/Images");
    assert_eq!(result.confidence, 60);
}

#[test]
fn start_outcomes_drive_the_lifecycle() {
    let mut service = OllamaService::new().unwrap();
    let msg = service.start(StartProbe::AlreadyRunning).unwrap();
    assert_eq!(msg, "Ollama service is already running");
    assert!(matches!(service.state, LifecycleState::Running));

    let mut launched = OllamaService::new().unwrap();
    let msg = launched
        .start(StartProbe::LaunchedReachable(Some(vec!["llama3.2:1b".to_string()])))
        .unwrap();
    assert_eq!(msg, "Ollama service started successfully");
    assert_eq!(launched.current_model, Some("llama3.2:1b".to_string()));

    let mut relaunched = running_service();
    relaunched
        .start(StartProbe::LaunchedReachable(Some(vec!["llama3.2:1b".to_string()])))
        .unwrap();
    assert_eq!(relaunched.current_model, Some("llama3.2:1b".to_string()));
    // A failed model-list query during a relaunch keeps the selected model.
    relaunched.start(StartProbe::LaunchedReachable(None)).unwrap();
    assert_eq!(relaunched.current_model, Some("llama3.2:1b".to_string()));

    let mut unreachable = OllamaService::new().unwrap();
    let err = unreachable.start(StartProbe::LaunchedUnreachable);
    assert!(err.is_err());
    assert!(matches!(unreachable.state, LifecycleState::Error));

    let mut failed = OllamaService::new().unwrap();
    let err = failed.start(StartProbe::LaunchFailed("no binary".to_string()));
    assert!(err.is_err());
    assert!(matches!(failed.state, LifecycleState::Error));
}

#[test]
fn stop_is_idempotent() {
    let mut service = running_service();
    service.stop().unwrap();
    assert!(matches!(service.state, LifecycleState::Stopped));
    assert!(service.current_model.is_none());
    let once = (service.state, service.current_model.clone());
    service.stop().unwrap();
    assert_eq!(once, (service.state, service.current_model.clone()));
}

#[test]
fn status_reports_each_lifecycle_shape() {
    let stopped = OllamaService::new().unwrap();
    let s = stopped.get_status(None);
    assert_eq!(s.status, "stopped");
    assert!(!s.available);
    assert!(s.model.is_none());

    let running = running_service();
    let s = running.get_status(Some(vec!["llama3.2:1b".to_string()]));
    assert_eq!(s.status, "running");
    assert!(s.available);
    assert_eq!(s.models, Some(vec!["llama3.2:1b".to_string()]));

    let s = running.get_status(None);
    assert_eq!(s.status, "error");
    assert!(!s.available);
}

#[test]
fn model_list_reply_is_parsed_for_names() {
    let running = running_service();
    let body = "{\"models\": [{\"name\": \"llama3.2:1b\"}, {\"name\": \"phi3\"}, {\"size\": 3}]}";
    let models = running.get_available_models(ModelsReply::Body(body)).unwrap();
    assert_eq!(models, vec!["llama3.2:1b".to_string(), "phi3".to_string()]);

    let stopped = OllamaService::new().unwrap();
    assert_eq!(
        stopped.get_available_models(ModelsReply::Body(body)).unwrap(),
        Vec::<String>::new()
    );

    assert!(running
        .get_available_models(ModelsReply::TransportError("refused".to_string()))
        .is_err());
    assert!(running.get_available_models(ModelsReply::BadStatus).is_err());
    assert!(running.get_available_models(ModelsReply::Body("not json")).is_err());
}

#[test]
fn prompt_embeds_the_request_fields() {
    let service = OllamaService::new().unwrap();
    let req = request("document.pdf", "pdf");
    let prompt = service.build_analysis_prompt(&req);
    assert!(prompt.contains("File: document.pdf"));
    assert!(prompt.contains("Extension: pdf"));
    assert!(prompt.contains("Size: 1024 bytes"));
    assert!(prompt.contains("Type: application/pdf"));
    assert!(prompt.contains("Respond with JSON"));
}

#[test]
fn confidence_text_converts_to_hundredths() {
    assert_eq!(conf_hundredths("0.75"), Some(75));
    assert_eq!(conf_hundredths("0.5"), Some(50));
    assert_eq!(conf_hundredths("1"), Some(100));
    assert_eq!(conf_hundredths("0"), Some(0));
    assert_eq!(conf_hundredths("2.5"), Some(100));
    assert_eq!(conf_hundredths("0.756"), Some(75));
    assert_eq!(conf_hundredths(""), None);
    assert_eq!(conf_hundredths("-0.5"), None);
    assert_eq!(conf_hundredths("1e-2"), None);
    assert_eq!(conf_hundredths("."), None);
}
