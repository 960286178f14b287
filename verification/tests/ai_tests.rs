use query_engine::ai::{
    explain_system_prompt, filter_chat_models, ollama_generate_url, ollama_tags_url,
    parse_provider, prompt_with_request, prompt_with_sql, resolve_endpoint, sort_models_by_id,
    sql_generation_prompt, strip_model_prefix, AIModel, AiProvider,
};

fn model(id: &str) -> AIModel {
    AIModel { id: id.to_string(), name: id.to_string() }
}

#[test]
fn provider_names_map_to_services() {
    assert_eq!(parse_provider(&"ollama".to_string()), AiProvider::Ollama);
    assert_eq!(parse_provider(&"gemini".to_string()), AiProvider::Gemini);
    assert_eq!(parse_provider(&"openai".to_string()), AiProvider::OpenAi);
    assert_eq!(parse_provider(&"disabled".to_string()), AiProvider::Disabled);
    assert_eq!(parse_provider(&"other".to_string()), AiProvider::Unknown);
}

#[test]
fn generation_prompt_frames_the_schema() {
    let p = sql_generation_prompt("CREATE TABLE t(x INT)");
    assert_eq!(
        p,
        "You are an expert SQL assistant. Generate a valid SQL query for the following request. \
         Target Database Schema: \nCREATE TABLE t(x INT)\n Return ONLY the SQL query, no markdown, \
         no explanation. If you cannot generate SQL, return a SQL comment explaining why."
    );
}

#[test]
fn one_message_prompts_append_the_payload() {
    assert_eq!(prompt_with_request("sys", "list users"), "sys\n\nUser Request: list users");
    assert_eq!(prompt_with_sql("sys", "SELECT 1"), "sys\n\nSQL: SELECT 1");
    assert!(explain_system_prompt().starts_with("You are an expert database engineer."));
}

#[test]
fn endpoint_falls_back_to_local_default() {
    assert_eq!(resolve_endpoint(None), "http://localhost:11434");
    assert_eq!(resolve_endpoint(Some("http://box:9999".to_string())), "http://box:9999");
    assert_eq!(ollama_generate_url("http://box:9999"), "http://box:9999/api/generate");
    assert_eq!(ollama_tags_url("http://box:9999"), "http://box:9999/api/tags");
}

#[test]
fn listing_prefix_is_stripped_everywhere() {
    assert_eq!(strip_model_prefix("models/gemini-pro"), "gemini-pro");
    assert_eq!(strip_model_prefix("gemini-pro"), "gemini-pro");
    assert_eq!(strip_model_prefix("models/models/x"), "x");
    assert_eq!(strip_model_prefix("a/models/b"), "a/b");
    assert_eq!(strip_model_prefix(""), "");
}

#[test]
fn chat_filter_keeps_gpt_and_o1_families() {
    let kept = filter_chat_models(vec![
        model("gpt-4"),
        model("dall-e-3"),
        model("o1-mini"),
        model("whisper-1"),
    ]);
    let ids: Vec<&str> = kept.iter().map(|m| m.id.as_str()).collect();
    assert_eq!(ids, vec!["gpt-4", "o1-mini"]);
}

#[test]
fn model_listing_sorts_by_identifier() {
    let sorted = sort_models_by_id(vec![model("o1-mini"), model("gpt-4"), model("gpt-3.5")]);
    let ids: Vec<&str> = sorted.iter().map(|m| m.id.as_str()).collect();
    assert_eq!(ids, vec!["gpt-3.5", "gpt-4", "o1-mini"]);
}
