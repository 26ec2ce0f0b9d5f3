use cineforge::json::Json;
use cineforge::llm::{
    anthropic_delta, anthropic_parts, build_text_url, call_failed_message, connection_error_message,
    connection_url, gemini_reply, has_fixed_temperature, header_pairs, looks_like_model_error,
    message, normalize_endpoint, openai_delta, sse_lines, upstream_error, upstream_msg, urlencoding,
};

fn ll_obj(fields: Vec<(&str, Json)>) -> Json {
    Json::Object(fields.into_iter().map(|(k, v)| (k.to_string(), v)).collect())
}

#[test]
fn text_urls_per_mode() {
    assert_eq!(normalize_endpoint("  https://api.x.com/v1/// "), "https://api.x.com/v1");
    assert_eq!(build_text_url("https://api.x.com/v1/", "m", "openai"), "https://api.x.com/v1/chat/completions");
    assert_eq!(build_text_url("https://api.x.com/v1/chat/completions", "m", "openai"), "https://api.x.com/v1/chat/completions");
    assert_eq!(build_text_url("https://a.com/v1", "opus-x", "anthropic"), "https://a.com/v1/messages");
    assert_eq!(build_text_url("https://g.com/v1beta", "gem", "gemini"), "https://g.com/v1beta/models/gem:generateContent");
}

#[test]
fn gemini_connection_url_carries_the_key() {
    assert_eq!(urlencoding("a b/é~"), "a%20b%2F%C3%A9~");
    assert_eq!(connection_url("https://g.com", "k y", "gem", "gemini"), "https://g.com/models/gem:generateContent?key=k%20y");
    assert_eq!(connection_url("https://o.com", "k", "m", "openai"), "https://o.com/chat/completions");
}

#[test]
fn connection_failures_by_status() {
    assert_eq!(connection_error_message(401, "", None), "API Key 无效或已过期");
    assert_eq!(connection_error_message(404, "", Some("nope".to_string())), "端点路径不存在（404）：nope");
    assert_eq!(connection_error_message(400, "Model Not Found", None), "模型名无效：上游拒绝该模型");
    assert_eq!(connection_error_message(503, "", None), "上游服务异常（503）");
    assert_eq!(connection_error_message(418, "", None), "HTTP 418");
    assert!(looks_like_model_error("Unknown Model x"));
    assert_eq!(upstream_msg(Some("x".repeat(250))).len(), 3 + 200);
}

#[test]
fn upstream_error_forms() {
    let s = ll_obj(vec![("error", Json::Str("bad".to_string()))]);
    assert_eq!(upstream_error(Some(&s)), Some("bad".to_string()));
    let o = ll_obj(vec![("error", ll_obj(vec![("msg", Json::Str("m".to_string()))]))]);
    assert_eq!(upstream_error(Some(&o)), Some("m".to_string()));
    assert_eq!(upstream_error(None), None);
}

#[test]
fn event_stream_lines() {
    let (data, rest) = sse_lines("data: {\"a\":1}\n: ping\n  data:[DONE]  \ndata: partial");
    assert_eq!(data, vec!["{\"a\":1}".to_string(), "[DONE]".to_string()]);
    assert_eq!(rest, "data: partial");
    let (data, rest) = sse_lines("no newline yet");
    assert!(data.is_empty());
    assert_eq!(rest, "no newline yet");
}

#[test]
fn stream_deltas() {
    let openai = ll_obj(vec![(
        "choices",
        Json::Array(vec![ll_obj(vec![("delta", ll_obj(vec![("content", Json::Str("你好".to_string()))]))])]),
    )]);
    assert_eq!(openai_delta(&openai), Some("你好".to_string()));
    assert_eq!(openai_delta(&ll_obj(vec![("choices", Json::Array(vec![]))])), None);
    let anthropic = ll_obj(vec![
        ("delta", ll_obj(vec![("text", Json::Str("hi".to_string()))])),
        ("type", Json::Str("content_block_delta".to_string())),
    ]);
    assert_eq!(anthropic_delta(&anthropic), Some("hi".to_string()));
    let other = ll_obj(vec![("type", Json::Str("message_start".to_string()))]);
    assert_eq!(anthropic_delta(&other), None);
}

#[test]
fn gemini_reply_joins_text_parts() {
    let parts = Json::Array(vec![ll_obj(vec![("text", Json::Str("a".to_string()))]), ll_obj(vec![]), ll_obj(vec![("text", Json::Str("b".to_string()))])]);
    let payload = ll_obj(vec![("candidates", Json::Array(vec![ll_obj(vec![("content", ll_obj(vec![("parts", parts)]))])]))]);
    assert_eq!(gemini_reply(&payload), Ok("ab".to_string()));
    assert_eq!(gemini_reply(&ll_obj(vec![])), Err("Gemini 返回了空内容。".to_string()));
}

#[test]
fn failure_message_cuts_detail() {
    assert_eq!(call_failed_message("OpenAI", 500, "oops"), "OpenAI 调用失败（500）：oops");
    assert_eq!(call_failed_message("Gemini", 429, &"z".repeat(300)).len(), "Gemini 调用失败（429）：".len() + 200);
}

#[test]
fn headers_and_anthropic_split() {
    let h = header_pairs("k1", "anthropic");
    assert_eq!(h[1], ("x-api-key".to_string(), "k1".to_string()));
    assert_eq!(header_pairs("k1", "openai")[1], ("authorization".to_string(), "Bearer k1".to_string()));
    assert_eq!(header_pairs("k1", "gemini").len(), 1);
    let msgs = vec![message("system", "sys"), message("user", "u1"), message("system", "later")];
    let (system, rest) = anthropic_parts(&msgs);
    assert_eq!(system, "sys");
    assert_eq!(rest.len(), 1);
    assert!(has_fixed_temperature("Kimi-K2-instruct"));
    assert!(!has_fixed_temperature("deepseek-chat"));
}
