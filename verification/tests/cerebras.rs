use fak::cerebras::{
    build_messages, CerebrasChoice, CerebrasClient, CerebrasCompletionResponse,
    CerebrasError, CerebrasResponseMessage, CerebrasUsage, ChatMessage, ContentPart, Role,
};

#[test]
fn client_urls() {
    let c = CerebrasClient::new("SECRET-REDACTED".to_string());
    assert_eq!(c.completions_url(), "https://api.cerebras.ai/v1/chat/completions");
    assert_eq!(c.authorization(), "Bearer SECRET-REDACTED");
}

#[test]
fn messages_start_with_the_preamble() {
    let history = vec![
        ChatMessage::System("sys".to_string()),
        ChatMessage::User(vec![
            ContentPart::Text("gti ".to_string()),
            ContentPart::Other,
            ContentPart::Text("status".to_string()),
        ]),
        ChatMessage::Assistant(vec![ContentPart::Other]),
    ];
    let m = build_messages(Some("pre".to_string()), &history);
    let got: Vec<(&str, &str)> = m.iter().map(|m| (m.role.name(), m.content.as_str())).collect();
    assert_eq!(
        got,
        vec![("system", "pre"), ("system", "sys"), ("user", "gti status"), ("assistant", "")]
    );
}

#[test]
fn messages_without_preamble() {
    let m = build_messages(None, &[ChatMessage::User(vec![])]);
    assert_eq!(m.len(), 1);
    assert_eq!(m[0].role, Role::User);
    assert_eq!(m[0].content, "");
}

fn choice(text: &str) -> CerebrasChoice {
    CerebrasChoice {
        index: Some(0),
        message: CerebrasResponseMessage { role: "assistant".to_string(), content: text.to_string() },
        finish_reason: None,
    }
}

#[test]
fn first_choice_text() {
    let r = CerebrasCompletionResponse {
        id: Some("x".to_string()),
        choices: vec![choice("git status"), choice("other")],
        usage: None,
    };
    assert_eq!(r.choice_text(), "git status");
    let empty = CerebrasCompletionResponse { id: None, choices: vec![], usage: None };
    assert_eq!(empty.choice_text(), "");
}

#[test]
fn usage_defaults_to_zero() {
    let r = CerebrasCompletionResponse {
        id: None,
        choices: vec![],
        usage: Some(CerebrasUsage { prompt_tokens: 5, completion_tokens: 7, total_tokens: 12 }),
    };
    let u = r.token_usage();
    assert_eq!((u.input_tokens, u.output_tokens, u.total_tokens), (5, 7, 12));
    let none = CerebrasCompletionResponse { id: None, choices: vec![], usage: None }.token_usage();
    assert_eq!((none.input_tokens, none.output_tokens, none.total_tokens), (0, 0, 0));
}

#[test]
fn error_messages() {
    assert_eq!(
        CerebrasError::ApiKeyNotFound.message(),
        "CEREBRAS_API_KEY environment variable not found"
    );
    assert_eq!(CerebrasError::HttpError("timed out".to_string()).message(), "HTTP error: timed out");
    assert_eq!(CerebrasError::RequestError("bad".to_string()).message(), "Request error: bad");
}
