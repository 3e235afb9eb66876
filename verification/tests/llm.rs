use speakiput::insertion::{prepare_llm_insertion, LlmInsertion};
use speakiput::llm::{
    check_provider, clean_llm_output, contains_line_break, frame_request, interpret_reply,
    is_success, rewrite_messages, LlmError, OpenAiCompatibleProvider, ProviderConfig,
    ProviderReply,
};

fn config(endpoint: &str, model: &str, key: Option<&str>) -> ProviderConfig {
    ProviderConfig {
        endpoint: endpoint.into(),
        model_id: model.into(),
        api_key: key.map(str::to_owned),
    }
}

#[test]
fn cleaning_strips_padding_line_endings_and_wrapping_fences() {
    assert_eq!(clean_llm_output("  hello\r\n"), "hello");
    assert_eq!(
        clean_llm_output("```bash\nsudo pacman -S steam\n```"),
        "sudo pacman -S steam"
    );
    assert_eq!(
        clean_llm_output("```python\ndef f():\n    return 1\n```"),
        "def f():\n    return 1"
    );
}

#[test]
fn cleaning_does_not_destroy_ambiguous_fences() {
    let multiple = "```sh\nfirst\n```\nthen\n```sh\nsecond\n```";
    assert_eq!(clean_llm_output(multiple), multiple);
    let content_on_fence = "```bash echo hi\necho bye\n```";
    assert_eq!(clean_llm_output(content_on_fence), content_on_fence);
}

#[test]
fn cleaning_twice_changes_nothing() {
    for text in ["```c++\r\nint x;\r```  ", " a\r\rb ", "```\n```", "```é\nx\n```", "``` \nx"] {
        let once = clean_llm_output(text);
        assert_eq!(clean_llm_output(&once), once, "{text}");
        assert!(!once.contains('\r'));
    }
    assert_eq!(clean_llm_output("a\r\r\nb"), "a\n\nb");
}

#[test]
fn line_endings_make_no_difference() {
    for text in ["```c++\nint x;\n```", "a\n\nb\n", " \n"] {
        let expected = clean_llm_output(text);
        assert_eq!(clean_llm_output(&text.replace('\n', "\r\n")), expected);
        assert_eq!(clean_llm_output(&text.replace('\n', "\r")), expected);
    }
}

#[test]
fn every_dangerous_line_break_is_detected() {
    for line_break in [
        '\n', '\r', '\u{000b}', '\u{000c}', '\u{0085}', '\u{2028}', '\u{2029}',
    ] {
        assert!(contains_line_break(&format!("one{line_break}two")));
    }
    assert!(!contains_line_break("one two\tthree"));
}

#[test]
fn messages_end_with_the_actual_request() {
    let messages = rewrite_messages("hello", "punctuate");
    assert_eq!(messages.first().unwrap().role, "system");
    assert_eq!(
        messages.last().unwrap().content,
        frame_request("hello", "punctuate")
    );
    assert_eq!(messages.len(), 8);
    assert_eq!(frame_request("a", "b"), "Text:\na\n\nInstruction: b");
}

#[test]
fn loopback_provider_accepts_no_key() {
    assert!(OpenAiCompatibleProvider::new(config(
        "http://127.0.0.1:1234/v1/chat/completions",
        "local",
        None
    ))
    .is_ok());
}

#[test]
fn remote_providers_need_a_key() {
    let remote = "https://api.example.com/v1/chat/completions";
    let error = OpenAiCompatibleProvider::new(config(remote, "m", None)).unwrap_err();
    assert_eq!(
        error.message(),
        "LLM provider configuration is invalid: a credential is required for non-loopback endpoints"
    );
    assert!(OpenAiCompatibleProvider::new(config(remote, "m", Some(""))).is_err());
    let provider = OpenAiCompatibleProvider::new(config(remote, "m", Some("k"))).unwrap();
    assert_eq!(provider.bearer(), "k");
    let local = OpenAiCompatibleProvider::new(config("http://[::1]:1/", "m", None)).unwrap();
    assert_eq!(local.bearer(), "local");
    assert!(OpenAiCompatibleProvider::new(config("http://localhost/", " ", None)).is_err());
    assert!(matches!(
        OpenAiCompatibleProvider::new(config("not an address", "m", Some("k"))),
        Err(LlmError::InvalidConfiguration(_))
    ));
}

#[test]
fn provider_checks_follow_the_parsed_endpoint() {
    let plain = config("x", "m", None);
    assert_eq!(check_provider(&plain, Ok(Some("localhost".into()))), Ok(()));
    assert!(check_provider(&plain, Ok(Some("example.com".into()))).is_err());
    assert!(check_provider(&plain, Ok(None)).is_err());
    assert_eq!(
        check_provider(&plain, Err("relative URL".into())),
        Err(LlmError::InvalidConfiguration("relative URL".into()))
    );
}

#[test]
fn replies_are_cleaned_or_refused() {
    assert_eq!(
        interpret_reply(ProviderReply::Choices(vec!["```\nhi\n```".into(), "no".into()])),
        Ok("hi".into())
    );
    assert_eq!(
        interpret_reply(ProviderReply::Choices(vec![])),
        Err(LlmError::EmptyResponse)
    );
    assert_eq!(
        interpret_reply(ProviderReply::Choices(vec![" \n ".into()])),
        Err(LlmError::EmptyResponse)
    );
    let http = interpret_reply(ProviderReply::Http { status: 503, body: "busy".into() });
    assert_eq!(
        http.unwrap_err().message(),
        "LLM provider returned HTTP 503: busy"
    );
    assert_eq!(
        interpret_reply(ProviderReply::Failed("timeout".into())).unwrap_err().message(),
        "LLM request failed: timeout"
    );
    assert!(is_success(204));
    assert!(!is_success(300));
    assert!(!is_success(199));
}

#[test]
fn fenced_one_liner_is_unwrapped() {
    assert_eq!(
        prepare_llm_insertion("```bash\necho safe\n```", true),
        LlmInsertion::Insert("echo safe".into())
    );
}

#[test]
fn multiline_llm_output_is_refused_only_at_terminals() {
    let text = "cd /tmp\necho hello";
    assert_eq!(
        prepare_llm_insertion(text, true),
        LlmInsertion::RefusedMultilineTerminal(text.into())
    );
    assert_eq!(
        prepare_llm_insertion(text, false),
        LlmInsertion::Insert(text.into())
    );
    assert_eq!(prepare_llm_insertion(" \r\n", true), LlmInsertion::Empty);
}
