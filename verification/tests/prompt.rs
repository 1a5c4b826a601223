use langchain_core::json::parse_json;
use langchain_core::messages::{BaseMessage, MessageType};
use langchain_core::prompt::{
    ChatPromptTemplate, FewShotPromptTemplate, FewShotPromptWithTemplates, ImagePromptTemplate,
    MessagesPlaceholder, PromptTemplate, StructuredPromptTemplate,
};
use std::collections::HashMap;

#[test]
fn test_messages_placeholder_optional_missing() {
    let placeholder = MessagesPlaceholder::new("history").with_optional(true);
    let kwargs = HashMap::new();
    let result = placeholder.format(&kwargs).unwrap();
    assert!(result.is_empty());
}

#[test]
fn test_messages_placeholder_required_missing() {
    let placeholder = MessagesPlaceholder::new("history");
    let kwargs = HashMap::new();
    let result = placeholder.format(&kwargs);
    assert!(result.is_err());
}

#[test]
fn test_chat_prompt_template_new() {
    let cpt = ChatPromptTemplate::new();
    assert!(cpt.messages.is_empty());
}

#[test]
fn test_chat_prompt_template_with_system_and_human() {
    let cpt = ChatPromptTemplate::new()
        .add_system("You are helpful")
        .add_human("Tell me about {topic}");
    assert_eq!(cpt.messages.len(), 2);
    let kwargs = HashMap::from([("topic".into(), "Rust".into())]);
    let messages = cpt.format_prompt(&kwargs).unwrap();
    assert_eq!(messages.len(), 2);
    assert!(matches!(messages[0].message_type, MessageType::System));
    assert!(matches!(messages[1].message_type, MessageType::Human));
    assert_eq!(messages[1].content, "Tell me about Rust");
}

#[test]
fn test_chat_prompt_template_with_ai() {
    let cpt = ChatPromptTemplate::new()
        .add_system("system")
        .add_human("human")
        .add_ai("ai");
    let kwargs = HashMap::new();
    let messages = cpt.format_prompt(&kwargs).unwrap();
    assert_eq!(messages.len(), 3);
    assert!(matches!(messages[2].message_type, MessageType::AI));
}

#[test]
fn test_chat_prompt_template_missing_variable() {
    let cpt = ChatPromptTemplate::new()
        .add_human("{unknown}");
    let kwargs = HashMap::new();
    let result = cpt.format_prompt(&kwargs);
    assert!(result.is_err());
}

#[test]
fn test_chat_prompt_template_clone() {
    let cpt = ChatPromptTemplate::new()
        .add_system("s")
        .add_human("{q}");
    let cloned = cpt.clone();
    assert_eq!(cloned.messages.len(), 2);
}

#[test]
fn test_messages_placeholder_missing_with_optional() {
    let placeholder = MessagesPlaceholder::new("history").with_optional(true);
    let kwargs = HashMap::new();
    let result = placeholder.format(&kwargs).unwrap();
    assert!(result.is_empty());
}

#[test]
fn test_few_shot_prompt_with_templates() {
    let example_prompt = ChatPromptTemplate::new()
        .add_human("{input}")
        .add_ai("{output}");
    let examples = vec![
        HashMap::from([
            ("input".to_string(), "hi".to_string()),
            ("output".to_string(), "hello".to_string()),
        ]),
        HashMap::from([
            ("input".to_string(), "bye".to_string()),
            ("output".to_string(), "goodbye".to_string()),
        ]),
    ];
    let few_shot = FewShotPromptWithTemplates::new(
        examples,
        example_prompt,
        "Now answer: {question}",
        "You are helpful.",
        vec!["question".to_string()],
    );
    let kwargs = HashMap::from([("question".to_string(), "How are you?".to_string())]);
    let messages = few_shot.format_prompt(&kwargs).unwrap();
    assert!(messages.len() >= 4);
    let first_system = &messages[0];
    assert_eq!(first_system.content, "You are helpful.");
    assert!(matches!(first_system.message_type, MessageType::System));
    let last = messages.last().unwrap();
    assert!(last.content.contains("How are you?"));
}

#[test]
fn test_prompt_template_default() {
    let pt = PromptTemplate::from_template("static text");
    assert!(pt.input_variables.is_empty());
    let kwargs = HashMap::new();
    let result = pt.format(&kwargs).unwrap();
    assert_eq!(result, "static text");
}

#[test]
fn test_prompt_template_no_braces() {
    let pt = PromptTemplate::from_template("Hello world");
    let kwargs = HashMap::new();
    let result = pt.format(&kwargs).unwrap();
    assert_eq!(result, "Hello world");
}

#[test]
fn test_image_prompt_template_defaults() {
    let template = PromptTemplate::from_template("A {subject} image");
    let ipt = ImagePromptTemplate::new(template);
    let kwargs = HashMap::from([("subject".into(), "cat".into())]);
    let result = ipt.format(&kwargs).unwrap();
    assert_eq!(result.prompt, "A cat image");
    assert_eq!(result.image_format, "url");
    assert!(result.size.is_none());
    assert!(result.quality.is_none());
}

#[test]
fn test_image_prompt_template() {
    let template = PromptTemplate::from_template("A {style} painting of {subject}");
    let ipt = ImagePromptTemplate::new(template)
        .with_format("base64")
        .with_size("512x512")
        .with_quality("hd");
    let kwargs = HashMap::from([
        ("style".to_string(), "realistic".to_string()),
        ("subject".to_string(), "mountains".to_string()),
    ]);
    let result = ipt.format(&kwargs).unwrap();
    assert_eq!(result.prompt, "A realistic painting of mountains");
    assert_eq!(result.image_format, "base64");
    assert_eq!(result.size.as_deref(), Some("512x512"));
    assert_eq!(result.quality.as_deref(), Some("hd"));
}

#[test]
fn test_prompt_template_with_partial_variables() {
    let mut partials = HashMap::new();
    partials.insert("name".into(), "Bob".into());
    let pt = PromptTemplate::from_template("Hello {name}")
        .with_partial(partials);
    let kwargs = HashMap::new();
    let result = pt.format(&kwargs).unwrap();
    assert_eq!(result, "Hello Bob");
}


#[test]
fn test_prompt_template_from_template() {
    let pt = PromptTemplate::from_template("Hello {name}, you are {age} years old");
    assert_eq!(pt.input_variables.len(), 2);
    assert!(pt.input_variables.contains(&"name".to_string()));
    assert!(pt.input_variables.contains(&"age".to_string()));
}

#[test]
fn test_prompt_template_format_single() {
    let pt = PromptTemplate::from_template("Hello {name}");
    let mut vars = HashMap::new();
    vars.insert("name".to_string(), "World".to_string());
    let result = pt.format(&vars).unwrap();
    assert_eq!(result, "Hello World");
}

#[test]
fn test_prompt_template_format_multiple() {
    let pt = PromptTemplate::from_template("{greeting}, {name}!");
    let mut vars = HashMap::new();
    vars.insert("greeting".to_string(), "Hello".to_string());
    vars.insert("name".to_string(), "Alice".to_string());
    let result = pt.format(&vars).unwrap();
    assert_eq!(result, "Hello, Alice!");
}

#[test]
fn test_prompt_template_format_missing_variable() {
    let pt = PromptTemplate::from_template("Hello {name}");
    let vars = HashMap::new();
    let result = pt.format(&vars);
    assert!(result.is_err());
}

#[test]
fn test_prompt_template_format_partial_variables() {
    let mut partials = HashMap::new();
    partials.insert("name".to_string(), "Bob".to_string());
    let pt = PromptTemplate::from_template("Hello {name}").with_partial(partials);
    let vars = HashMap::new();
    let result = pt.format(&vars).unwrap();
    assert_eq!(result, "Hello Bob");
}

#[test]
fn prompt_template_missing_variable_message() {
    let pt = PromptTemplate::from_template("A {x} and {y}");
    let vars = HashMap::from([("x".to_string(), "1".to_string())]);
    match pt.format(&vars) {
        Err(e) => assert_eq!(e.to_string(), "Prompt error: Missing variable: y"),
        Ok(_) => panic!("expected an error"),
    }
}

#[test]
fn prompt_template_repeated_variable_replaced_everywhere() {
    let pt = PromptTemplate::from_template("{a}-{a}-{b}");
    assert_eq!(pt.input_variables, vec!["a".to_string(), "a".to_string(), "b".to_string()]);
    let vars = HashMap::from([("a".to_string(), "x".to_string()), ("b".to_string(), "{a}".to_string())]);
    assert_eq!(pt.format(&vars).unwrap(), "x-x-{a}");
}

#[test]
fn prompt_template_validate_template() {
    let pt = PromptTemplate::from_template("{a} {b}");
    assert!(pt.validate_template().is_ok());
    let mut pt2 = pt.clone();
    pt2.input_variables = vec!["a".to_string()];
    assert!(pt2.validate_template().is_err());
}

#[test]
fn few_shot_prompt_template_format() {
    let example_prompt = PromptTemplate::from_template("Q: {q} A: {a}");
    let examples = vec![
        HashMap::from([("q".to_string(), "1+1".to_string()), ("a".to_string(), "2".to_string())]),
        HashMap::from([("q".to_string(), "2+2".to_string()), ("a".to_string(), "4".to_string())]),
    ];
    let fs = FewShotPromptTemplate::new(examples, example_prompt, "Q: {input}", "Answer:", vec!["input".to_string()])
        .with_example_separator("\n");
    let kwargs = HashMap::from([("input".to_string(), "3+3".to_string())]);
    assert_eq!(fs.format(&kwargs).unwrap(), "Answer:\nQ: 1+1 A: 2\nQ: 2+2 A: 4\nQ: 3+3");
}

#[test]
fn chat_prompt_template_with_placeholder_json() {
    let cpt = ChatPromptTemplate::new().add_system("s").add_placeholder("history").add_human("h");
    let kwargs = HashMap::from([(
        "history".to_string(),
        r#"[{"content": "prev", "message_type": "Human"}, {"content": "ok", "message_type": "AI"}]"#.to_string(),
    )]);
    let messages = cpt.format_prompt(&kwargs).unwrap();
    assert_eq!(messages.len(), 4);
    assert_eq!(messages[1].content, "prev");
    assert!(matches!(messages[2].message_type, MessageType::AI));
}

#[test]
fn messages_placeholder_decodes_and_rejects() {
    let placeholder = MessagesPlaceholder::new("history");
    let good = HashMap::from([("history".to_string(), r#"[{"content": "hi", "message_type": "System"}]"#.to_string())]);
    let msgs = placeholder.format(&good).unwrap();
    assert_eq!(msgs.len(), 1);
    assert!(matches!(msgs[0].message_type, MessageType::System));
    let bad = HashMap::from([("history".to_string(), "not json".to_string())]);
    assert!(placeholder.format(&bad).is_err());
    let missing = placeholder.format(&HashMap::new());
    match missing {
        Err(e) => assert_eq!(e.to_string(), "Prompt error: Missing required variable: history"),
        Ok(_) => panic!("expected an error"),
    }
    let _unused = BaseMessage::new("x", MessageType::Human);
}

#[test]
fn test_messages_placeholder() {
    let placeholder = MessagesPlaceholder::new("history");
    let msgs = vec![BaseMessage::new("Hello", MessageType::Human), BaseMessage::new("Hi there", MessageType::AI)];
    let serialized = r#"[{"content":"Hello","message_type":"Human"},{"content":"Hi there","message_type":"AI"}]"#.to_string();
    let kwargs = HashMap::from([("history".to_string(), serialized)]);
    let result = placeholder.format(&kwargs).unwrap();
    assert_eq!(result.len(), 2);
    assert_eq!(result[0].content, msgs[0].content);
    assert_eq!(result[0].content, "Hello");
    assert_eq!(result[1].content, "Hi there");
}

#[test]
fn test_chat_prompt_template_with_placeholder() {
    let cpt = ChatPromptTemplate::new().add_system("system").add_placeholder("history").add_human("human");
    let mut kwargs = HashMap::new();
    let history = r#"[{"content":"prev human","message_type":"Human"},{"content":"prev ai","message_type":"AI"}]"#;
    kwargs.insert("history".to_string(), history.to_string());
    let messages = cpt.format_prompt(&kwargs).unwrap();
    assert_eq!(messages.len(), 4);
}

#[test]
fn test_structured_prompt_template() {
    let schema = parse_json(r#"{"type": "object", "required": ["topic"], "properties": {"topic": {"type": "string"}}}"#).unwrap();
    let template = PromptTemplate::from_template("Tell me about {topic}");
    let spt = StructuredPromptTemplate::new(schema, template);
    let kwargs = HashMap::from([("topic".to_string(), "Rust".to_string())]);
    let result = spt.format(&kwargs).unwrap();
    assert_eq!(result, "Tell me about Rust");
}

#[test]
fn test_structured_prompt_template_missing_required() {
    let schema = parse_json(r#"{"type": "object", "required": ["topic"], "properties": {"topic": {"type": "string"}}}"#).unwrap();
    let template = PromptTemplate::from_template("Tell me about {topic}");
    let spt = StructuredPromptTemplate::new(schema, template);
    let kwargs = HashMap::new();
    let result = spt.format(&kwargs);
    assert!(result.is_err());
}

#[test]
fn structured_prompt_names_first_missing_key() {
    let schema = parse_json(r#"{"required": ["a", 3, "b"]}"#).unwrap();
    let spt = StructuredPromptTemplate::new(schema, PromptTemplate::from_template("{a}{b}"));
    let kwargs = HashMap::from([("a".to_string(), "x".to_string())]);
    match spt.format(&kwargs) {
        Err(e) => assert_eq!(e.to_string(), "Prompt error: Missing required key: b"),
        Ok(_) => panic!("expected an error"),
    }
    assert!(spt.get_schema().get("required").is_some());
}
