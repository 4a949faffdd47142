use cmux_preview_proxy::acp_client::AcpProvider;
use cmux_preview_proxy::rest::{
    backend_authorization, backend_url, conversation_not_found, create_args, interpret_reply,
    websocket_url, ContentBlock, CreateConversationRequest, IsolationMode, ProviderId,
};
use cmux_preview_proxy::templates::{
    file_extension, is_metadata_file, join_path, new_session_id, session_id_from,
    sort_newest_first, template_id_from,
    TemplateMetadata, TemplateStore, TemplateSummary,
};

#[test]
fn providers_are_listed_in_palette_order() {
    assert_eq!(
        AcpProvider::all(),
        vec![
            AcpProvider::Codex,
            AcpProvider::Opencode,
            AcpProvider::Claude,
            AcpProvider::Gemini
        ]
    );
    assert_eq!(AcpProvider::default(), AcpProvider::Codex);
}

#[test]
fn isolation_modes_go_by_their_names() {
    assert_eq!(IsolationMode::NoIsolation.name(), "none");
    assert_eq!(IsolationMode::SharedNamespace.name(), "shared_namespace");
    assert_eq!(IsolationMode::DedicatedNamespace.name(), "dedicated_namespace");
}

#[test]
fn create_args_hand_the_request_on() {
    let request = CreateConversationRequest {
        team_id: "team".to_string(),
        provider_id: ProviderId::Codex,
        cwd: "/workspace".to_string(),
        isolation_mode: Some(IsolationMode::SharedNamespace),
        namespace_id: Some("ns".to_string()),
        sandbox_instance_id: None,
    };
    let args = create_args(&request, "session".to_string(), "codex".to_string());
    assert_eq!(args.team_id, "team");
    assert_eq!(args.session_id, "session");
    assert_eq!(args.provider_id, "codex");
    assert_eq!(args.cwd, "/workspace");
    assert_eq!(args.isolation_mode.as_deref(), Some("shared_namespace"));
    assert_eq!(args.namespace_id.as_deref(), Some("ns"));
    assert_eq!(args.sandbox_instance_id, None);
}

#[test]
fn content_blocks_have_tags() {
    assert_eq!(ContentBlock::Text { text: "t".to_string() }.tag(), "text");
    assert_eq!(ContentBlock::Image { data: None, mime_type: None }.tag(), "image");
    assert_eq!(
        ContentBlock::ResourceLink { uri: "u".to_string(), name: None, description: None }.tag(),
        "resource_link"
    );
}

#[test]
fn backend_addresses() {
    assert_eq!(websocket_url(Some("example.com:8080")), "ws://example.com:8080/api/acp");
    assert_eq!(websocket_url(None), "ws://localhost/api/acp");
    assert_eq!(backend_url("https://x.convex.cloud", "mutation"), "https://x.convex.cloud/api/mutation");
    assert_eq!(backend_url("https://x.convex.cloud", "query"), "https://x.convex.cloud/api/query");
    assert_eq!(backend_authorization("key"), "Convex key");
}

#[test]
fn replies_of_the_backend() {
    assert_eq!(interpret_reply("success", Some(5), None).ok(), Some(5));
    assert_eq!(interpret_reply("success", Some(5), Some("ignored".to_string())).ok(), Some(5));

    let failure = interpret_reply::<i32>("success", None, None).err().unwrap();
    assert_eq!(failure.status, 500);
    assert_eq!(failure.body.error, "No value in response");
    assert_eq!(failure.body.code.as_deref(), Some("NO_VALUE"));

    let failure = interpret_reply("error", Some(5), Some("boom".to_string())).err().unwrap();
    assert_eq!(failure.status, 400);
    assert_eq!(failure.body.error, "boom");
    assert_eq!(failure.body.code.as_deref(), Some("CONVEX_ERROR"));

    let failure = interpret_reply::<i32>("Success", None, None).err().unwrap();
    assert_eq!(failure.status, 400);
    assert_eq!(failure.body.error, "Unknown error");

    let failure = conversation_not_found();
    assert_eq!(failure.status, 404);
    assert_eq!(failure.body.error, "Conversation not found");
    assert_eq!(failure.body.code.as_deref(), Some("NOT_FOUND"));
}

#[test]
fn template_names_on_disk() {
    let store = TemplateStore::new("/var/templates".to_string());
    assert_eq!(store.templates_dir(), "/var/templates");
    assert_eq!(store.template_archive_path("tpl_1234abcd"), "/var/templates/tpl_1234abcd.tar.gz");
    assert_eq!(store.template_metadata_path("tpl_1234abcd"), "/var/templates/tpl_1234abcd.json");
    let store = TemplateStore::new("templates/".to_string());
    assert_eq!(store.template_archive_path("a"), "templates/a.tar.gz");
    let store = TemplateStore::new(String::new());
    assert_eq!(store.template_metadata_path("a"), "a.json");
    assert_eq!(join_path("/var", "/etc/a"), "/etc/a");
    assert_eq!(join_path("/", "a"), "/a");
    assert_eq!(join_path("a", ""), "a/");
    for (dir, name) in [("/var/t", "x.json"), ("t/", "x"), ("", "x"), ("a", "/b"), ("a", ""), ("", "")] {
        let expected = std::path::Path::new(dir).join(name);
        assert_eq!(join_path(dir, name), expected.to_string_lossy(), "{dir} {name}");
    }
    assert_eq!(template_id_from("0123456789abcdef"), "tpl_01234567");
    assert_eq!(template_id_from("01234567"), "tpl_01234567");
}

#[test]
fn generated_identifiers() {
    let id = TemplateStore::generate_id().unwrap();
    assert!(id.starts_with("tpl_"));
    assert_eq!(id.len(), 12);
    assert!(id[4..].chars().all(|c| c.is_ascii_hexdigit()));
    assert!(id[4..].chars().all(|c| !c.is_ascii_uppercase()));
    let session = new_session_id().unwrap();
    assert_eq!(session.len(), 36);
    for (i, c) in session.chars().enumerate() {
        if i == 8 || i == 13 || i == 18 || i == 23 {
            assert_eq!(c, '-');
        } else {
            assert!(c.is_ascii_digit() || ('a'..='f').contains(&c));
        }
    }
    assert_eq!(&session[14..15], "4");
    assert!(["8", "9", "a", "b"].contains(&&session[19..20]));
    assert_ne!(session, new_session_id().unwrap());
}

#[test]
fn identifiers_spell_their_bytes() {
    let bytes: Vec<u8> = vec![70, 235, 208, 238, 14, 109, 67, 201, 185, 13, 204, 195, 90, 145, 63, 62];
    assert_eq!(session_id_from(&bytes), "46ebd0ee-0e6d-43c9-b90d-ccc35a913f3e");
    assert_eq!(session_id_from(&vec![0u8; 16]), "00000000-0000-4000-8000-000000000000");
    assert_eq!(session_id_from(&vec![255u8; 16]), "ffffffff-ffff-4fff-bfff-ffffffffffff");
    let counted: Vec<u8> = (0u8..16).collect();
    assert_eq!(session_id_from(&counted), "00010203-0405-4607-8809-0a0b0c0d0e0f");
}

#[test]
fn extensions_of_file_names() {
    assert_eq!(file_extension("a.json").as_deref(), Some("json"));
    assert_eq!(file_extension("a.tar.gz").as_deref(), Some("gz"));
    assert_eq!(file_extension("a.").as_deref(), Some(""));
    assert_eq!(file_extension("..json").as_deref(), Some("json"));
    assert_eq!(file_extension(".json"), None);
    assert_eq!(file_extension("json"), None);
    assert_eq!(file_extension(""), None);
    assert!(is_metadata_file("tpl_1.json"));
    assert!(!is_metadata_file("tpl_1.tar.gz"));
    assert!(!is_metadata_file(".json"));
    assert!(!is_metadata_file("tpl_1.JSON"));
    assert!(!is_metadata_file("tpl_1.json "));
}

fn summary(id: &str, created_at: i64) -> TemplateSummary {
    TemplateSummary {
        id: id.to_string(),
        name: id.to_string(),
        description: None,
        size_bytes: 1,
        created_at,
    }
}

#[test]
fn listing_is_newest_first_and_stable() {
    let sorted = sort_newest_first(vec![
        summary("a", 5),
        summary("b", 9),
        summary("c", 5),
        summary("d", -1),
        summary("e", 9),
    ]);
    let ids: Vec<&str> = sorted.iter().map(|s| s.id.as_str()).collect();
    assert_eq!(ids, vec!["b", "e", "a", "c", "d"]);
    assert!(sort_newest_first(vec![]).is_empty());
}

#[test]
fn metadata_becomes_a_summary() {
    let meta = TemplateMetadata {
        id: "tpl_1".to_string(),
        name: "old".to_string(),
        description: Some("d".to_string()),
        size_bytes: 10,
        created_at: 3,
    };
    let renamed = meta.clone().renamed("new");
    assert_eq!(renamed.name, "new");
    assert_eq!(renamed.id, "tpl_1");
    let s = meta.into_summary();
    assert_eq!(
        (s.id.as_str(), s.name.as_str(), s.description.as_deref(), s.size_bytes, s.created_at),
        ("tpl_1", "old", Some("d"), 10, 3)
    );
}
