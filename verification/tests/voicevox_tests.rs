use voicebot::voicevox::{
    check_result, nul_free, style_ids_in_metas, Json, JsonMember, ModelRegistry, ModelStep, VoicevoxError,
};

fn obj(members: Vec<(&str, Json)>) -> Json {
    Json::Object(members.into_iter().map(|(k, v)| JsonMember { key: k.to_string(), value: v }).collect())
}

fn speaker(ids: Vec<Option<u64>>) -> Json {
    obj(vec![
        ("name", Json::Str("s".to_string())),
        ("styles", Json::Array(ids.into_iter().map(|i| obj(vec![("id", Json::Number(i))])).collect())),
    ])
}

#[test]
fn errors_and_codes() {
    let e = VoicevoxError::from_message("boom".to_string());
    assert_eq!(e.code, None);
    assert_eq!(e.describe(), "boom");
    let e = VoicevoxError::from_code(7, "bad model".to_string());
    assert_eq!(e.code, Some(7));
    assert_eq!(e.describe(), "VOICEVOX error 7: bad model");
    let e = VoicevoxError::from_code(-3, "x".to_string());
    assert_eq!(e.describe(), "VOICEVOX error -3: x");
}

#[test]
fn result_codes() {
    assert!(check_result(0, |_| panic!("no message is looked up on success")).is_ok());
    let e = check_result(12, |c| format!("failed with {c}")).unwrap_err();
    assert_eq!(e.code, Some(12));
    assert_eq!(e.message, "failed with 12");
}

#[test]
fn style_ids_from_metas() {
    let metas = Json::Array(vec![
        speaker(vec![Some(2), Some(0)]),
        Json::Null,
        obj(vec![("styles", Json::Str("none".to_string()))]),
        speaker(vec![None, Some(8)]),
    ]);
    assert_eq!(style_ids_in_metas(&metas), vec![2, 0, 8]);
    assert_eq!(style_ids_in_metas(&obj(vec![])), Vec::<u64>::new());
}

#[test]
fn first_registration_wins() {
    let mut r: ModelRegistry<u32> = ModelRegistry::new();
    assert!(matches!(r.ensure_model_for_style(2, false), ModelStep::ScanDefaultDir));
    match r.ensure_model_for_style(2, true) {
        ModelStep::Fail(e) => assert_eq!(e.message, "no model found for style_id=2"),
        _ => panic!("expected a failure"),
    }
    r.register_styles(&Json::Array(vec![speaker(vec![Some(2), Some(3)])]), "a.vvm".to_string());
    r.register_styles(&Json::Array(vec![speaker(vec![Some(3), Some(4294967300)])]), "b.vvm".to_string());
    match r.ensure_model_for_style(3, false) {
        ModelStep::Load(p) => assert_eq!(p, "a.vvm"),
        _ => panic!("expected a load"),
    }
    // 4294967300 is style 4 once truncated to 32 bits.
    match r.ensure_model_for_style(4, true) {
        ModelStep::Load(p) => assert_eq!(p, "b.vvm"),
        _ => panic!("expected a load"),
    }
}

#[test]
fn loaded_models_lookup_and_unload() {
    let mut r: ModelRegistry<&'static str> = ModelRegistry::new();
    let a = [1u8; 16];
    let b = [2u8; 16];
    assert_eq!(r.loaded_id_for_path("a.vvm"), None);
    r.record_loaded(a, "handle-a", "a.vvm".to_string());
    r.record_loaded(b, "handle-b", "b.vvm".to_string());
    assert_eq!(r.loaded_id_for_path("a.vvm"), Some(a));
    assert_eq!(r.loaded_id_for_path("b.vvm"), Some(b));
    assert_eq!(r.index_of_id(&b).unwrap(), 1);
    assert_eq!(r.loaded_model(&a).unwrap().model, "handle-a");
    let missing = r.index_of_id(&[9u8; 16]).unwrap_err();
    assert_eq!(missing.code, None);
    assert_eq!(missing.message, "model_id is not loaded");
    let taken = r.take_loaded(0);
    assert_eq!(taken.model, "handle-a");
    assert_eq!(r.loaded_id_for_path("a.vvm"), None);
    assert_eq!(r.index_of_id(&b).unwrap(), 0);
}

#[test]
fn metas_text_registers_styles() {
    let mut r: ModelRegistry<u8> = ModelRegistry::new();
    let text = r#"[{"name":"a","styles":[{"name":"n","id":3},{"id":-1},{"id":7}]},{"styles":"x"}]"#;
    assert!(r.register_model_metas(text, "a.vvm".to_string()).is_ok());
    for id in [3u32, 7] {
        match r.ensure_model_for_style(id, true) {
            ModelStep::Load(p) => assert_eq!(p, "a.vvm"),
            _ => panic!("expected a load"),
        }
    }
    assert!(matches!(r.ensure_model_for_style(4294967295, true), ModelStep::Fail(_)));
}

#[test]
fn metas_text_that_is_no_json() {
    let mut r: ModelRegistry<u8> = ModelRegistry::new();
    let e = r.register_model_metas("[{", "a.vvm".to_string()).unwrap_err();
    assert_eq!(e.code, None);
    assert!(e.message.starts_with("failed to parse metas.json: "));
    assert!(e.message.len() > "failed to parse metas.json: ".len());
    assert!(matches!(r.ensure_model_for_style(3, false), ModelStep::ScanDefaultDir));
}

#[test]
fn nul_bytes_refused() {
    assert!(nul_free("voice.vvm", "model_path").is_ok());
    assert!(nul_free("", "text").is_ok());
    let e = nul_free("a\0b", "text").unwrap_err();
    assert_eq!(e.code, None);
    assert_eq!(e.message, "text contains NUL byte");
}
