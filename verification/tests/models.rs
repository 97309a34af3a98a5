use prompt_context::models::{
    check_model, is_listed, server_address, LOCAL_MODELS, REMOTE_MODELS, REMOTE_SERVER,
};

#[test]
fn test_check_model_local() {
    assert!(check_model("qwen3-vl:235b-cloud", true));
    assert!(check_model("deepseek-r1", true));
    assert!(check_model("functiongemma", true));
    assert!(!check_model("qwen3:14b", true));
    assert!(!check_model("", true));
    assert!(!check_model("LLAVA", true));
}

#[test]
fn test_check_model_remote() {
    assert!(check_model("qwen3:14b", false));
    assert!(check_model("llava-llama3:latest", false));
    assert!(check_model("functiongemma", false));
    assert!(!check_model("deepseek-r1", false));
    assert!(!check_model("qwen3-vl:235b-cloud", false));
    assert!(!check_model("llava ", false));
}

#[test]
fn test_every_listed_model_is_accepted() {
    for model in LOCAL_MODELS {
        assert!(check_model(model, true));
    }
    for model in REMOTE_MODELS {
        assert!(check_model(model, false));
    }
    assert_eq!(LOCAL_MODELS.len(), 6);
    assert_eq!(REMOTE_MODELS.len(), 10);
}

#[test]
fn test_is_listed() {
    assert!(is_listed(&["a", "b"], "b"));
    assert!(!is_listed(&["a", "b"], "c"));
    assert!(!is_listed(&[], "a"));
}

#[test]
fn test_server_address() {
    assert_eq!(server_address(true), None);
    assert_eq!(server_address(false), Some("http://localhost:8050"));
    assert_eq!(REMOTE_SERVER, "http://localhost:8050");
}
