use echo::models::{model_catalog, model_download_url, model_file_name, model_path};

#[test]
fn catalog_lists_four_models_in_order() {
    let models = model_catalog();
    let ids: Vec<&str> = models.iter().map(|m| m.id.as_str()).collect();
    assert_eq!(ids, vec!["base.en", "small.en", "medium.en", "large-v3-turbo"]);
    assert_eq!(models[0].name, "Base English");
    assert_eq!(models[1].size, "466 MB");
    assert_eq!(models[2].speed, "Slow");
    assert_eq!(models[3].accuracy, "Best");
    assert_eq!(models[3].name, "Large V3 Turbo");
    assert_eq!(models[3].size, "1.6 GB");
}

#[test]
fn download_urls_of_catalog_models() {
    assert_eq!(
        model_download_url("base.en").unwrap(),
        "https://huggingface.co/ggerganov/whisper.cpp/resolve/main/ggml-base.en.bin"
    );
    assert_eq!(
        model_download_url("small.en").unwrap(),
        "https://huggingface.co/ggerganov/whisper.cpp/resolve/main/ggml-small.en.bin"
    );
    assert_eq!(
        model_download_url("medium.en").unwrap(),
        "https://huggingface.co/ggerganov/whisper.cpp/resolve/main/ggml-medium.en.bin"
    );
    assert_eq!(
        model_download_url("large-v3-turbo").unwrap(),
        "https://huggingface.co/ggerganov/whisper.cpp/resolve/main/ggml-large-v3-turbo.bin"
    );
}

#[test]
fn unknown_model_cannot_be_downloaded() {
    assert_eq!(model_download_url("tiny.en").unwrap_err(), "Unknown model");
    assert_eq!(model_download_url("").unwrap_err(), "Unknown model");
    assert_eq!(model_download_url("base.en ").unwrap_err(), "Unknown model");
}

#[test]
fn every_catalog_model_downloads_to_its_model_path() {
    for m in model_catalog() {
        let url = model_download_url(&m.id).unwrap();
        let name = model_file_name(&m.id);
        assert!(url.ends_with(&name));
        assert_eq!(model_path("C:\\Echo", '\\', &m.id), format!("C:\\Echo\\models\\{}", name));
        assert_eq!(model_path("/opt/echo", '/', &m.id), format!("/opt/echo/models/{}", name));
    }
}
