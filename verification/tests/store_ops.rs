use dictation_core::error::CoreError;
use dictation_core::store::{
    conclude_download, discover_store, models_dir_under, progress_event, store_for_data_dir,
    DownloadAction, ModelStore,
};

#[test]
fn model_path_is_under_the_models_dir() {
    let store = ModelStore::new(String::from("/data/models"));
    assert_eq!(store.model_path(), "/data/models/ggml-base.en.bin");
    assert_eq!(store.models_dir().as_str(), "/data/models");
}

#[test]
fn models_dir_sits_under_the_data_dir() {
    assert_eq!(
        models_dir_under(&String::from("/home/u/.local/share")),
        "/home/u/.local/share/voice-dictation-widget/models"
    );
}

#[test]
fn resolve_path_requires_the_file() {
    let store = ModelStore::new(String::from("/m"));
    assert_eq!(store.resolve_path(true).unwrap(), "/m/ggml-base.en.bin");
    assert!(matches!(store.resolve_path(false), Err(CoreError::NotDownloaded)));
    assert_eq!(store.resolve_path(false).unwrap_err().message(), "Model not downloaded");
}

#[test]
fn existing_file_skips_the_network() {
    let store = ModelStore::new(String::from("/m"));
    let mut network_calls: u32 = 0;
    let mut fetch = |_url: &str| -> Vec<u8> {
        network_calls += 1;
        vec![]
    };
    let path = match store.download_action(true) {
        DownloadAction::UseExisting { path } => path,
        DownloadAction::Fetch { url, dest } => {
            let _body = fetch(&url);
            dest
        },
    };
    assert_eq!(network_calls, 0);
    assert_eq!(path, "/m/ggml-base.en.bin");
}

#[test]
fn absent_file_fetches_the_fixed_url() {
    let store = ModelStore::new(String::from("/m"));
    let mut network_calls: u32 = 0;
    let mut fetch = |url: &str| -> Vec<u8> {
        network_calls += 1;
        assert_eq!(
            url,
            "https://huggingface.co/ggerganov/whisper.cpp/resolve/main/ggml-base.en.bin"
        );
        vec![]
    };
    match store.download_action(false) {
        DownloadAction::UseExisting { .. } => panic!("an absent file must be fetched"),
        DownloadAction::Fetch { url, dest } => {
            let _body = fetch(&url);
            assert_eq!(dest, "/m/ggml-base.en.bin");
        },
    }
    assert_eq!(network_calls, 1);
}

#[test]
fn progress_percent_is_the_truncated_ratio() {
    let p = progress_event(50, 200);
    assert_eq!((p.downloaded, p.total, p.percent), (50, 200, 25));
    assert_eq!(progress_event(1, 3).percent, 33);
    assert_eq!(progress_event(0, 100).percent, 0);
    assert_eq!(progress_event(100, 100).percent, 100);
    // More bytes than the total promised: the ratio is reported as is.
    assert_eq!(progress_event(150, 100).percent, 150);
    // An unknown total reports completion.
    assert_eq!(progress_event(12345, 0).percent, 100);
    // The ratio saturates at the widest value the field holds.
    assert_eq!(progress_event(u64::MAX, 1).percent, u32::MAX);
}

#[test]
fn store_follows_the_reported_data_dir() {
    assert!(store_for_data_dir(None).is_none());
    let store = store_for_data_dir(Some(String::from("/home/u/.local/share"))).unwrap();
    assert_eq!(
        store.models_dir().as_str(),
        "/home/u/.local/share/voice-dictation-widget/models"
    );
}

#[test]
fn concluded_download_hands_back_path_or_cause() {
    assert_eq!(
        conclude_download(String::from("/m/ggml-base.en.bin"), Ok(())).unwrap(),
        "/m/ggml-base.en.bin"
    );
    match conclude_download(String::from("/m/ggml-base.en.bin"), Err(String::from("timed out"))) {
        Err(CoreError::DownloadFailed { cause }) => assert_eq!(cause, "timed out"),
        _ => panic!("a failed fetch must surface as a download error"),
    }
}

#[test]
fn discovered_store_sits_under_the_local_data_dir() {
    if let Some(store) = discover_store() {
        assert!(store.models_dir().ends_with("/voice-dictation-widget/models"));
    }
}
