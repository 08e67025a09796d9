use vstd::prelude::*;
use crate::error::CoreError;

verus! {

/// Canonical filename of the acoustic model.
pub open spec fn model_file_name() -> Seq<char> {
    "ggml-base.en.bin"@
}

/// Fixed source URL the model is fetched from.
pub open spec fn model_source_url() -> Seq<char> {
    "https://huggingface.co/ggerganov/whisper.cpp/resolve/main/ggml-base.en.bin"@
}

/// Relative location of the model storage directory under the
/// per-application local data directory.
pub open spec fn models_subdir() -> Seq<char> {
    "/voice-dictation-widget/models"@
}

/// What the caller must do to obtain the model file: hand back the path
/// that already exists, or fetch the fixed URL and write it to the
/// destination path.
pub enum DownloadAction {
    /// The model file is already on disk; no network call is made.
    UseExisting { path: String },
    /// The model file is absent; fetch `url` and write the body to `dest`.
    Fetch { url: String, dest: String },
}

/// One download progress notification: bytes written so far, total
/// expected bytes (0 when the server did not say), and a percentage.
pub struct DownloadProgress {
    pub downloaded: u64,
    pub total: u64,
    pub percent: u32,
}

/// Percentage of `total` covered by `downloaded`: the truncated quotient
/// `downloaded * 100 / total` — above 100 when more arrived than the
/// total promised — saturated at the widest value the field holds; 100
/// when the total is unknown (0).
pub open spec fn percent_spec(downloaded: u64, total: u64) -> int {
    if total == 0 {
        100
    } else if (downloaded * 100) / (total as int) > u32::MAX {
        u32::MAX as int
    } else {
        (downloaded * 100) / (total as int)
    }
}

/// Build the progress notification for one write of `downloaded` bytes
/// out of `total`.
pub fn progress_event(downloaded: u64, total: u64) -> (p: DownloadProgress)
    ensures
        p.downloaded == downloaded,
        p.total == total,
        p.percent == percent_spec(downloaded, total),
{
    let percent: u32 = if total == 0 {
        100
    } else {
        let quotient: u128 = (downloaded as u128 * 100) / (total as u128);
        if quotient > u32::MAX as u128 {
            u32::MAX
        } else {
            quotient as u32
        }
    };
    DownloadProgress { downloaded, total, percent }
}

/// Resolves where the acoustic model lives on disk and decides when it
/// must be fetched.  The directory is chosen by the application (the
/// per-application local data directory plus [`models_subdir`]); every
/// decision over it is made here.
pub struct ModelStore {
    models_dir: String,
}

impl ModelStore {
    /// The model storage directory this store resolves against.
    pub closed spec fn dir(self) -> Seq<char> {
        self.models_dir@
    }

    /// Expected on-disk path of the model file.
    pub open spec fn model_path_spec(self) -> Seq<char> {
        self.dir() + "/"@ + model_file_name()
    }

    /// A store rooted at `models_dir`.
    pub fn new(models_dir: String) -> (s: Self)
        ensures
            s.dir() == models_dir@,
    {
        ModelStore { models_dir }
    }

    /// The model storage directory, for the caller to create lazily.
    pub fn models_dir(&self) -> (d: &String)
        ensures
            d@ == self.dir(),
    {
        &self.models_dir
    }

    /// Expected on-disk path of the model file.
    pub fn model_path(&self) -> (p: String)
        ensures
            p@ == self.model_path_spec(),
    {
        let p = self.models_dir.clone().concat("/").concat("ggml-base.en.bin");
        proof {
            assert(p@ =~= self.model_path_spec());
        }
        p
    }

    /// The fixed URL the model is fetched from.
    pub fn model_url(&self) -> (u: String)
        ensures
            u@ == model_source_url(),
    {
        String::from_str("https://huggingface.co/ggerganov/whisper.cpp/resolve/main/ggml-base.en.bin")
    }

    /// The expected path, but only when the file is already there;
    /// `file_exists` reports whether it is.
    pub fn resolve_path(&self, file_exists: bool) -> (r: Result<String, CoreError>)
        ensures
            file_exists ==> (r matches Ok(p) && p@ == self.model_path_spec()),
            !file_exists ==> r == Err::<String, CoreError>(CoreError::NotDownloaded),
    {
        if file_exists {
            Ok(self.model_path())
        } else {
            Err(CoreError::NotDownloaded)
        }
    }

    /// Decide what a download must do: when the model file already
    /// exists its path is returned as is, and no fetch takes place;
    /// otherwise the fixed URL is fetched into the expected path.
    pub fn download_action(&self, file_exists: bool) -> (a: DownloadAction)
        ensures
            file_exists ==> (a matches DownloadAction::UseExisting { path } && path@
                == self.model_path_spec()),
            !file_exists ==> (a matches DownloadAction::Fetch { url, dest } && url@
                == model_source_url() && dest@ == self.model_path_spec()),
    {
        if file_exists {
            DownloadAction::UseExisting { path: self.model_path() }
        } else {
            DownloadAction::Fetch { url: self.model_url(), dest: self.model_path() }
        }
    }
}

/// Relies on dirs::data_local_dir: the platform's per-user local data
/// directory, read from the environment; nothing can be promised of the
/// returned path.
#[verifier::external_body]
fn local_data_dir() -> (r: Option<String>)
{
    dirs::data_local_dir().map(|p| p.to_string_lossy().to_string())
}

/// The model storage directory under a given data directory.
pub fn models_dir_under(data_dir: &String) -> (d: String)
    ensures
        d@ == data_dir@ + models_subdir(),
{
    data_dir.clone().concat("/voice-dictation-widget/models")
}

/// The store a reported data directory yields: one rooted at the models
/// subdirectory under it, or `None` where the platform reported none.
pub fn store_for_data_dir(data_dir: Option<String>) -> (r: Option<ModelStore>)
    ensures
        data_dir is None ==> r is None,
        data_dir matches Some(d) ==> (r matches Some(s) && s.dir() == d@ + models_subdir()),
{
    match data_dir {
        Some(d) => {
            let dir = models_dir_under(&d);
            Some(ModelStore::new(dir))
        },
        None => None,
    }
}

/// A store rooted under the platform's local data directory, or `None`
/// where the platform reports no such directory.
pub fn discover_store() -> (r: Option<ModelStore>)
    ensures
        r matches Some(s) ==> exists|base: Seq<char>| s.dir() == base + models_subdir(),
{
    let data_dir = local_data_dir();
    let ghost dd = data_dir;
    let r = store_for_data_dir(data_dir);
    proof {
        match dd {
            Some(d) => {
                assert(r matches Some(s) && s.dir() == d@ + models_subdir());
            },
            None => {},
        }
    }
    r
}

/// Conclude one fetch: the destination path when the fetch-and-write
/// succeeded, the cause as a download error otherwise.
pub fn conclude_download(dest: String, outcome: Result<(), String>) -> (r: Result<
    String,
    CoreError,
>)
    ensures
        outcome is Ok ==> (r matches Ok(p) && p@ == dest@),
        outcome matches Err(c) ==> (r matches Err(e) && e matches CoreError::DownloadFailed {
            cause,
        } && cause == c),
{
    match outcome {
        Ok(()) => Ok(dest),
        Err(cause) => Err(CoreError::DownloadFailed { cause }),
    }
}

} // verus!
