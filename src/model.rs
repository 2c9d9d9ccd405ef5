use vstd::prelude::*;
use vstd::string::*;

verus! {

/// The settings file, in the scribr home directory and in the gist.
pub const SCRIBR_CONFIG_FILE_NAME: &'static str = "scribr_config.yaml";

/// The notebook that a fresh set of settings points at.
pub const SCRIBR_DEFAULT_NOTEBOOK_FILE_NAME: &'static str = "notes.txt";

/// The remote side of the settings. Present but without an id, remote sync is
/// enabled but not linked to a gist yet.
#[derive(Clone, Debug)]
pub struct RemoteSettings {
    pub gist_id: Option<String>,
}

/// Local settings, read once at start.
#[derive(Clone, Debug)]
pub struct Settings {
    pub default_notebook: String,
    pub verbosity: u8,
    pub no_magic_commands: bool,
    pub remote: Option<RemoteSettings>,
}

impl Default for Settings {
    fn default() -> (r: Settings)
        ensures
            r.default_notebook@ == SCRIBR_DEFAULT_NOTEBOOK_FILE_NAME@,
            r.verbosity == 0,
            !r.no_magic_commands,
            r.remote is None,
    {
        Settings {
            default_notebook: String::from_str(SCRIBR_DEFAULT_NOTEBOOK_FILE_NAME),
            verbosity: 0,
            no_magic_commands: false,
            remote: None,
        }
    }
}

impl Settings {
    /// The default settings, linked to the gist `gist_id`.
    pub fn new_with_gist_id(gist_id: &str) -> (r: Settings)
        ensures
            r.default_notebook@ == SCRIBR_DEFAULT_NOTEBOOK_FILE_NAME@,
            r.verbosity == 0,
            !r.no_magic_commands,
            r.remote matches Some(remote) && remote.gist_id matches Some(id) && id@ == gist_id@,
    {
        Settings {
            default_notebook: String::from_str(SCRIBR_DEFAULT_NOTEBOOK_FILE_NAME),
            verbosity: 0,
            no_magic_commands: false,
            remote: Some(RemoteSettings { gist_id: Some(String::from_str(gist_id)) }),
        }
    }

    /// The path of the notebook these settings point at.
    pub fn get_default_notebook_path(&self) -> (r: String)
        ensures
            r@ == self.default_notebook@,
    {
        self.default_notebook.clone()
    }
}

/// Body of the request that opens a device-code session.
#[derive(Clone, Debug)]
pub struct GhDeviceCodeRequest {
    pub client_id: String,
    pub scope: String,
}

/// The provider's answer that opens a device-code session.
#[derive(Clone, Debug)]
pub struct GhDeviceCodeResponse {
    pub device_code: String,
    pub user_code: String,
    pub verification_uri: String,
    pub expires_in: u64,
    pub interval: u64,
}

/// Body of the request that polls for an access token.
#[derive(Clone, Debug)]
pub struct GhPollRequest {
    pub client_id: String,
    pub device_code: String,
    pub grant_type: String,
}

/// The provider's answer once the user has authorised the device.
#[derive(Clone, Debug)]
pub struct GhAccessResponse {
    pub access_token: String,
    pub token_type: String,
    pub scope: String,
}

/// The account that owns a gist.
#[derive(Clone, Debug)]
pub struct Owner {
    pub login: String,
    pub id: i64,
    pub node_id: String,
    pub avatar_url: String,
    pub gravatar_id: String,
    pub url: String,
    pub html_url: String,
    pub followers_url: String,
    pub following_url: String,
    pub gists_url: String,
    pub starred_url: String,
    pub subscriptions_url: String,
    pub organizations_url: String,
    pub repos_url: String,
    pub events_url: String,
    pub received_events_url: String,
    pub owner_type: String,
    pub site_admin: bool,
}

/// What a gist lists of one of its files: where its content can be fetched.
#[derive(Clone, Debug)]
pub struct FileData {
    pub filename: String,
    pub file_type: String,
    pub language: String,
    pub raw_url: String,
    pub size: i64,
}

/// The content of one file sent to a gist.
#[derive(Clone, Debug)]
pub struct File {
    pub content: String,
}

impl From<String> for File {
    fn from(value: String) -> (r: File)
        ensures
            r.content == value,
    {
        File { content: value }
    }
}

impl vstd::std_specs::convert::FromSpecImpl<String> for File {
    open spec fn obeys_from_spec() -> bool {
        true
    }

    open spec fn from_spec(v: String) -> File {
        File { content: v }
    }
}

/// File name and content of each file sent to a gist.
pub type GhFiles = Vec<(String, File)>;

/// File name and listing of each file of a gist.
pub type GhFilesData = Vec<(String, FileData)>;

/// The names and contents of a set of files.
pub open spec fn files_view(files: Seq<(String, File)>) -> Seq<(Seq<char>, Seq<char>)> {
    files.map_values(|f: (String, File)| (f.0@, f.1.content@))
}

/// A gist as the provider describes it.
#[derive(Clone, Debug)]
pub struct GhGistResponse {
    pub url: String,
    pub forks_url: String,
    pub commits_url: String,
    pub id: String,
    pub node_id: String,
    pub git_pull_url: String,
    pub git_push_url: String,
    pub html_url: String,
    pub files: GhFilesData,
    pub public: bool,
    pub created_at: String,
    pub updated_at: String,
    pub description: String,
    pub comments: i64,
    pub user: Option<String>,
    pub comments_url: String,
    pub owner: Owner,
    pub truncated: bool,
}

/// Body of the requests that create or update a gist.
#[derive(Clone, Debug)]
pub struct GhGistCreateRequest {
    pub description: Option<String>,
    pub public: Option<bool>,
    pub files: GhFiles,
}

} // verus!
