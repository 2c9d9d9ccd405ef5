use vstd::prelude::*;
use vstd::string::*;
use crate::github::{
    Method, WebRequest, GISTS_URL, distinct_names, first_config_gist, gh_create_scribr_gist,
    gh_fetch_scribr_gist, gh_push_gist_files, gh_search_existing_scribr_gist, gist_url, is_gist_request,
    is_get, opt_view,
};
use crate::model::{File, GhFiles, GhGistResponse, Settings, SCRIBR_CONFIG_FILE_NAME, files_view};

verus! {

/// The directory, under the user's home, that holds the notebook and the
/// settings file.
pub const SCRIBR_DIR_NAME: &'static str = ".scribr";

/// Why a sync command stops.
#[derive(Clone, Copy, Debug, PartialEq, Eq, Structural)]
pub enum SyncError {
    /// The settings name no gist: sync was never set up.
    NotLinked,
}

/// What `restore` does with one pulled file.
#[derive(Clone, Copy, Debug, PartialEq, Eq, Structural)]
pub enum RestoreAction {
    /// Write the remote content over the local file.
    Overwrite,
    /// Leave the local file as it is: it exists and `force` was not given.
    KeepExisting,
    /// Leave the local settings file as it is: it exists and neither `force`
    /// nor `include_settings` was given.
    KeepSettings,
}

/// What a backup sends: the linked gist and the files to write into it.
#[derive(Clone, Debug)]
pub struct BackupPlan {
    pub gist_id: String,
    pub files: GhFiles,
}

/// `name` appended to the path `base`, with one `/` between them.
pub open spec fn joined(base: Seq<char>, name: Seq<char>) -> Seq<char> {
    if base.len() == 0 {
        name
    } else if base.last() == '/' {
        base + name
    } else {
        base + seq!['/'] + name
    }
}

fn join_path(base: &str, name: &str) -> (r: String)
    ensures
        r@ == joined(base@, name@),
{
    let len = base.unicode_len();
    let mut path = String::from_str(base);
    if len > 0 && base.get_char(len - 1) != '/' {
        proof {
            reveal_strlit("/");
        }
        path.append("/");
        proof {
            assert("/"@ =~= seq!['/']);
        }
    }
    path.append(name);
    path
}

/// The scribr directory under the home directory `home`.
pub fn get_scribr_home_dir(home: &str) -> (r: String)
    ensures
        r@ == joined(home@, SCRIBR_DIR_NAME@),
{
    join_path(home, SCRIBR_DIR_NAME)
}

/// The settings file under the home directory `home`.
pub fn get_scribr_config_file(home: &str) -> (r: String)
    ensures
        r@ == joined(joined(home@, SCRIBR_DIR_NAME@), SCRIBR_CONFIG_FILE_NAME@),
{
    let dir = get_scribr_home_dir(home);
    join_path(dir.as_str(), SCRIBR_CONFIG_FILE_NAME)
}

/// A path that starts at the root.
pub open spec fn is_absolute(p: Seq<char>) -> bool {
    p.len() > 0 && p[0] == '/'
}

/// The notebook of `settings` for the home directory `home`: an absolute path
/// as it stands, a relative one taken from the scribr directory, which holds
/// the files that backup and restore work on.
pub open spec fn notebook_location(home: Seq<char>, notebook: Seq<char>) -> Seq<char> {
    if is_absolute(notebook) {
        notebook
    } else {
        joined(joined(home, SCRIBR_DIR_NAME@), notebook)
    }
}

pub fn get_notebook_path(home: &str, settings: &Settings) -> (r: String)
    ensures
        r@ == notebook_location(home@, settings.default_notebook@),
{
    let notebook = settings.default_notebook.as_str();
    if notebook.unicode_len() > 0 && notebook.get_char(0) == '/' {
        String::from_str(notebook)
    } else {
        let dir = get_scribr_home_dir(home);
        join_path(dir.as_str(), notebook)
    }
}

/// The gist that the settings link to.
pub open spec fn linked_id(settings: Settings) -> Option<Seq<char>> {
    match settings.remote {
        Some(remote) => match remote.gist_id {
            Some(id) => Some(id@),
            None => None,
        },
        None => None,
    }
}

/// The id of the gist that backups and restores go to; an error where the
/// settings name none.
pub fn linked_gist_id(settings: &Settings) -> (r: Result<String, SyncError>)
    ensures
        match linked_id(*settings) {
            Some(id) => r matches Ok(s) && s@ == id,
            None => r == Err::<String, SyncError>(SyncError::NotLinked),
        },
{
    match &settings.remote {
        Some(remote) => match &remote.gist_id {
            Some(id) => Ok(id.clone()),
            None => Err(SyncError::NotLinked),
        },
        None => Err(SyncError::NotLinked),
    }
}

/// Where `init` stands.
#[derive(Clone, Debug)]
pub enum InitState {
    Aborted,
    /// The scribr directory is being created.
    CreatingDir { no_gh: bool, gist_id: Option<String> },
    /// The device-code flow is running.
    Authenticating { gist_id: Option<String> },
    /// The gist is being looked up: by id, or in the account's listing.
    LookingUp { token: String, by_id: bool },
    /// The default settings are being written out, to create a gist with.
    Creating { token: String },
    /// A new gist is being created.
    AwaitingCreated { token: String },
    /// The settings that link the gist `gist_id` are being written out.
    Linking { token: String, gist_id: String },
    /// `files` are being pushed to the gist.
    Pushing { files: GhFiles },
    /// The default settings are being written out, with no gist.
    SerialisingLocal,
    /// The files are being written locally.
    Writing,
    Done,
    Failed,
}

/// What came back from the last step of `init`.
#[derive(Clone, Debug)]
pub enum InitEvent {
    DirCreated,
    /// The bearer token of the device-code flow.
    Token(String),
    /// The answer to a fetch of the gist by id; `None` where it failed.
    Found(Option<GhGistResponse>),
    /// The account's gists; `None` where the listing failed.
    Listed(Option<Vec<GhGistResponse>>),
    /// The text of the settings file for the settings asked for.
    Serialised(String),
    /// The gist that was created; `None` where the creation failed.
    Created(Option<GhGistResponse>),
    /// Whether the push succeeded.
    Pushed(bool),
    Written,
}

/// What the driver of `init` does next.
#[derive(Clone, Debug)]
pub enum InitStep {
    /// Stop before creating or changing any file.
    Abort,
    CreateDir,
    /// Run the device-code flow.
    Authenticate,
    Send(WebRequest),
    /// Write these settings out as the text of the settings file.
    Serialise(Settings),
    /// Write these files into the scribr directory, overwriting any there.
    WriteFiles(GhFiles),
    Done,
    Fail,
}

/// The settings that `init` writes: the defaults, linked to `id` where there
/// is one.
pub open spec fn is_init_settings(s: Settings, id: Option<Seq<char>>) -> bool {
    &&& s.default_notebook@ == crate::model::SCRIBR_DEFAULT_NOTEBOOK_FILE_NAME@
    &&& s.verbosity == 0
    &&& !s.no_magic_commands
    &&& match id {
        Some(i) => linked_id(s) == Some(i),
        None => s.remote is None,
    }
}

/// The files that `init` writes: the settings file alone, holding `text`.
pub open spec fn config_files(text: Seq<char>) -> Seq<(Seq<char>, Seq<char>)> {
    seq![(SCRIBR_CONFIG_FILE_NAME@, text)]
}

/// The gist `id` is used: the settings that link it are written out next.
pub open spec fn links_gist(r: (InitState, InitStep), token: Seq<char>, id: Seq<char>) -> bool {
    &&& r.0 matches InitState::Linking { token: t, gist_id: g } && t@ == token && g@ == id
    &&& r.1 matches InitStep::Serialise(s) && is_init_settings(s, Some(id))
}

/// No gist is at hand: the default settings are written out to create one.
pub open spec fn creates_gist(r: (InitState, InitStep), token: Seq<char>) -> bool {
    &&& r.0 matches InitState::Creating { token: t } && t@ == token
    &&& r.1 matches InitStep::Serialise(s) && is_init_settings(s, None)
}

pub open spec fn fails(r: (InitState, InitStep)) -> bool {
    r.0 is Failed && r.1 is Fail
}

/// The first step of `init`. An existing scribr directory is never touched
/// without `force`.
pub fn init(home_exists: bool, force: bool, no_gh: bool, gist_id: Option<String>) -> (r: (
    InitState,
    InitStep,
))
    ensures
        home_exists && !force ==> r.0 is Aborted && r.1 is Abort,
        !(home_exists && !force) ==> (r.0 matches InitState::CreatingDir { no_gh: n, gist_id: g }
            && n == no_gh && opt_view(g) == opt_view(gist_id)) && r.1 is CreateDir,
{
    if home_exists && !force {
        (InitState::Aborted, InitStep::Abort)
    } else {
        (InitState::CreatingDir { no_gh, gist_id }, InitStep::CreateDir)
    }
}

fn link_step(token: String, gist_id: String) -> (r: (InitState, InitStep))
    ensures
        links_gist(r, token@, gist_id@),
{
    let settings = init_settings(Some(gist_id.as_str()));
    (InitState::Linking { token, gist_id }, InitStep::Serialise(settings))
}

fn create_step(token: String) -> (r: (InitState, InitStep))
    ensures
        creates_gist(r, token@),
{
    (InitState::Creating { token }, InitStep::Serialise(init_settings(None)))
}

fn config_file_set(text: String) -> (r: GhFiles)
    ensures
        files_view(r@) == config_files(text@),
{
    let mut files: GhFiles = Vec::new();
    files.push((String::from_str(SCRIBR_CONFIG_FILE_NAME), File { content: text }));
    assert(files_view(files@) =~= config_files(text@));
    files
}

fn copy_files(files: &GhFiles) -> (r: GhFiles)
    ensures
        files_view(r@) == files_view(files@),
{
    let mut out: GhFiles = Vec::new();
    let mut k: usize = 0;
    while k < files.len()
        invariant
            k <= files.len(),
            out.len() == k,
            files_view(out@) == files_view(files@).subrange(0, k as int),
        decreases files.len() - k,
    {
        let ghost before = out@;
        out.push((files[k].0.clone(), File { content: files[k].1.content.clone() }));
        assert(files_view(out@)[k as int] == files_view(files@)[k as int]);
        assert(forall|m: int| 0 <= m < k ==> out@[m] == before[m]);
        assert(files_view(out@) =~= files_view(files@).subrange(0, k + 1));
        k += 1;
    }
    assert(files_view(files@).subrange(0, files.len() as int) =~= files_view(files@));
    out
}

/// One step of `init`. With a gist: authenticate, take the gist named by id,
/// or else the first of the account's gists that holds a settings file, or
/// else create exactly one; push the settings that link it; then write those
/// same files locally. Without one: write the default settings locally. A
/// failed listing, creation or push ends the flow, as does any event that
/// does not answer the last step.
pub fn init_step(state: InitState, event: InitEvent) -> (r: (InitState, InitStep))
    ensures
        match (state, event) {
            (InitState::CreatingDir { no_gh, gist_id }, InitEvent::DirCreated) => if no_gh {
                &&& r.0 is SerialisingLocal
                &&& r.1 matches InitStep::Serialise(s) && is_init_settings(s, None)
            } else {
                r.0 matches InitState::Authenticating { gist_id: g } && opt_view(g) == opt_view(
                    gist_id,
                ) && r.1 is Authenticate
            },
            (InitState::Authenticating { gist_id }, InitEvent::Token(token)) => {
                &&& r.0 matches InitState::LookingUp { token: t, by_id } && t@ == token@ && by_id
                    == gist_id.is_some()
                &&& r.1 matches InitStep::Send(req) && match gist_id {
                    Some(id) => is_get(req, gist_url(id@), token@),
                    None => is_get(req, GISTS_URL@, token@),
                }
            },
            (InitState::LookingUp { token, by_id }, InitEvent::Found(found)) => if by_id {
                match found {
                    Some(g) => links_gist(r, token@, g.id@),
                    None => creates_gist(r, token@),
                }
            } else {
                fails(r)
            },
            (InitState::LookingUp { token, by_id }, InitEvent::Listed(listed)) => if !by_id {
                match listed {
                    Some(gists) => if first_config_gist(gists@, 0) >= 0 {
                        links_gist(r, token@, gists@[first_config_gist(gists@, 0)].id@)
                    } else {
                        creates_gist(r, token@)
                    },
                    None => fails(r),
                }
            } else {
                fails(r)
            },
            (InitState::Creating { token }, InitEvent::Serialised(text)) => {
                &&& r.0 matches InitState::AwaitingCreated { token: t } && t@ == token@
                &&& r.1 matches InitStep::Send(req) && is_gist_request(
                    req,
                    Method::Post,
                    GISTS_URL@,
                    token@,
                    Some(false),
                    config_files(text@),
                )
            },
            (InitState::AwaitingCreated { token }, InitEvent::Created(created)) => match created {
                Some(g) => links_gist(r, token@, g.id@),
                None => fails(r),
            },
            (InitState::Linking { token, gist_id }, InitEvent::Serialised(text)) => {
                &&& r.0 matches InitState::Pushing { files } && files_view(files@) == config_files(
                    text@,
                )
                &&& r.1 matches InitStep::Send(req) && is_gist_request(
                    req,
                    Method::Patch,
                    gist_url(gist_id@),
                    token@,
                    None,
                    config_files(text@),
                )
            },
            (InitState::Pushing { files }, InitEvent::Pushed(ok)) => if ok {
                &&& r.0 is Writing
                &&& r.1 matches InitStep::WriteFiles(w) && files_view(w@) == files_view(files@)
            } else {
                fails(r)
            },
            (InitState::SerialisingLocal, InitEvent::Serialised(text)) => {
                &&& r.0 is Writing
                &&& r.1 matches InitStep::WriteFiles(w) && files_view(w@) == config_files(text@)
            },
            (InitState::Writing, InitEvent::Written) => r.0 is Done && r.1 is Done,
            _ => fails(r),
        },
{
    match (state, event) {
        (InitState::CreatingDir { no_gh, gist_id }, InitEvent::DirCreated) => {
            if no_gh {
                (InitState::SerialisingLocal, InitStep::Serialise(init_settings(None)))
            } else {
                (InitState::Authenticating { gist_id }, InitStep::Authenticate)
            }
        },
        (InitState::Authenticating { gist_id }, InitEvent::Token(token)) => {
            let request = gh_fetch_scribr_gist(token.as_str(), &gist_id);
            (InitState::LookingUp { token, by_id: gist_id.is_some() }, InitStep::Send(request))
        },
        (InitState::LookingUp { token, by_id }, InitEvent::Found(found)) => {
            if by_id {
                match found {
                    Some(g) => link_step(token, g.id),
                    None => create_step(token),
                }
            } else {
                (InitState::Failed, InitStep::Fail)
            }
        },
        (InitState::LookingUp { token, by_id }, InitEvent::Listed(listed)) => {
            if !by_id {
                match listed {
                    Some(gists) => match gh_search_existing_scribr_gist(gists) {
                        Some(g) => link_step(token, g.id),
                        None => create_step(token),
                    },
                    None => (InitState::Failed, InitStep::Fail),
                }
            } else {
                (InitState::Failed, InitStep::Fail)
            }
        },
        (InitState::Creating { token }, InitEvent::Serialised(text)) => {
            let request = gh_create_scribr_gist(token.as_str(), config_file_set(text));
            (InitState::AwaitingCreated { token }, InitStep::Send(request))
        },
        (InitState::AwaitingCreated { token }, InitEvent::Created(created)) => match created {
            Some(g) => link_step(token, g.id),
            None => (InitState::Failed, InitStep::Fail),
        },
        (InitState::Linking { token, gist_id }, InitEvent::Serialised(text)) => {
            let files = config_file_set(text);
            let request = gh_push_gist_files(token.as_str(), gist_id.as_str(), copy_files(&files));
            (InitState::Pushing { files }, InitStep::Send(request))
        },
        (InitState::Pushing { files }, InitEvent::Pushed(ok)) => {
            if ok {
                (InitState::Writing, InitStep::WriteFiles(files))
            } else {
                (InitState::Failed, InitStep::Fail)
            }
        },
        (InitState::SerialisingLocal, InitEvent::Serialised(text)) => {
            (InitState::Writing, InitStep::WriteFiles(config_file_set(text)))
        },
        (InitState::Writing, InitEvent::Written) => (InitState::Done, InitStep::Done),
        _ => (InitState::Failed, InitStep::Fail),
    }
}

/// The settings that `init` writes: the defaults, linked to `gist_id` where
/// one was resolved.
pub fn init_settings(gist_id: Option<&str>) -> (r: Settings)
    ensures
        is_init_settings(
            r,
            match gist_id {
                Some(id) => Some(id@),
                None => None,
            },
        ),
{
    match gist_id {
        Some(id) => Settings::new_with_gist_id(id),
        None => Settings::default(),
    }
}

pub open spec fn entries_view(entries: Seq<(String, String)>) -> Seq<(Seq<char>, Seq<char>)> {
    entries.map_values(|e: (String, String)| (e.0@, e.1@))
}

/// The files of `entries` that a backup sends: all of them, but the settings
/// file only with `include_settings`.
pub open spec fn backup_selection(
    entries: Seq<(Seq<char>, Seq<char>)>,
    include_settings: bool,
) -> Seq<(Seq<char>, Seq<char>)>
    decreases entries.len(),
{
    if entries.len() == 0 {
        Seq::empty()
    } else {
        let rest = backup_selection(entries.drop_last(), include_settings);
        if !include_settings && entries.last().0 == SCRIBR_CONFIG_FILE_NAME@ {
            rest
        } else {
            rest.push(entries.last())
        }
    }
}

/// Plans a backup of the files of the scribr directory, given as name and
/// content. The settings must link a gist. The settings file goes along only
/// with `include_settings`.
pub fn backup_notes(
    run_settings: &Settings,
    entries: Vec<(String, String)>,
    include_settings: bool,
) -> (r: Result<BackupPlan, SyncError>)
    ensures
        match linked_id(*run_settings) {
            Some(id) => r matches Ok(p) && p.gist_id@ == id && files_view(p.files@)
                == backup_selection(entries_view(entries@), include_settings),
            None => r matches Err(e) && e == SyncError::NotLinked,
        },
        !include_settings ==> (r matches Ok(p) ==> forall|k: int|
            0 <= k < p.files.len() ==> (#[trigger] p.files@[k]).0@ != SCRIBR_CONFIG_FILE_NAME@),
        distinct_names(entries_view(entries@)) ==> (r matches Ok(p) ==> distinct_names(
            files_view(p.files@),
        )),
{
    let gist_id = match linked_gist_id(run_settings) {
        Ok(id) => id,
        Err(e) => {
            return Err(e);
        },
    };
    let config = String::from_str(SCRIBR_CONFIG_FILE_NAME);
    let ghost ev = entries_view(entries@);
    let mut files: GhFiles = Vec::new();
    let mut i: usize = 0;
    while i < entries.len()
        invariant
            ev == entries_view(entries@),
            config@ == SCRIBR_CONFIG_FILE_NAME@,
            i <= entries.len(),
            files_view(files@) == backup_selection(ev.subrange(0, i as int), include_settings),
            !include_settings ==> forall|k: int|
                0 <= k < files.len() ==> (#[trigger] files@[k]).0@ != SCRIBR_CONFIG_FILE_NAME@,
            ev.len() == entries.len(),
            forall|k: int|
                #![trigger files@[k]]
                0 <= k < files.len() ==> exists|j: int|
                    #![trigger ev[j]]
                    0 <= j < i && files@[k].0@ == ev[j].0,
            distinct_names(ev) ==> distinct_names(files_view(files@)),
        decreases entries.len() - i,
    {
        assert(ev.subrange(0, i + 1).drop_last() =~= ev.subrange(0, i as int));
        assert(ev[i as int].0 == entries@[i as int].0@);
        let ghost before = files@;
        if include_settings || entries[i].0 != config {
            files.push((entries[i].0.clone(), File { content: entries[i].1.clone() }));
            assert(files_view(files@) =~= backup_selection(ev.subrange(0, i + 1), include_settings));
            proof {
                if distinct_names(ev) {
                    assert forall|a: int, b: int|
                        0 <= a < b < files.len() implies files_view(files@)[a].0 != files_view(
                            files@,
                        )[b].0 by {
                        if b == files.len() - 1 {
                            assert(files@[a] == before[a]);
                            let j = choose|j: int| 0 <= j < i && before[a].0@ == ev[j].0;
                            assert(ev[j].0 != ev[i as int].0);
                        } else {
                            assert(files@[a] == before[a] && files@[b] == before[b]);
                            assert(files_view(before)[a].0 != files_view(before)[b].0);
                        }
                    }
                }
            }
        }
        assert forall|k: int|
            #![trigger files@[k]]
            0 <= k < files.len() implies exists|j: int|
                #![trigger ev[j]]
                0 <= j < i + 1 && files@[k].0@ == ev[j].0 by {
            if k < before.len() {
                assert(files@[k] == before[k]);
                let j = choose|j: int| 0 <= j < i && before[k].0@ == ev[j].0;
                assert(0 <= j < i + 1 && files@[k].0@ == ev[j].0);
            } else {
                assert(files@[k].0@ == ev[i as int].0);
            }
        }
        i += 1;
    }
    assert(ev.subrange(0, ev.len() as int) =~= ev);
    Ok(BackupPlan { gist_id, files })
}

/// The restore policy for one pulled file. A file that is absent locally, or
/// any file under `force`, is written. An existing settings file is written
/// under `include_settings` and kept otherwise. Any other existing file is kept.
pub open spec fn restore_decision(
    name: Seq<char>,
    exists_locally: bool,
    force: bool,
    include_settings: bool,
) -> RestoreAction {
    if !exists_locally || force {
        RestoreAction::Overwrite
    } else if name == SCRIBR_CONFIG_FILE_NAME@ {
        if include_settings {
            RestoreAction::Overwrite
        } else {
            RestoreAction::KeepSettings
        }
    } else {
        RestoreAction::KeepExisting
    }
}

/// What `restore` does with the pulled file `file_name`, by
/// `restore_decision`.
pub fn restore_action(
    file_name: &str,
    exists_locally: bool,
    force: bool,
    include_settings: bool,
) -> (r: RestoreAction)
    ensures
        r == restore_decision(file_name@, exists_locally, force, include_settings),
{
    if !exists_locally || force {
        RestoreAction::Overwrite
    } else if String::from_str(file_name) == String::from_str(SCRIBR_CONFIG_FILE_NAME) {
        if include_settings {
            RestoreAction::Overwrite
        } else {
            RestoreAction::KeepSettings
        }
    } else {
        RestoreAction::KeepExisting
    }
}

/// A restore that may go ahead: the gist to pull from and the flags.
#[derive(Clone, Debug)]
pub struct RestorePlan {
    pub gist_id: String,
    pub force: bool,
    pub include_settings: bool,
}

/// Starts a restore. The settings must link a gist; without one the restore
/// stops here, before any request is made or any file is written.
pub fn restore_notes(run_settings: &Settings, force: bool, include_settings: bool) -> (r: Result<
    RestorePlan,
    SyncError,
>)
    ensures
        match linked_id(*run_settings) {
            Some(id) => r matches Ok(p) && p.gist_id@ == id && p.force == force
                && p.include_settings == include_settings,
            None => r matches Err(e) && e == SyncError::NotLinked,
        },
{
    match linked_gist_id(run_settings) {
        Ok(gist_id) => Ok(RestorePlan { gist_id, force, include_settings }),
        Err(e) => Err(e),
    }
}

impl RestorePlan {
    /// The restore policy applied to each pulled file; `existing[k]` tells
    /// whether the `k`-th file exists locally.
    pub fn actions(&self, files: &GhFiles, existing: &Vec<bool>) -> (r: Vec<RestoreAction>)
        requires
            existing.len() == files.len(),
        ensures
            r.len() == files.len(),
            forall|k: int|
                0 <= k < r.len() ==> #[trigger] r@[k] == restore_decision(
                    files@[k].0@,
                    existing@[k],
                    self.force,
                    self.include_settings,
                ),
    {
        let mut out: Vec<RestoreAction> = Vec::new();
        let mut k: usize = 0;
        while k < files.len()
            invariant
                existing.len() == files.len(),
                k <= files.len(),
                out.len() == k,
                forall|m: int|
                    0 <= m < k ==> #[trigger] out@[m] == restore_decision(
                        files@[m].0@,
                        existing@[m],
                        self.force,
                        self.include_settings,
                    ),
            decreases files.len() - k,
        {
            out.push(restore_action(files[k].0.as_str(), existing[k], self.force, self.include_settings));
            k += 1;
        }
        out
    }
}

} // verus!
