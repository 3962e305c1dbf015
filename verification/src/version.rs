//! Keeping track of the downloaded files of a game version, deciding what to do with each report
//! of the download, and the paths of the files of a stored version.
use vstd::prelude::*;
use crate::version_scraper::{FileType, ProgressReport};

verus! {

/// The file, inside the directory of a version, that records the names of its files.
pub const VERSION_CONFIG_FILE: &'static str = "version.json";

/// The names of the four files of a game version.
#[derive(Debug)]
pub struct VersionFiles {
    pub unity_loader: String,
    pub code: String,
    pub data: String,
    pub framework: String,
}

/// Why a game version could not be put together.
#[derive(Debug, Clone, Copy, PartialEq, Eq, Structural)]
pub enum VersionError {
    /// No file of this role was downloaded.
    MissingFile(FileType),
}

/// The names of the files downloaded so far, by role; a later file of a role replaces an earlier one.
#[derive(Debug)]
pub struct DownloadedNames {
    pub unity_loader: Option<String>,
    pub framework: Option<String>,
    pub code: Option<String>,
    pub data: Option<String>,
}

/// The model of [`DownloadedNames`]: the name recorded for each role.
pub open spec fn names_model(n: &DownloadedNames, t: FileType) -> Option<Seq<char>> {
    match t {
        FileType::UnityLoader => opt_view(n.unity_loader),
        FileType::Framework => opt_view(n.framework),
        FileType::Code => opt_view(n.code),
        FileType::Data => opt_view(n.data),
    }
}

/// The view of an optional string.
pub open spec fn opt_view(s: Option<String>) -> Option<Seq<char>> {
    match s {
        Some(x) => Some(x@),
        None => None,
    }
}

/// The first role, in the order loader, code, data, framework, for which no name was recorded.
pub open spec fn first_missing(names: spec_fn(FileType) -> Option<Seq<char>>) -> Option<FileType> {
    if names(FileType::UnityLoader) is None {
        Some(FileType::UnityLoader)
    } else if names(FileType::Code) is None {
        Some(FileType::Code)
    } else if names(FileType::Data) is None {
        Some(FileType::Data)
    } else if names(FileType::Framework) is None {
        Some(FileType::Framework)
    } else {
        None
    }
}

impl DownloadedNames {
    /// No file downloaded yet.
    pub fn new() -> (r: Self)
        ensures
            forall|t: FileType| names_model(&r, t) is None,
    {
        DownloadedNames { unity_loader: None, framework: None, code: None, data: None }
    }

    /// Records `name` as the file of role `file_type`.
    pub fn record(&mut self, file_type: FileType, name: String)
        ensures
            names_model(final(self), file_type) == Some(name@),
            forall|t: FileType| t != file_type ==> names_model(final(self), t) == names_model(old(self), t),
    {
        match file_type {
            FileType::UnityLoader => self.unity_loader = Some(name),
            FileType::Framework => self.framework = Some(name),
            FileType::Code => self.code = Some(name),
            FileType::Data => self.data = Some(name),
        }
    }

    /// The names of the four files, or the first role, in the order loader, code, data,
    /// framework, of which no file was downloaded.
    pub fn finish(self) -> (r: Result<VersionFiles, VersionError>)
        ensures
            match first_missing(|t: FileType| names_model(&self, t)) {
                Some(t) => r == Err::<VersionFiles, VersionError>(VersionError::MissingFile(t)),
                None => r matches Ok(v) && v.unity_loader@ == names_model(&self, FileType::UnityLoader).unwrap()
                    && v.code@ == names_model(&self, FileType::Code).unwrap()
                    && v.data@ == names_model(&self, FileType::Data).unwrap()
                    && v.framework@ == names_model(&self, FileType::Framework).unwrap(),
            },
    {
        let unity_loader = match self.unity_loader {
            Some(n) => n,
            None => return Err(VersionError::MissingFile(FileType::UnityLoader)),
        };
        let code = match self.code {
            Some(n) => n,
            None => return Err(VersionError::MissingFile(FileType::Code)),
        };
        let data = match self.data {
            Some(n) => n,
            None => return Err(VersionError::MissingFile(FileType::Data)),
        };
        let framework = match self.framework {
            Some(n) => n,
            None => return Err(VersionError::MissingFile(FileType::Framework)),
        };
        Ok(VersionFiles { unity_loader, code, data, framework })
    }
}

/// What to do after a report of the download.
#[derive(Debug)]
pub enum DownloadAction {
    /// Wait for the next report.
    Continue,
    /// Store `data` under `name` in the version's directory, then wait for the next report.
    Store { name: String, data: Vec<u8> },
    /// All files are there: put the version together.
    Finish,
    /// The download failed with this message.
    Abort(String),
}

/// Whether `names1` and `action` are what the report `report` asks for, with `names0` recorded before.
pub open spec fn report_step(names0: &DownloadedNames, report: ProgressReport, names1: &DownloadedNames, action: DownloadAction) -> bool {
    match report {
        ProgressReport::Progress { .. } => action is Continue && forall|t: FileType| names_model(names1, t) == names_model(names0, t),
        ProgressReport::FileDownloaded { file_type, name, data } => {
            &&& action matches DownloadAction::Store { name: n, data: d } && n@ == name@ && d@ == data@
            &&& names_model(names1, file_type) == Some(name@)
            &&& forall|t: FileType| t != file_type ==> names_model(names1, t) == names_model(names0, t)
        },
        ProgressReport::AllFilesDownloaded => action is Finish && forall|t: FileType| names_model(names1, t) == names_model(names0, t),
        ProgressReport::Crashed(msg) => action matches DownloadAction::Abort(m) && m@ == msg@
            && forall|t: FileType| names_model(names1, t) == names_model(names0, t),
    }
}

/// Takes in one report of the download: a finished file is recorded under its role and is to be
/// stored; the end of the download finishes; a crash aborts with its message.
pub fn on_report(names: &mut DownloadedNames, report: ProgressReport) -> (r: DownloadAction)
    ensures
        report_step(old(names), report, final(names), r),
{
    match report {
        ProgressReport::Progress { .. } => DownloadAction::Continue,
        ProgressReport::FileDownloaded { file_type, name, data } => {
            let stored = name.clone();
            names.record(file_type, name);
            DownloadAction::Store { name: stored, data }
        },
        ProgressReport::AllFilesDownloaded => DownloadAction::Finish,
        ProgressReport::Crashed(msg) => DownloadAction::Abort(msg),
    }
}

/// A downloaded file: its role, its name and its contents.
#[derive(Debug)]
pub struct DownloadedFile {
    pub file_type: FileType,
    pub name: String,
    pub data: Vec<u8>,
}

/// The name recorded for role `t` after the files `files`: that of the last file of the role.
pub open spec fn last_name_of(files: Seq<DownloadedFile>, t: FileType) -> Option<Seq<char>>
    decreases files.len(),
{
    if files.len() == 0 {
        None
    } else if files.last().file_type == t {
        Some(files.last().name@)
    } else {
        last_name_of(files.drop_last(), t)
    }
}

/// Records the names of the files `files`, in order.
pub fn record_all(files: &Vec<DownloadedFile>) -> (r: DownloadedNames)
    ensures
        forall|t: FileType| names_model(&r, t) == last_name_of(files@, t),
{
    let mut names = DownloadedNames::new();
    let mut i: usize = 0;
    while i < files.len()
        invariant
            i <= files.len(),
            forall|t: FileType| names_model(&names, t) == last_name_of(files@.subrange(0, i as int), t),
        decreases files.len() - i,
    {
        let f = &files[i];
        names.record(f.file_type, f.name.clone());
        proof {
            let s = files@.subrange(0, i as int + 1);
            assert(s.drop_last() =~= files@.subrange(0, i as int));
            assert(s.last() == files@[i as int]);
        }
        i = i + 1;
    }
    assert(files@.subrange(0, files.len() as int) =~= files@);
    names
}

/// Puts a game version together from the downloaded files `files`: the names of the last file
/// of each role, or the first role, in the order loader, code, data, framework, of which no
/// file was downloaded.
pub fn collect_version(files: &Vec<DownloadedFile>) -> (r: Result<VersionFiles, VersionError>)
    ensures
        match first_missing(|t: FileType| last_name_of(files@, t)) {
            Some(t) => r == Err::<VersionFiles, VersionError>(VersionError::MissingFile(t)),
            None => r matches Ok(v) && v.unity_loader@ == last_name_of(files@, FileType::UnityLoader).unwrap()
                && v.code@ == last_name_of(files@, FileType::Code).unwrap()
                && v.data@ == last_name_of(files@, FileType::Data).unwrap()
                && v.framework@ == last_name_of(files@, FileType::Framework).unwrap(),
        },
{
    let names = record_all(files);
    assert((|t: FileType| names_model(&names, t)) =~= (|t: FileType| last_name_of(files@, t)));
    names.finish()
}

/// `name` joined onto the directory `base` as a path is extended on Unix: an absolute name (one
/// that starts with `/`) stands for itself, and otherwise a `/` separates the two unless `base`
/// is empty or already ends with one.
pub open spec fn join_path(base: Seq<char>, name: Seq<char>) -> Seq<char> {
    if name.len() > 0 && name[0] == '/' {
        name
    } else if base.len() == 0 || base.last() == '/' {
        base + name
    } else {
        base + seq!['/'] + name
    }
}

/// Joins `name` onto the directory `base`.
pub fn join(base: &str, name: &str) -> (r: String)
    ensures
        r@ == join_path(base@, name@),
{
    let n = name.unicode_len();
    if n > 0 && name.get_char(0) == '/' {
        return String::from_str(name);
    }
    let b = base.unicode_len();
    let mut r = String::from_str(base);
    if b > 0 && base.get_char(b - 1) != '/' {
        r.append("/");
        proof {
            reveal_strlit("/");
        }
    }
    r.append(name);
    r
}

/// The record of a game version on disk: the directory it is stored in and the names of its
/// files inside it.
#[derive(Debug)]
pub struct VersionConfig {
    pub base_path: String,
    pub unity_loader: String,
    pub code: String,
    pub data: String,
    pub framework: String,
}

impl VersionConfig {
    /// The version with the files `files`, stored in `base_path`.
    pub fn new(base_path: String, files: VersionFiles) -> (r: Self)
        ensures
            r.base_path@ == base_path@,
            r.unity_loader@ == files.unity_loader@,
            r.code@ == files.code@,
            r.data@ == files.data@,
            r.framework@ == files.framework@,
    {
        VersionConfig {
            base_path,
            unity_loader: files.unity_loader,
            code: files.code,
            data: files.data,
            framework: files.framework,
        }
    }

    /// The path of `path` inside the version's directory.
    pub fn get_path(&self, path: &str) -> (r: String)
        ensures
            r@ == join_path(self.base_path@, path@),
    {
        join(self.base_path.as_str(), path)
    }

    /// The path of the loader.
    pub fn get_unity_loader(&self) -> (r: String)
        ensures
            r@ == join_path(self.base_path@, self.unity_loader@),
    {
        join(self.base_path.as_str(), self.unity_loader.as_str())
    }

    /// The path of the code.
    pub fn get_code(&self) -> (r: String)
        ensures
            r@ == join_path(self.base_path@, self.code@),
    {
        join(self.base_path.as_str(), self.code.as_str())
    }

    /// The path of the data.
    pub fn get_data(&self) -> (r: String)
        ensures
            r@ == join_path(self.base_path@, self.data@),
    {
        join(self.base_path.as_str(), self.data.as_str())
    }

    /// The path of the framework.
    pub fn get_framework(&self) -> (r: String)
        ensures
            r@ == join_path(self.base_path@, self.framework@),
    {
        join(self.base_path.as_str(), self.framework.as_str())
    }

    /// The path of the game file of role `file_type`.
    pub fn path_of(&self, file_type: FileType) -> (r: String)
        ensures
            r@ == join_path(self.base_path@, match file_type {
                FileType::UnityLoader => self.unity_loader@,
                FileType::Framework => self.framework@,
                FileType::Code => self.code@,
                FileType::Data => self.data@,
            }),
    {
        match file_type {
            FileType::UnityLoader => self.get_unity_loader(),
            FileType::Framework => self.get_framework(),
            FileType::Code => self.get_code(),
            FileType::Data => self.get_data(),
        }
    }
}

} // verus!
