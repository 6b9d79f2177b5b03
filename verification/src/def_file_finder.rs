use crate::config::Config;
use vstd::prelude::*;

verus! {

/// One place where a definition file may lie.
#[derive(Clone, Debug, PartialEq, Eq)]
pub struct Candidate {
    /// Path of the file.
    pub path: String,
    /// A file is at the path.
    pub exists: bool,
}

/// What a look at one directory found.
#[derive(Clone, Debug, PartialEq, Eq)]
pub struct Directory {
    /// Something is at the path.
    pub exists: bool,
    /// What is at the path is a directory.
    pub is_dir: bool,
    /// The places looked at in it: one for each allowed name, in their
    /// order.
    pub candidates: Vec<Candidate>,
}

/// Why a directory gives no definition file.
#[derive(Clone, Copy, Debug, PartialEq, Eq, Structural)]
pub enum FindError {
    /// Nothing is at the path.
    NotFound,
    /// What is at the path is no directory.
    NotADirectory,
    /// More than one definition file is in the directory.
    MultipleFiles,
}

/// The names that a definition file may have, in the order in which they
/// are looked for.
pub open spec fn allowed() -> Seq<Seq<char>> {
    seq![".zxc.yml"@, ".zxc.yaml"@, "zxc.yml"@, "zxc.yaml"@]
}

/// The names that a definition file may have.
pub fn allowed_names() -> (names: Vec<&'static str>)
    ensures
        names.deep_view() == allowed(),
{
    let mut names: Vec<&'static str> = Vec::new();
    names.push(".zxc.yml");
    names.push(".zxc.yaml");
    names.push("zxc.yml");
    names.push("zxc.yaml");
    assert(names.deep_view() =~= allowed());
    names
}

/// One place where a definition file may lie, by the text of its path.
pub struct CandidateView {
    pub path: Seq<char>,
    pub exists: bool,
}

/// What a look at one directory found, by the text of its paths.
pub struct DirectoryView {
    pub exists: bool,
    pub is_dir: bool,
    pub candidates: Seq<CandidateView>,
}

impl DeepView for Candidate {
    type V = CandidateView;

    open spec fn deep_view(&self) -> CandidateView {
        CandidateView { path: self.path@, exists: self.exists }
    }
}

impl DeepView for Directory {
    type V = DirectoryView;

    open spec fn deep_view(&self) -> DirectoryView {
        DirectoryView {
            exists: self.exists,
            is_dir: self.is_dir,
            candidates: self.candidates.deep_view(),
        }
    }
}

/// The paths of the candidates that exist, in their order.
pub open spec fn present(candidates: Seq<CandidateView>) -> Seq<Seq<char>>
    decreases candidates.len(),
{
    if candidates.len() == 0 {
        Seq::empty()
    } else if candidates.last().exists {
        present(candidates.drop_last()).push(candidates.last().path)
    } else {
        present(candidates.drop_last())
    }
}

/// The definition file of a directory: none where it holds none, the one
/// where it holds one, and a fault where the directory is missing, is no
/// directory or holds several.
pub open spec fn def_file(directory: DirectoryView) -> Result<Option<Seq<char>>, FindError> {
    if !directory.exists {
        Err(FindError::NotFound)
    } else if !directory.is_dir {
        Err(FindError::NotADirectory)
    } else if present(directory.candidates).len() > 1 {
        Err(FindError::MultipleFiles)
    } else if present(directory.candidates).len() == 0 {
        Ok(None)
    } else {
        Ok(Some(present(directory.candidates)[0]))
    }
}

/// Find definition file in specified directory.
pub fn find_def_file(directory: &Directory) -> (found: Result<Option<String>, FindError>)
    ensures
        match found {
            Ok(file) => def_file(directory.deep_view()) == Ok::<Option<Seq<char>>, FindError>(
                file.deep_view(),
            ),
            Err(fault) => def_file(directory.deep_view()) == Err::<Option<Seq<char>>, FindError>(
                fault,
            ),
        },
{
    // Check path exists.
    if !directory.exists {
        return Err(FindError::NotFound);
    }
    // Check path is a directory.
    if !directory.is_dir {
        return Err(FindError::NotADirectory);
    }
    // Iterate through the candidates.
    let ghost candidates = directory.candidates.deep_view();
    let mut found_files: Vec<String> = Vec::new();
    let mut i: usize = 0;
    assert(candidates.take(0) =~= Seq::empty());
    assert(found_files.deep_view() =~= Seq::empty());
    while i < directory.candidates.len()
        invariant
            i <= directory.candidates.len(),
            candidates == directory.candidates.deep_view(),
            found_files.deep_view() == present(candidates.take(i as int)),
        decreases directory.candidates.len() - i,
    {
        assert(candidates.take(i + 1).drop_last() =~= candidates.take(i as int));
        if directory.candidates[i].exists {
            let ghost before = found_files.deep_view();
            found_files.push(directory.candidates[i].path.clone());
            assert(found_files.deep_view() =~= before.push(candidates[i as int].path));
        }
        i += 1;
    }
    assert(candidates.take(directory.candidates.len() as int) =~= candidates);

    // Disallow multiple found.
    if found_files.len() > 1 {
        return Err(FindError::MultipleFiles);
    }
    // Check if any found.
    // It's not an error that nothing was found.
    if found_files.len() == 0 {
        return Ok(None);
    }
    Ok(Some(found_files[0].clone()))
}

/// Returns path to `<app home><mirrored CWD path>`.
/// E.g., if CWD is `/opt/app` and the app home `/home/user/.zxc` then
/// `/home/user/.zxc/opt/app`.
pub fn get_external_dir(config: &Config) -> (external_dir: String)
    ensures
        external_dir@ == config.app_home@ + config.cwd@,
{
    let mut external_dir = config.app_home.clone();
    external_dir.append(config.cwd.as_str());
    external_dir
}

/// A file, where there is one, as a list.
pub open spec fn listed(file: Option<Seq<char>>) -> Seq<Seq<char>> {
    match file {
        Some(path) => seq![path],
        None => Seq::empty(),
    }
}

/// The definition files of the two places: that of the local directory,
/// then that of the external one. The local directory must be there; an
/// external one that is missing or is no directory is passed over. Several
/// definition files in one directory are a fault.
pub open spec fn definition_files(local: DirectoryView, external: DirectoryView) -> Result<
    Seq<Seq<char>>,
    FindError,
> {
    match def_file(local) {
        Err(fault) => Err(fault),
        Ok(first) => if external.exists && external.is_dir {
            match def_file(external) {
                Err(fault) => Err(fault),
                Ok(second) => Ok(listed(first) + listed(second)),
            }
        } else {
            Ok(listed(first))
        },
    }
}

/// Find definition files.
/// - local - from CWD.
/// - external - from `<app home><mirrored CWD path>`.
///
/// It's not allowed to have multiple definition files in one directory.
///
/// Returns empty container if nothing is found.
pub fn find_definition_files(local: &Directory, external: &Directory) -> (found_files: Result<
    Vec<String>,
    FindError,
>)
    ensures
        match found_files {
            Ok(files) => definition_files(local.deep_view(), external.deep_view()) == Ok::<
                Seq<Seq<char>>,
                FindError,
            >(files.deep_view()),
            Err(fault) => definition_files(local.deep_view(), external.deep_view()) == Err::<
                Seq<Seq<char>>,
                FindError,
            >(fault),
        },
{
    let mut found_files: Vec<String> = Vec::new();
    assert(found_files.deep_view() =~= Seq::empty());

    // Get local definition file.
    match find_def_file(local) {
        Err(fault) => {
            return Err(fault);
        },
        Ok(None) => {},
        Ok(Some(path)) => {
            found_files.push(path);
            assert(found_files.deep_view() =~= seq![path@]);
        },
    }
    // Get external definition file.
    if external.exists && external.is_dir {
        let ghost first = found_files.deep_view();
        match find_def_file(external) {
            Err(fault) => {
                return Err(fault);
            },
            Ok(None) => {
                assert(found_files.deep_view() =~= first + Seq::empty());
            },
            Ok(Some(path)) => {
                found_files.push(path);
                assert(found_files.deep_view() =~= first + seq![path@]);
            },
        }
    }
    Ok(found_files)
}

} // verus!
