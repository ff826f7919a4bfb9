use vstd::prelude::*;

verus! {

/// The argument that starts the executable as the background service.
pub const SERVICE_ARGUMENT: &'static str = "--lens-background-service";

/// Why the background service could not be started.
#[derive(Debug)]
pub enum ProcessError {
    CurrentExecutable(String),
    StableWorkingDirectory(String),
    Spawn(String),
}

/// The sentence that describes a process error.
pub open spec fn process_error_text(error: ProcessError) -> Seq<char> {
    match error {
        ProcessError::CurrentExecutable(reason) => "Could not identify the Lens executable: "@
            + reason@,
        ProcessError::StableWorkingDirectory(reason) => "Could not identify a stable service working directory: "@
            + reason@,
        ProcessError::Spawn(reason) => "Could not start the Lens background service: "@ + reason@,
    }
}

impl ProcessError {
    /// The sentence that describes this error.
    pub fn message(&self) -> (text: String)
        ensures
            text@ == process_error_text(*self),
    {
        let mut text = String::new();
        match self {
            ProcessError::CurrentExecutable(reason) => {
                text.append("Could not identify the Lens executable: ");
                text.append(reason.as_str());
            },
            ProcessError::StableWorkingDirectory(reason) => {
                text.append("Could not identify a stable service working directory: ");
                text.append(reason.as_str());
            },
            ProcessError::Spawn(reason) => {
                text.append("Could not start the Lens background service: ");
                text.append(reason.as_str());
            },
        }
        text
    }
}

/// The working directory of the service on Unix: the root, which no unmount takes away.
pub fn unix_working_directory() -> (directory: String)
    ensures
        directory@ == "/"@,
{
    "/".to_owned()
}

/// The working directory of the service on Windows: the system root, else the Windows
/// directory, else the root of the system drive.
pub open spec fn windows_working_directory_text(
    system_root: Option<Seq<char>>,
    windir: Option<Seq<char>>,
    system_drive: Option<Seq<char>>,
) -> Option<Seq<char>> {
    match system_root {
        Some(root) => Some(root),
        None => match windir {
            Some(directory) => Some(directory),
            None => match system_drive {
                Some(drive) => Some(drive + "\\"@),
                None => None,
            },
        },
    }
}

/// The working directory of the service on Windows, from the environment values that name the
/// system's directories; without any, it cannot be told.
pub fn windows_working_directory(
    system_root: Option<String>,
    windir: Option<String>,
    system_drive: Option<String>,
) -> (directory: Result<String, ProcessError>)
    ensures
        ({
            let expected = windows_working_directory_text(
                match system_root {
                    Some(r) => Some(r@),
                    None => None,
                },
                match windir {
                    Some(w) => Some(w@),
                    None => None,
                },
                match system_drive {
                    Some(d) => Some(d@),
                    None => None,
                },
            );
            &&& expected matches Some(text) ==> (directory matches Ok(d) && d@ == text)
            &&& expected is None ==> (directory matches Err(ProcessError::StableWorkingDirectory(
                reason,
            )) && reason@ == "Could not determine Windows system root"@)
        }),
{
    match system_root {
        Some(root) => Ok(root),
        None => match windir {
            Some(directory) => Ok(directory),
            None => match system_drive {
                Some(drive) => {
                    let mut directory = drive;
                    directory.append("\\");
                    Ok(directory)
                },
                None => Err(
                    ProcessError::StableWorkingDirectory(
                        "Could not determine Windows system root".to_owned(),
                    ),
                ),
            },
        },
    }
}

} // verus!
