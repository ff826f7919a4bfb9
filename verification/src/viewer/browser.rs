use vstd::prelude::*;

verus! {

/// The desktop platforms on which Lens opens a browser itself.
#[derive(Clone, Copy, Debug, Eq, PartialEq)]
pub enum BrowserPlatform {
    Linux,
    MacOs,
    Windows,
}

/// The program and arguments that open a URL in the default browser.
#[derive(Debug, Eq, PartialEq)]
pub struct BrowserCommand {
    pub program: &'static str,
    pub arguments: Vec<String>,
}

/// The platform's launcher with the URL: `xdg-open` on Linux, `open` on macOS, and
/// `cmd /C start "" URL` on Windows.
pub fn browser_command(platform: BrowserPlatform, url: &str) -> (command: BrowserCommand)
    ensures
        match platform {
            BrowserPlatform::Linux => command.program@ == "xdg-open"@ && command.arguments@.len()
                == 1 && command.arguments@[0]@ == url@,
            BrowserPlatform::MacOs => command.program@ == "open"@ && command.arguments@.len() == 1
                && command.arguments@[0]@ == url@,
            BrowserPlatform::Windows => {
                &&& command.program@ == "cmd"@
                &&& command.arguments@.len() == 4
                &&& command.arguments@[0]@ == "/C"@
                &&& command.arguments@[1]@ == "start"@
                &&& command.arguments@[2]@ == Seq::<char>::empty()
                &&& command.arguments@[3]@ == url@
            },
        },
{
    match platform {
        BrowserPlatform::Linux => {
            let mut arguments: Vec<String> = Vec::new();
            arguments.push(url.to_owned());
            BrowserCommand { program: "xdg-open", arguments }
        },
        BrowserPlatform::MacOs => {
            let mut arguments: Vec<String> = Vec::new();
            arguments.push(url.to_owned());
            BrowserCommand { program: "open", arguments }
        },
        BrowserPlatform::Windows => {
            let mut arguments: Vec<String> = Vec::new();
            arguments.push("/C".to_owned());
            arguments.push("start".to_owned());
            arguments.push(String::new());
            arguments.push(url.to_owned());
            BrowserCommand { program: "cmd", arguments }
        },
    }
}

} // verus!
