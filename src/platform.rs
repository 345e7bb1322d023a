use vstd::prelude::*;
use vstd::string::*;

verus! {

/// The platform conventions the store runs under: where user data lives and
/// which editor opens a note.
#[derive(Debug, Clone, Copy, PartialEq, Eq, Structural)]
pub enum Platform {
    Linux,
    Windows,
}

/// The root directory under `platform`, from the user's home (the profile
/// directory on Windows) and the XDG data directory, when one is set.
pub open spec fn data_directory(platform: Platform, home: Seq<char>, xdg_data_home: Option<Seq<char>>) -> Seq<char> {
    match platform {
        Platform::Linux => match xdg_data_home {
            Some(x) if x.len() > 0 => x + "/oxnotes"@,
            _ => home + "/.local/share/oxnotes"@,
        },
        Platform::Windows => home + "/AppData/Roaming/oxnotes"@,
    }
}

/// The editor program that opens notes under `platform`, unless configured otherwise.
pub open spec fn default_editor(platform: Platform) -> Seq<char> {
    match platform {
        Platform::Linux => "nano"@,
        Platform::Windows => "notepad"@,
    }
}

/// The root directory of the store.
pub fn get_save_path(platform: Platform, home: &str, xdg_data_home: Option<&str>) -> (r: String)
    ensures
        r@ == data_directory(
            platform,
            home@,
            match xdg_data_home {
                Some(x) => Some(x@),
                None => None,
            },
        ),
{
    match platform {
        Platform::Linux => {
            match xdg_data_home {
                Some(x) => {
                    if !x.is_empty() {
                        let mut r = String::from_str(x);
                        r.append("/oxnotes");
                        return r;
                    }
                },
                None => {},
            }
            let mut r = String::from_str(home);
            r.append("/.local/share/oxnotes");
            r
        },
        Platform::Windows => {
            let mut r = String::from_str(home);
            r.append("/AppData/Roaming/oxnotes");
            r
        },
    }
}

/// The editor program for `platform`.
pub fn editor_command(platform: Platform) -> (r: String)
    ensures
        r@ == default_editor(platform),
{
    match platform {
        Platform::Linux => String::from_str("nano"),
        Platform::Windows => String::from_str("notepad"),
    }
}

} // verus!
