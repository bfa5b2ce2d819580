//! The pipeline's configuration: the two model servers, the two model names,
//! the topology flag, and the folders the pipeline works in.  Loading and
//! persisting these is the surrounding program's business; the library only
//! holds and updates the value.

use vstd::prelude::*;

use vstd::string::StringExecFns;

verus! {

/// The pipeline's configuration.
pub struct AspargusSettings {
    /// The name of the vision model.
    pub computer_vision_model: String,
    /// The name of the text model.
    pub text_model: String,
    /// The folder holding the settings file.
    pub work_folder: String,
    /// The shared folder the sampled frames are written into.
    pub temp_folder: String,
    /// The path of the settings file.
    pub settings_path: String,
    /// The vision server's address.
    pub computer_vision_server: String,
    /// The text server's address.
    pub text_server: String,
    /// The vision server's port.
    pub computer_vision_server_port: u16,
    /// The text server's port.
    pub text_server_port: u16,
    /// Whether the pipeline runs in two steps (vision stage, then text
    /// stage) rather than one combined vision call.
    pub two_steps: bool,
}

/// The vision model used when none is configured.
pub fn get_default_cv_model() -> (r: String)
    ensures
        r@ == "gemma3:latest"@,
{
    String::from_str("gemma3:latest")
}

/// The text model used when none is configured.
pub fn get_default_text_model() -> (r: String)
    ensures
        r@ == "gemma3:1b"@,
{
    String::from_str("gemma3:1b")
}

/// The server address used when none is configured.
pub fn get_default_server_url() -> (r: String)
    ensures
        r@ == "http://localhost"@,
{
    String::from_str("http://localhost")
}

/// The server port used when none is configured.
pub fn get_default_server_port() -> (r: u16)
    ensures
        r == 11434,
{
    11434
}

/// The topology used when none is configured: one combined vision call.
pub fn get_default_two_steps() -> (r: bool)
    ensures
        r == false,
{
    false
}

impl AspargusSettings {
    /// Fresh settings over the given folders, every other field at its
    /// default.
    pub fn with_defaults(work_folder: String, temp_folder: String, settings_path: String) -> (s:
        AspargusSettings)
        ensures
            s.computer_vision_model@ == "gemma3:latest"@,
            s.text_model@ == "gemma3:1b"@,
            s.work_folder == work_folder,
            s.temp_folder == temp_folder,
            s.settings_path == settings_path,
            s.computer_vision_server@ == "http://localhost"@,
            s.text_server@ == "http://localhost"@,
            s.computer_vision_server_port == 11434,
            s.text_server_port == 11434,
            s.two_steps == false,
    {
        AspargusSettings {
            computer_vision_model: get_default_cv_model(),
            text_model: get_default_text_model(),
            work_folder,
            temp_folder,
            settings_path,
            computer_vision_server: get_default_server_url(),
            text_server: get_default_server_url(),
            computer_vision_server_port: get_default_server_port(),
            text_server_port: get_default_server_port(),
            two_steps: get_default_two_steps(),
        }
    }
}

} // verus!
