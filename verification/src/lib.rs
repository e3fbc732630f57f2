//! Core engine of a multi-product install/update manager.
//!
//! Given a catalog (manifest) of independently versioned, platform-specific
//! products, this library resolves which version applies to a machine,
//! plans the normalization of downloaded archives (stripping an incidental
//! single wrapping directory), applies version-gated cleanup rules during
//! upgrades, and maintains the persisted per-product install state.
//!
//! All I/O (HTTP transport, the filesystem, process launch) lives outside
//! this crate; the library works on plain values and is verified.

use vstd::prelude::*;

pub mod extract;
pub mod install;
pub mod manifest;
pub mod orchestrate;
pub mod store;
pub mod strutil;
pub mod version;

verus! {

/// The platform an installation runs on.
///
/// Selecting the artifact slot and gating removal rules is done against this
/// runtime value rather than by conditional compilation, so the resolution
/// logic is testable on every host.
#[derive(Clone, Copy, PartialEq, Eq, Structural, Debug)]
pub enum Platform {
    Windows,
    MacArm,
    MacIntel,
    Linux,
}

impl Platform {
    /// The tag under which removal rules name this platform.
    pub fn tag(self) -> (r: &'static str)
        ensures
            r@ == self.spec_tag(),
    {
        match self {
            Platform::Windows => "windows",
            Platform::MacArm => "mac",
            Platform::MacIntel => "mac-intel",
            Platform::Linux => "linux",
        }
    }

    pub open spec fn spec_tag(self) -> Seq<char> {
        match self {
            Platform::Windows => "windows"@,
            Platform::MacArm => "mac"@,
            Platform::MacIntel => "mac-intel"@,
            Platform::Linux => "linux"@,
        }
    }
}

/// The name of the install-state file.
pub open spec fn spec_install_file_name() -> Seq<char> {
    seq!['i', 'n', 's', 't', 'a', 'l', 'l', 'e', 'r', '.', 'j', 's', 'o', 'n']
}

/// The path of the install-state file under the install root.
pub fn local_install_file(install_dir: &str) -> (r: String)
    ensures
        r@ == install_dir@ + seq!['/'] + spec_install_file_name(),
{
    let mut r = <String as vstd::string::StringExecFns>::from_str(install_dir);
    <String as vstd::string::StringExecFns>::append(&mut r, "/installer.json");
    proof {
        reveal_strlit("/installer.json");
        assert("/installer.json"@ =~= seq!['/'] + spec_install_file_name());
        assert(r@ =~= install_dir@ + seq!['/'] + spec_install_file_name());
    }
    r
}

/// The name of the extra-environment file read before starting a product.
pub open spec fn spec_environment_file_name() -> Seq<char> {
    seq!['.', 'e', 'n', 'v']
}

/// The path of the extra-environment file under the install root.
pub fn local_environment_file(install_dir: &str) -> (r: String)
    ensures
        r@ == install_dir@ + seq!['/'] + spec_environment_file_name(),
{
    let mut r = <String as vstd::string::StringExecFns>::from_str(install_dir);
    <String as vstd::string::StringExecFns>::append(&mut r, "/.env");
    proof {
        reveal_strlit("/.env");
        assert("/.env"@ =~= seq!['/'] + spec_environment_file_name());
        assert(r@ =~= install_dir@ + seq!['/'] + spec_environment_file_name());
    }
    r
}

} // verus!
