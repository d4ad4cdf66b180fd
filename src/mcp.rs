//! Records of the model-context server's installation and registration,
//! and the names that depend on the platform.

use vstd::prelude::*;

verus! {

/// How an installation step ended, or that it printed something.
#[derive(PartialEq, Eq, Structural, Clone, Copy, Debug)]
pub enum McpInstallStatus {
    Success,
    Error,
    Output,
}

/// A progress message of the server's installation.
#[derive(Clone, Debug)]
pub struct McpInstallOutput {
    pub status: McpInstallStatus,
    pub output: String,
}

/// How a registration step ended, or that it printed something.
#[derive(PartialEq, Eq, Structural, Clone, Copy, Debug)]
pub enum McpRegisterStatus {
    Success,
    Error,
    Output,
}

/// A progress message of the server's registration with a client.
#[derive(Clone, Debug)]
pub struct McpRegisterOutput {
    pub status: McpRegisterStatus,
    pub output: String,
}

/// An assistant application that the server can be registered with.
#[derive(PartialEq, Eq, Structural, Clone, Copy, Debug)]
pub enum ClientType {
    ClaudeDesktop,
    Cursor,
}

/// The operating systems that a server binary is shipped for.
#[derive(PartialEq, Eq, Structural, Clone, Copy, Debug)]
pub enum TargetOs {
    Windows,
    Linux,
    MacOs,
}

/// The processor families that tell the binaries apart.
#[derive(PartialEq, Eq, Structural, Clone, Copy, Debug)]
pub enum TargetArch {
    Aarch64,
    X86_64,
}

/// Where the server binary for a platform lies among the resources.
pub open spec fn mcp_binary_path(os: TargetOs, arch: TargetArch) -> Seq<char> {
    match os {
        TargetOs::Windows => "enzymeml-mcp-x86_64-pc-windows-msvc/enzymeml-mcp.exe"@,
        TargetOs::Linux => match arch {
            TargetArch::Aarch64 => "enzymeml-mcp-aarch64-unknown-linux-gnu/enzymeml-mcp"@,
            TargetArch::X86_64 => "enzymeml-mcp-x86_64-unknown-linux-gnu/enzymeml-mcp"@,
        },
        TargetOs::MacOs => match arch {
            TargetArch::Aarch64 => "enzymeml-mcp-aarch64-apple-darwin/enzymeml-mcp"@,
            TargetArch::X86_64 => "enzymeml-mcp-x86_64-apple-darwin/enzymeml-mcp"@,
        },
    }
}

/// The resource path of the server binary for a platform.
pub fn resource_mcp_name(os: TargetOs, arch: TargetArch) -> (r: String)
    ensures
        r@ == mcp_binary_path(os, arch),
{
    match os {
        TargetOs::Windows => "enzymeml-mcp-x86_64-pc-windows-msvc/enzymeml-mcp.exe",
        TargetOs::Linux => match arch {
            TargetArch::Aarch64 => "enzymeml-mcp-aarch64-unknown-linux-gnu/enzymeml-mcp",
            TargetArch::X86_64 => "enzymeml-mcp-x86_64-unknown-linux-gnu/enzymeml-mcp",
        },
        TargetOs::MacOs => match arch {
            TargetArch::Aarch64 => "enzymeml-mcp-aarch64-apple-darwin/enzymeml-mcp",
            TargetArch::X86_64 => "enzymeml-mcp-x86_64-apple-darwin/enzymeml-mcp",
        },
    }.to_string()
}

/// The SHA-256 digest of a byte sequence.
pub uninterp spec fn sha256_of(b: Seq<u8>) -> Seq<u8>;

/// Relies on sha2's `Sha256` through `Digest::digest`: the 32-byte SHA-256
/// digest of the bytes.
#[verifier::external_body]
fn sha256(b: &[u8]) -> (r: Vec<u8>)
    ensures
        r@ == sha256_of(b@),
        r@.len() == 32,
{
    <sha2::Sha256 as sha2::Digest>::digest(b).to_vec()
}

/// The SHA-256 digest of a file's contents.
pub fn compute_file_hash(contents: &[u8]) -> (r: Vec<u8>)
    ensures
        r@ == sha256_of(contents@),
{
    sha256(contents)
}

/// Whether two byte sequences differ.
pub fn bytes_differ(a: &[u8], b: &[u8]) -> (r: bool)
    ensures
        r == (a@ != b@),
{
    if a.len() != b.len() {
        return true;
    }
    let mut i: usize = 0;
    while i < a.len()
        invariant
            i <= a@.len() == b@.len(),
            forall|j: int| 0 <= j < i ==> a@[j] == b@[j],
        decreases a@.len() - i,
    {
        if a[i] != b[i] {
            return true;
        }
        i = i + 1;
    }
    assert(a@ =~= b@);
    false
}

/// Whether the server binary must be copied into place: where none is
/// installed, or the installed one's digest differs from the shipped one's.
pub fn install_needed(installed: Option<&[u8]>, shipped: &[u8]) -> (r: bool)
    ensures
        r == match installed {
            None => true,
            Some(c) => sha256_of(c@) != sha256_of(shipped@),
        },
{
    match installed {
        None => true,
        Some(c) => {
            let existing_hash = compute_file_hash(c);
            let resource_hash = compute_file_hash(shipped);
            bytes_differ(existing_hash.as_slice(), resource_hash.as_slice())
        },
    }
}

} // verus!
