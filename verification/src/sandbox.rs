//! The WASM sandbox's decisions: which binaries it loads, which filesystem
//! modes a skill may ask for, how many network requests a run may make, and
//! how a run's outcome is reported as a tool result. Running the module is
//! the caller's part.
use vstd::prelude::*;
use crate::executor::CommandResult;
use crate::text::{chars_of, decimal, owned, push_all, push_decimal, string_of, trim, trim_str, trim_vec};
use crate::third_party::{InstalledThirdPartyMethod, InstalledThirdPartySkill};

verus! {

/// Largest binary the sandbox loads: 8 MiB.
pub const MAX_BINARY_BYTES: usize = 8388608;

/// Most bytes kept of a run's output, and of a response body: 64 KiB.
pub const MAX_STDIO_BYTES: usize = 65536;

/// Most memory a module may use: 50 MiB.
pub const MAX_MEMORY_BYTES: usize = 52428800;

/// Fuel a run may burn.
pub const FUEL_LIMIT: u64 = 5000000;

/// How long a run may take.
pub const EXEC_TIMEOUT_MS: u64 = 3000;

/// Most network requests a run may make.
pub const MAX_NETWORK_REQUESTS: usize = 4;

/// The filesystem access that a preopened directory gives.
#[derive(Debug, Clone, Copy, PartialEq, Eq, Structural)]
pub enum FsAccess {
    Read,
    ReadWrite,
}

pub open spec fn fs_mode_spec(mode: Seq<char>) -> Result<FsAccess, Seq<char>> {
    let m = trim(mode);
    if m == "read"@ {
        Ok(FsAccess::Read)
    } else if m == "read_write"@ {
        Ok(FsAccess::ReadWrite)
    } else {
        Err("Unsupported filesystem permission mode '"@ + m + "' (expected 'read' or 'read_write')"@)
    }
}

/// The access that a skill's filesystem mode asks for: `read` or
/// `read_write`, white space aside.
pub fn map_fs_mode(mode: &str) -> (r: Result<FsAccess, String>)
    ensures
        match fs_mode_spec(mode@) {
            Ok(a) => r == Ok::<FsAccess, String>(a),
            Err(e) => r matches Err(m) && m@ == e,
        },
{
    let m = trim_str(mode);
    if crate::text::str_eq(m.as_str(), "read") {
        Ok(FsAccess::Read)
    } else if crate::text::str_eq(m.as_str(), "read_write") {
        Ok(FsAccess::ReadWrite)
    } else {
        let mut v = chars_of("Unsupported filesystem permission mode '");
        push_all(&mut v, &chars_of(m.as_str()));
        push_all(&mut v, &chars_of("' (expected 'read' or 'read_write')"));
        Err(string_of(v.as_slice()))
    }
}

/// Whether the sandbox loads a binary: not larger than the limit, and
/// starting with the WASM magic number.
pub open spec fn binary_check(bytes: Seq<u8>, max: nat) -> Result<(), Seq<char>> {
    if bytes.len() > max {
        Err("Wasm binary too large ("@ + decimal(bytes.len()) + " bytes > "@ + decimal(max)
            + " bytes)"@)
    } else if bytes.len() < 8 || bytes.take(4) != seq![0u8, 0x61u8, 0x73u8, 0x6du8] {
        Err("Invalid wasm binary header"@)
    } else {
        Ok(())
    }
}

pub fn validate_wasm_bytes(bytes: &[u8]) -> (r: Result<(), String>)
    ensures
        match binary_check(bytes@, MAX_BINARY_BYTES as nat) {
            Ok(()) => r is Ok,
            Err(e) => r matches Err(m) && m@ == e,
        },
{
    let n = bytes.len();
    if n > MAX_BINARY_BYTES {
        let mut v = chars_of("Wasm binary too large (");
        push_decimal(&mut v, n as u64);
        push_all(&mut v, &chars_of(" bytes > "));
        push_decimal(&mut v, MAX_BINARY_BYTES as u64);
        push_all(&mut v, &chars_of(" bytes)"));
        return Err(string_of(v.as_slice()));
    }
    if n < 8 || bytes[0] != 0 || bytes[1] != 0x61 || bytes[2] != 0x73 || bytes[3] != 0x6d {
        proof {
            if n >= 8 && bytes@.take(4) == seq![0u8, 0x61u8, 0x73u8, 0x6du8] {
                assert(bytes@.take(4)[0] == bytes@[0]);
                assert(bytes@.take(4)[1] == bytes@[1]);
                assert(bytes@.take(4)[2] == bytes@[2]);
                assert(bytes@.take(4)[3] == bytes@[3]);
            }
        }
        return Err(owned("Invalid wasm binary header"));
    }
    assert(bytes@.take(4) =~= seq![0u8, 0x61u8, 0x73u8, 0x6du8]);
    Ok(())
}

/// Whether a run may make `count` network requests with the domains its
/// skill declares: any number is fine for none, some need declared domains,
/// and at most four are allowed.
pub open spec fn network_plan(count: nat, declared_domains: nat) -> Result<(), Seq<char>> {
    if count == 0 {
        Ok(())
    } else if declared_domains == 0 {
        Err("WASM sandbox networkRequests provided but skill declares no network permissions"@)
    } else if count > 4 {
        Err("WASM sandbox supports at most 4 networkRequests per execution"@)
    } else {
        Ok(())
    }
}

pub fn check_network_plan(count: usize, declared_domains: usize) -> (r: Result<(), String>)
    ensures
        match network_plan(count as nat, declared_domains as nat) {
            Ok(()) => r is Ok,
            Err(e) => r matches Err(m) && m@ == e,
        },
{
    if count == 0 {
        Ok(())
    } else if declared_domains == 0 {
        Err(owned("WASM sandbox networkRequests provided but skill declares no network permissions"))
    } else if count > MAX_NETWORK_REQUESTS {
        Err(owned("WASM sandbox supports at most 4 networkRequests per execution"))
    } else {
        Ok(())
    }
}

/// A run to perform: the skill, its method, and the parameters as JSON.
#[derive(Debug)]
pub struct WasmExecutionRequest {
    pub skill: InstalledThirdPartySkill,
    pub method: InstalledThirdPartyMethod,
    pub params_json: String,
}

/// What a run wrote and whether it succeeded.
#[derive(Debug)]
pub struct WasmExecutionResult {
    pub stdout: String,
    pub stderr: String,
    pub success: bool,
}

impl WasmExecutionResult {
    /// The tool result of the run: a success carries the output and any
    /// non-blank error text with exit code 0; a failure carries any
    /// non-blank output and the error text, or a generic message where that
    /// is blank, with exit code 1.
    pub fn into_command_result(self) -> (r: CommandResult)
        ensures
            r.success == self.success,
            self.success ==> {
                &&& r.output matches Some(o) && o@ == self.stdout@
                &&& (if trim(self.stderr@).len() == 0 {
                    r.error is None
                } else {
                    r.error matches Some(e) && e@ == self.stderr@
                })
                &&& r.exit_code == Some(0i32)
            },
            !self.success ==> {
                &&& (if trim(self.stdout@).len() == 0 {
                    r.output is None
                } else {
                    r.output matches Some(o) && o@ == self.stdout@
                })
                &&& r.error matches Some(e) && e@ == (if trim(self.stderr@).len() == 0 {
                    "WASM sandbox execution failed"@
                } else {
                    self.stderr@
                })
                &&& r.exit_code == Some(1i32)
            },
    {
        let stderr_blank = trim_vec(&chars_of(self.stderr.as_str())).len() == 0;
        if self.success {
            CommandResult {
                success: true,
                output: Some(self.stdout),
                error: if stderr_blank {
                    None
                } else {
                    Some(self.stderr)
                },
                exit_code: Some(0),
            }
        } else {
            let stdout_blank = trim_vec(&chars_of(self.stdout.as_str())).len() == 0;
            CommandResult {
                success: false,
                output: if stdout_blank {
                    None
                } else {
                    Some(self.stdout)
                },
                error: Some(
                    if stderr_blank {
                        owned("WASM sandbox execution failed")
                    } else {
                        self.stderr
                    },
                ),
                exit_code: Some(1),
            }
        }
    }
}

} // verus!
