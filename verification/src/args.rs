//! Arguments of the built-in tools, as the model sends them, and the
//! effective values that the tools run with where an argument is left out or
//! out of range.
use vstd::prelude::*;
use crate::text::{decimal, owned, push_decimal, chars_of, string_of};

verus! {

/// `v` kept within `lo` and `hi`, as `Ord::clamp` does.
pub open spec fn clamp(v: int, lo: int, hi: int) -> int {
    if v < lo {
        lo
    } else if v > hi {
        hi
    } else {
        v
    }
}

/// Arguments of `read_file`.
#[derive(Debug)]
pub struct ReadFileArgs {
    pub path: String,
}

/// Arguments of `ingest_document`.
#[derive(Debug)]
pub struct IngestDocumentArgs {
    pub path: String,
    pub tags: Option<Vec<String>>,
}

/// Arguments of `read_many_files`.
#[derive(Debug)]
pub struct ReadManyFilesArgs {
    pub paths: Vec<String>,
}

/// Arguments of `write_file`.
#[derive(Debug)]
pub struct WriteFileArgs {
    pub path: String,
    pub content: String,
}

/// Arguments of `list_files`.
#[derive(Debug)]
pub struct ListFilesArgs {
    pub path: String,
}

/// Arguments of `file_exists`.
#[derive(Debug)]
pub struct FileExistsArgs {
    pub path: String,
}

/// Arguments of `file_info`.
#[derive(Debug)]
pub struct FileInfoArgs {
    pub path: String,
}

/// Arguments of `read_file_chunk`: `length` bytes from byte `offset`.
#[derive(Debug)]
pub struct ReadFileChunkArgs {
    pub path: String,
    pub offset: Option<u64>,
    pub length: Option<usize>,
}

impl ReadFileChunkArgs {
    /// The bytes to read: 8192 unless asked, kept within 1 and 65536.
    pub fn effective_length(&self) -> (r: usize)
        ensures
            r == clamp(
                match self.length {
                    Some(v) => v as int,
                    None => 8192,
                },
                1,
                65536,
            ),
    {
        let v: usize = match self.length {
            Some(v) => v,
            None => 8192,
        };
        if v < 1 {
            1
        } else if v > 65536 {
            65536
        } else {
            v
        }
    }

}

/// Arguments of `make_dir`.
#[derive(Debug)]
pub struct MakeDirArgs {
    pub path: String,
}

/// Arguments of `delete_file`.
#[derive(Debug)]
pub struct DeleteFileArgs {
    pub path: String,
}

/// Arguments of `move_file`.
#[derive(Debug)]
pub struct MoveFileArgs {
    pub source: String,
    pub destination: String,
}

/// Arguments of `search_files`: a regex `query` under `path`.
#[derive(Debug)]
pub struct SearchFilesArgs {
    pub query: String,
    pub path: Option<String>,
    pub search_content: Option<bool>,
    pub case_sensitive: Option<bool>,
    pub max_files: Option<usize>,
}

impl SearchFilesArgs {
    /// The entries to scan at most: 2000 unless asked, kept within 100 and 20000.
    pub fn effective_max_files(&self) -> (r: usize)
        ensures
            r == clamp(
                match self.max_files {
                    Some(v) => v as int,
                    None => 2000,
                },
                100,
                20000,
            ),
    {
        let v: usize = match self.max_files {
            Some(v) => v,
            None => 2000,
        };
        if v < 100 {
            100
        } else if v > 20000 {
            20000
        } else {
            v
        }
    }

}

/// Arguments of `execute_command`.
#[derive(Debug)]
pub struct ExecuteCommandArgs {
    pub command: String,
    pub args: Vec<String>,
    pub timeout_ms: Option<u64>,
}

/// Arguments of `git_status`.
#[derive(Debug)]
pub struct GitStatusArgs {
    pub path: Option<String>,
    pub short: Option<bool>,
}

/// Arguments of `git_diff`.
#[derive(Debug)]
pub struct GitDiffArgs {
    pub path: Option<String>,
    pub staged: Option<bool>,
}

/// Arguments of `git_log`.
#[derive(Debug)]
pub struct GitLogArgs {
    pub path: Option<String>,
    pub max_count: Option<u32>,
}

impl GitLogArgs {
    /// The commits to list: 20 unless asked, kept within 1 and 100.
    pub fn effective_max_count(&self) -> (r: u32)
        ensures
            r == clamp(
                match self.max_count {
                    Some(v) => v as int,
                    None => 20,
                },
                1,
                100,
            ),
    {
        let v: u32 = match self.max_count {
            Some(v) => v,
            None => 20,
        };
        if v < 1 {
            1
        } else if v > 100 {
            100
        } else {
            v
        }
    }

}

/// Arguments of `git_show`.
#[derive(Debug)]
pub struct GitShowArgs {
    pub path: Option<String>,
    pub target: Option<String>,
    pub max_lines: Option<u32>,
}

/// Arguments of `git_branch_list`.
#[derive(Debug)]
pub struct GitBranchListArgs {
    pub path: Option<String>,
    pub include_remote: Option<bool>,
}

/// Arguments of `web_search`.
#[derive(Debug)]
pub struct WebSearchArgs {
    pub query: String,
}

/// Arguments of `read_web_page`.
#[derive(Debug)]
pub struct ReadWebPageArgs {
    pub url: String,
}

/// Arguments of `browse_url`.
#[derive(Debug)]
pub struct BrowserNavigateArgs {
    pub url: String,
}

/// Arguments of `click_element`.
#[derive(Debug)]
pub struct BrowserClickArgs {
    pub selector: String,
}

/// Arguments of `wait_for_selector`.
#[derive(Debug)]
pub struct WaitForSelectorArgs {
    pub selector: String,
    pub timeout_ms: Option<u64>,
}

impl WaitForSelectorArgs {
    /// The wait in milliseconds: 10000 unless asked, kept within 500 and 60000.
    pub fn effective_timeout_ms(&self) -> (r: u64)
        ensures
            r == clamp(
                match self.timeout_ms {
                    Some(v) => v as int,
                    None => 10000,
                },
                500,
                60000,
            ),
    {
        let v: u64 = match self.timeout_ms {
            Some(v) => v,
            None => 10000,
        };
        if v < 500 {
            500
        } else if v > 60000 {
            60000
        } else {
            v
        }
    }

}

/// Arguments of `type_text`.
#[derive(Debug)]
pub struct TypeTextArgs {
    pub selector: String,
    pub text: String,
    pub clear_first: Option<bool>,
}

/// Arguments of `submit_form`.
#[derive(Debug)]
pub struct SubmitFormArgs {
    pub form_selector: Option<String>,
    pub submit_selector: Option<String>,
    pub wait_ms: Option<u64>,
}

impl SubmitFormArgs {
    /// The wait after submitting: 1200 ms unless asked, kept within 100 and 10000.
    pub fn effective_wait_ms(&self) -> (r: u64)
        ensures
            r == clamp(
                match self.wait_ms {
                    Some(v) => v as int,
                    None => 1200,
                },
                100,
                10000,
            ),
    {
        let v: u64 = match self.wait_ms {
            Some(v) => v,
            None => 1200,
        };
        if v < 100 {
            100
        } else if v > 10000 {
            10000
        } else {
            v
        }
    }

}

/// Arguments of `go_back`.
#[derive(Debug)]
pub struct GoBackArgs {
    pub wait_ms: Option<u64>,
}

impl GoBackArgs {
    /// The wait after going back: 1000 ms unless asked, kept within 100 and 10000.
    pub fn effective_wait_ms(&self) -> (r: u64)
        ensures
            r == clamp(
                match self.wait_ms {
                    Some(v) => v as int,
                    None => 1000,
                },
                100,
                10000,
            ),
    {
        let v: u64 = match self.wait_ms {
            Some(v) => v,
            None => 1000,
        };
        if v < 100 {
            100
        } else if v > 10000 {
            10000
        } else {
            v
        }
    }

}

/// Arguments of `extract_links`.
#[derive(Debug)]
pub struct ExtractLinksArgs {
    pub limit: Option<usize>,
}

impl ExtractLinksArgs {
    /// The links to return: 100 unless asked, kept within 1 and 500.
    pub fn effective_limit(&self) -> (r: usize)
        ensures
            r == clamp(
                match self.limit {
                    Some(v) => v as int,
                    None => 100,
                },
                1,
                500,
            ),
    {
        let v: usize = match self.limit {
            Some(v) => v,
            None => 100,
        };
        if v < 1 {
            1
        } else if v > 500 {
            500
        } else {
            v
        }
    }

}

/// Arguments of `http_get_json`.
#[derive(Debug)]
pub struct HttpGetJsonArgs {
    pub url: String,
    pub timeout_ms: Option<u64>,
    pub max_bytes: Option<usize>,
}

impl HttpGetJsonArgs {
    /// The request timeout: 15000 ms unless asked, kept within 1000 and 60000.
    pub fn effective_timeout_ms(&self) -> (r: u64)
        ensures
            r == clamp(
                match self.timeout_ms {
                    Some(v) => v as int,
                    None => 15000,
                },
                1000,
                60000,
            ),
    {
        let v: u64 = match self.timeout_ms {
            Some(v) => v,
            None => 15000,
        };
        if v < 1000 {
            1000
        } else if v > 60000 {
            60000
        } else {
            v
        }
    }

    /// The response size cap: 512 KiB unless asked, kept within 1 KiB and 2 MiB.
    pub fn effective_max_bytes(&self) -> (r: usize)
        ensures
            r == clamp(
                match self.max_bytes {
                    Some(v) => v as int,
                    None => 524288,
                },
                1024,
                2097152,
            ),
    {
        let v: usize = match self.max_bytes {
            Some(v) => v,
            None => 524288,
        };
        if v < 1024 {
            1024
        } else if v > 2097152 {
            2097152
        } else {
            v
        }
    }

}

/// Arguments of `http_get_text`.
#[derive(Debug)]
pub struct HttpGetTextArgs {
    pub url: String,
    pub timeout_ms: Option<u64>,
    pub max_bytes: Option<usize>,
}

impl HttpGetTextArgs {
    /// The request timeout: 15000 ms unless asked, kept within 1000 and 60000.
    pub fn effective_timeout_ms(&self) -> (r: u64)
        ensures
            r == clamp(
                match self.timeout_ms {
                    Some(v) => v as int,
                    None => 15000,
                },
                1000,
                60000,
            ),
    {
        let v: u64 = match self.timeout_ms {
            Some(v) => v,
            None => 15000,
        };
        if v < 1000 {
            1000
        } else if v > 60000 {
            60000
        } else {
            v
        }
    }

    /// The response size cap: 512 KiB unless asked, kept within 1 KiB and 2 MiB.
    pub fn effective_max_bytes(&self) -> (r: usize)
        ensures
            r == clamp(
                match self.max_bytes {
                    Some(v) => v as int,
                    None => 524288,
                },
                1024,
                2097152,
            ),
    {
        let v: usize = match self.max_bytes {
            Some(v) => v,
            None => 524288,
        };
        if v < 1024 {
            1024
        } else if v > 2097152 {
            2097152
        } else {
            v
        }
    }

}

/// Arguments of `list_files_detailed`.
#[derive(Debug)]
pub struct ListFilesDetailedArgs {
    pub path: Option<String>,
    pub include_hidden: Option<bool>,
    pub limit: Option<usize>,
}

impl ListFilesDetailedArgs {
    /// The entries to list: 200 unless asked, kept within 1 and 2000.
    pub fn effective_limit(&self) -> (r: usize)
        ensures
            r == clamp(
                match self.limit {
                    Some(v) => v as int,
                    None => 200,
                },
                1,
                2000,
            ),
    {
        let v: usize = match self.limit {
            Some(v) => v,
            None => 200,
        };
        if v < 1 {
            1
        } else if v > 2000 {
            2000
        } else {
            v
        }
    }

}
impl SearchFilesArgs {
    /// Whether file contents are searched: yes unless asked otherwise.
    pub fn effective_search_content(&self) -> (r: bool)
        ensures
            r == match self.search_content {
                Some(b) => b,
                None => true,
            },
    {
        match self.search_content {
            Some(b) => b,
            None => true,
        }
    }

    /// Whether the match is case-sensitive: no unless asked.
    pub fn effective_case_sensitive(&self) -> (r: bool)
        ensures
            r == match self.case_sensitive {
                Some(b) => b,
                None => false,
            },
    {
        match self.case_sensitive {
            Some(b) => b,
            None => false,
        }
    }
}

/// The path that a git tool runs in: the one asked, else the workspace (`.`).
pub fn git_target(path: &Option<String>) -> (r: String)
    ensures
        r@ == match path {
            Some(p) => p@,
            None => "."@,
        },
{
    match path {
        Some(p) => p.clone(),
        None => owned("."),
    }
}

pub open spec fn argv_view(v: Seq<String>) -> Seq<Seq<char>> {
    v.map_values(|s: String| s@)
}

impl GitStatusArgs {
    /// The arguments of `git`: `status`, and `--short` unless long output is asked.
    pub fn git_args(&self) -> (r: Vec<String>)
        ensures
            argv_view(r@) == if match self.short {
                Some(b) => b,
                None => true,
            } {
                seq!["status"@, "--short"@]
            } else {
                seq!["status"@]
            },
    {
        let mut v: Vec<String> = Vec::new();
        v.push(owned("status"));
        let short = match self.short {
            Some(b) => b,
            None => true,
        };
        if short {
            v.push(owned("--short"));
        }
        assert(argv_view(v@) =~= if short {
            seq!["status"@, "--short"@]
        } else {
            seq!["status"@]
        });
        v
    }
}

impl GitDiffArgs {
    /// The arguments of `git`: `diff`, and `--staged` where asked.
    pub fn git_args(&self) -> (r: Vec<String>)
        ensures
            argv_view(r@) == if match self.staged {
                Some(b) => b,
                None => false,
            } {
                seq!["diff"@, "--staged"@]
            } else {
                seq!["diff"@]
            },
    {
        let mut v: Vec<String> = Vec::new();
        v.push(owned("diff"));
        let staged = match self.staged {
            Some(b) => b,
            None => false,
        };
        if staged {
            v.push(owned("--staged"));
        }
        assert(argv_view(v@) =~= if staged {
            seq!["diff"@, "--staged"@]
        } else {
            seq!["diff"@]
        });
        v
    }
}

impl GitLogArgs {
    /// The arguments of `git`: a one-line log of the effective number of commits.
    pub fn git_args(&self) -> (r: Vec<String>)
        ensures
            argv_view(r@) == seq![
                "--no-pager"@,
                "log"@,
                "--oneline"@,
                seq!['-'] + decimal(
                    clamp(
                        match self.max_count {
                            Some(v) => v as int,
                            None => 20,
                        },
                        1,
                        100,
                    ) as nat,
                ),
            ],
    {
        let n = self.effective_max_count();
        let mut count: Vec<char> = Vec::new();
        count.push('-');
        push_decimal(&mut count, n as u64);
        let mut v: Vec<String> = Vec::new();
        v.push(owned("--no-pager"));
        v.push(owned("log"));
        v.push(owned("--oneline"));
        v.push(string_of(count.as_slice()));
        assert(count@ =~= seq!['-'] + decimal(n as nat));
        assert(argv_view(v@) =~= seq!["--no-pager"@, "log"@, "--oneline"@, count@]);
        v
    }
}

} // verus!
