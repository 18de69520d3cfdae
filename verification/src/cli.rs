//! The command line: the commands and their arguments, and the options each
//! command runs with.

use vstd::prelude::*;

use crate::checksum::{ChecksumAlgorithm, ChecksumMode, DEFAULT_CHUNK_SIZE};
use crate::common::{merge_flags, GlobalFlags, DEFAULT_FLUSH_BATCH_SIZE};
use crate::generate::GenerateOptions;
use crate::manifest::ManifestFormat;
use crate::refresh::RefreshOptions;
use crate::verify::VerifyOptions;

verus! {

/// The commands.
#[derive(Debug)]
pub enum Commands {
    /// Generate a manifest for a directory.
    Generate {
        dirpath: String,
        output: Option<String>,
        algorithm: Option<ChecksumAlgorithm>,
        format: Option<ManifestFormat>,
        mode: Option<ChecksumMode>,
        glob: Option<String>,
        only: Option<Vec<String>>,
        exclude: Option<Vec<String>>,
        ignore_vcs: bool,
        chunk_size: usize,
        max_workers: Option<usize>,
        global_flags: GlobalFlags,
    },
    /// Verify the files of a directory against a manifest.
    Verify {
        dirpath: String,
        manifest: Option<String>,
        chunk_size: usize,
        max_workers: Option<usize>,
        global_flags: GlobalFlags,
    },
    /// Refresh the checksums of a manifest.
    Refresh {
        dirpath: String,
        manifest: Option<String>,
        chunk_size: usize,
        max_workers: Option<usize>,
        global_flags: GlobalFlags,
    },
}

/// The command line: a command, if any, and the top-level flags.
#[derive(Debug)]
pub struct Cli {
    pub command: Option<Commands>,
    pub global_flags: GlobalFlags,
}

/// The options a command runs with.
#[derive(Debug)]
pub enum CommandOptions {
    Generate(GenerateOptions),
    Verify(VerifyOptions),
    Refresh(RefreshOptions),
}

/// What the command line asks for: the flags in force and the command's options.
#[derive(Debug)]
pub struct Invocation {
    pub flags: GlobalFlags,
    pub options: CommandOptions,
}

/// The number of workers: the one asked for, else the machine's parallelism.
pub open spec fn workers(asked: Option<usize>, default_max_parallelism: usize) -> usize {
    match asked {
        Some(n) => n,
        None => default_max_parallelism,
    }
}

impl Cli {
    /// What the command line asks for. A command runs with the top-level
    /// flags merged with its own; no command verifies the current directory
    /// with the top-level flags. Output is off with `no_display` or `debug`;
    /// progress bars are off with either of those or `no_progress`.
    pub fn invocation(self, default_max_parallelism: usize, current_dir: String) -> (r: Invocation)
        ensures
            match self.command {
                Some(Commands::Generate {
                    dirpath,
                    output,
                    algorithm,
                    format,
                    mode,
                    glob,
                    only,
                    exclude,
                    ignore_vcs,
                    chunk_size,
                    max_workers,
                    global_flags,
                }) => {
                    let f = merge_flags(self.global_flags, global_flags);
                    &&& r.flags == f
                    &&& r.options matches CommandOptions::Generate(o)
                    &&& o.dirpath == dirpath && o.output == output && o.algorithm == algorithm
                        && o.format == format && o.mode == mode && o.glob == glob && o.only == only
                        && o.exclude == exclude && o.ignore_vcs == ignore_vcs && o.chunk_size == chunk_size
                    &&& o.max_workers == workers(max_workers, default_max_parallelism)
                    &&& o.debug == f.debug && o.no_display == (f.no_display || f.debug)
                    &&& o.no_progress == (f.no_progress || f.no_display || f.debug)
                    &&& o.verbosity == f.verbosity
                    &&& !o.force && o.flush_batch_size == DEFAULT_FLUSH_BATCH_SIZE
                },
                Some(Commands::Verify { dirpath, manifest, chunk_size, max_workers, global_flags }) => {
                    let f = merge_flags(self.global_flags, global_flags);
                    &&& r.flags == f
                    &&& r.options matches CommandOptions::Verify(o)
                    &&& o.dirpath == dirpath && o.manifest == manifest && o.chunk_size == chunk_size
                    &&& o.max_workers == workers(max_workers, default_max_parallelism)
                    &&& o.debug == f.debug && o.no_display == (f.no_display || f.debug)
                    &&& o.no_progress == (f.no_progress || f.no_display || f.debug)
                    &&& o.verbosity == f.verbosity
                },
                Some(Commands::Refresh { dirpath, manifest, chunk_size, max_workers, global_flags }) => {
                    let f = merge_flags(self.global_flags, global_flags);
                    &&& r.flags == f
                    &&& r.options matches CommandOptions::Refresh(o)
                    &&& o.dirpath == dirpath && o.manifest == manifest && o.chunk_size == chunk_size
                    &&& o.max_workers == workers(max_workers, default_max_parallelism)
                    &&& o.debug == f.debug && o.no_display == (f.no_display || f.debug)
                    &&& o.no_progress == (f.no_progress || f.no_display || f.debug)
                    &&& o.verbosity == f.verbosity
                },
                None => {
                    let f = self.global_flags;
                    &&& r.flags == f
                    &&& r.options matches CommandOptions::Verify(o)
                    &&& o.dirpath == current_dir && o.manifest is None && o.chunk_size == DEFAULT_CHUNK_SIZE
                    &&& o.max_workers == default_max_parallelism
                    &&& o.debug == f.debug && o.no_display == (f.no_display || f.debug)
                    &&& o.no_progress == (f.no_progress || f.no_display || f.debug)
                    &&& o.verbosity == f.verbosity
                },
            },
    {
        let top = self.global_flags;
        match self.command {
            Some(Commands::Generate {
                dirpath,
                output,
                algorithm,
                format,
                mode,
                glob,
                only,
                exclude,
                ignore_vcs,
                chunk_size,
                max_workers,
                global_flags,
            }) => {
                let f = top.merge(&global_flags);
                let options = GenerateOptions {
                    dirpath,
                    output,
                    algorithm,
                    format,
                    mode,
                    glob,
                    only,
                    exclude,
                    ignore_vcs,
                    chunk_size,
                    max_workers: match max_workers {
                        Some(n) => n,
                        None => default_max_parallelism,
                    },
                    debug: f.debug,
                    no_display: f.display_disabled(),
                    no_progress: f.progress_disabled(),
                    verbosity: f.verbosity,
                    force: false,
                    flush_batch_size: DEFAULT_FLUSH_BATCH_SIZE,
                };
                Invocation { flags: f, options: CommandOptions::Generate(options) }
            },
            Some(Commands::Verify { dirpath, manifest, chunk_size, max_workers, global_flags }) => {
                let f = top.merge(&global_flags);
                let options = VerifyOptions {
                    dirpath,
                    manifest,
                    chunk_size,
                    max_workers: match max_workers {
                        Some(n) => n,
                        None => default_max_parallelism,
                    },
                    debug: f.debug,
                    no_display: f.display_disabled(),
                    no_progress: f.progress_disabled(),
                    verbosity: f.verbosity,
                };
                Invocation { flags: f, options: CommandOptions::Verify(options) }
            },
            Some(Commands::Refresh { dirpath, manifest, chunk_size, max_workers, global_flags }) => {
                let f = top.merge(&global_flags);
                let options = RefreshOptions {
                    dirpath,
                    manifest,
                    chunk_size,
                    max_workers: match max_workers {
                        Some(n) => n,
                        None => default_max_parallelism,
                    },
                    debug: f.debug,
                    no_display: f.display_disabled(),
                    no_progress: f.progress_disabled(),
                    verbosity: f.verbosity,
                };
                Invocation { flags: f, options: CommandOptions::Refresh(options) }
            },
            None => {
                let options = VerifyOptions {
                    dirpath: current_dir,
                    manifest: None,
                    chunk_size: DEFAULT_CHUNK_SIZE,
                    max_workers: default_max_parallelism,
                    debug: top.debug,
                    no_display: top.display_disabled(),
                    no_progress: top.progress_disabled(),
                    verbosity: top.verbosity,
                };
                Invocation { flags: top, options: CommandOptions::Verify(options) }
            },
        }
    }
}

} // verus!
