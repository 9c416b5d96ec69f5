//! The language server configuration: which extensions it handles, how to
//! start it and where its root directory is.

use vstd::prelude::*;

use crate::args::{spec_parse_cli, strings_view, ServerSpec};
use crate::text::{chars_of, push_char, str_eq};
use vstd::string::StringExecFns;

verus! {

/// The whole configuration.
#[derive(Debug)]
pub struct Config {
    pub server: ServerConfig,
}

/// One language server.
#[derive(Debug)]
pub struct ServerConfig {
    pub extensions: Vec<String>,
    pub command: Vec<String>,
    /// The server's root directory, relative to the workspace base unless absolute.
    pub root_dir: String,
}

/// Why a configuration is not valid.
#[derive(Clone, Copy, Debug, PartialEq, Eq, Structural)]
pub enum ConfigError {
    /// server has no extensions
    NoExtensions,
    /// server has empty command
    EmptyCommand,
}

/// Whether a server with these extensions and command is valid: it must
/// handle an extension and have a command.
pub open spec fn spec_validate(extensions: Seq<Seq<char>>, command: Seq<Seq<char>>) -> Result<(), ConfigError> {
    if extensions.len() == 0 {
        Err(ConfigError::NoExtensions)
    } else if command.len() == 0 {
        Err(ConfigError::EmptyCommand)
    } else {
        Ok(())
    }
}

/// Whether a path is absolute (starts at the root `/`).
pub open spec fn is_absolute(p: Seq<char>) -> bool {
    p.len() > 0 && p[0] == '/'
}

/// `base` joined with `p` (`Path::join`): an absolute `p` replaces `base`;
/// otherwise `p` follows `base`, with a `/` between them unless `base` is
/// empty or already ends with one.
pub open spec fn join_path(base: Seq<char>, p: Seq<char>) -> Seq<char> {
    if is_absolute(p) {
        p
    } else if base.len() > 0 && base.last() != '/' {
        base.push('/') + p
    } else {
        base + p
    }
}

impl Config {
    /// Builds a configuration from a command-line server specification; its
    /// root directory is the workspace base itself (`.`).
    pub fn from_server_spec(spec: ServerSpec) -> (res: Result<Config, ConfigError>)
        ensures
            match res {
                Ok(config) => spec_validate(strings_view(spec.extensions@), strings_view(spec.command@)) is Ok
                    && config.server.extensions@ == spec.extensions@
                    && config.server.command@ == spec.command@
                    && config.server.root_dir@ == "."@,
                Err(e) => spec_validate(strings_view(spec.extensions@), strings_view(spec.command@)) == Err::<(), ConfigError>(e),
            },
    {
        let server = ServerConfig {
            extensions: spec.extensions,
            command: spec.command,
            root_dir: String::from_str("."),
        };
        let config = Config { server };
        config.validate()?;
        Ok(config)
    }

    /// Checks that the server handles an extension and has a command.
    pub fn validate(&self) -> (res: Result<(), ConfigError>)
        ensures
            res == spec_validate(strings_view(self.server.extensions@), strings_view(self.server.command@)),
    {
        if self.server.extensions.len() == 0 {
            return Err(ConfigError::NoExtensions);
        }
        if self.server.command.len() == 0 {
            return Err(ConfigError::EmptyCommand);
        }
        Ok(())
    }

    /// Whether the server handles files with this extension.
    pub fn has_extension(&self, extension: &str) -> (res: bool)
        ensures
            res == strings_view(self.server.extensions@).contains(extension@),
    {
        let exts = &self.server.extensions;
        let ghost v = strings_view(exts@);
        let mut i: usize = 0;
        while i < exts.len()
            invariant
                i <= exts.len(),
                v == strings_view(exts@),
                v == strings_view(self.server.extensions@),
                forall|j: int| 0 <= j < i ==> v[j] != extension@,
            decreases exts.len() - i,
        {
            if str_eq(exts[i].as_str(), extension) {
                assert(v[i as int] == extension@);
                assert(v.contains(extension@));
                return true;
            }
            i = i + 1;
        }
        false
    }
}

impl ServerConfig {
    /// The server's root directory as a path from `base`: the root directory
    /// itself when absolute, else joined to `base` (the caller resolves it
    /// on the file system).
    pub fn resolve_root_dir(&self, base: &str) -> (res: String)
        ensures
            res@ == join_path(base@, self.root_dir@),
    {
        let b = chars_of(base);
        let r = chars_of(self.root_dir.as_str());
        let mut out = String::new();
        if r.len() > 0 && r[0] == '/' {
            return self.root_dir.clone();
        }
        let mut i: usize = 0;
        while i < b.len()
            invariant
                i <= b.len(),
                out@ == b@.take(i as int),
            decreases b.len() - i,
        {
            push_char(&mut out, b[i]);
            assert(b@.take(i + 1) =~= b@.take(i as int).push(b@[i as int]));
            i = i + 1;
        }
        assert(b@.take(b.len() as int) =~= b@);
        if b.len() > 0 && b[b.len() - 1] != '/' {
            push_char(&mut out, '/');
        }
        let ghost head = out@;
        let mut j: usize = 0;
        while j < r.len()
            invariant
                j <= r.len(),
                out@ == head + r@.take(j as int),
            decreases r.len() - j,
        {
            push_char(&mut out, r[j]);
            assert(r@.take(j + 1) =~= r@.take(j as int).push(r@[j as int]));
            j = j + 1;
        }
        assert(r@.take(r.len() as int) =~= r@);
        out
    }

    /// The program that starts the server and the arguments it is given.
    pub fn command_parts(&self) -> (res: (String, Vec<String>))
        requires
            self.command.len() > 0,
        ensures
            res.0@ == self.command@[0]@,
            strings_view(res.1@) == strings_view(self.command@).drop_first(),
    {
        let program = self.command[0].clone();
        let mut args: Vec<String> = Vec::new();
        let mut i: usize = 1;
        while i < self.command.len()
            invariant
                1 <= i <= self.command.len(),
                strings_view(args@) == strings_view(self.command@).subrange(1, i as int),
            decreases self.command.len() - i,
        {
            let ghost before = args@;
            args.push(self.command[i].clone());
            assert(strings_view(args@) =~= strings_view(before).push(self.command@[i as int]@));
            assert(strings_view(self.command@).subrange(1, i + 1) =~= strings_view(self.command@).subrange(1, i as int).push(
                self.command@[i as int]@,
            ));
            i = i + 1;
        }
        assert(strings_view(self.command@).subrange(1, i as int) =~= strings_view(self.command@).drop_first());
        (program, args)
    }
}

/// A command line that is read successfully gives a valid configuration.
pub proof fn law_parsed_cli_gives_valid_config(args: Seq<Seq<char>>)
    requires
        spec_parse_cli(args) is Ok,
    ensures
        spec_validate(spec_parse_cli(args)->Ok_0.extension, spec_parse_cli(args)->Ok_0.server) is Ok,
{
    crate::args::law_parsed_cli_is_complete(args);
}

} // verus!
