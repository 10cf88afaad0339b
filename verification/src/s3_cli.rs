//! The shell-backed backend, as far as it computes: the commands it runs and
//! what it makes of their outcome. Running a command and looking at the disk
//! are the caller's part.

use vstd::prelude::*;
use crate::listing::{
    entry_of,
    is_entry,
    lemma_listing_keeps_order,
    lemma_two_tokens_give_prefixes,
    lines,
    listing_entries,
    parse_listing,
    tokens,
};
use crate::text::{
    chars_of,
    collapse,
    collapsed,
    ends_in_name,
    lemma_doubled_separator_is_single,
    push_all,
    push_str,
    starts_with_name,
    string_of,
};
use crate::types::{Configs, DirectoryEntry, FileIndex, LogResult, listing_of};

verus! {

/// The address of `path` below the root `base` of the remote hierarchy.
pub open spec fn remote_path(base: Seq<char>, path: Seq<char>) -> Seq<char> {
    ("s3://"@ + base).push('/') + collapsed(path)
}

/// The command that lists `path` for the identity `profile`.
pub open spec fn ls_command_of(base: Seq<char>, profile: Seq<char>, path: Seq<char>) -> Seq<char> {
    "aws s3 ls "@ + remote_path(base, path) + " --profile "@ + profile
}

/// Where a download to `to` lands below the output root `output`.
pub open spec fn local_path(output: Seq<char>, to: Seq<char>) -> Seq<char> {
    output.push('/') + to
}

/// The command that copies `path` to `to` below `output` for the identity
/// `profile`.
pub open spec fn cp_command_of(
    base: Seq<char>,
    profile: Seq<char>,
    output: Seq<char>,
    path: Seq<char>,
    to: Seq<char>,
) -> Seq<char> {
    ("aws s3 cp "@ + remote_path(base, path)).push(' ') + local_path(output, to) + " --profile "@
        + profile
}

/// The message for a path under which nothing was listed.
pub open spec fn not_found(path: Seq<char>) -> Seq<char> {
    "File or path "@ + path + " was not found"@
}

/// What a listing of `path` comes to when the backend printed `output`: the
/// entries that `output` writes, or `not_found(path)` where it writes none.
pub open spec fn listed(path: Seq<char>, output: Seq<char>) -> Result<
    Seq<DirectoryEntry>,
    Seq<char>,
> {
    if listing_entries(output).len() == 0 {
        Err(not_found(path))
    } else {
        Ok(listing_entries(output))
    }
}

/// The message for a backend whose first listing failed with `error`.
pub open spec fn unreachable_message(configs: Configs, error: Seq<char>) -> Seq<char> {
    "Failed to do ls on logs base path "@ + configs.base_path@ + ", error : "@ + error
        + ". Possible reasons are :\n\n                1) You need to relogin with aws sso login --profile "@
        + configs.profile@
        + "\n                2) Base path is invalid\n                3) No internet connection\n                4) Profile doesn't exist or doesn't have permissions"@
}

/// A copy that is ready to run.
#[derive(Clone, Debug, PartialEq, Eq)]
pub struct CopyRequest {
    /// The command that copies the object.
    pub command: String,
    /// The local path at which the object must be found afterwards.
    pub target: String,
}

/// The backend that talks to the store through the `aws` command line.
pub struct AWSCliOperations {
    configs: Configs,
}

impl AWSCliOperations {
    /// The settings this backend works with.
    pub closed spec fn configs(&self) -> Configs {
        self.configs
    }

    /// A backend for `configs`. Whether it can reach the store is not known
    /// until `check_reachable` has seen a first listing.
    pub fn new(configs: Configs) -> (r: Self)
        ensures
            r.configs() == configs,
    {
        AWSCliOperations { configs }
    }

    /// The settings this backend works with.
    pub fn get_configs(&self) -> (r: &Configs)
        ensures
            *r == self.configs(),
    {
        &self.configs
    }

    /// The address of `path` in the store: below the base path, with doubled
    /// separators in `path` collapsed.
    pub fn get_path(&self, path: &str) -> (r: String)
        ensures
            r@ == remote_path(self.configs().base_path@, path@),
    {
        let mut out = chars_of("s3://");
        push_str(&mut out, self.configs.base_path.as_str());
        out.push('/');
        let path = chars_of(path);
        let path = collapse(path.as_slice());
        push_all(&mut out, path.as_slice());
        string_of(out.as_slice())
    }

    /// The command whose output is the listing of `path`.
    pub fn ls_command(&self, path: &str) -> (r: String)
        ensures
            r@ == ls_command_of(self.configs().base_path@, self.configs().profile@, path@),
    {
        let mut out = chars_of("aws s3 ls ");
        push_str(&mut out, self.get_path(path).as_str());
        push_str(&mut out, " --profile ");
        push_str(&mut out, self.configs.profile.as_str());
        string_of(out.as_slice())
    }

    /// Reads the listing of `path` from the `output` of its command.
    pub fn read_listing(path: &str, output: &str) -> (r: LogResult<Vec<FileIndex>>)
        ensures
            listing_of(r) == listed(path@, output@),
    {
        let entries = parse_listing(output);
        if entries.len() == 0 {
            let mut message = chars_of("File or path ");
            push_str(&mut message, path);
            push_str(&mut message, " was not found");
            Err(string_of(message.as_slice()))
        } else {
            Ok(entries)
        }
    }

    /// The local path of a download to `to`.
    pub fn local_target(&self, to: &str) -> (r: String)
        ensures
            r@ == local_path(self.configs().output_path@, to@),
    {
        let mut out = chars_of(self.configs.output_path.as_str());
        out.push('/');
        push_str(&mut out, to);
        string_of(out.as_slice())
    }

    /// The command that copies `path` to the local target of `to`.
    pub fn cp_command(&self, path: &str, to: &str) -> (r: String)
        ensures
            r@ == cp_command_of(
                self.configs().base_path@,
                self.configs().profile@,
                self.configs().output_path@,
                path@,
                to@,
            ),
    {
        let mut out = chars_of("aws s3 cp ");
        push_str(&mut out, self.get_path(path).as_str());
        out.push(' ');
        push_str(&mut out, self.local_target(to).as_str());
        push_str(&mut out, " --profile ");
        push_str(&mut out, self.configs.profile.as_str());
        string_of(out.as_slice())
    }

    /// First step of a download of `path` to `to`, once `path` has been
    /// listed with the outcome `probe`: the copy to run if the listing
    /// succeeded, and no copy if it failed.
    pub fn plan_copy(&self, path: &str, to: &str, probe: &LogResult<Vec<FileIndex>>) -> (r:
        LogResult<CopyRequest>)
        ensures
            r is Ok <==> probe is Ok,
            r matches Ok(copy) ==> {
                &&& copy.command@ == cp_command_of(
                    self.configs().base_path@,
                    self.configs().profile@,
                    self.configs().output_path@,
                    path@,
                    to@,
                )
                &&& copy.target@ == local_path(self.configs().output_path@, to@)
            },
            r matches Err(message) ==> message@ == "Failed to upload file, file not found"@,
    {
        match probe {
            Err(_) => Err("Failed to upload file, file not found".to_owned()),
            Ok(_) => Ok(CopyRequest { command: self.cp_command(path, to), target: self.local_target(to) }),
        }
    }

    /// Last step of a download: the copy has run, and `present` says whether
    /// its target is now on disk. Nothing else counts as success.
    pub fn confirm_copy(present: bool) -> (r: LogResult<()>)
        ensures
            r is Ok <==> present,
            r matches Err(message) ==> message@ == "Failed to download file!"@,
    {
        if present {
            Ok(())
        } else {
            Err("Failed to download file!".to_owned())
        }
    }

    /// Judges the first listing of the root, made right after construction:
    /// a failure means that the backend cannot be used, and comes back as a
    /// message that names the likely reasons.
    pub fn check_reachable(&self, probe: &LogResult<Vec<FileIndex>>) -> (r: LogResult<()>)
        ensures
            r is Ok <==> probe is Ok,
            r matches Err(message) ==> probe matches Err(error) && message@ == unreachable_message(
                self.configs(),
                error@,
            ),
    {
        match probe {
            Ok(_) => Ok(()),
            Err(error) => {
                let mut out = chars_of("Failed to do ls on logs base path ");
                push_str(&mut out, self.configs.base_path.as_str());
                push_str(&mut out, ", error : ");
                push_str(&mut out, error.as_str());
                push_str(
                    &mut out,
                    ". Possible reasons are :\n\n                1) You need to relogin with aws sso login --profile ",
                );
                push_str(&mut out, self.configs.profile.as_str());
                push_str(
                    &mut out,
                    "\n                2) Base path is invalid\n                3) No internet connection\n                4) Profile doesn't exist or doesn't have permissions",
                );
                Err(string_of(out.as_slice()))
            },
        }
    }
}

/// Where every line of the output holds exactly two tokens, the listing is
/// one prefix for each line, named by the line's second token; with no line
/// at all, nothing was found.
pub proof fn lemma_prefix_listing(path: Seq<char>, output: Seq<char>)
    requires
        forall|i: int|
            0 <= i < lines(output).len() ==> (#[trigger] tokens(lines(output)[i])).len() == 2,
    ensures
        listed(path, output) == if lines(output).len() == 0 {
            Err::<Seq<DirectoryEntry>, Seq<char>>(not_found(path))
        } else {
            Ok(
                lines(output).map_values(
                    |line: Seq<char>| DirectoryEntry::Prefix { name: tokens(line)[1] },
                ),
            )
        },
{
    lemma_two_tokens_give_prefixes(lines(output));
    assert(listing_entries(output) == lines(output).map_values(
        |line: Seq<char>| DirectoryEntry::Prefix { name: tokens(line)[1] },
    ));
}

/// A listing holds the entries of exactly those lines of the output that
/// write one, in the order of the lines; a line that writes none changes
/// nothing.
pub proof fn lemma_listing_skips_noise(path: Seq<char>, output: Seq<char>)
    ensures
        listing_entries(output) == lines(output).filter(|line: Seq<char>| is_entry(line)).map_values(
            |line: Seq<char>| entry_of(line)->Ok_0,
        ),
        listed(path, output) matches Ok(entries) ==> entries == listing_entries(output),
{
    lemma_listing_keeps_order(lines(output));
}

/// A doubled separator between two names of a path addresses what a single
/// one does.
pub proof fn lemma_remote_path_ignores_doubling(base: Seq<char>, head: Seq<char>, tail: Seq<char>)
    requires
        head.len() == 0 || ends_in_name(head),
        tail.len() == 0 || starts_with_name(tail),
    ensures
        remote_path(base, head + seq!['/', '/'] + tail) == remote_path(
            base,
            head + seq!['/'] + tail,
        ),
{
    lemma_doubled_separator_is_single(head, tail);
}

} // verus!
