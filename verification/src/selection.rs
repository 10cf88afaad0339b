//! Which date folders one invocation downloads.

use vstd::prelude::*;
use crate::text::names_of;
use crate::types::LogResult;

verus! {

/// How many of the latest date folders are asked for: the number given, or
/// one where neither a number nor a folder is given; none where only a folder
/// is given.
pub open spec fn latest_wanted(folder_given: bool, last: Option<usize>) -> Option<usize> {
    match last {
        Some(count) => Some(count),
        None => if folder_given {
            None
        } else {
            Some(1usize)
        },
    }
}

/// The first `count` names of `present`, or all of them if there are fewer;
/// none where the listing failed.
pub open spec fn latest_of(count: usize, present: Result<Seq<Seq<char>>, Seq<char>>) -> Seq<
    Seq<char>,
> {
    match present {
        Ok(names) => if count <= names.len() {
            names.take(count as int)
        } else {
            names
        },
        Err(_) => Seq::empty(),
    }
}

/// The folders to download: the one named, if any, then the latest.
pub open spec fn chosen(folder: Option<Seq<char>>, latest: Seq<Seq<char>>) -> Seq<Seq<char>> {
    match folder {
        Some(name) => seq![name] + latest,
        None => latest,
    }
}

/// Tells whether the date folders must be listed, and how many of the latest
/// are then downloaded.
pub fn latest_count(folder: &Option<String>, last: Option<usize>) -> (r: Option<usize>)
    ensures
        r == latest_wanted(folder is Some, last),
{
    match last {
        Some(count) => Some(count),
        None => if folder.is_some() {
            None
        } else {
            Some(1)
        },
    }
}

/// Keeps the first `count` of the folders listed, which come the latest
/// first.
pub fn take_latest(count: usize, present: LogResult<Vec<String>>) -> (r: Vec<String>)
    ensures
        names_of(r@) == latest_of(
            count,
            match present {
                Ok(names) => Ok(names_of(names@)),
                Err(error) => Err(error@),
            },
        ),
{
    match present {
        Ok(names) => {
            let mut names = names;
            names.truncate(count);
            names
        },
        Err(_) => Vec::new(),
    }
}

/// Puts the folder named on the command line before the latest ones.
pub fn folders_to_download(folder: Option<String>, latest: Vec<String>) -> (r: Vec<String>)
    ensures
        names_of(r@) == chosen(
            match folder {
                Some(name) => Some(name@),
                None => None,
            },
            names_of(latest@),
        ),
{
    match folder {
        Some(name) => {
            let mut out: Vec<String> = Vec::new();
            let mut latest = latest;
            out.push(name);
            out.append(&mut latest);
            out
        },
        None => latest,
    }
}

} // verus!
