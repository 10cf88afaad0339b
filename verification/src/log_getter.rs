//! The retrieval engine: the date folders of a device, and the download of
//! one of them.

use vstd::prelude::*;
use vstd::relations::sorted_by;
use crate::order::{latest_first, lemma_latest_first_is_total_order, sort_latest_first};
use crate::text::{
    chars_of,
    collapse,
    collapsed,
    ends_with,
    names_of,
    push_all,
    push_str,
    replace,
    replaced,
    rows_of,
    string_of,
};
use crate::types::{
    Configs,
    DirectoryEntry,
    FileIndex,
    LogGetter,
    LogOperations,
    LogResult,
    entries_of,
    listing_of,
};

verus! {

/// The path under which the date folders of `device` are listed.
pub open spec fn device_path(device: Seq<char>) -> Seq<char> {
    device.push('/')
}

/// The path of the date folder `folder` of `device` as it is written, before
/// doubled separators are collapsed.
pub open spec fn raw_folder_path(device: Seq<char>, folder: Seq<char>) -> Seq<char> {
    device.push('/') + folder.push('/')
}

/// The path of the date folder `folder` of `device`.
pub open spec fn folder_path(device: Seq<char>, folder: Seq<char>) -> Seq<char> {
    collapsed(raw_folder_path(device, folder))
}

/// Whether a file of this name is an archived log: its name ends with the
/// doubled suffix.
pub open spec fn is_archived_log(name: Seq<char>) -> bool {
    ".log.log"@.is_suffix_of(name)
}

/// The name under which an archived log arrives: each doubled suffix in it
/// becomes a single one.
pub open spec fn arrival_name(name: Seq<char>) -> Seq<char> {
    replaced(name, ".log.log"@, ".log"@)
}

/// Whether `entry` is downloaded with its folder.
pub open spec fn is_selected(entry: DirectoryEntry) -> bool {
    entry matches DirectoryEntry::File { name, .. } && is_archived_log(name)
}

/// The name of an entry.
pub open spec fn name_of(entry: DirectoryEntry) -> Seq<char> {
    match entry {
        DirectoryEntry::File { name, .. } => name,
        DirectoryEntry::Prefix { name } => name,
    }
}

/// One download: the remote path of a file, and the local path, relative to
/// the output root, at which it arrives.
#[derive(Clone, Debug, PartialEq, Eq)]
pub struct Transfer {
    pub from: String,
    pub to: String,
}

impl View for Transfer {
    type V = (Seq<char>, Seq<char>);

    open spec fn view(&self) -> (Seq<char>, Seq<char>) {
        (self.from@, self.to@)
    }
}

/// The pairs of paths that a vector of transfers stands for.
pub open spec fn transfers_of(v: Seq<Transfer>) -> Seq<(Seq<char>, Seq<char>)> {
    v.map_values(|t: Transfer| t@)
}

/// The download of the file `name` of the date folder `folder` of `device`.
pub open spec fn transfer_for(device: Seq<char>, folder: Seq<char>, name: Seq<char>) -> (
    Seq<char>,
    Seq<char>,
) {
    (folder_path(device, folder) + name, raw_folder_path(device, folder) + arrival_name(name))
}

/// The downloads that the listing `entries` of a date folder asks for, in the
/// order of the listing.
pub open spec fn transfers(device: Seq<char>, folder: Seq<char>, entries: Seq<DirectoryEntry>) -> Seq<
    (Seq<char>, Seq<char>),
>
    decreases entries.len(),
{
    if entries.len() == 0 {
        Seq::empty()
    } else {
        let before = transfers(device, folder, entries.drop_last());
        if is_selected(entries.last()) {
            before.push(transfer_for(device, folder, name_of(entries.last())))
        } else {
            before
        }
    }
}

/// Whether every entry is a prefix.
pub open spec fn all_prefixes(entries: Seq<DirectoryEntry>) -> bool {
    forall|i: int| 0 <= i < entries.len() ==> #[trigger] entries[i] is Prefix
}

/// The date folders that the listing `entries` of a device shows, the latest
/// first; or why it shows none: the listing is empty, or holds a file where
/// only folders belong.
pub open spec fn date_folders_of(entries: Seq<DirectoryEntry>) -> Result<
    Seq<Seq<char>>,
    Seq<char>,
> {
    if entries.len() == 0 {
        Err("No entries for this device"@)
    } else if !all_prefixes(entries) {
        Err("Failed to list dates, error : Should be prefixes only!"@)
    } else {
        Ok(entries.map_values(|e: DirectoryEntry| name_of(e)).sort_by(latest_first()))
    }
}

/// What the date folders of a device come to, given the outcome of the
/// listing: its failure, or the date folders it shows.
pub open spec fn folders_after(listing: Result<Seq<DirectoryEntry>, Seq<char>>) -> Result<
    Seq<Seq<char>>,
    Seq<char>,
> {
    match listing {
        Err(error) => Err(error),
        Ok(entries) => date_folders_of(entries),
    }
}

/// The outcome of listing date folders, over the names' views.
pub open spec fn folders_of(r: LogResult<Vec<String>>) -> Result<Seq<Seq<char>>, Seq<char>> {
    match r {
        Ok(names) => Ok(names_of(names@)),
        Err(error) => Err(error@),
    }
}

/// The date folders in `entries`, the latest first.
pub fn date_folders(entries: &Vec<FileIndex>) -> (r: LogResult<Vec<String>>)
    ensures
        folders_of(r) == date_folders_of(entries_of(entries@)),
{
    if entries.len() == 0 {
        return Err("No entries for this device".to_owned());
    }
    let ghost model = entries_of(entries@);
    let ghost wanted = model.map_values(|e: DirectoryEntry| name_of(e));
    let mut names: Vec<Vec<char>> = Vec::new();
    let mut i: usize = 0;
    while i < entries.len()
        invariant
            i <= entries.len(),
            model == entries_of(entries@),
            wanted == model.map_values(|e: DirectoryEntry| name_of(e)),
            forall|k: int| 0 <= k < i ==> #[trigger] model[k] is Prefix,
            rows_of(names@) == wanted.take(i as int),
        decreases entries.len() - i,
    {
        match &entries[i] {
            FileIndex::File(_) => {
                assert(!(model[i as int] is Prefix));
                return Err("Failed to list dates, error : Should be prefixes only!".to_owned());
            },
            FileIndex::Prefix(p) => {
                let name = chars_of(p.name.as_str());
                names.push(name);
                assert(rows_of(names@) == wanted.take(i as int).push(wanted[i as int]));
            },
        }
        i += 1;
    }
    assert(wanted.take(entries.len() as int) == wanted);
    let sorted = sort_latest_first(names);
    let mut out: Vec<String> = Vec::new();
    let mut k: usize = 0;
    while k < sorted.len()
        invariant
            k <= sorted.len(),
            names_of(out@) == rows_of(sorted@).take(k as int),
        decreases sorted.len() - k,
    {
        out.push(string_of(sorted[k].as_slice()));
        assert(names_of(out@) == rows_of(sorted@).take(k as int).push(sorted@[k as int]@));
        k += 1;
    }
    assert(rows_of(sorted@).take(sorted.len() as int) == rows_of(sorted@));
    Ok(out)
}

/// The date folders of a device, from the outcome of listing its path.
pub fn folders_from(listing: LogResult<Vec<FileIndex>>) -> (r: LogResult<Vec<String>>)
    ensures
        folders_of(r) == folders_after(listing_of(listing)),
{
    match listing {
        Err(error) => Err(error),
        Ok(entries) => date_folders(&entries),
    }
}

/// The path under which the date folders of `device` are listed.
pub fn path_of_device(device: &str) -> (r: String)
    ensures
        r@ == device_path(device@),
{
    let mut path = chars_of(device);
    path.push('/');
    string_of(path.as_slice())
}

/// The path of the date folder `folder` of `device`.
pub fn path_of_folder(device: &str, folder: &str) -> (r: String)
    ensures
        r@ == folder_path(device@, folder@),
{
    let mut path = chars_of(device);
    path.push('/');
    push_str(&mut path, folder);
    path.push('/');
    string_of(collapse(path.as_slice()).as_slice())
}

/// The downloads that the listing `entries` of the date folder `folder` of
/// `device` asks for.
pub fn plan_transfers(device: &str, folder: &str, entries: &Vec<FileIndex>) -> (r: Vec<Transfer>)
    ensures
        transfers_of(r@) == transfers(device@, folder@, entries_of(entries@)),
{
    let doubled = chars_of(".log.log");
    let single = chars_of(".log");
    let mut raw = chars_of(device);
    raw.push('/');
    push_str(&mut raw, folder);
    raw.push('/');
    let remote = collapse(raw.as_slice());
    let ghost model = entries_of(entries@);
    let mut out: Vec<Transfer> = Vec::new();
    let mut i: usize = 0;
    while i < entries.len()
        invariant
            i <= entries.len(),
            model == entries_of(entries@),
            doubled@ == ".log.log"@,
            single@ == ".log"@,
            raw@ == raw_folder_path(device@, folder@),
            remote@ == folder_path(device@, folder@),
            transfers_of(out@) == transfers(device@, folder@, model.take(i as int)),
        decreases entries.len() - i,
    {
        assert(model.take(i + 1).drop_last() == model.take(i as int));
        match &entries[i] {
            FileIndex::File(f) => {
                let name = chars_of(f.name.as_str());
                if ends_with(name.as_slice(), doubled.as_slice()) {
                    let mut from: Vec<char> = Vec::new();
                    push_all(&mut from, remote.as_slice());
                    push_all(&mut from, name.as_slice());
                    let mut to: Vec<char> = Vec::new();
                    push_all(&mut to, raw.as_slice());
                    let arrival = replace(name.as_slice(), doubled.as_slice(), single.as_slice());
                    push_all(&mut to, arrival.as_slice());
                    let transfer = Transfer {
                        from: string_of(from.as_slice()),
                        to: string_of(to.as_slice()),
                    };
                    assert(transfer@ == transfer_for(device@, folder@, f.name@));
                    out.push(transfer);
                }
            },
            FileIndex::Prefix(_) => {},
        }
        i += 1;
    }
    assert(model.take(entries.len() as int) == model);
    out
}

/// Whether the backend `op` can list the date folder `folder` of `device` as
/// `entries`, and can carry out each of the first `count` downloads that
/// this listing asks for.
pub open spec fn fetched<Op: LogOperations>(
    op: Op,
    device: Seq<char>,
    folder: Seq<char>,
    entries: Seq<DirectoryEntry>,
    count: int,
) -> bool {
    let wanted = transfers(device, folder, entries);
    &&& op.lists(folder_path(device, folder), Ok(entries))
    &&& 0 <= count <= wanted.len()
    &&& forall|i: int|
        0 <= i < count ==> op.downloads((#[trigger] wanted[i]).0, wanted[i].1, Ok(()))
}

/// No date folders come of a listing without entries, nor of one that holds a
/// file, wherever in the listing the file stands.
pub proof fn lemma_folders_need_prefixes_only(entries: Seq<DirectoryEntry>)
    ensures
        entries.len() == 0 ==> date_folders_of(entries) == Err::<Seq<Seq<char>>, Seq<char>>(
            "No entries for this device"@,
        ),
        forall|at: int|
            0 <= at < entries.len() && #[trigger] entries[at] is File ==> date_folders_of(entries)
                == Err::<Seq<Seq<char>>, Seq<char>>(
                "Failed to list dates, error : Should be prefixes only!"@,
            ),
{
}

/// The date folders of a listing that holds prefixes only are the names of
/// its entries, each as often as it is listed, in descending order.
pub proof fn lemma_date_folders_descend(entries: Seq<DirectoryEntry>)
    requires
        entries.len() > 0,
        all_prefixes(entries),
    ensures
        date_folders_of(entries) matches Ok(names) && {
            &&& sorted_by(names, latest_first())
            &&& names.to_multiset() == entries.map_values(
                |e: DirectoryEntry| name_of(e),
            ).to_multiset()
        },
{
    lemma_latest_first_is_total_order();
    entries.map_values(|e: DirectoryEntry| name_of(e)).lemma_sort_by_ensures(latest_first());
}

/// The downloads of a date folder are those of its archived logs, one for
/// each, in the order of the listing; no other entry is downloaded.
pub proof fn lemma_transfers_select_archived_logs(
    device: Seq<char>,
    folder: Seq<char>,
    entries: Seq<DirectoryEntry>,
)
    ensures
        transfers(device, folder, entries) == entries.filter(
            |e: DirectoryEntry| is_selected(e),
        ).map_values(|e: DirectoryEntry| transfer_for(device, folder, name_of(e))),
    decreases entries.len(),
{
    reveal(Seq::filter);
    if entries.len() > 0 {
        lemma_transfers_select_archived_logs(device, folder, entries.drop_last());
    }
}

/// The engine over a backend `Op`.
pub struct LogGetterImpl<Op: LogOperations> {
    op: Op,
}

impl<Op: LogOperations> LogGetterImpl<Op> {
    /// The backend that this engine asks.
    pub closed spec fn backend(&self) -> Op {
        self.op
    }

    /// An engine over the backend `op`.
    pub fn with_operations(op: Op) -> (r: Self)
        ensures
            r.backend() == op,
    {
        LogGetterImpl { op }
    }

    /// The backend that this engine asks.
    pub fn operations(&self) -> (r: &Op)
        ensures
            *r == self.backend(),
    {
        &self.op
    }
}

impl<Op: LogOperations> LogGetter for LogGetterImpl<Op> {
    /// Lists the path of `device` once and reports the date folders found
    /// there, the latest first.
    fn list_folders(&self, device: &String) -> (r: LogResult<Vec<String>>)
        ensures
            exists|listing: Result<Seq<DirectoryEntry>, Seq<char>>|
                #[trigger] self.backend().lists(device_path(device@), listing) && folders_of(r)
                    == folders_after(listing),
    {
        let path = path_of_device(device.as_str());
        let listing = self.op.ls(path.as_str());
        assert(self.backend().lists(device_path(device@), listing_of(listing)));
        folders_from(listing)
    }

    /// Lists the date folder once, then downloads the files it selects one
    /// after the other until one fails. Succeeds, with the folder's path,
    /// only if the listing and every one of the downloads did; fails with the
    /// error of the listing, or with that of the first download that failed.
    fn download_folder(&self, device: &String, folder: &String) -> (r: LogResult<String>)
        ensures
            r matches Ok(path) ==> path@ == folder_path(device@, folder@) && exists|
                entries: Seq<DirectoryEntry>,
            | #[trigger]
                fetched(
                    self.backend(),
                    device@,
                    folder@,
                    entries,
                    transfers(device@, folder@, entries).len() as int,
                ),
            r matches Err(error) ==> self.backend().lists(
                folder_path(device@, folder@),
                Err(error@),
            ) || exists|entries: Seq<DirectoryEntry>, failed: int|
                {
                    let wanted = transfers(device@, folder@, entries);
                    &&& #[trigger] fetched(self.backend(), device@, folder@, entries, failed)
                    &&& failed < wanted.len()
                    &&& self.backend().downloads(wanted[failed].0, wanted[failed].1, Err(error@))
                },
    {
        let path = path_of_folder(device.as_str(), folder.as_str());
        let listing = self.op.ls(path.as_str());
        let files = match listing {
            Ok(files) => files,
            Err(error) => {
                return Err(error);
            },
        };
        let ghost entries = entries_of(files@);
        let ghost wanted = transfers(device@, folder@, entries);
        let plan = plan_transfers(device.as_str(), folder.as_str(), &files);
        let mut i: usize = 0;
        while i < plan.len()
            invariant
                i <= plan.len(),
                transfers_of(plan@) == wanted,
                wanted == transfers(device@, folder@, entries),
                self.backend().lists(folder_path(device@, folder@), Ok(entries)),
                forall|k: int|
                    0 <= k < i ==> self.backend().downloads(
                        (#[trigger] wanted[k]).0,
                        wanted[k].1,
                        Ok(()),
                    ),
            decreases plan.len() - i,
        {
            let outcome = self.op.download(plan[i].from.as_str(), plan[i].to.as_str());
            match outcome {
                Ok(()) => {},
                Err(error) => {
                    assert(fetched(self.backend(), device@, folder@, entries, i as int));
                    return Err(error);
                },
            }
            i += 1;
        }
        assert(fetched(self.backend(), device@, folder@, entries, wanted.len() as int));
        Ok(path)
    }

    /// An engine over a backend newly built from `configs`.
    fn new(configs: Configs) -> (r: Self)
        ensures
            r.backend().built_from(configs),
    {
        LogGetterImpl { op: Op::new(configs) }
    }
}

} // verus!
