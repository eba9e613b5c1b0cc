//! The records that `zfs … -j` and `zpool … -j` report, and the steps
//! from a decoded report to the entries a caller gets.
use vstd::prelude::*;
use crate::error::{ErrorView, ZfsError};
use crate::sorting::{sort_by_name, sorted_by_name, Named};
use crate::strmap::{entry_views, has_entry, has_key, StrMap};
use crate::text::{concat, concat3, str_eq};

verus! {

/// The version header of JSON output.
#[derive(Debug, Clone)]
pub struct OutputVersion {
    pub command: String,
    pub vers_major: u32,
    pub vers_minor: u32,
}

impl OutputVersion {
    /// Accepts output of major version 0, the only layout this library
    /// reads; any other is `IncompatibleOutput` for `command`.
    pub fn validate(&self, command: &'static str) -> (r: Result<(), ZfsError>)
        ensures
            self.vers_major == 0 ==> r is Ok,
            self.vers_major != 0 ==> (r matches Err(e) && e@ == ErrorView::IncompatibleOutput(
                command@,
                self.vers_major,
                self.vers_minor,
            )),
    {
        if self.vers_major == 0 {
            Ok(())
        } else {
            Err(
                ZfsError::IncompatibleOutput {
                    command,
                    major: self.vers_major,
                    minor: self.vers_minor,
                },
            )
        }
    }
}

/// The type of a dataset; a type this library does not know keeps its
/// wire name.
#[derive(Debug, Clone, PartialEq, Eq)]
#[non_exhaustive]
pub enum DatasetType {
    Filesystem,
    Volume,
    Snapshot,
    Bookmark,
    Unknown(String),
}

/// The name `zfs` takes on its command line for a dataset type.
pub open spec fn dataset_type_name(t: DatasetType) -> Seq<char> {
    match t {
        DatasetType::Filesystem => "filesystem"@,
        DatasetType::Volume => "volume"@,
        DatasetType::Snapshot => "snapshot"@,
        DatasetType::Bookmark => "bookmark"@,
        DatasetType::Unknown(v) => v@,
    }
}

/// The dataset type a JSON report's upper-case name stands for.
pub open spec fn dataset_type_of_wire(w: Seq<char>) -> Option<DatasetType> {
    if w == "FILESYSTEM"@ {
        Some(DatasetType::Filesystem)
    } else if w == "VOLUME"@ {
        Some(DatasetType::Volume)
    } else if w == "SNAPSHOT"@ {
        Some(DatasetType::Snapshot)
    } else if w == "BOOKMARK"@ {
        Some(DatasetType::Bookmark)
    } else {
        None
    }
}

impl DatasetType {
    /// The name `zfs` takes on its command line.
    pub fn cli_name(&self) -> (r: &str)
        ensures
            r@ == dataset_type_name(*self),
    {
        match self {
            DatasetType::Filesystem => "filesystem",
            DatasetType::Volume => "volume",
            DatasetType::Snapshot => "snapshot",
            DatasetType::Bookmark => "bookmark",
            DatasetType::Unknown(value) => value.as_str(),
        }
    }

    /// Reads the upper-case name a JSON report gives.
    pub fn from_wire(value: String) -> (r: DatasetType)
        ensures
            match dataset_type_of_wire(value@) {
                Some(t) => r == t,
                None => r matches DatasetType::Unknown(v) && v@ == value@,
            },
    {
        let s = value.as_str();
        if str_eq(s, "FILESYSTEM") {
            DatasetType::Filesystem
        } else if str_eq(s, "VOLUME") {
            DatasetType::Volume
        } else if str_eq(s, "SNAPSHOT") {
            DatasetType::Snapshot
        } else if str_eq(s, "BOOKMARK") {
            DatasetType::Bookmark
        } else {
            DatasetType::Unknown(value)
        }
    }
}

/// Where a property's value comes from; an unknown source keeps its wire name.
#[derive(Debug, Clone, PartialEq, Eq)]
#[non_exhaustive]
pub enum PropertySourceKind {
    NoSource,
    Local,
    Default,
    Inherited,
    Received,
    Temporary,
    Unknown(String),
}

/// The name `zfs get -s` takes for a source.
pub open spec fn source_kind_name(k: PropertySourceKind) -> Seq<char> {
    match k {
        PropertySourceKind::NoSource => "none"@,
        PropertySourceKind::Local => "local"@,
        PropertySourceKind::Default => "default"@,
        PropertySourceKind::Inherited => "inherited"@,
        PropertySourceKind::Received => "received"@,
        PropertySourceKind::Temporary => "temporary"@,
        PropertySourceKind::Unknown(v) => v@,
    }
}

/// The source a JSON report's upper-case name stands for.
pub open spec fn source_kind_of_wire(w: Seq<char>) -> Option<PropertySourceKind> {
    if w == "NONE"@ {
        Some(PropertySourceKind::NoSource)
    } else if w == "LOCAL"@ {
        Some(PropertySourceKind::Local)
    } else if w == "DEFAULT"@ {
        Some(PropertySourceKind::Default)
    } else if w == "INHERITED"@ {
        Some(PropertySourceKind::Inherited)
    } else if w == "RECEIVED"@ {
        Some(PropertySourceKind::Received)
    } else if w == "TEMPORARY"@ {
        Some(PropertySourceKind::Temporary)
    } else {
        None
    }
}

impl PropertySourceKind {
    /// The name `zfs get -s` takes.
    pub fn cli_name(&self) -> (r: &str)
        ensures
            r@ == source_kind_name(*self),
    {
        match self {
            PropertySourceKind::NoSource => "none",
            PropertySourceKind::Local => "local",
            PropertySourceKind::Default => "default",
            PropertySourceKind::Inherited => "inherited",
            PropertySourceKind::Received => "received",
            PropertySourceKind::Temporary => "temporary",
            PropertySourceKind::Unknown(value) => value.as_str(),
        }
    }

    /// Reads the upper-case name a JSON report gives.
    pub fn from_wire(value: String) -> (r: PropertySourceKind)
        ensures
            match source_kind_of_wire(value@) {
                Some(k) => r == k,
                None => r matches PropertySourceKind::Unknown(v) && v@ == value@,
            },
    {
        let s = value.as_str();
        if str_eq(s, "NONE") {
            PropertySourceKind::NoSource
        } else if str_eq(s, "LOCAL") {
            PropertySourceKind::Local
        } else if str_eq(s, "DEFAULT") {
            PropertySourceKind::Default
        } else if str_eq(s, "INHERITED") {
            PropertySourceKind::Inherited
        } else if str_eq(s, "RECEIVED") {
            PropertySourceKind::Received
        } else if str_eq(s, "TEMPORARY") {
            PropertySourceKind::Temporary
        } else {
            PropertySourceKind::Unknown(value)
        }
    }
}

/// Where a property's value comes from; for an inherited value, `data`
/// names the dataset it comes from.
#[derive(Debug, Clone)]
pub struct PropertySource {
    pub kind: PropertySourceKind,
    pub data: String,
}

/// A property's value and source.
#[derive(Debug, Clone)]
pub struct PropertyValue {
    pub value: String,
    pub source: PropertySource,
}

/// One dataset of `zfs list -j` or `zfs get -j`.
#[derive(Debug)]
pub struct ZfsListEntry {
    pub name: String,
    pub kind: DatasetType,
    pub pool: String,
    pub createtxg: String,
    /// For a snapshot: its dataset.
    pub dataset: Option<String>,
    /// For a snapshot: the part after `@`.
    pub snapshot_name: Option<String>,
    pub properties: StrMap<PropertyValue>,
}

/// `zfs get -j` reports datasets as `zfs list -j` does.
pub type ZfsGetEntry = ZfsListEntry;

/// A decoded `zfs list -j` report.
#[derive(Debug)]
pub struct ZfsListOutput {
    pub output_version: OutputVersion,
    pub datasets: StrMap<ZfsListEntry>,
}

/// A decoded `zfs get -j` report.
pub type ZfsGetOutput = ZfsListOutput;

/// One pool of `zpool list -j` or `zpool get -j`.
#[derive(Debug)]
pub struct ZpoolListEntry {
    pub name: String,
    pub kind: String,
    pub state: String,
    pub pool_guid: String,
    pub txg: String,
    pub spa_version: String,
    pub zpl_version: String,
    pub properties: StrMap<PropertyValue>,
}

/// `zpool get -j` reports pools as `zpool list -j` does.
pub type ZpoolGetEntry = ZpoolListEntry;

/// A decoded `zpool list -j` report.
#[derive(Debug)]
pub struct ZpoolListOutput {
    pub output_version: OutputVersion,
    pub pools: StrMap<ZpoolListEntry>,
}

/// A decoded `zpool get -j` report.
pub type ZpoolGetOutput = ZpoolListOutput;

/// A scrub or resilver, running or recently finished.
#[derive(Debug, Clone)]
pub struct ScanStatus {
    pub function: String,
    pub state: String,
    pub start_time: Option<String>,
    pub end_time: Option<String>,
}

/// A node of a pool's vdev tree; the root has `vdev_type` `root`, leaves
/// are disks or files, and mirrors and raidz groups hold their members.
#[derive(Debug)]
pub struct VdevStatus {
    pub name: String,
    pub vdev_type: String,
    pub guid: String,
    pub path: Option<String>,
    pub class: String,
    pub state: String,
    pub alloc_space: String,
    pub total_space: String,
    pub def_space: String,
    pub read_errors: String,
    pub write_errors: String,
    pub checksum_errors: String,
    pub rep_dev_size: Option<String>,
    pub phys_space: Option<String>,
    pub slow_ios: Option<String>,
    /// The members, keyed by vdev name.
    pub vdevs: Vec<(String, VdevStatus)>,
}

/// One pool of `zpool status -j`.
#[derive(Debug)]
pub struct ZpoolStatusEntry {
    pub name: String,
    pub state: String,
    pub pool_guid: String,
    pub txg: String,
    pub spa_version: String,
    pub zpl_version: String,
    pub error_count: String,
    /// The root vdev tree, keyed by vdev name.
    pub vdevs: StrMap<VdevStatus>,
    pub scan: Option<ScanStatus>,
}

/// A decoded `zpool status -j` report.
#[derive(Debug)]
pub struct ZpoolStatusOutput {
    pub output_version: OutputVersion,
    pub pools: StrMap<ZpoolStatusEntry>,
}

impl Named for ZfsListEntry {
    open spec fn name_of(&self) -> Seq<char> {
        self.name@
    }

    fn name(&self) -> (r: &str) {
        self.name.as_str()
    }
}

impl Named for ZpoolListEntry {
    open spec fn name_of(&self) -> Seq<char> {
        self.name@
    }

    fn name(&self) -> (r: &str) {
        self.name.as_str()
    }
}

impl Named for ZpoolStatusEntry {
    open spec fn name_of(&self) -> Seq<char> {
        self.name@
    }

    fn name(&self) -> (r: &str) {
        self.name.as_str()
    }
}

/// The values of a keyed report, in key order.
pub open spec fn map_values<V>(m: Seq<(Seq<char>, V)>) -> Seq<V> {
    m.map_values(|p: (Seq<char>, V)| p.1)
}

/// The values of `m`, in key order.
pub fn values_of<V>(m: StrMap<V>) -> (r: Vec<V>)
    ensures
        r@ == map_values(m@),
{
    let mut e = m.into_entries();
    let ghost all = entry_views(e@);
    let mut r: Vec<V> = Vec::new();
    let n: usize = e.len();
    let mut k: usize = 0;
    while k < n
        invariant
            k <= n == all.len(),
            all == m@,
            entry_views(e@) == all.skip(k as int),
            r@ == map_values(all.take(k as int)),
        decreases n - k,
    {
        assert(entry_views(e@).len() > 0);
        let ghost before = e@;
        let (_, v) = e.remove(0);
        assert(entry_views(before)[0] == all[k as int]);
        assert(v == all[k as int].1);
        assert(entry_views(e@) =~= entry_views(before).skip(1));
        assert(entry_views(e@) =~= all.skip(k + 1));
        r.push(v);
        assert(r@ =~= map_values(all.take(k + 1)));
        k = k + 1;
    }
    assert(all.take(n as int) =~= all);
    r
}

/// The entries of a report once its version is accepted: every value of
/// the report, ordered by name.
pub open spec fn sorted_entries<T: Named>(r: Seq<T>, m: Seq<(Seq<char>, T)>) -> bool {
    r.to_multiset() == map_values(m).to_multiset() && sorted_by_name(r)
}

/// The datasets of a `zfs list -j` report, ordered by name.
pub fn list_entries(output: ZfsListOutput) -> (r: Result<Vec<ZfsListEntry>, ZfsError>)
    ensures
        output.output_version.vers_major != 0 ==> (r matches Err(e) && e@
            == ErrorView::IncompatibleOutput(
            "zfs list"@,
            output.output_version.vers_major,
            output.output_version.vers_minor,
        )),
        output.output_version.vers_major == 0 ==> (r matches Ok(v) && sorted_entries(
            v@,
            output.datasets@,
        )),
{
    if let Err(e) = output.output_version.validate("zfs list") {
        return Err(e);
    }
    Ok(sort_by_name(values_of(output.datasets)))
}

/// The datasets of a `zfs get -j` report, ordered by name; this report's
/// version is not checked.
pub fn get_entries(output: ZfsGetOutput) -> (r: Vec<ZfsGetEntry>)
    ensures
        sorted_entries(r@, output.datasets@),
{
    sort_by_name(values_of(output.datasets))
}

/// The pools of a `zpool list -j` report, ordered by name.
pub fn pool_list_entries(output: ZpoolListOutput) -> (r: Result<Vec<ZpoolListEntry>, ZfsError>)
    ensures
        output.output_version.vers_major != 0 ==> (r matches Err(e) && e@
            == ErrorView::IncompatibleOutput(
            "zpool list"@,
            output.output_version.vers_major,
            output.output_version.vers_minor,
        )),
        output.output_version.vers_major == 0 ==> (r matches Ok(v) && sorted_entries(
            v@,
            output.pools@,
        )),
{
    if let Err(e) = output.output_version.validate("zpool list") {
        return Err(e);
    }
    Ok(sort_by_name(values_of(output.pools)))
}

/// The pools of a `zpool get -j` report, ordered by name.
pub fn pool_get_entries(output: ZpoolGetOutput) -> (r: Result<Vec<ZpoolGetEntry>, ZfsError>)
    ensures
        output.output_version.vers_major != 0 ==> (r matches Err(e) && e@
            == ErrorView::IncompatibleOutput(
            "zpool get"@,
            output.output_version.vers_major,
            output.output_version.vers_minor,
        )),
        output.output_version.vers_major == 0 ==> (r matches Ok(v) && sorted_entries(
            v@,
            output.pools@,
        )),
{
    if let Err(e) = output.output_version.validate("zpool get") {
        return Err(e);
    }
    Ok(sort_by_name(values_of(output.pools)))
}

/// The pools of a `zpool status -j` report, ordered by name.
pub fn pool_status_entries(output: ZpoolStatusOutput) -> (r: Result<
    Vec<ZpoolStatusEntry>,
    ZfsError,
>)
    ensures
        output.output_version.vers_major != 0 ==> (r matches Err(e) && e@
            == ErrorView::IncompatibleOutput(
            "zpool status"@,
            output.output_version.vers_major,
            output.output_version.vers_minor,
        )),
        output.output_version.vers_major == 0 ==> (r matches Ok(v) && sorted_entries(
            v@,
            output.pools@,
        )),
{
    if let Err(e) = output.output_version.validate("zpool status") {
        return Err(e);
    }
    Ok(sort_by_name(values_of(output.pools)))
}

/// The status of the pool named `pool` in a `zpool status -j` report.
#[verifier::loop_isolation(false)]
pub fn pool_status_entry(output: ZpoolStatusOutput, pool: &str) -> (r: Result<
    ZpoolStatusEntry,
    ZfsError,
>)
    ensures
        output.output_version.vers_major != 0 ==> (r matches Err(e) && e@
            == ErrorView::IncompatibleOutput(
            "zpool status"@,
            output.output_version.vers_major,
            output.output_version.vers_minor,
        )),
        output.output_version.vers_major == 0 ==> match r {
            Ok(p) => p.name@ == pool@ && map_values(output.pools@).contains(p),
            Err(e) => e@ == ErrorView::Other(None, "zpool status returned no entry for "@ + pool@)
                && forall|i: int|
                0 <= i < output.pools@.len() ==> (#[trigger] output.pools@[i]).1.name@ != pool@,
        },
{
    if let Err(e) = output.output_version.validate("zpool status") {
        return Err(e);
    }
    let ghost m = output.pools@;
    let mut vals = values_of(output.pools);
    let n: usize = vals.len();
    let mut i: usize = 0;
    while i < n
        invariant
            i <= n,
            vals@.len() == n - i,
            map_values(m).len() == n,
            vals@ == map_values(m).skip(i as int),
            forall|j: int| 0 <= j < i ==> (#[trigger] m[j]).1.name@ != pool@,
        decreases n - i,
    {
        let ghost before = vals@;
        let p = vals.remove(0);
        assert(p == before[0]);
        assert(p == map_values(m)[i as int]);
        assert(vals@ =~= map_values(m).skip(i + 1));
        if str_eq(p.name.as_str(), pool) {
            assert(map_values(m)[i as int] == p);
            return Ok(p);
        }
        i = i + 1;
    }
    Err(
        ZfsError::Other {
            exit_code: None,
            stderr: concat("zpool status returned no entry for ", pool),
        },
    )
}

/// Takes `property` out of a property map: the value stored under it.
#[verifier::loop_isolation(false)]
fn take_property(props: StrMap<PropertyValue>, property: &str) -> (r: Option<PropertyValue>)
    ensures
        match r {
            Some(v) => has_entry(props@, property@, v),
            None => !has_key(props@, property@),
        },
{
    let ghost m = props@;
    let mut e = props.into_entries();
    let n: usize = e.len();
    let mut i: usize = 0;
    while i < n
        invariant
            i <= n == m.len(),
            entry_views(e@) == m.skip(i as int),
            forall|j: int| 0 <= j < i ==> (#[trigger] m[j]).0 != property@,
        decreases n - i,
    {
        assert(entry_views(e@).len() > 0);
        let ghost before = e@;
        let (k, v) = e.remove(0);
        assert(entry_views(before)[0] == m[i as int]);
        assert((k@, v) == m[i as int]);
        assert(entry_views(e@) =~= entry_views(before).skip(1));
        assert(entry_views(e@) =~= m.skip(i + 1));
        if str_eq(k.as_str(), property) {
            return Some(v);
        }
        i = i + 1;
    }
    None
}

/// The value of `property` for `dataset` from the entries `zfs get`
/// gave: read from the first entry.
pub fn dataset_property(entries: Vec<ZfsGetEntry>, dataset: &str, property: &str) -> (r: Result<
    PropertyValue,
    ZfsError,
>)
    ensures
        entries@.len() == 0 ==> (r matches Err(e) && e@ == ErrorView::Other(
            None,
            "zfs get"@ + " returned no entries for "@ + dataset@,
        )),
        entries@.len() > 0 ==> match r {
            Ok(v) => has_entry(entries@[0].properties@, property@, v),
            Err(e) => !has_key(entries@[0].properties@, property@) && e@ == ErrorView::Other(
                None,
                "property '"@ + property@ + "' not in response for "@ + dataset@,
            ),
        },
{
    proof {
        reveal_strlit("zfs get");
    }
    first_property(entries, "zfs get", dataset, property)
}

/// The value of `property` for `pool` from the entries `zpool get` gave.
pub fn pool_property(entries: Vec<ZpoolGetEntry>, pool: &str, property: &str) -> (r: Result<
    PropertyValue,
    ZfsError,
>)
    ensures
        entries@.len() == 0 ==> (r matches Err(e) && e@ == ErrorView::Other(
            None,
            "zpool get returned no entries for "@ + pool@,
        )),
        entries@.len() > 0 ==> match r {
            Ok(v) => has_entry(entries@[0].properties@, property@, v),
            Err(e) => !has_key(entries@[0].properties@, property@) && e@ == ErrorView::Other(
                None,
                "property '"@ + property@ + "' not in response for "@ + pool@,
            ),
        },
{
    let mut entries = entries;
    if entries.len() == 0 {
        return Err(
            ZfsError::Other {
                exit_code: None,
                stderr: concat("zpool get returned no entries for ", pool),
            },
        );
    }
    let first = entries.remove(0);
    match take_property(first.properties, property) {
        Some(v) => Ok(v),
        None => Err(
            ZfsError::Other {
                exit_code: None,
                stderr: concat(
                    concat3("property '", property, "' not in response for ").as_str(),
                    pool,
                ),
            },
        ),
    }
}

/// `dataset_property` with the command named.
fn first_property(
    entries: Vec<ZfsGetEntry>,
    what: &str,
    dataset: &str,
    property: &str,
) -> (r: Result<PropertyValue, ZfsError>)
    ensures
        entries@.len() == 0 ==> (r matches Err(e) && e@ == ErrorView::Other(
            None,
            what@ + " returned no entries for "@ + dataset@,
        )),
        entries@.len() > 0 ==> match r {
            Ok(v) => has_entry(entries@[0].properties@, property@, v),
            Err(e) => !has_key(entries@[0].properties@, property@) && e@ == ErrorView::Other(
                None,
                "property '"@ + property@ + "' not in response for "@ + dataset@,
            ),
        },
{
    let mut entries = entries;
    if entries.len() == 0 {
        return Err(
            ZfsError::Other {
                exit_code: None,
                stderr: concat3(what, " returned no entries for ", dataset),
            },
        );
    }
    let first = entries.remove(0);
    match take_property(first.properties, property) {
        Some(v) => Ok(v),
        None => Err(
            ZfsError::Other {
                exit_code: None,
                stderr: concat(
                    concat3("property '", property, "' not in response for ").as_str(),
                    dataset,
                ),
            },
        ),
    }
}

/// Whether a listing of one name shows it: an answer with entries is yes,
/// the "not found" error of its kind (a pool's where `pool`, else a
/// dataset's) is no, and any other error is kept.
pub open spec fn existence(r: Result<nat, ErrorView>, pool: bool) -> Result<bool, ErrorView> {
    match r {
        Ok(n) => Ok(n > 0),
        Err(ErrorView::PoolNotFound(_)) if pool => Ok(false),
        Err(ErrorView::DatasetNotFound(_)) if !pool => Ok(false),
        Err(e) => Err(e),
    }
}

/// Reads a listing of one name as whether it exists.
pub fn exists_from_listing<T>(r: Result<Vec<T>, ZfsError>, pool: bool) -> (e: Result<bool, ZfsError>)
    ensures
        match r {
            Ok(v) => e == Ok::<bool, ZfsError>(v@.len() > 0),
            Err(x) => match existence(Err(x@), pool) {
                Ok(b) => e == Ok::<bool, ZfsError>(b),
                Err(f) => e matches Err(y) && y@ == f,
            },
        },
{
    match r {
        Ok(v) => Ok(v.len() > 0),
        Err(ZfsError::PoolNotFound { name }) => if pool {
            Ok(false)
        } else {
            Err(ZfsError::PoolNotFound { name })
        },
        Err(ZfsError::DatasetNotFound { name }) => if !pool {
            Ok(false)
        } else {
            Err(ZfsError::DatasetNotFound { name })
        },
        Err(x) => Err(x),
    }
}

} // verus!
