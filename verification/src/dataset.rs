//! Dataset commands of `zfs`: their argument lists, and how their exit
//! and stderr are judged.
use vstd::prelude::*;
use crate::args::{flag_if, push_all, push_flag, push_str, single};
use crate::error::{check_status_tolerating, tolerant_outcome, ErrorView, ZfsError};
use crate::models::{dataset_type_name, source_kind_name, DatasetType, PropertySourceKind};
use crate::text::{concat3, decimal, decimal_string, join, join_with, views};

verus! {

/// `-o key=value` for each property, in order.
pub open spec fn option_pairs(p: Seq<(String, String)>) -> Seq<Seq<char>>
    decreases p.len(),
{
    if p.len() == 0 {
        Seq::<Seq<char>>::empty()
    } else {
        option_pairs(p.drop_last()) + seq!["-o"@, p.last().0@ + "="@ + p.last().1@]
    }
}

/// `key=value` for each property, in order.
pub open spec fn assignments(p: Seq<(&str, &str)>) -> Seq<Seq<char>>
    decreases p.len(),
{
    if p.len() == 0 {
        Seq::<Seq<char>>::empty()
    } else {
        assignments(p.drop_last()) + seq![p.last().0@ + "="@ + p.last().1@]
    }
}

/// The views of a list of names.
pub open spec fn str_views(p: Seq<&str>) -> Seq<Seq<char>> {
    p.map_values(|s: &str| s@)
}

/// Appends `-o key=value` for each property.
fn push_option_pairs(args: &mut Vec<String>, p: &Vec<(String, String)>)
    ensures
        views(final(args)@) == views(old(args)@) + option_pairs(p@),
{
    let mut i: usize = 0;
    assert(p@.take(0) =~= Seq::<(String, String)>::empty());
    while i < p.len()
        invariant
            i <= p@.len(),
            views(args@) == views(old(args)@) + option_pairs(p@.take(i as int)),
        decreases p@.len() - i,
    {
        assert(p@.take(i + 1).drop_last() =~= p@.take(i as int));
        push_str(args, "-o");
        let kv = concat3(p[i].0.as_str(), "=", p[i].1.as_str());
        push_str(args, kv.as_str());
        i = i + 1;
    }
    assert(p@.take(i as int) =~= p@);
}

/// Appends each of `names`.
fn push_names(args: &mut Vec<String>, names: &[&str])
    ensures
        views(final(args)@) == views(old(args)@) + str_views(names@),
{
    let mut i: usize = 0;
    while i < names.len()
        invariant
            i <= names@.len(),
            views(args@) == views(old(args)@) + str_views(names@).take(i as int),
        decreases names@.len() - i,
    {
        push_str(args, names[i]);
        assert(str_views(names@).take(i + 1) =~= str_views(names@).take(i as int).push(names@[i as int]@));
        i = i + 1;
    }
    assert(str_views(names@).take(i as int) =~= str_views(names@));
}

/// Options of `zfs create`; the name is given apart.
#[derive(Default, Clone, Debug)]
pub struct CreateOptions {
    /// `-o name=value` properties set at creation.
    pub properties: Vec<(String, String)>,
    /// `-p`: create missing parents.
    pub create_parents: bool,
    /// `-u`: do not mount the new dataset.
    pub no_mount: bool,
}

/// `zfs create [-p] [-u] [-o k=v]… <name>`.
pub open spec fn create_args(o: CreateOptions, name: Seq<char>) -> Seq<Seq<char>> {
    seq!["create"@] + flag_if(o.create_parents, "-p"@) + flag_if(o.no_mount, "-u"@) + option_pairs(
        o.properties@,
    ) + seq![name]
}

impl CreateOptions {
    /// No properties, no flags.
    pub fn new() -> (r: CreateOptions)
        ensures
            r.properties@.len() == 0 && !r.create_parents && !r.no_mount,
    {
        CreateOptions { properties: Vec::new(), create_parents: false, no_mount: false }
    }

    /// Adds `-o k=v`.
    pub fn property(self, k: &str, v: &str) -> (r: CreateOptions)
        ensures
            r.properties@.len() == self.properties@.len() + 1,
            r.properties@.drop_last() == self.properties@,
            r.properties@.last().0@ == k@ && r.properties@.last().1@ == v@,
            r.create_parents == self.create_parents && r.no_mount == self.no_mount,
    {
        let mut r = self;
        r.properties.push((k.to_owned(), v.to_owned()));
        assert(r.properties@.drop_last() =~= self.properties@);
        r
    }

    /// Adds `-o k=v` for each pair, in order.
    pub fn properties(self, props: &[(&str, &str)]) -> (r: CreateOptions)
        ensures
            r.properties@.len() == self.properties@.len() + props@.len(),
            r.properties@.take(self.properties@.len() as int) == self.properties@,
            forall|i: int|
                0 <= i < props@.len() ==> (#[trigger] r.properties@[self.properties@.len() + i]).0@
                    == props@[i].0@ && r.properties@[self.properties@.len() + i].1@
                    == props@[i].1@,
            r.create_parents == self.create_parents && r.no_mount == self.no_mount,
    {
        let mut r = self;
        let mut i: usize = 0;
        while i < props.len()
            invariant
                i <= props@.len(),
                r.properties@.len() == self.properties@.len() + i,
                r.properties@.take(self.properties@.len() as int) == self.properties@,
                forall|j: int|
                    0 <= j < i ==> (#[trigger] r.properties@[self.properties@.len() + j]).0@
                        == props@[j].0@ && r.properties@[self.properties@.len() + j].1@
                        == props@[j].1@,
                r.create_parents == self.create_parents && r.no_mount == self.no_mount,
            decreases props@.len() - i,
        {
            let ghost before = r.properties@;
            r.properties.push((props[i].0.to_owned(), props[i].1.to_owned()));
            assert(r.properties@.take(self.properties@.len() as int) =~= before.take(
                self.properties@.len() as int,
            ));
            assert forall|j: int| 0 <= j < i + 1 implies (#[trigger] r.properties@[self.properties@.len() + j]).0@
                == props@[j].0@ && r.properties@[self.properties@.len() + j].1@ == props@[j].1@ by {
                if j < i {
                    assert(r.properties@[self.properties@.len() + j] == before[self.properties@.len() + j]);
                }
            }
            i = i + 1;
        }
        r
    }

    /// `-p`.
    pub fn create_parents(self) -> (r: CreateOptions)
        ensures
            r == (CreateOptions { create_parents: true, ..self }),
    {
        CreateOptions { create_parents: true, ..self }
    }

    /// `-u`.
    pub fn no_mount(self) -> (r: CreateOptions)
        ensures
            r == (CreateOptions { no_mount: true, ..self }),
    {
        CreateOptions { no_mount: true, ..self }
    }

    /// The `zfs create` argument list for `name`.
    pub fn build_args(&self, name: &str) -> (r: Vec<String>)
        ensures
            views(r@) == create_args(*self, name@),
    {
        let mut args = single("create");
        push_flag(&mut args, self.create_parents, "-p");
        push_flag(&mut args, self.no_mount, "-u");
        push_option_pairs(&mut args, &self.properties);
        push_str(&mut args, name);
        assert(views(args@) =~= create_args(*self, name@));
        args
    }
}

/// Options of `zfs destroy`.
#[derive(Default, Clone, Debug)]
pub struct DestroyOptions {
    /// `-r`: descendants too.
    pub recursive: bool,
    /// `-R`: descendants and clones; takes the place of `-r`.
    pub recursive_with_clones: bool,
    /// `-f`: force-unmount first.
    pub force_unmount: bool,
    /// `-d`: defer the destruction of a held snapshot.
    pub defer_holds: bool,
}

/// `zfs destroy [-R|-r] [-f] [-d] <target>`.
pub open spec fn destroy_args(o: DestroyOptions, target: Seq<char>) -> Seq<Seq<char>> {
    seq!["destroy"@] + (if o.recursive_with_clones {
        seq!["-R"@]
    } else {
        flag_if(o.recursive, "-r"@)
    }) + flag_if(o.force_unmount, "-f"@) + flag_if(o.defer_holds, "-d"@) + seq![target]
}

impl DestroyOptions {
    /// No flags.
    pub fn new() -> (r: DestroyOptions)
        ensures
            !r.recursive && !r.recursive_with_clones && !r.force_unmount && !r.defer_holds,
    {
        DestroyOptions {
            recursive: false,
            recursive_with_clones: false,
            force_unmount: false,
            defer_holds: false,
        }
    }

    /// `-r`.
    pub fn recursive(self) -> (r: DestroyOptions)
        ensures
            r == (DestroyOptions { recursive: true, ..self }),
    {
        DestroyOptions { recursive: true, ..self }
    }

    /// `-R`.
    pub fn recursive_with_clones(self) -> (r: DestroyOptions)
        ensures
            r == (DestroyOptions { recursive_with_clones: true, ..self }),
    {
        DestroyOptions { recursive_with_clones: true, ..self }
    }

    /// `-f`.
    pub fn force_unmount(self) -> (r: DestroyOptions)
        ensures
            r == (DestroyOptions { force_unmount: true, ..self }),
    {
        DestroyOptions { force_unmount: true, ..self }
    }

    /// `-d`.
    pub fn defer_holds(self) -> (r: DestroyOptions)
        ensures
            r == (DestroyOptions { defer_holds: true, ..self }),
    {
        DestroyOptions { defer_holds: true, ..self }
    }

    /// The `zfs destroy` argument list for `target`.
    pub fn build_args(&self, target: &str) -> (r: Vec<String>)
        ensures
            views(r@) == destroy_args(*self, target@),
    {
        let mut args = single("destroy");
        if self.recursive_with_clones {
            push_str(&mut args, "-R");
        } else {
            push_flag(&mut args, self.recursive, "-r");
        }
        push_flag(&mut args, self.force_unmount, "-f");
        push_flag(&mut args, self.defer_holds, "-d");
        push_str(&mut args, target);
        assert(views(args@) =~= destroy_args(*self, target@));
        args
    }
}

/// The command-line names of dataset types.
pub open spec fn type_names(t: Seq<DatasetType>) -> Seq<Seq<char>> {
    t.map_values(|x: DatasetType| dataset_type_name(x))
}

/// The command-line names of property sources.
pub open spec fn source_names(t: Seq<PropertySourceKind>) -> Seq<Seq<char>> {
    t.map_values(|x: PropertySourceKind| source_kind_name(x))
}

/// The command-line names of `types`, comma-joined.
fn join_types(types: &Vec<DatasetType>) -> (r: String)
    ensures
        r@ == join_with(type_names(types@), ","@),
{
    let mut names: Vec<String> = Vec::new();
    let mut i: usize = 0;
    while i < types.len()
        invariant
            i <= types@.len(),
            views(names@) == type_names(types@).take(i as int),
        decreases types@.len() - i,
    {
        push_str(&mut names, types[i].cli_name());
        assert(type_names(types@).take(i + 1) =~= type_names(types@).take(i as int).push(
            dataset_type_name(types@[i as int]),
        ));
        i = i + 1;
    }
    assert(type_names(types@).take(i as int) =~= type_names(types@));
    join(&names, ",")
}

/// The command-line names of `sources`, comma-joined.
fn join_sources(sources: &Vec<PropertySourceKind>) -> (r: String)
    ensures
        r@ == join_with(source_names(sources@), ","@),
{
    let mut names: Vec<String> = Vec::new();
    let mut i: usize = 0;
    while i < sources.len()
        invariant
            i <= sources@.len(),
            views(names@) == source_names(sources@).take(i as int),
        decreases sources@.len() - i,
    {
        push_str(&mut names, sources[i].cli_name());
        assert(source_names(sources@).take(i + 1) =~= source_names(sources@).take(i as int).push(
            source_kind_name(sources@[i as int]),
        ));
        i = i + 1;
    }
    assert(source_names(sources@).take(i as int) =~= source_names(sources@));
    join(&names, ",")
}

/// `-d <depth>` where a depth is given.
pub open spec fn depth_args(d: Option<u32>) -> Seq<Seq<char>> {
    match d {
        Some(n) => seq!["-d"@, decimal(n as nat)],
        None => Seq::<Seq<char>>::empty(),
    }
}

/// `<flag> <joined>` where `names` is not empty.
pub open spec fn list_flag(flag: Seq<char>, names: Seq<Seq<char>>) -> Seq<Seq<char>> {
    if names.len() == 0 {
        Seq::<Seq<char>>::empty()
    } else {
        seq![flag, join_with(names, ","@)]
    }
}

/// Appends `-d <depth>` where a depth is given.
fn push_depth(args: &mut Vec<String>, depth: Option<u32>)
    ensures
        views(final(args)@) == views(old(args)@) + depth_args(depth),
{
    if let Some(d) = depth {
        push_str(args, "-d");
        let s = decimal_string(d as u64);
        push_str(args, s.as_str());
    }
    assert(views(args@) =~= views(old(args)@) + depth_args(depth));
}

/// Options of `zfs get`.
#[derive(Default, Clone, Debug)]
pub struct GetOptions {
    pub recursive: bool,
    pub depth: Option<u32>,
    pub types: Vec<DatasetType>,
    pub sources: Vec<PropertySourceKind>,
    /// Empty: every visible dataset.
    pub datasets: Vec<String>,
    /// At least one property; `all` asks for every one.
    pub properties: Vec<String>,
}

/// `zfs get -j -p [-r] [-d n] [-t types] [-s sources] <props> <datasets>…`.
pub open spec fn get_args(o: GetOptions) -> Seq<Seq<char>> {
    seq!["get"@, "-j"@, "-p"@] + flag_if(o.recursive, "-r"@) + depth_args(o.depth) + list_flag(
        "-t"@,
        type_names(o.types@),
    ) + list_flag("-s"@, source_names(o.sources@)) + seq![
        join_with(views(o.properties@), ","@),
    ] + views(o.datasets@)
}

/// The message for a `get` without properties.
pub open spec fn empty_properties_message() -> Seq<char> {
    "GetOptions::properties must not be empty (use vec![\"all\".into()] for all)"@
}

impl GetOptions {
    /// The `zfs get` argument list; at least one property is needed.
    pub fn build_args(&self) -> (r: Result<Vec<String>, ZfsError>)
        ensures
            self.properties@.len() == 0 ==> (r matches Err(e) && e@ == ErrorView::Other(
                None,
                empty_properties_message(),
            )),
            self.properties@.len() > 0 ==> (r matches Ok(v) && views(v@) == get_args(*self)),
    {
        if self.properties.len() == 0 {
            return Err(
                ZfsError::Other {
                    exit_code: None,
                    stderr: "GetOptions::properties must not be empty (use vec![\"all\".into()] for all)".to_owned(),
                },
            );
        }
        let mut args = single("get");
        push_str(&mut args, "-j");
        push_str(&mut args, "-p");
        push_flag(&mut args, self.recursive, "-r");
        push_depth(&mut args, self.depth);
        if self.types.len() > 0 {
            push_str(&mut args, "-t");
            let t = join_types(&self.types);
            push_str(&mut args, t.as_str());
        }
        if self.sources.len() > 0 {
            push_str(&mut args, "-s");
            let s = join_sources(&self.sources);
            push_str(&mut args, s.as_str());
        }
        let p = join(&self.properties, ",");
        push_str(&mut args, p.as_str());
        push_all(&mut args, &self.datasets);
        assert(views(args@) =~= get_args(*self));
        Ok(args)
    }
}

/// Options of `zfs list`.
#[derive(Default, Clone, Debug)]
pub struct ListOptions {
    pub recursive: bool,
    pub depth: Option<u32>,
    pub types: Vec<DatasetType>,
    /// Empty: every visible dataset.
    pub roots: Vec<String>,
    /// Empty: the default columns; the order is kept.
    pub properties: Vec<String>,
}

/// `zfs list -j -p [-r] [-d n] [-t types] [-o props] <roots>…`.
pub open spec fn list_args(o: ListOptions) -> Seq<Seq<char>> {
    seq!["list"@, "-j"@, "-p"@] + flag_if(o.recursive, "-r"@) + depth_args(o.depth) + list_flag(
        "-t"@,
        type_names(o.types@),
    ) + list_flag("-o"@, views(o.properties@)) + views(o.roots@)
}

impl ListOptions {
    /// The `zfs list` argument list.
    pub fn build_args(&self) -> (r: Vec<String>)
        ensures
            views(r@) == list_args(*self),
    {
        let mut args = single("list");
        push_str(&mut args, "-j");
        push_str(&mut args, "-p");
        push_flag(&mut args, self.recursive, "-r");
        push_depth(&mut args, self.depth);
        if self.types.len() > 0 {
            push_str(&mut args, "-t");
            let t = join_types(&self.types);
            push_str(&mut args, t.as_str());
        }
        if self.properties.len() > 0 {
            push_str(&mut args, "-o");
            let p = join(&self.properties, ",");
            push_str(&mut args, p.as_str());
        }
        push_all(&mut args, &self.roots);
        assert(views(args@) =~= list_args(*self));
        args
    }
}

/// Options of `zfs mount`.
#[derive(Default, Clone, Debug)]
pub struct MountOptions {
    pub recursive: bool,
}

impl MountOptions {
    /// `zfs mount [-R] <dataset>`.
    pub fn build_args(&self, dataset: &str) -> (r: Vec<String>)
        ensures
            views(r@) == seq!["mount"@] + flag_if(self.recursive, "-R"@) + seq![dataset@],
    {
        let mut args = single("mount");
        push_flag(&mut args, self.recursive, "-R");
        push_str(&mut args, dataset);
        args
    }
}

/// Options of `zfs umount`.
#[derive(Default, Clone, Debug)]
pub struct UnmountOptions {
    pub force: bool,
}

impl UnmountOptions {
    /// `zfs umount [-f] <dataset>`.
    pub fn build_args(&self, dataset: &str) -> (r: Vec<String>)
        ensures
            views(r@) == seq!["umount"@] + flag_if(self.force, "-f"@) + seq![dataset@],
    {
        let mut args = single("umount");
        push_flag(&mut args, self.force, "-f");
        push_str(&mut args, dataset);
        args
    }
}

/// `zfs umount -a [-f]`.
pub fn unmount_all_args(force: bool) -> (r: Vec<String>)
    ensures
        views(r@) == seq!["umount"@, "-a"@] + flag_if(force, "-f"@),
{
    let mut args = single("umount");
    push_str(&mut args, "-a");
    push_flag(&mut args, force, "-f");
    args
}

/// `zfs mount -a`.
pub fn mount_all_args() -> (r: Vec<String>)
    ensures
        views(r@) == seq!["mount"@, "-a"@],
{
    let mut args = single("mount");
    push_str(&mut args, "-a");
    assert(views(args@) =~= seq!["mount"@, "-a"@]);
    args
}

/// Judges `zfs mount`: a filesystem already mounted is success.
pub fn finish_mount(success: bool, exit_code: Option<i32>, stderr: &str) -> (r: Result<(), ZfsError>)
    ensures
        match tolerant_outcome(success, exit_code, stderr@, "filesystem already mounted"@) {
            None => r is Ok,
            Some(f) => r matches Err(e) && e@ == f,
        },
{
    check_status_tolerating(success, exit_code, stderr, "filesystem already mounted")
}

/// Judges `zfs umount`: a filesystem not mounted is success.
pub fn finish_unmount(success: bool, exit_code: Option<i32>, stderr: &str) -> (r: Result<(), ZfsError>)
    ensures
        match tolerant_outcome(success, exit_code, stderr@, "not currently mounted"@) {
            None => r is Ok,
            Some(f) => r matches Err(e) && e@ == f,
        },
{
    check_status_tolerating(success, exit_code, stderr, "not currently mounted")
}

/// Options of `zfs rollback`.
#[derive(Default, Clone, Debug)]
pub struct RollbackOptions {
    /// `-r`: destroy later snapshots.
    pub destroy_newer: bool,
    /// `-R`: destroy later snapshots and their clones; takes the place of `-r`.
    pub destroy_newer_with_clones: bool,
    /// `-f`: force-unmount clones.
    pub force_unmount_clones: bool,
}

/// `zfs rollback [-R|-r] [-f] <snapshot>`.
pub open spec fn rollback_args(o: RollbackOptions, snapshot: Seq<char>) -> Seq<Seq<char>> {
    seq!["rollback"@] + (if o.destroy_newer_with_clones {
        seq!["-R"@]
    } else {
        flag_if(o.destroy_newer, "-r"@)
    }) + flag_if(o.force_unmount_clones, "-f"@) + seq![snapshot]
}

impl RollbackOptions {
    /// No flags.
    pub fn new() -> (r: RollbackOptions)
        ensures
            !r.destroy_newer && !r.destroy_newer_with_clones && !r.force_unmount_clones,
    {
        RollbackOptions {
            destroy_newer: false,
            destroy_newer_with_clones: false,
            force_unmount_clones: false,
        }
    }

    /// `-r`.
    pub fn destroy_newer(self) -> (r: RollbackOptions)
        ensures
            r == (RollbackOptions { destroy_newer: true, ..self }),
    {
        RollbackOptions { destroy_newer: true, ..self }
    }

    /// `-R`.
    pub fn destroy_newer_with_clones(self) -> (r: RollbackOptions)
        ensures
            r == (RollbackOptions { destroy_newer_with_clones: true, ..self }),
    {
        RollbackOptions { destroy_newer_with_clones: true, ..self }
    }

    /// `-f`.
    pub fn force_unmount_clones(self) -> (r: RollbackOptions)
        ensures
            r == (RollbackOptions { force_unmount_clones: true, ..self }),
    {
        RollbackOptions { force_unmount_clones: true, ..self }
    }

    /// The `zfs rollback` argument list for `full_snapshot`.
    pub fn build_args(&self, full_snapshot: &str) -> (r: Vec<String>)
        ensures
            views(r@) == rollback_args(*self, full_snapshot@),
    {
        let mut args = single("rollback");
        if self.destroy_newer_with_clones {
            push_str(&mut args, "-R");
        } else {
            push_flag(&mut args, self.destroy_newer, "-r");
        }
        push_flag(&mut args, self.force_unmount_clones, "-f");
        push_str(&mut args, full_snapshot);
        assert(views(args@) =~= rollback_args(*self, full_snapshot@));
        args
    }
}

/// Options of `zfs set`.
#[derive(Default, Clone, Debug)]
pub struct SetOptions {
    /// `-u`: do not remount.
    pub no_mount: bool,
}

impl SetOptions {
    /// No flags.
    pub fn new() -> (r: SetOptions)
        ensures
            !r.no_mount,
    {
        SetOptions { no_mount: false }
    }

    /// `-u`.
    pub fn no_mount(self) -> (r: SetOptions)
        ensures
            r.no_mount,
    {
        SetOptions { no_mount: true }
    }

    /// `zfs set [-u] k=v… <dataset>`.
    pub fn build_args(&self, properties: &[(&str, &str)], dataset: &str) -> (r: Vec<String>)
        ensures
            views(r@) == seq!["set"@] + flag_if(self.no_mount, "-u"@) + assignments(properties@)
                + seq![dataset@],
    {
        let mut args = single("set");
        push_flag(&mut args, self.no_mount, "-u");
        let ghost head = views(args@);
        let mut i: usize = 0;
        assert(properties@.take(0) =~= Seq::<(&str, &str)>::empty());
        while i < properties.len()
            invariant
                i <= properties@.len(),
                views(args@) == head + assignments(properties@.take(i as int)),
            decreases properties@.len() - i,
        {
            assert(properties@.take(i + 1).drop_last() =~= properties@.take(i as int));
            let (k, v) = properties[i];
            let kv = concat3(k, "=", v);
            push_str(&mut args, kv.as_str());
            i = i + 1;
        }
        assert(properties@.take(i as int) =~= properties@);
        push_str(&mut args, dataset);
        args
    }
}

/// Whether `zfs set` runs at all: with no properties there is nothing to do.
pub fn set_needed(properties: &[(&str, &str)]) -> (r: bool)
    ensures
        r == (properties@.len() > 0),
{
    properties.len() > 0
}

/// Options of `zfs snapshot`.
#[derive(Default, Clone, Debug)]
pub struct SnapshotOptions {
    /// `-r`: the same snapshot of every descendant.
    pub recursive: bool,
    /// `-o k=v` properties of the snapshots.
    pub properties: Vec<(String, String)>,
}

/// `zfs snapshot [-r] [-o k=v]… <snapshots>…`.
pub open spec fn snapshot_args(o: SnapshotOptions, snapshots: Seq<&str>) -> Seq<Seq<char>> {
    seq!["snapshot"@] + flag_if(o.recursive, "-r"@) + option_pairs(o.properties@) + str_views(
        snapshots,
    )
}

impl SnapshotOptions {
    /// No properties, not recursive.
    pub fn new() -> (r: SnapshotOptions)
        ensures
            !r.recursive && r.properties@.len() == 0,
    {
        SnapshotOptions { recursive: false, properties: Vec::new() }
    }

    /// `-r`.
    pub fn recursive(self) -> (r: SnapshotOptions)
        ensures
            r.recursive && r.properties == self.properties,
    {
        SnapshotOptions { recursive: true, ..self }
    }

    /// Adds `-o k=v`.
    pub fn property(self, k: &str, v: &str) -> (r: SnapshotOptions)
        ensures
            r.properties@.len() == self.properties@.len() + 1,
            r.properties@.drop_last() == self.properties@,
            r.properties@.last().0@ == k@ && r.properties@.last().1@ == v@,
            r.recursive == self.recursive,
    {
        let mut r = self;
        r.properties.push((k.to_owned(), v.to_owned()));
        assert(r.properties@.drop_last() =~= self.properties@);
        r
    }

    /// The `zfs snapshot` argument list for `snapshots`.
    pub fn build_args(&self, snapshots: &[&str]) -> (r: Vec<String>)
        ensures
            views(r@) == snapshot_args(*self, snapshots@),
    {
        let mut args = single("snapshot");
        push_flag(&mut args, self.recursive, "-r");
        push_option_pairs(&mut args, &self.properties);
        push_names(&mut args, snapshots);
        assert(views(args@) =~= snapshot_args(*self, snapshots@));
        args
    }
}

} // verus!
