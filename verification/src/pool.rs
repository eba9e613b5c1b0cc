//! Pool commands of `zpool`: their argument lists, and the reading of
//! `zpool import` discovery output.
use vstd::prelude::*;
use crate::args::{flag_if, push_all, push_flag, push_str, single};
use crate::dataset::option_pairs;
use crate::error::{opt_view, ErrorView, ZfsError};
use crate::names::{creatable_pool_name, pool_fault, NameReason, PoolName};
use crate::text::{
    concat3, decimal, decimal_string, digit_char, has_prefix, lines, lines_of, strip_prefix_str, trim_of,
    trim_start_of, trim_start_str, trim_str, views,
};

verus! {

/// The parity level of a raidz vdev.
#[derive(Debug, Clone, Copy)]
pub enum RaidZLevel {
    One,
    Two,
    Three,
}

/// The word `zpool create` takes for each level.
pub open spec fn raidz_token(l: RaidZLevel) -> Seq<char> {
    match l {
        RaidZLevel::One => "raidz1"@,
        RaidZLevel::Two => "raidz2"@,
        RaidZLevel::Three => "raidz3"@,
    }
}

impl RaidZLevel {
    /// The word `zpool create` takes for this level.
    pub fn cli_token(self) -> (r: &'static str)
        ensures
            r@ == raidz_token(self),
    {
        match self {
            RaidZLevel::One => "raidz1",
            RaidZLevel::Two => "raidz2",
            RaidZLevel::Three => "raidz3",
        }
    }
}

/// One top-level vdev of a new pool, by device path.
#[derive(Debug, Clone)]
pub enum Vdev {
    Stripe(Vec<String>),
    Mirror(Vec<String>),
    RaidZ(RaidZLevel, Vec<String>),
}

/// The devices of a vdev.
pub open spec fn vdev_devices(v: Vdev) -> Seq<String> {
    match v {
        Vdev::Stripe(d) => d@,
        Vdev::Mirror(d) => d@,
        Vdev::RaidZ(_, d) => d@,
    }
}

/// What a vdev is called in errors, and the fewest devices it takes.
pub open spec fn vdev_kind(v: Vdev) -> (Seq<char>, nat) {
    match v {
        Vdev::Stripe(_) => ("stripe"@, 1),
        Vdev::Mirror(_) => ("mirror"@, 2),
        Vdev::RaidZ(RaidZLevel::One, _) => ("raidz1"@, 2),
        Vdev::RaidZ(RaidZLevel::Two, _) => ("raidz2"@, 3),
        Vdev::RaidZ(RaidZLevel::Three, _) => ("raidz3"@, 4),
    }
}

/// The word written for a raidz vdev is the name of its level: the same
/// word the vdev's kind gives, `raidz` followed by its number of parity
/// devices, one fewer than the fewest devices the vdev takes.
pub proof fn lemma_raidz_word_names_level(l: RaidZLevel, d: Vec<String>)
    ensures
        vdev_args(Vdev::RaidZ(l, d))[0] == vdev_kind(Vdev::RaidZ(l, d)).0,
        vdev_args(Vdev::RaidZ(l, d))[0] == "raidz"@ + decimal(
            (vdev_kind(Vdev::RaidZ(l, d)).1 - 1) as nat,
        ),
{
    reveal_strlit("raidz");
    reveal_strlit("raidz1");
    reveal_strlit("raidz2");
    reveal_strlit("raidz3");
    assert(digit_char(1) == '1');
    assert(digit_char(2) == '2');
    assert(digit_char(3) == '3');
    match l {
        RaidZLevel::One => assert("raidz1"@ =~= "raidz"@ + decimal(1)),
        RaidZLevel::Two => assert("raidz2"@ =~= "raidz"@ + decimal(2)),
        RaidZLevel::Three => assert("raidz3"@ =~= "raidz"@ + decimal(3)),
    }
}

/// Different parity levels are written as different words.
pub proof fn lemma_raidz_words_distinct(l1: RaidZLevel, l2: RaidZLevel)
    ensures
        l1 != l2 ==> raidz_token(l1) != raidz_token(l2),
{
    reveal_strlit("raidz1");
    reveal_strlit("raidz2");
    reveal_strlit("raidz3");
    if l1 != l2 {
        assert(raidz_token(l1)[5] != raidz_token(l2)[5]);
    }
}

/// The arguments of a vdev: its kind word (none for a stripe), then its devices.
pub open spec fn vdev_args(v: Vdev) -> Seq<Seq<char>> {
    match v {
        Vdev::Stripe(d) => views(d@),
        Vdev::Mirror(d) => seq!["mirror"@] + views(d@),
        Vdev::RaidZ(l, d) => seq![raidz_token(l)] + views(d@),
    }
}

/// Why a vdev is refused: too few devices.
pub open spec fn vdev_fault(v: Vdev) -> Option<Seq<char>> {
    let (kind, minimum) = vdev_kind(v);
    let actual = vdev_devices(v).len();
    if actual < minimum {
        Some(
            kind + " vdev requires at least "@ + decimal(minimum) + " device(s), got "@ + decimal(
                actual,
            ),
        )
    } else {
        None
    }
}

impl Vdev {
    /// Appends the vdev's arguments.
    pub fn append_args(&self, args: &mut Vec<String>)
        ensures
            views(final(args)@) == views(old(args)@) + vdev_args(*self),
    {
        match self {
            Vdev::Stripe(devs) => {
                push_all(args, devs);
            },
            Vdev::Mirror(devs) => {
                push_str(args, "mirror");
                push_all(args, devs);
            },
            Vdev::RaidZ(level, devs) => {
                push_str(args, level.cli_token());
                push_all(args, devs);
            },
        }
        assert(views(args@) =~= views(old(args)@) + vdev_args(*self));
    }

    /// Checks that the vdev has enough devices for its kind.
    pub fn validate(&self) -> (r: Result<(), ZfsError>)
        ensures
            match vdev_fault(*self) {
                None => r is Ok,
                Some(m) => r matches Err(e) && e@ == ErrorView::InvalidInput(m),
            },
    {
        let (kind, minimum, actual): (&str, usize, usize) = match self {
            Vdev::Stripe(devices) => ("stripe", 1usize, devices.len()),
            Vdev::Mirror(devices) => ("mirror", 2usize, devices.len()),
            Vdev::RaidZ(RaidZLevel::One, devices) => ("raidz1", 2usize, devices.len()),
            Vdev::RaidZ(RaidZLevel::Two, devices) => ("raidz2", 3usize, devices.len()),
            Vdev::RaidZ(RaidZLevel::Three, devices) => ("raidz3", 4usize, devices.len()),
        };
        if actual < minimum {
            let mut message = concat3(kind, " vdev requires at least ", decimal_string(minimum as u64).as_str());
            message.append(" device(s), got ");
            message.append(decimal_string(actual as u64).as_str());
            return Err(ZfsError::InvalidInput { message });
        }
        Ok(())
    }
}

/// Everything `zpool create` needs.
#[derive(Debug, Clone)]
pub struct PoolCreateOptions {
    pub name: String,
    /// `-f`.
    pub force: bool,
    /// `-o k=v` pool properties.
    pub pool_properties: Vec<(String, String)>,
    /// `-O k=v` properties of the root dataset.
    pub fs_properties: Vec<(String, String)>,
    /// `-m <mountpoint>`.
    pub mountpoint: Option<String>,
    /// `-R <altroot>`.
    pub altroot: Option<String>,
    pub vdevs: Vec<Vdev>,
}

/// `-O key=value` for each property, in order.
pub open spec fn fs_option_pairs(p: Seq<(String, String)>) -> Seq<Seq<char>>
    decreases p.len(),
{
    if p.len() == 0 {
        Seq::<Seq<char>>::empty()
    } else {
        fs_option_pairs(p.drop_last()) + seq!["-O"@, p.last().0@ + "="@ + p.last().1@]
    }
}

/// `<flag> <value>` where a value is given.
pub open spec fn opt_args(flag: Seq<char>, v: Option<String>) -> Seq<Seq<char>> {
    match v {
        Some(s) => seq![flag, s@],
        None => Seq::<Seq<char>>::empty(),
    }
}

/// The arguments of every vdev, in order.
pub open spec fn vdevs_args(v: Seq<Vdev>) -> Seq<Seq<char>>
    decreases v.len(),
{
    if v.len() == 0 {
        Seq::<Seq<char>>::empty()
    } else {
        vdevs_args(v.drop_last()) + vdev_args(v.last())
    }
}

/// The first vdev refused, and why.
pub open spec fn first_vdev_fault(v: Seq<Vdev>) -> Option<Seq<char>>
    decreases v.len(),
{
    if v.len() == 0 {
        None
    } else {
        match first_vdev_fault(v.drop_last()) {
            Some(m) => Some(m),
            None => vdev_fault(v.last()),
        }
    }
}

/// Why `zpool create` cannot be built, if it cannot: the pool name, no
/// vdev, or the first vdev with too few devices.
pub open spec fn pool_create_fault(o: PoolCreateOptions) -> Option<ErrorView> {
    if !creatable_pool_name(o.name@) {
        Some(
            ErrorView::InvalidName(
                (
                    crate::names::NameKind::Pool,
                    o.name@,
                    match pool_fault(o.name@) {
                        Some(f) => f,
                        None => NameReason::Reserved,
                    },
                ),
            ),
        )
    } else if o.vdevs@.len() == 0 {
        Some(ErrorView::InvalidInput("PoolCreateOptions::vdevs must contain at least one vdev"@))
    } else if first_vdev_fault(o.vdevs@) is Some {
        Some(ErrorView::InvalidInput(first_vdev_fault(o.vdevs@)->0))
    } else {
        None
    }
}

/// `zpool create [-f] [-o k=v]… [-O k=v]… [-m mp] [-R root] <name> <vdevs>…`.
pub open spec fn pool_create_args(o: PoolCreateOptions) -> Seq<Seq<char>> {
    seq!["create"@] + flag_if(o.force, "-f"@) + option_pairs(o.pool_properties@) + fs_option_pairs(
        o.fs_properties@,
    ) + opt_args("-m"@, o.mountpoint) + opt_args("-R"@, o.altroot) + seq![o.name@] + vdevs_args(
        o.vdevs@,
    )
}

/// Once a prefix holds a refused vdev, the whole has the same first.
pub proof fn lemma_vdev_fault_extends(v: Seq<Vdev>, k: int)
    requires
        0 <= k <= v.len(),
        first_vdev_fault(v.take(k)) is Some,
    ensures
        first_vdev_fault(v) == first_vdev_fault(v.take(k)),
    decreases v.len() - k,
{
    if k < v.len() {
        assert(v.drop_last().take(k) =~= v.take(k));
        lemma_vdev_fault_extends(v.drop_last(), k);
    } else {
        assert(v.take(k) =~= v);
    }
}

/// Appends `<flag> k=v` for each property.
fn push_pairs(args: &mut Vec<String>, flag: &str, p: &Vec<(String, String)>)
    ensures
        flag@ == "-o"@ ==> views(final(args)@) == views(old(args)@) + option_pairs(p@),
        flag@ == "-O"@ ==> views(final(args)@) == views(old(args)@) + fs_option_pairs(p@),
{
    let mut i: usize = 0;
    assert(p@.take(0) =~= Seq::<(String, String)>::empty());
    while i < p.len()
        invariant
            i <= p@.len(),
            flag@ == "-o"@ ==> views(args@) == views(old(args)@) + option_pairs(p@.take(i as int)),
            flag@ == "-O"@ ==> views(args@) == views(old(args)@) + fs_option_pairs(p@.take(i as int)),
        decreases p@.len() - i,
    {
        assert(p@.take(i + 1).drop_last() =~= p@.take(i as int));
        push_str(args, flag);
        let kv = concat3(p[i].0.as_str(), "=", p[i].1.as_str());
        push_str(args, kv.as_str());
        i = i + 1;
    }
    assert(p@.take(i as int) =~= p@);
}

/// Appends `<flag> <value>` where a value is given.
fn push_opt(args: &mut Vec<String>, flag: &str, v: &Option<String>)
    ensures
        views(final(args)@) == views(old(args)@) + opt_args(flag@, *v),
{
    if let Some(s) = v {
        push_str(args, flag);
        push_str(args, s.as_str());
    }
    assert(views(args@) =~= views(old(args)@) + opt_args(flag@, *v));
}

impl PoolCreateOptions {
    /// A pool named `name` with no vdev yet.
    pub fn new(name: &str) -> (r: PoolCreateOptions)
        ensures
            r.name@ == name@ && !r.force && r.pool_properties@.len() == 0
                && r.fs_properties@.len() == 0 && r.mountpoint is None && r.altroot is None
                && r.vdevs@.len() == 0,
    {
        PoolCreateOptions {
            name: name.to_owned(),
            force: false,
            pool_properties: Vec::new(),
            fs_properties: Vec::new(),
            mountpoint: None,
            altroot: None,
            vdevs: Vec::new(),
        }
    }

    /// `-f`.
    pub fn force(self) -> (r: PoolCreateOptions)
        ensures
            r == (PoolCreateOptions { force: true, ..self }),
    {
        PoolCreateOptions { force: true, ..self }
    }

    /// Adds `-o k=v`.
    pub fn pool_property(self, k: &str, v: &str) -> (r: PoolCreateOptions)
        ensures
            r.pool_properties@.drop_last() == self.pool_properties@,
            r.pool_properties@.len() == self.pool_properties@.len() + 1,
            r.pool_properties@.last().0@ == k@ && r.pool_properties@.last().1@ == v@,
            r.name == self.name && r.fs_properties == self.fs_properties && r.vdevs == self.vdevs
                && r.force == self.force && r.mountpoint == self.mountpoint && r.altroot
                == self.altroot,
    {
        let mut r = self;
        r.pool_properties.push((k.to_owned(), v.to_owned()));
        assert(r.pool_properties@.drop_last() =~= self.pool_properties@);
        r
    }

    /// Adds `-O k=v`.
    pub fn fs_property(self, k: &str, v: &str) -> (r: PoolCreateOptions)
        ensures
            r.fs_properties@.drop_last() == self.fs_properties@,
            r.fs_properties@.len() == self.fs_properties@.len() + 1,
            r.fs_properties@.last().0@ == k@ && r.fs_properties@.last().1@ == v@,
            r.name == self.name && r.pool_properties == self.pool_properties && r.vdevs
                == self.vdevs && r.force == self.force && r.mountpoint == self.mountpoint
                && r.altroot == self.altroot,
    {
        let mut r = self;
        r.fs_properties.push((k.to_owned(), v.to_owned()));
        assert(r.fs_properties@.drop_last() =~= self.fs_properties@);
        r
    }

    /// `-m mp`.
    pub fn mountpoint(self, mp: &str) -> (r: PoolCreateOptions)
        ensures
            r.mountpoint matches Some(m) && m@ == mp@,
            r.name == self.name && r.pool_properties == self.pool_properties && r.fs_properties
                == self.fs_properties && r.vdevs == self.vdevs && r.force == self.force
                && r.altroot == self.altroot,
    {
        PoolCreateOptions { mountpoint: Some(mp.to_owned()), ..self }
    }

    /// `-R root`.
    pub fn altroot(self, p: &str) -> (r: PoolCreateOptions)
        ensures
            r.altroot matches Some(m) && m@ == p@,
            r.name == self.name && r.pool_properties == self.pool_properties && r.fs_properties
                == self.fs_properties && r.vdevs == self.vdevs && r.force == self.force
                && r.mountpoint == self.mountpoint,
    {
        PoolCreateOptions { altroot: Some(p.to_owned()), ..self }
    }

    /// Adds a vdev.
    pub fn vdev(self, v: Vdev) -> (r: PoolCreateOptions)
        ensures
            r.vdevs@ == self.vdevs@.push(v),
            r.name == self.name && r.pool_properties == self.pool_properties && r.fs_properties
                == self.fs_properties && r.force == self.force && r.mountpoint == self.mountpoint
                && r.altroot == self.altroot,
    {
        let mut r = self;
        r.vdevs.push(v);
        r
    }

    /// Checks the name and the vdevs.
    #[verifier::loop_isolation(false)]
    fn check(&self) -> (r: Result<(), ZfsError>)
        ensures
            match pool_create_fault(*self) {
                None => r is Ok,
                Some(f) => r matches Err(e) && e@ == f,
            },
    {
        if let Err(e) = PoolName::parse_for_create(self.name.as_str()) {
            return Err(ZfsError::InvalidName(e));
        }
        if self.vdevs.len() == 0 {
            return Err(
                ZfsError::InvalidInput {
                    message: "PoolCreateOptions::vdevs must contain at least one vdev".to_owned(),
                },
            );
        }
        let mut i: usize = 0;
        assert(self.vdevs@.take(0) =~= Seq::<Vdev>::empty());
        while i < self.vdevs.len()
            invariant
                i <= self.vdevs@.len(),
                first_vdev_fault(self.vdevs@.take(i as int)) is None,
            decreases self.vdevs@.len() - i,
        {
            assert(self.vdevs@.take(i + 1).drop_last() =~= self.vdevs@.take(i as int));
            if let Err(e) = self.vdevs[i].validate() {
                proof {
                    lemma_vdev_fault_extends(self.vdevs@, i + 1);
                }
                return Err(e);
            }
            i = i + 1;
        }
        assert(self.vdevs@.take(i as int) =~= self.vdevs@);
        Ok(())
    }

    /// The `zpool create` argument list.
    pub fn build_args(&self) -> (r: Result<Vec<String>, ZfsError>)
        ensures
            match pool_create_fault(*self) {
                Some(f) => r matches Err(e) && e@ == f,
                None => r matches Ok(v) && views(v@) == pool_create_args(*self),
            },
    {
        if let Err(e) = self.check() {
            return Err(e);
        }
        let mut args = single("create");
        push_flag(&mut args, self.force, "-f");
        proof {
            reveal_strlit("-o");
            reveal_strlit("-O");
        }
        push_pairs(&mut args, "-o", &self.pool_properties);
        push_pairs(&mut args, "-O", &self.fs_properties);
        push_opt(&mut args, "-m", &self.mountpoint);
        push_opt(&mut args, "-R", &self.altroot);
        push_str(&mut args, self.name.as_str());
        let ghost head = views(args@);
        let mut i: usize = 0;
        assert(self.vdevs@.take(0) =~= Seq::<Vdev>::empty());
        while i < self.vdevs.len()
            invariant
                i <= self.vdevs@.len(),
                views(args@) == head + vdevs_args(self.vdevs@.take(i as int)),
            decreases self.vdevs@.len() - i,
        {
            assert(self.vdevs@.take(i + 1).drop_last() =~= self.vdevs@.take(i as int));
            self.vdevs[i].append_args(&mut args);
            i = i + 1;
        }
        assert(self.vdevs@.take(i as int) =~= self.vdevs@);
        assert(views(args@) =~= pool_create_args(*self));
        Ok(args)
    }
}

/// Options of `zpool destroy`.
#[derive(Default, Clone, Debug)]
pub struct DestroyOptions {
    pub force: bool,
}

impl DestroyOptions {
    /// `zpool destroy [-f] <pool>`.
    pub fn build_args(&self, pool: &str) -> (r: Vec<String>)
        ensures
            views(r@) == seq!["destroy"@] + flag_if(self.force, "-f"@) + seq![pool@],
    {
        let mut args = single("destroy");
        push_flag(&mut args, self.force, "-f");
        push_str(&mut args, pool);
        args
    }
}

/// Options of `zpool export`.
#[derive(Default, Clone, Debug)]
pub struct ExportOptions {
    /// `-f`: force-unmount filesystems first.
    pub force: bool,
}

impl ExportOptions {
    /// `zpool export [-f] <pool>`.
    pub fn build_args(&self, pool: &str) -> (r: Vec<String>)
        ensures
            views(r@) == seq!["export"@] + flag_if(self.force, "-f"@) + seq![pool@],
    {
        let mut args = single("export");
        push_flag(&mut args, self.force, "-f");
        push_str(&mut args, pool);
        args
    }
}

/// Options of `zpool import`.
#[derive(Default, Clone, Debug)]
pub struct ImportOptions {
    /// `-f`: import a pool that looks in use elsewhere.
    pub force: bool,
    /// `-N`: mount nothing.
    pub no_mount: bool,
    /// `-R <path>`: alternate root.
    pub altroot: Option<String>,
}

impl ImportOptions {
    /// `zpool import [-f] [-N] [-R root] <pool>`.
    pub fn build_args(&self, pool: &str) -> (r: Vec<String>)
        ensures
            views(r@) == seq!["import"@] + flag_if(self.force, "-f"@) + flag_if(self.no_mount, "-N"@)
                + opt_args("-R"@, self.altroot) + seq![pool@],
    {
        let mut args = single("import");
        push_flag(&mut args, self.force, "-f");
        push_flag(&mut args, self.no_mount, "-N");
        push_opt(&mut args, "-R", &self.altroot);
        push_str(&mut args, pool);
        args
    }
}

/// Options of `zpool get`.
#[derive(Default, Clone, Debug)]
pub struct GetOptions {
    pub pools: Vec<String>,
    /// At least one property; `all` asks for every one.
    pub properties: Vec<String>,
}

impl GetOptions {
    /// `zpool get -j -p <props> <pools>…`; at least one property is needed.
    pub fn build_args(&self) -> (r: Result<Vec<String>, ZfsError>)
        ensures
            self.properties@.len() == 0 ==> (r matches Err(e) && e@ == ErrorView::InvalidInput(
                crate::dataset::empty_properties_message(),
            )),
            self.properties@.len() > 0 ==> (r matches Ok(v) && views(v@) == seq![
                "get"@,
                "-j"@,
                "-p"@,
                crate::text::join_with(views(self.properties@), ","@),
            ] + views(self.pools@)),
    {
        if self.properties.len() == 0 {
            return Err(
                ZfsError::InvalidInput {
                    message: "GetOptions::properties must not be empty (use vec![\"all\".into()] for all)".to_owned(),
                },
            );
        }
        let mut args = single("get");
        push_str(&mut args, "-j");
        push_str(&mut args, "-p");
        let p = crate::text::join(&self.properties, ",");
        push_str(&mut args, p.as_str());
        push_all(&mut args, &self.pools);
        Ok(args)
    }
}

/// Options of `zpool list`.
#[derive(Default, Clone, Debug)]
pub struct ListOptions {
    /// Empty: every imported pool.
    pub pools: Vec<String>,
    /// Empty: the default columns; the order is kept.
    pub properties: Vec<String>,
}

impl ListOptions {
    /// `zpool list -j -p [-o props] <pools>…`.
    pub fn build_args(&self) -> (r: Vec<String>)
        ensures
            views(r@) == seq!["list"@, "-j"@, "-p"@] + crate::dataset::list_flag(
                "-o"@,
                views(self.properties@),
            ) + views(self.pools@),
    {
        let mut args = single("list");
        push_str(&mut args, "-j");
        push_str(&mut args, "-p");
        if self.properties.len() > 0 {
            push_str(&mut args, "-o");
            let p = crate::text::join(&self.properties, ",");
            push_str(&mut args, p.as_str());
        }
        push_all(&mut args, &self.pools);
        assert(views(args@) =~= seq!["list"@, "-j"@, "-p"@] + crate::dataset::list_flag(
            "-o"@,
            views(self.properties@),
        ) + views(self.pools@));
        args
    }
}

/// What `zpool scrub` is asked to do.
#[derive(Debug, Clone, Copy)]
pub enum ScrubAction {
    Start,
    Pause,
    Resume,
    Stop,
}

/// The flag of each scrub action: none to start or resume.
pub open spec fn scrub_flag(a: ScrubAction) -> Option<Seq<char>> {
    match a {
        ScrubAction::Start | ScrubAction::Resume => None,
        ScrubAction::Pause => Some("-p"@),
        ScrubAction::Stop => Some("-s"@),
    }
}

impl ScrubAction {
    /// The flag of this action.
    pub fn flag(self) -> (r: Option<&'static str>)
        ensures
            match r {
                Some(f) => scrub_flag(self) == Some(f@),
                None => scrub_flag(self) is None,
            },
    {
        match self {
            ScrubAction::Start | ScrubAction::Resume => None,
            ScrubAction::Pause => Some("-p"),
            ScrubAction::Stop => Some("-s"),
        }
    }
}

/// `zpool scrub [flag] <pool>`.
pub fn scrub_args(pool: &str, action: ScrubAction) -> (r: Vec<String>)
    ensures
        views(r@) == seq!["scrub"@] + match scrub_flag(action) {
            Some(f) => seq![f],
            None => Seq::<Seq<char>>::empty(),
        } + seq![pool@],
{
    let mut args = single("scrub");
    if let Some(f) = action.flag() {
        push_str(&mut args, f);
    }
    push_str(&mut args, pool);
    assert(views(args@) =~= seq!["scrub"@] + match scrub_flag(action) {
        Some(f) => seq![f],
        None => Seq::<Seq<char>>::empty(),
    } + seq![pool@]);
    args
}

/// `zpool set <property>=<value> <pool>`.
pub fn set_property_args(pool: &str, property: &str, value: &str) -> (r: Vec<String>)
    ensures
        views(r@) == seq!["set"@, property@ + "="@ + value@, pool@],
{
    let mut args = single("set");
    let kv = concat3(property, "=", value);
    push_str(&mut args, kv.as_str());
    push_str(&mut args, pool);
    assert(views(args@) =~= seq!["set"@, property@ + "="@ + value@, pool@]);
    args
}

/// One importable pool that `zpool import` lists.
#[derive(Debug, PartialEq, Eq)]
pub struct DiscoveredPool {
    pub name: String,
    pub id: String,
    pub state: String,
    /// The first line of `status:`, where there is one.
    pub status: Option<String>,
}

impl Clone for DiscoveredPool {
    fn clone(&self) -> (r: Self)
        ensures
            disc_view(r) == disc_view(*self),
    {
        let status = match &self.status {
            Some(s) => Some(s.clone()),
            None => None,
        };
        DiscoveredPool {
            name: self.name.clone(),
            id: self.id.clone(),
            state: self.state.clone(),
            status,
        }
    }
}

/// A discovered pool as plain values: name, id, state and status.
pub type DiscView = (Seq<char>, Seq<char>, Seq<char>, Option<Seq<char>>);

/// The plain values of a discovered pool.
pub open spec fn disc_view(p: DiscoveredPool) -> DiscView {
    (p.name@, p.id@, p.state@, opt_view(p.status))
}

/// What a scan of discovery output holds: the pools finished, and the one
/// being read.
pub type DiscScan = (Seq<DiscView>, Option<DiscView>);

/// One line: `pool:` starts a pool; `id:`, `state:` and the first line of
/// `status:` fill in the current one; anything else is passed over.
pub open spec fn disc_step(st: DiscScan, line: Seq<char>) -> DiscScan {
    let t = trim_start_of(line);
    if has_prefix(t, "pool:"@) {
        let done = match st.1 {
            Some(p) => st.0.push(p),
            None => st.0,
        };
        (done, Some((trim_of(t.skip(5)), Seq::<char>::empty(), Seq::<char>::empty(), None)))
    } else {
        match st.1 {
            None => st,
            Some(p) => if has_prefix(t, "id:"@) {
                (st.0, Some((p.0, trim_of(t.skip(3)), p.2, p.3)))
            } else if has_prefix(t, "state:"@) {
                (st.0, Some((p.0, p.1, trim_of(t.skip(6)), p.3)))
            } else if has_prefix(t, "status:"@) {
                (st.0, Some((p.0, p.1, p.2, Some(trim_of(t.skip(7))))))
            } else {
                st
            },
        }
    }
}

/// The lines scanned in order.
pub open spec fn disc_scan(ls: Seq<Seq<char>>) -> DiscScan
    decreases ls.len(),
{
    if ls.len() == 0 {
        (Seq::<DiscView>::empty(), None)
    } else {
        disc_step(disc_scan(ls.drop_last()), ls.last())
    }
}

/// The pools with a name.
pub open spec fn named_pools(s: Seq<DiscView>) -> Seq<DiscView>
    decreases s.len(),
{
    if s.len() == 0 {
        s
    } else if s.last().0.len() == 0 {
        named_pools(s.drop_last())
    } else {
        named_pools(s.drop_last()).push(s.last())
    }
}

/// The pools that discovery output lists, in order, those without a name
/// left out.
pub open spec fn discovery(text: Seq<char>) -> Seq<DiscView> {
    let (done, cur) = disc_scan(lines_of(text));
    named_pools(
        match cur {
            Some(p) => done.push(p),
            None => done,
        },
    )
}

/// Output in which no line starts, after its indentation, with `pool:`
/// lists no pool: such text, `no pools available to import` among it,
/// reads as none, never as an error.
pub proof fn lemma_no_pool_line_no_pools(text: Seq<char>)
    requires
        forall|i: int|
            0 <= i < lines_of(text).len() ==> !has_prefix(
                trim_start_of(#[trigger] lines_of(text)[i]),
                "pool:"@,
            ),
    ensures
        discovery(text) == Seq::<DiscView>::empty(),
{
    let ls = lines_of(text);
    lemma_scan_without_pool_lines(ls);
    assert(named_pools(Seq::<DiscView>::empty()) =~= Seq::<DiscView>::empty());
}

/// Lines none of which starts a pool leave the scan empty.
proof fn lemma_scan_without_pool_lines(ls: Seq<Seq<char>>)
    requires
        forall|i: int| 0 <= i < ls.len() ==> !has_prefix(trim_start_of(#[trigger] ls[i]), "pool:"@),
    ensures
        disc_scan(ls) == (Seq::<DiscView>::empty(), None::<DiscView>),
    decreases ls.len(),
{
    if ls.len() > 0 {
        assert forall|i: int| 0 <= i < ls.drop_last().len() implies !has_prefix(
            trim_start_of(#[trigger] ls.drop_last()[i]),
            "pool:"@,
        ) by {
            assert(ls.drop_last()[i] == ls[i]);
        }
        lemma_scan_without_pool_lines(ls.drop_last());
        assert(!has_prefix(trim_start_of(ls[ls.len() - 1]), "pool:"@));
    }
}

/// The plain values of a list of discovered pools.
pub open spec fn disc_views(v: Seq<DiscoveredPool>) -> Seq<DiscView> {
    v.map_values(|p: DiscoveredPool| disc_view(p))
}

/// The plain values of an optional discovered pool.
pub open spec fn opt_disc(p: Option<DiscoveredPool>) -> Option<DiscView> {
    match p {
        Some(q) => Some(disc_view(q)),
        None => None,
    }
}

/// One line of discovery output.
fn disc_line(pools: &mut Vec<DiscoveredPool>, current: &mut Option<DiscoveredPool>, line: &String)
    ensures
        disc_step((disc_views(old(pools)@), opt_disc(*old(current))), line@) == (
            disc_views(final(pools)@),
            opt_disc(*final(current)),
        ),
{
    let t = trim_start_str(line.as_str());
    proof {
        reveal_strlit("pool:");
        reveal_strlit("id:");
        reveal_strlit("state:");
        reveal_strlit("status:");
    }
    if let Some(rest) = strip_prefix_str(t.as_str(), "pool:") {
        let mut prev: Option<DiscoveredPool> = None;
        std::mem::swap(&mut prev, current);
        if let Some(p) = prev {
            let ghost before = pools@;
            pools.push(p);
            assert(disc_views(pools@) =~= disc_views(before).push(disc_view(p)));
        }
        *current = Some(
            DiscoveredPool {
                name: trim_str(rest.as_str()),
                id: String::new(),
                state: String::new(),
                status: None,
            },
        );
        return ;
    }
    match current {
        None => {},
        Some(p) => {
            if let Some(rest) = strip_prefix_str(t.as_str(), "id:") {
                p.id = trim_str(rest.as_str());
            } else if let Some(rest) = strip_prefix_str(t.as_str(), "state:") {
                p.state = trim_str(rest.as_str());
            } else if let Some(rest) = strip_prefix_str(t.as_str(), "status:") {
                p.status = Some(trim_str(rest.as_str()));
            }
        },
    }
}

/// Reads the pools that `zpool import` lists, from its stdout and stderr
/// together. Text with no pool gives none; nothing is an error.
pub fn parse_discovery(text: &str) -> (r: Vec<DiscoveredPool>)
    ensures
        disc_views(r@) == discovery(text@),
{
    let ls = lines(text);
    let mut pools: Vec<DiscoveredPool> = Vec::new();
    let mut current: Option<DiscoveredPool> = None;
    let mut i: usize = 0;
    assert(views(ls@).take(0) =~= Seq::<Seq<char>>::empty());
    assert(disc_views(pools@) =~= Seq::<DiscView>::empty());
    while i < ls.len()
        invariant
            i <= ls@.len(),
            views(ls@) == lines_of(text@),
            disc_scan(views(ls@).take(i as int)) == (disc_views(pools@), opt_disc(current)),
        decreases ls@.len() - i,
    {
        assert(views(ls@).take(i + 1).drop_last() =~= views(ls@).take(i as int));
        assert(views(ls@).take(i + 1).last() == ls@[i as int]@);
        disc_line(&mut pools, &mut current, &ls[i]);
        i = i + 1;
    }
    assert(views(ls@).take(i as int) =~= views(ls@));
    if let Some(p) = current {
        let ghost before = pools@;
        pools.push(p);
        assert(disc_views(pools@) =~= disc_views(before).push(disc_view(p)));
    }
    let ghost all = disc_views(pools@);
    let mut r: Vec<DiscoveredPool> = Vec::new();
    let mut k: usize = 0;
    assert(all.take(0) =~= Seq::<DiscView>::empty());
    assert(disc_views(r@) =~= Seq::<DiscView>::empty());
    while k < pools.len()
        invariant
            k <= pools@.len(),
            all == disc_views(pools@),
            disc_views(r@) == named_pools(all.take(k as int)),
        decreases pools@.len() - k,
    {
        assert(all.take(k + 1).drop_last() =~= all.take(k as int));
        assert(all.take(k + 1).last() == disc_view(pools@[k as int]));
        if crate::text::chars_of(pools[k].name.as_str()).len() > 0 {
            let ghost before = r@;
            let c = pools[k].clone();
            r.push(c);
            assert(disc_views(r@) =~= disc_views(before).push(disc_view(pools@[k as int])));
        }
        k = k + 1;
    }
    assert(all.take(k as int) =~= all);
    r
}

} // verus!
