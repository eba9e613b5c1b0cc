//! Validated names of ZFS entities: pools, datasets, snapshots and
//! bookmarks, with the character and length rules OpenZFS applies.
use vstd::prelude::*;
use crate::text::{chars_of, concat3, debug_quoted, debug_text, has_prefix, lacks, split_chars, split_on, split_once, split_once_of, starts_with_str, str_eq, utf8_len, views, byte_len, find_first, lemma_find_first};

verus! {

/// Which kind of name was refused.
#[derive(Debug, Clone, Copy, PartialEq, Eq)]
pub enum NameKind {
    Pool,
    Dataset,
    Snapshot,
    Bookmark,
}

/// Why a name was refused.
#[derive(Debug, Clone, Copy, PartialEq, Eq)]
pub enum NameReason {
    Empty,
    EntityTooLong,
    PoolTooLong,
    DatasetSeparator,
    EmptyComponent,
    DotComponent,
    BadCharacter,
    PoolSeparator,
    PoolLeadingLetter,
    Reserved,
    SnapshotShape,
    SnapshotTag,
    BookmarkShape,
    BookmarkMark,
}

/// The word naming each kind.
pub open spec fn kind_text(k: NameKind) -> Seq<char> {
    match k {
        NameKind::Pool => "pool"@,
        NameKind::Dataset => "dataset"@,
        NameKind::Snapshot => "snapshot"@,
        NameKind::Bookmark => "bookmark"@,
    }
}

/// The sentence explaining each reason.
pub open spec fn reason_text(r: NameReason) -> Seq<char> {
    match r {
        NameReason::Empty => "name is empty"@,
        NameReason::EntityTooLong => "name exceeds 255 bytes"@,
        NameReason::PoolTooLong => "name exceeds 239 bytes"@,
        NameReason::DatasetSeparator => "dataset names cannot contain '@' or '#'"@,
        NameReason::EmptyComponent => "path components cannot be empty"@,
        NameReason::DotComponent => "'.' and '..' components are not allowed"@,
        NameReason::BadCharacter => "contains a character OpenZFS does not allow"@,
        NameReason::PoolSeparator => "pool names cannot contain '/', '@', '#', or '%'"@,
        NameReason::PoolLeadingLetter => "pool names must begin with a letter"@,
        NameReason::Reserved => "name is reserved by OpenZFS"@,
        NameReason::SnapshotShape => "expected '<dataset>@<tag>'"@,
        NameReason::SnapshotTag => "snapshot tag is empty or malformed"@,
        NameReason::BookmarkShape => "expected '<dataset>#<mark>'"@,
        NameReason::BookmarkMark => "bookmark name is empty or malformed"@,
    }
}

impl NameKind {
    /// The word naming this kind.
    pub fn text(&self) -> (r: &'static str)
        ensures
            r@ == kind_text(*self),
    {
        match self {
            NameKind::Pool => "pool",
            NameKind::Dataset => "dataset",
            NameKind::Snapshot => "snapshot",
            NameKind::Bookmark => "bookmark",
        }
    }
}

impl NameReason {
    /// The sentence explaining this reason.
    pub fn text(&self) -> (r: &'static str)
        ensures
            r@ == reason_text(*self),
    {
        match self {
            NameReason::Empty => "name is empty",
            NameReason::EntityTooLong => "name exceeds 255 bytes",
            NameReason::PoolTooLong => "name exceeds 239 bytes",
            NameReason::DatasetSeparator => "dataset names cannot contain '@' or '#'",
            NameReason::EmptyComponent => "path components cannot be empty",
            NameReason::DotComponent => "'.' and '..' components are not allowed",
            NameReason::BadCharacter => "contains a character OpenZFS does not allow",
            NameReason::PoolSeparator => "pool names cannot contain '/', '@', '#', or '%'",
            NameReason::PoolLeadingLetter => "pool names must begin with a letter",
            NameReason::Reserved => "name is reserved by OpenZFS",
            NameReason::SnapshotShape => "expected '<dataset>@<tag>'",
            NameReason::SnapshotTag => "snapshot tag is empty or malformed",
            NameReason::BookmarkShape => "expected '<dataset>#<mark>'",
            NameReason::BookmarkMark => "bookmark name is empty or malformed",
        }
    }
}

/// A refused name: its kind, the text that was refused and the reason.
#[derive(Debug, Clone)]
pub struct NameError {
    kind: NameKind,
    value: String,
    reason: NameReason,
}

impl View for NameError {
    type V = (NameKind, Seq<char>, NameReason);

    closed spec fn view(&self) -> (NameKind, Seq<char>, NameReason) {
        (self.kind, self.value@, self.reason)
    }
}

/// `invalid(kind, value, reason)`.
fn invalid(kind: NameKind, value: &str, reason: NameReason) -> (e: NameError)
    ensures
        e@ == (kind, value@, reason),
{
    NameError { kind, value: value.to_owned(), reason }
}

impl NameError {
    /// Which kind of name was refused.
    pub fn kind(&self) -> (r: &'static str)
        ensures
            r@ == kind_text(self@.0),
    {
        self.kind.text()
    }

    /// The refused text.
    pub fn value(&self) -> (r: &str)
        ensures
            r@ == self@.1,
    {
        self.value.as_str()
    }

    /// Why it was refused.
    pub fn reason(&self) -> (r: &'static str)
        ensures
            r@ == reason_text(self@.2),
    {
        self.reason.text()
    }

    /// The kind as an enum.
    pub fn kind_code(&self) -> (r: NameKind)
        ensures
            r == self@.0,
    {
        self.kind
    }

    /// The reason as an enum.
    pub fn reason_code(&self) -> (r: NameReason)
        ensures
            r == self@.2,
    {
        self.reason
    }

    /// `invalid <kind> name <value:?>: <reason>`, the error's message.
    pub fn message(&self) -> (r: String)
        ensures
            r@ == name_error_message(self@),
    {
        let mut r = concat3("invalid ", self.kind.text(), " name ");
        r.append(debug_quoted(self.value.as_str()).as_str());
        r.append(": ");
        r.append(self.reason.text());
        r
    }
}

/// The message of a refused name.
pub open spec fn name_error_message(e: (NameKind, Seq<char>, NameReason)) -> Seq<char> {
    "invalid "@ + kind_text(e.0) + " name "@ + debug_text(e.1) + ": "@ + reason_text(e.2)
}

/// A character OpenZFS allows inside a name component.
pub open spec fn component_char(c: char) -> bool {
    ||| ('a' <= c && c <= 'z')
    ||| ('A' <= c && c <= 'Z')
    ||| ('0' <= c && c <= '9')
    ||| c == '-'
    ||| c == '_'
    ||| c == '.'
    ||| c == ':'
    ||| c == ' '
    ||| c == '%'
}

/// Every character is a component character.
pub open spec fn all_component_chars(s: Seq<char>) -> bool {
    forall|i: int| 0 <= i < s.len() ==> component_char(#[trigger] s[i])
}

/// What is wrong with one path component, if anything.
pub open spec fn component_fault(s: Seq<char>) -> Option<NameReason> {
    if s.len() == 0 {
        Some(NameReason::EmptyComponent)
    } else if s == seq!['.'] || s == seq!['.', '.'] {
        Some(NameReason::DotComponent)
    } else if !all_component_chars(s) {
        Some(NameReason::BadCharacter)
    } else {
        None
    }
}

/// The fault of the first faulty component.
pub open spec fn components_fault(cs: Seq<Seq<char>>) -> Option<NameReason>
    decreases cs.len(),
{
    if cs.len() == 0 {
        None
    } else {
        match component_fault(cs[0]) {
            Some(r) => Some(r),
            None => components_fault(cs.drop_first()),
        }
    }
}

/// Why `s` is not a dataset name, checked in the order OpenZFS reports.
pub open spec fn dataset_fault(s: Seq<char>) -> Option<NameReason> {
    if s.len() == 0 {
        Some(NameReason::Empty)
    } else if utf8_len(s) > 255 {
        Some(NameReason::EntityTooLong)
    } else if !lacks(s, '@') || !lacks(s, '#') {
        Some(NameReason::DatasetSeparator)
    } else {
        components_fault(split_on(s, '/'))
    }
}

/// `s` names a dataset.
pub open spec fn valid_dataset_name(s: Seq<char>) -> bool {
    dataset_fault(s) is None
}

/// Why `s` is not a pool name.
pub open spec fn pool_fault(s: Seq<char>) -> Option<NameReason> {
    if s.len() == 0 {
        Some(NameReason::Empty)
    } else if utf8_len(s) > 239 {
        Some(NameReason::PoolTooLong)
    } else if !lacks(s, '/') || !lacks(s, '@') || !lacks(s, '#') || !lacks(s, '%') {
        Some(NameReason::PoolSeparator)
    } else if !(('a' <= s[0] && s[0] <= 'z') || ('A' <= s[0] && s[0] <= 'Z')) {
        Some(NameReason::PoolLeadingLetter)
    } else if !all_component_chars(s) {
        Some(NameReason::BadCharacter)
    } else if s == "mirror"@ || s == "raidz"@ || s == "draid"@ {
        Some(NameReason::Reserved)
    } else {
        None
    }
}

/// `s` names a pool that may be opened.
pub open spec fn valid_pool_name(s: Seq<char>) -> bool {
    pool_fault(s) is None
}

/// `s` may name a pool being created or imported.
pub open spec fn creatable_pool_name(s: Seq<char>) -> bool {
    &&& valid_pool_name(s)
    &&& !has_prefix(s, "mirror"@)
    &&& !has_prefix(s, "raidz"@)
    &&& !has_prefix(s, "draid"@)
    &&& !has_prefix(s, "spare"@)
    &&& s != "log"@
}

/// Whether `c` may appear in a name component.
pub fn is_component_char(c: char) -> (r: bool)
    ensures
        r == component_char(c),
{
    ('a' <= c && c <= 'z') || ('A' <= c && c <= 'Z') || ('0' <= c && c <= '9') || c == '-' || c
        == '_' || c == '.' || c == ':' || c == ' ' || c == '%'
}

/// Whether every character may appear in a name component.
fn all_component_chars_in(v: &Vec<char>) -> (r: bool)
    ensures
        r == all_component_chars(v@),
{
    let mut i: usize = 0;
    while i < v.len()
        invariant
            i <= v@.len(),
            forall|j: int| 0 <= j < i ==> component_char(#[trigger] v@[j]),
        decreases v@.len() - i,
    {
        if !is_component_char(v[i]) {
            return false;
        }
        i = i + 1;
    }
    true
}

/// What is wrong with the component `s`.
fn check_component(s: &str) -> (r: Option<NameReason>)
    ensures
        r == component_fault(s@),
{
    let v = chars_of(s);
    if v.len() == 0 {
        return Some(NameReason::EmptyComponent);
    }
    if (v.len() == 1 && v[0] == '.') || (v.len() == 2 && v[0] == '.' && v[1] == '.') {
        assert(v@ =~= seq!['.'] || v@ =~= seq!['.', '.']);
        return Some(NameReason::DotComponent);
    }
    assert(v@ != seq!['.'] && v@ != seq!['.', '.']) by {
        if v@ == seq!['.'] {
            assert(v@[0] == '.');
        }
        if v@ == seq!['.', '.'] {
            assert(v@[0] == '.' && v@[1] == '.');
        }
    }
    if !all_component_chars_in(&v) {
        return Some(NameReason::BadCharacter);
    }
    None
}

/// Whether `c` occurs in `v`.
fn has_char(v: &Vec<char>, c: char) -> (r: bool)
    ensures
        r == !lacks(v@, c),
{
    let mut i: usize = 0;
    while i < v.len()
        invariant
            i <= v@.len(),
            forall|j: int| 0 <= j < i ==> v@[j] != c,
        decreases v@.len() - i,
    {
        if v[i] == c {
            return true;
        }
        i = i + 1;
    }
    false
}

/// Why `value` is not a dataset name.
fn check_dataset(value: &String) -> (r: Option<NameReason>)
    ensures
        r == dataset_fault(value@),
{
    let v = chars_of(value.as_str());
    if v.len() == 0 {
        return Some(NameReason::Empty);
    }
    if byte_len(value) > 255 {
        return Some(NameReason::EntityTooLong);
    }
    if has_char(&v, '@') || has_char(&v, '#') {
        return Some(NameReason::DatasetSeparator);
    }
    let parts = split_chars(&v, '/');
    let mut i: usize = 0;
    assert(views(parts@).skip(0) =~= views(parts@));
    while i < parts.len()
        invariant
            i <= parts@.len(),
            views(parts@) == split_on(value@, '/'),
            dataset_fault(value@) == components_fault(views(parts@)),
            components_fault(views(parts@)) == components_fault(views(parts@).skip(i as int)),
        decreases parts@.len() - i,
    {
        let f = check_component(parts[i].as_str());
        assert(views(parts@).skip(i as int).len() > 0);
        assert(views(parts@).skip(i as int)[0] == parts@[i as int]@);
        if f.is_some() {
            return f;
        }
        assert(views(parts@).skip(i as int).drop_first() =~= views(parts@).skip(i + 1));
        i = i + 1;
    }
    assert(views(parts@).skip(i as int) =~= Seq::<Seq<char>>::empty());
    None
}

/// Why `value` is not a pool name.
fn check_pool(value: &String) -> (r: Option<NameReason>)
    ensures
        r == pool_fault(value@),
{
    let v = chars_of(value.as_str());
    if v.len() == 0 {
        return Some(NameReason::Empty);
    }
    if byte_len(value) > 239 {
        return Some(NameReason::PoolTooLong);
    }
    if has_char(&v, '/') || has_char(&v, '@') || has_char(&v, '#') || has_char(&v, '%') {
        return Some(NameReason::PoolSeparator);
    }
    if !(('a' <= v[0] && v[0] <= 'z') || ('A' <= v[0] && v[0] <= 'Z')) {
        return Some(NameReason::PoolLeadingLetter);
    }
    if !all_component_chars_in(&v) {
        return Some(NameReason::BadCharacter);
    }
    let s = value.as_str();
    if str_eq(s, "mirror") || str_eq(s, "raidz") || str_eq(s, "draid") {
        return Some(NameReason::Reserved);
    }
    None
}

/// A valid pool name.
#[derive(Debug, PartialEq, Eq, PartialOrd, Ord, Hash)]
pub struct PoolName(String);

impl Clone for PoolName {
    fn clone(&self) -> (r: Self)
        ensures
            r@ == self@,
    {
        proof {
            use_type_invariant(self);
        }
        PoolName(self.0.clone())
    }
}

impl View for PoolName {
    type V = Seq<char>;

    closed spec fn view(&self) -> Seq<char> {
        self.0@
    }
}

impl PoolName {
    #[verifier::type_invariant]
    spec fn wf(self) -> bool {
        valid_pool_name(self.0@)
    }

    /// Parses a name for an existing pool.
    pub fn parse(value: &str) -> (r: Result<PoolName, NameError>)
        ensures
            match r {
                Ok(n) => pool_fault(value@) is None && n@ == value@,
                Err(e) => pool_fault(value@) == Some(e@.2) && e@.0 == NameKind::Pool && e@.1
                    == value@,
            },
    {
        let owned = value.to_owned();
        match check_pool(&owned) {
            Some(reason) => Err(invalid(NameKind::Pool, value, reason)),
            None => Ok(PoolName(owned)),
        }
    }

    /// Parses a name for `zpool create` or `zpool import`. OpenZFS accepts
    /// legacy reserved-prefix names when opening an existing pool, but
    /// rejects them when creating or importing one.
    pub fn parse_for_create(value: &str) -> (r: Result<PoolName, NameError>)
        ensures
            match r {
                Ok(n) => creatable_pool_name(value@) && n@ == value@,
                Err(e) => !creatable_pool_name(value@) && e@.0 == NameKind::Pool && e@.1
                    == value@ && e@.2 == match pool_fault(value@) {
                    Some(f) => f,
                    None => NameReason::Reserved,
                },
            },
    {
        let owned = value.to_owned();
        if let Some(reason) = check_pool(&owned) {
            return Err(invalid(NameKind::Pool, value, reason));
        }
        if starts_with_str(value, "mirror") || starts_with_str(value, "raidz") || starts_with_str(
            value,
            "draid",
        ) || starts_with_str(value, "spare") || str_eq(value, "log") {
            return Err(invalid(NameKind::Pool, value, NameReason::Reserved));
        }
        Ok(PoolName(owned))
    }

    /// The name's text.
    pub fn as_str(&self) -> (r: &str)
        ensures
            r@ == self@,
            valid_pool_name(self@),
    {
        proof {
            use_type_invariant(self);
        }
        self.0.as_str()
    }

    /// The pool's root dataset, whose name is the pool's own.
    pub fn root_dataset(&self) -> (r: DatasetName)
        ensures
            r@ == self@,
    {
        proof {
            use_type_invariant(self);
            lemma_pool_name_is_dataset_name(self.0@);
        }
        DatasetName(self.0.clone())
    }
}

/// The name of `rel_name` below `parent`: `<parent>/<rel_name>`.
pub fn child_name(parent: &str, rel_name: &str) -> (r: String)
    ensures
        r@ == parent@ + seq!['/'] + rel_name@,
{
    let r = concat3(parent, "/", rel_name);
    proof {
        reveal_strlit("/");
    }
    assert(r@ =~= parent@ + seq!['/'] + rel_name@);
    r
}

/// A valid dataset (filesystem or volume) name.
#[derive(Debug, PartialEq, Eq, PartialOrd, Ord, Hash)]
pub struct DatasetName(String);

impl Clone for DatasetName {
    fn clone(&self) -> (r: Self)
        ensures
            r@ == self@,
    {
        proof {
            use_type_invariant(self);
        }
        DatasetName(self.0.clone())
    }
}

impl View for DatasetName {
    type V = Seq<char>;

    closed spec fn view(&self) -> Seq<char> {
        self.0@
    }
}

impl DatasetName {
    #[verifier::type_invariant]
    spec fn wf(self) -> bool {
        valid_dataset_name(self.0@)
    }

    /// Parses a dataset name.
    pub fn parse(value: &str) -> (r: Result<DatasetName, NameError>)
        ensures
            match r {
                Ok(n) => valid_dataset_name(value@) && n@ == value@,
                Err(e) => dataset_fault(value@) == Some(e@.2) && e@.0 == NameKind::Dataset
                    && e@.1 == value@,
            },
    {
        let owned = value.to_owned();
        match check_dataset(&owned) {
            Some(reason) => Err(invalid(NameKind::Dataset, value, reason)),
            None => Ok(DatasetName(owned)),
        }
    }

    /// The name's text.
    pub fn as_str(&self) -> (r: &str)
        ensures
            r@ == self@,
            valid_dataset_name(self@),
    {
        proof {
            use_type_invariant(self);
        }
        self.0.as_str()
    }
}

/// How a name of the form `<dataset><sep><tag>` is read: its parts, or
/// the error reported for it. The whole name is held to 255 bytes, split
/// at the first `sep`, the tag checked as a component, then the dataset.
pub open spec fn tagged_parse(
    full: Seq<char>,
    sep: char,
    kind: NameKind,
    shape: NameReason,
    malformed: NameReason,
) -> Result<(Seq<char>, Seq<char>), (NameKind, Seq<char>, NameReason)> {
    if utf8_len(full) > 255 {
        Err((kind, full, NameReason::EntityTooLong))
    } else {
        match split_once_of(full, sep) {
            None => Err((kind, full, shape)),
            Some((d, t)) => if !lacks(t, '/') || !lacks(t, '@') || !lacks(t, '#') {
                Err((kind, full, malformed))
            } else {
                match component_fault(t) {
                    Some(r) => Err((kind, full, r)),
                    None => match dataset_fault(d) {
                        Some(r) => Err((NameKind::Dataset, d, r)),
                        None => Ok((d, t)),
                    },
                }
            },
        }
    }
}

/// How a snapshot name `<dataset>@<tag>` is read.
pub open spec fn snapshot_parse(full: Seq<char>) -> Result<
    (Seq<char>, Seq<char>),
    (NameKind, Seq<char>, NameReason),
> {
    tagged_parse(full, '@', NameKind::Snapshot, NameReason::SnapshotShape, NameReason::SnapshotTag)
}

/// How a bookmark name `<dataset>#<mark>` is read.
pub open spec fn bookmark_parse(full: Seq<char>) -> Result<
    (Seq<char>, Seq<char>),
    (NameKind, Seq<char>, NameReason),
> {
    tagged_parse(full, '#', NameKind::Bookmark, NameReason::BookmarkShape, NameReason::BookmarkMark)
}

/// `tag` may follow a separator in a snapshot or bookmark name.
pub open spec fn valid_tag(tag: Seq<char>) -> bool {
    lacks(tag, '/') && lacks(tag, '@') && lacks(tag, '#') && component_fault(tag) is None
}

/// Reads `<dataset><sep><tag>`.
fn parse_tagged(
    full: &str,
    sep: char,
    kind: NameKind,
    shape: NameReason,
    malformed: NameReason,
) -> (r: Result<(DatasetName, String), NameError>)
    ensures
        match r {
            Ok((d, t)) => tagged_parse(full@, sep, kind, shape, malformed) == Ok::<
                (Seq<char>, Seq<char>),
                (NameKind, Seq<char>, NameReason),
            >((d@, t@)),
            Err(e) => tagged_parse(full@, sep, kind, shape, malformed) == Err::<
                (Seq<char>, Seq<char>),
                (NameKind, Seq<char>, NameReason),
            >(e@),
        },
{
    if full.len() > 255 {
        return Err(invalid(kind, full, NameReason::EntityTooLong));
    }
    let (d, t) = match split_once(full, sep) {
        None => {
            return Err(invalid(kind, full, shape));
        },
        Some(p) => p,
    };
    let tv = chars_of(t.as_str());
    if has_char(&tv, '/') || has_char(&tv, '@') || has_char(&tv, '#') {
        return Err(invalid(kind, full, malformed));
    }
    if let Some(reason) = check_component(t.as_str()) {
        return Err(invalid(kind, full, reason));
    }
    let dataset = DatasetName::parse(d.as_str())?;
    Ok((dataset, t))
}

/// A valid snapshot name, `<dataset>@<tag>`.
#[derive(Debug, PartialEq, Eq, PartialOrd, Ord, Hash)]
pub struct SnapshotName {
    full: String,
    dataset: DatasetName,
    tag: String,
}

impl View for SnapshotName {
    type V = Seq<char>;

    closed spec fn view(&self) -> Seq<char> {
        self.full@
    }
}

impl Clone for SnapshotName {
    fn clone(&self) -> (r: Self)
        ensures
            r@ == self@,
    {
        proof {
            use_type_invariant(self);
        }
        SnapshotName { full: self.full.clone(), dataset: self.dataset.clone(), tag: self.tag.clone() }
    }
}

impl SnapshotName {
    #[verifier::type_invariant]
    spec fn wf(self) -> bool {
        snapshot_parse(self.full@) == Ok::<
            (Seq<char>, Seq<char>),
            (NameKind, Seq<char>, NameReason),
        >((self.dataset@, self.tag@))
    }

    /// Parses `<dataset>@<tag>`.
    pub fn parse(value: &str) -> (r: Result<SnapshotName, NameError>)
        ensures
            match r {
                Ok(n) => n@ == value@ && snapshot_parse(value@) == Ok::<
                    (Seq<char>, Seq<char>),
                    (NameKind, Seq<char>, NameReason),
                >(n.parts()),
                Err(e) => snapshot_parse(value@) == Err::<
                    (Seq<char>, Seq<char>),
                    (NameKind, Seq<char>, NameReason),
                >(e@),
            },
    {
        let (dataset, tag) = parse_tagged(
            value,
            '@',
            NameKind::Snapshot,
            NameReason::SnapshotShape,
            NameReason::SnapshotTag,
        )?;
        Ok(SnapshotName { full: value.to_owned(), dataset, tag })
    }

    /// `<dataset>@<tag>`: the snapshot `tag` of `dataset`.
    pub fn new(dataset: DatasetName, tag: &str) -> (r: Result<SnapshotName, NameError>)
        ensures
            match r {
                Ok(n) => valid_tag(tag@) && n@ == dataset@ + seq!['@'] + tag@
                    && n.parts() == (dataset@, tag@),
                Err(e) => !valid_tag(tag@) || utf8_len(dataset@ + seq!['@'] + tag@) > 255,
            },
            r is Ok <== valid_tag(tag@) && utf8_len(dataset@ + seq!['@'] + tag@) <= 255,
            r is Err ==> r->Err_0@ == snapshot_parse(dataset@ + seq!['@'] + tag@)->Err_0,
    {
        let d = dataset.as_str();
        let full = concat3(d, "@", tag);
        proof {
            lemma_tagged_join(dataset@, '@', tag@);
            reveal_strlit("@");
            assert(full@ == dataset@ + seq!['@'] + tag@);
        }
        let r = SnapshotName::parse(full.as_str());
        proof {
            if r is Ok {
                assert(snapshot_parse(full@) is Ok);
                assert(utf8_len(full@) <= 255);
            }
        }
        r
    }

    /// The dataset and tag this name is made of.
    pub closed spec fn parts(&self) -> (Seq<char>, Seq<char>) {
        (self.dataset@, self.tag@)
    }

    /// The name's text.
    pub fn as_str(&self) -> (r: &str)
        ensures
            r@ == self@,
            snapshot_parse(self@) == Ok::<
                (Seq<char>, Seq<char>),
                (NameKind, Seq<char>, NameReason),
            >(self.parts()),
    {
        proof {
            use_type_invariant(self);
        }
        self.full.as_str()
    }

    /// The dataset part.
    pub fn dataset(&self) -> (r: &DatasetName)
        ensures
            r@ == self.parts().0,
            self@ == self.parts().0 + seq!['@'] + self.parts().1,
    {
        proof {
            use_type_invariant(self);
            lemma_tagged_parts(self.full@, '@', NameKind::Snapshot, NameReason::SnapshotShape, NameReason::SnapshotTag);
        }
        &self.dataset
    }

    /// The tag part.
    pub fn tag(&self) -> (r: &str)
        ensures
            r@ == self.parts().1,
            valid_tag(r@),
    {
        proof {
            use_type_invariant(self);
        }
        self.tag.as_str()
    }
}

/// A valid bookmark name, `<dataset>#<mark>`.
#[derive(Debug, PartialEq, Eq, PartialOrd, Ord, Hash)]
pub struct BookmarkName {
    full: String,
    dataset: DatasetName,
    mark: String,
}

impl View for BookmarkName {
    type V = Seq<char>;

    closed spec fn view(&self) -> Seq<char> {
        self.full@
    }
}

impl Clone for BookmarkName {
    fn clone(&self) -> (r: Self)
        ensures
            r@ == self@,
    {
        proof {
            use_type_invariant(self);
        }
        BookmarkName { full: self.full.clone(), dataset: self.dataset.clone(), mark: self.mark.clone() }
    }
}

impl BookmarkName {
    #[verifier::type_invariant]
    spec fn wf(self) -> bool {
        bookmark_parse(self.full@) == Ok::<
            (Seq<char>, Seq<char>),
            (NameKind, Seq<char>, NameReason),
        >((self.dataset@, self.mark@))
    }

    /// Parses `<dataset>#<mark>`.
    pub fn parse(value: &str) -> (r: Result<BookmarkName, NameError>)
        ensures
            match r {
                Ok(n) => n@ == value@ && bookmark_parse(value@) == Ok::<
                    (Seq<char>, Seq<char>),
                    (NameKind, Seq<char>, NameReason),
                >(n.parts()),
                Err(e) => bookmark_parse(value@) == Err::<
                    (Seq<char>, Seq<char>),
                    (NameKind, Seq<char>, NameReason),
                >(e@),
            },
    {
        let (dataset, tag) = parse_tagged(
            value,
            '#',
            NameKind::Bookmark,
            NameReason::BookmarkShape,
            NameReason::BookmarkMark,
        )?;
        Ok(BookmarkName { full: value.to_owned(), dataset, mark: tag })
    }

    /// `<dataset>#<mark>`: the bookmark `mark` of `dataset`.
    pub fn new(dataset: DatasetName, mark: &str) -> (r: Result<BookmarkName, NameError>)
        ensures
            match r {
                Ok(n) => valid_tag(mark@) && n@ == dataset@ + seq!['#'] + mark@
                    && n.parts() == (dataset@, mark@),
                Err(e) => !valid_tag(mark@) || utf8_len(dataset@ + seq!['#'] + mark@) > 255,
            },
            r is Ok <== valid_tag(mark@) && utf8_len(dataset@ + seq!['#'] + mark@) <= 255,
            r is Err ==> r->Err_0@ == bookmark_parse(dataset@ + seq!['#'] + mark@)->Err_0,
    {
        let d = dataset.as_str();
        let full = concat3(d, "#", mark);
        proof {
            lemma_tagged_join(dataset@, '#', mark@);
            reveal_strlit("#");
            assert(full@ == dataset@ + seq!['#'] + mark@);
        }
        let r = BookmarkName::parse(full.as_str());
        proof {
            if r is Ok {
                assert(bookmark_parse(full@) is Ok);
                assert(utf8_len(full@) <= 255);
            }
        }
        r
    }

    /// The dataset and mark this name is made of.
    pub closed spec fn parts(&self) -> (Seq<char>, Seq<char>) {
        (self.dataset@, self.mark@)
    }

    /// The name's text.
    pub fn as_str(&self) -> (r: &str)
        ensures
            r@ == self@,
            bookmark_parse(self@) == Ok::<
                (Seq<char>, Seq<char>),
                (NameKind, Seq<char>, NameReason),
            >(self.parts()),
    {
        proof {
            use_type_invariant(self);
        }
        self.full.as_str()
    }

    /// The dataset part.
    pub fn dataset(&self) -> (r: &DatasetName)
        ensures
            r@ == self.parts().0,
            self@ == self.parts().0 + seq!['#'] + self.parts().1,
    {
        proof {
            use_type_invariant(self);
            lemma_tagged_parts(self.full@, '#', NameKind::Bookmark, NameReason::BookmarkShape, NameReason::BookmarkMark);
        }
        &self.dataset
    }

    /// The mark part.
    pub fn mark(&self) -> (r: &str)
        ensures
            r@ == self.parts().1,
            valid_tag(r@),
    {
        proof {
            use_type_invariant(self);
        }
        self.mark.as_str()
    }
}

/// A name read as `<dataset><sep><tag>` is that text.
pub proof fn lemma_tagged_parts(
    full: Seq<char>,
    sep: char,
    kind: NameKind,
    shape: NameReason,
    malformed: NameReason,
)
    requires
        tagged_parse(full, sep, kind, shape, malformed) is Ok,
    ensures
        ({
            let (d, t) = tagged_parse(full, sep, kind, shape, malformed)->Ok_0;
            &&& full == d + seq![sep] + t
            &&& valid_dataset_name(d)
            &&& valid_tag(t)
            &&& lacks(d, sep)
        }),
{
    lemma_find_first(full, sep);
    let i = find_first(full, sep)->0;
    assert(full =~= full.take(i as int) + seq![sep] + full.skip(i as int + 1));
}

/// A dataset joined to a tag reads back as the two, when the tag is valid.
pub proof fn lemma_tagged_join(d: Seq<char>, sep: char, t: Seq<char>)
    requires
        valid_dataset_name(d),
        sep == '@' || sep == '#',
    ensures
        split_once_of(d + seq![sep] + t, sep) == Some((d, t)),
{
    let full = d + seq![sep] + t;
    assert(lacks(d, sep));
    assert(full.take(d.len() as int) =~= d);
    assert(full.skip(d.len() as int + 1) =~= t);
    lemma_find_first(full, sep);
    match find_first(full, sep) {
        Some(i) => {
            if i < d.len() {
                assert(full[i as int] == d[i as int]);
            } else if i > d.len() {
                assert(full.take(i as int)[d.len() as int] == sep);
            }
        },
        None => {
            assert(full[d.len() as int] == sep);
        },
    }
}

/// Every name a pool may have is also a dataset name: that of the pool's
/// root dataset.
pub proof fn lemma_pool_name_is_dataset_name(s: Seq<char>)
    requires
        valid_pool_name(s),
    ensures
        valid_dataset_name(s),
{
    crate::text::lemma_split_on_none(s, '/');
    let cs = split_on(s, '/');
    assert(cs.drop_first() =~= Seq::<Seq<char>>::empty());
    assert(s != seq!['.']) by {
        if s == seq!['.'] {
            assert(s[0] == '.');
        }
    }
    assert(s != seq!['.', '.']) by {
        if s == seq!['.', '.'] {
            assert(s[0] == '.');
        }
    }
    assert(component_fault(s) is None);
    assert(components_fault(cs.drop_first()) is None);
    assert(cs[0] == s);
    assert(components_fault(cs) is None);
    assert(lacks(s, '@') && lacks(s, '#'));
    assert(utf8_len(s) <= 255);
}

/// The kinds of names do not overlap: a dataset name is never a snapshot
/// or a bookmark name, and a snapshot name is never a bookmark name.
pub proof fn lemma_name_kinds_disjoint(s: Seq<char>)
    ensures
        valid_dataset_name(s) ==> snapshot_parse(s) is Err && bookmark_parse(s) is Err,
        snapshot_parse(s) is Ok ==> bookmark_parse(s) is Err,
{
    lemma_find_first(s, '@');
    lemma_find_first(s, '#');
    if snapshot_parse(s) is Ok && bookmark_parse(s) is Ok {
        lemma_tagged_parts(s, '@', NameKind::Snapshot, NameReason::SnapshotShape, NameReason::SnapshotTag);
        lemma_tagged_parts(s, '#', NameKind::Bookmark, NameReason::BookmarkShape, NameReason::BookmarkMark);
        let (d1, t1) = snapshot_parse(s)->Ok_0;
        let i = find_first(s, '#')->0;
        if i < d1.len() {
            assert(d1[i as int] == s[i as int]);
        } else if i == d1.len() {
        } else {
            assert(t1[i - d1.len() - 1] == s[i as int]);
        }
    }
}

} // verus!
