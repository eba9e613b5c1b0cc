//! `zfs recv`: its arguments, and what its exit and stderr mean.
use vstd::prelude::*;
use crate::args::{flag_if, lemma_flag_word, lemma_one_word_then, one_word_more, push_all, push_flag, push_str, single};
use crate::error::{classification, classify_stderr, ErrorView, ZfsError};
use crate::names::{DatasetName, SnapshotName};
use crate::send::{lemma_contains_char, send_target_fault};
use crate::strmap::{has_key, StrMap};
use crate::text::{concat3, contains_str, debug_quoted, debug_text, has_prefix, is_infix, lacks, lines, lines_of, str_eq, strip_prefix_str, trim_of, trim_str, views};

verus! {

/// Why a receive ended without success.
#[derive(Debug)]
pub enum RecvError {
    /// The stream was cut off; `zfs send -t <token>` on the sender resumes
    /// it, and the partial state stays on the receiver.
    NeedsResumeToken { token: String },
    Zfs(ZfsError),
}

/// A [`RecvError`] as plain values.
pub enum RecvFault {
    NeedsResumeToken(Seq<char>),
    Zfs(ErrorView),
}

impl View for RecvError {
    type V = RecvFault;

    open spec fn view(&self) -> RecvFault {
        match self {
            RecvError::NeedsResumeToken { token } => RecvFault::NeedsResumeToken(token@),
            RecvError::Zfs(e) => RecvFault::Zfs(e@),
        }
    }
}

/// Arguments for a `zfs recv` invocation.
#[derive(Debug)]
pub struct RecvArgs {
    /// Destination dataset or snapshot.
    pub target: String,
    /// `-F`: roll the target back to its latest snapshot where needed.
    pub force_rollback: bool,
    /// `-u`: do not mount what was received.
    pub unmounted: bool,
    /// `-d`: drop the first component of the sent dataset's name.
    pub discard_first_component: bool,
    /// `-e`: keep only the last component of the sent dataset's name.
    pub discard_except_last_component: bool,
    /// `-o property=value` overrides, written in increasing key order.
    pub properties_override: StrMap<String>,
    /// `-x property`: inherit the property instead of receiving it.
    pub properties_inherit: Vec<String>,
    /// `-s`: keep partial state on interruption, for a later resume.
    pub resumable: bool,
}

/// The index of the first entry equal to an earlier one.
pub open spec fn first_repeat(s: Seq<Seq<char>>) -> Option<int>
    decreases s.len(),
{
    if s.len() == 0 {
        None
    } else {
        match first_repeat(s.drop_last()) {
            Some(i) => Some(i),
            None => if s.drop_last().contains(s.last()) {
                Some(s.len() - 1)
            } else {
                None
            },
        }
    }
}

/// The index of the first property that is also overridden.
pub open spec fn first_overridden(s: Seq<Seq<char>>, m: Seq<(Seq<char>, String)>) -> Option<int>
    decreases s.len(),
{
    if s.len() == 0 {
        None
    } else {
        match first_overridden(s.drop_last(), m) {
            Some(i) => Some(i),
            None => if has_key(m, s.last()) {
                Some(s.len() - 1)
            } else {
                None
            },
        }
    }
}

/// `-o key=value` for each override, in order.
pub open spec fn override_args(m: Seq<(Seq<char>, String)>) -> Seq<Seq<char>>
    decreases m.len(),
{
    if m.len() == 0 {
        Seq::<Seq<char>>::empty()
    } else {
        override_args(m.drop_last()) + seq!["-o"@, m.last().0 + "="@ + m.last().1@]
    }
}

/// `-x key` for each inherited property, in order.
pub open spec fn inherit_args(s: Seq<Seq<char>>) -> Seq<Seq<char>>
    decreases s.len(),
{
    if s.len() == 0 {
        Seq::<Seq<char>>::empty()
    } else {
        inherit_args(s.drop_last()) + seq!["-x"@, s.last()]
    }
}

/// Why a receive cannot be built, if it cannot: the target's name, `-d`
/// with `-e`, `-d`/`-e` into a snapshot, a property inherited twice, and a
/// property both overridden and inherited, in that order.
pub open spec fn recv_fault(a: RecvArgs) -> Option<ErrorView> {
    let inh = views(a.properties_inherit@);
    if send_target_fault(a.target@) is Some {
        Some(ErrorView::InvalidName(send_target_fault(a.target@)->0))
    } else if a.discard_first_component && a.discard_except_last_component {
        Some(ErrorView::InvalidInput("RecvArgs cannot enable both -d and -e"@))
    } else if !lacks(a.target@, '@') && (a.discard_first_component
        || a.discard_except_last_component) {
        Some(
            ErrorView::InvalidInput("zfs recv -d/-e requires a filesystem target, not a snapshot"@),
        )
    } else if first_repeat(inh) is Some {
        Some(
            ErrorView::InvalidInput(
                "receive property "@ + debug_text(inh[first_repeat(inh)->0])
                    + " is inherited more than once"@,
            ),
        )
    } else if first_overridden(inh, a.properties_override@) is Some {
        Some(
            ErrorView::InvalidInput(
                "receive property "@ + debug_text(
                    inh[first_overridden(inh, a.properties_override@)->0],
                ) + " cannot be both overridden and inherited"@,
            ),
        )
    } else {
        None
    }
}

/// The argument list of `zfs recv` for `a`: `recv`, the flags
/// `-F -u -d -e -s`, the overrides in key order, the inherited
/// properties in order, then the target.
pub open spec fn recv_args(a: RecvArgs) -> Seq<Seq<char>> {
    seq!["recv"@] + flag_if(a.force_rollback, "-F"@) + flag_if(a.unmounted, "-u"@) + flag_if(
        a.discard_first_component,
        "-d"@,
    ) + flag_if(a.discard_except_last_component, "-e"@) + flag_if(a.resumable, "-s"@)
        + override_args(a.properties_override@) + inherit_args(views(a.properties_inherit@))
        + seq![a.target@]
}

/// Each flag of `zfs recv` is written exactly when its own field is set:
/// setting `force_rollback`, `unmounted`, `discard_first_component`,
/// `discard_except_last_component` or `resumable` adds its own flag (`-F`,
/// `-u`, `-d`, `-e`, `-s`), once, and changes nothing else in the list;
/// `-F`, `-u` and `-s` never decide whether the list can be built.
pub proof fn lemma_recv_flag_follows_field(a: RecvArgs)
    ensures
        recv_fault(RecvArgs { force_rollback: true, ..a }) == recv_fault(
            RecvArgs { force_rollback: false, ..a },
        ),
        recv_fault(RecvArgs { unmounted: true, ..a }) == recv_fault(
            RecvArgs { unmounted: false, ..a },
        ),
        recv_fault(RecvArgs { resumable: true, ..a }) == recv_fault(
            RecvArgs { resumable: false, ..a },
        ),
        one_word_more(
            recv_args(RecvArgs { force_rollback: true, ..a }),
            recv_args(RecvArgs { force_rollback: false, ..a }),
            "-F"@,
        ),
        one_word_more(
            recv_args(RecvArgs { unmounted: true, ..a }),
            recv_args(RecvArgs { unmounted: false, ..a }),
            "-u"@,
        ),
        one_word_more(
            recv_args(RecvArgs { discard_first_component: true, ..a }),
            recv_args(RecvArgs { discard_first_component: false, ..a }),
            "-d"@,
        ),
        one_word_more(
            recv_args(RecvArgs { discard_except_last_component: true, ..a }),
            recv_args(RecvArgs { discard_except_last_component: false, ..a }),
            "-e"@,
        ),
        one_word_more(
            recv_args(RecvArgs { resumable: true, ..a }),
            recv_args(RecvArgs { resumable: false, ..a }),
            "-s"@,
        ),
{
    assert(one_word_more(
        recv_args(RecvArgs { force_rollback: true, ..a }),
        recv_args(RecvArgs { force_rollback: false, ..a }),
        "-F"@,
    )) by {
        let h = seq!["recv"@];
        lemma_flag_word(h, "-F"@);
        lemma_one_word_then(h + flag_if(true, "-F"@), h + flag_if(false, "-F"@), "-F"@, flag_if(a.unmounted, "-u"@));
        lemma_one_word_then((h + flag_if(true, "-F"@)) + flag_if(a.unmounted, "-u"@), (h + flag_if(false, "-F"@)) + flag_if(a.unmounted, "-u"@), "-F"@, flag_if(a.discard_first_component, "-d"@));
        lemma_one_word_then(((h + flag_if(true, "-F"@)) + flag_if(a.unmounted, "-u"@)) + flag_if(a.discard_first_component, "-d"@), ((h + flag_if(false, "-F"@)) + flag_if(a.unmounted, "-u"@)) + flag_if(a.discard_first_component, "-d"@), "-F"@, flag_if(a.discard_except_last_component, "-e"@));
        lemma_one_word_then((((h + flag_if(true, "-F"@)) + flag_if(a.unmounted, "-u"@)) + flag_if(a.discard_first_component, "-d"@)) + flag_if(a.discard_except_last_component, "-e"@), (((h + flag_if(false, "-F"@)) + flag_if(a.unmounted, "-u"@)) + flag_if(a.discard_first_component, "-d"@)) + flag_if(a.discard_except_last_component, "-e"@), "-F"@, flag_if(a.resumable, "-s"@));
        lemma_one_word_then(((((h + flag_if(true, "-F"@)) + flag_if(a.unmounted, "-u"@)) + flag_if(a.discard_first_component, "-d"@)) + flag_if(a.discard_except_last_component, "-e"@)) + flag_if(a.resumable, "-s"@), ((((h + flag_if(false, "-F"@)) + flag_if(a.unmounted, "-u"@)) + flag_if(a.discard_first_component, "-d"@)) + flag_if(a.discard_except_last_component, "-e"@)) + flag_if(a.resumable, "-s"@), "-F"@, override_args(a.properties_override@));
        lemma_one_word_then((((((h + flag_if(true, "-F"@)) + flag_if(a.unmounted, "-u"@)) + flag_if(a.discard_first_component, "-d"@)) + flag_if(a.discard_except_last_component, "-e"@)) + flag_if(a.resumable, "-s"@)) + override_args(a.properties_override@), (((((h + flag_if(false, "-F"@)) + flag_if(a.unmounted, "-u"@)) + flag_if(a.discard_first_component, "-d"@)) + flag_if(a.discard_except_last_component, "-e"@)) + flag_if(a.resumable, "-s"@)) + override_args(a.properties_override@), "-F"@, inherit_args(views(a.properties_inherit@)));
        lemma_one_word_then(((((((h + flag_if(true, "-F"@)) + flag_if(a.unmounted, "-u"@)) + flag_if(a.discard_first_component, "-d"@)) + flag_if(a.discard_except_last_component, "-e"@)) + flag_if(a.resumable, "-s"@)) + override_args(a.properties_override@)) + inherit_args(views(a.properties_inherit@)), ((((((h + flag_if(false, "-F"@)) + flag_if(a.unmounted, "-u"@)) + flag_if(a.discard_first_component, "-d"@)) + flag_if(a.discard_except_last_component, "-e"@)) + flag_if(a.resumable, "-s"@)) + override_args(a.properties_override@)) + inherit_args(views(a.properties_inherit@)), "-F"@, seq![a.target@]);
        assert(recv_args(RecvArgs { force_rollback: true, ..a }) == (((((((h + flag_if(true, "-F"@)) + flag_if(a.unmounted, "-u"@)) + flag_if(a.discard_first_component, "-d"@)) + flag_if(a.discard_except_last_component, "-e"@)) + flag_if(a.resumable, "-s"@)) + override_args(a.properties_override@)) + inherit_args(views(a.properties_inherit@))) + seq![a.target@]);
        assert(recv_args(RecvArgs { force_rollback: false, ..a }) == (((((((h + flag_if(false, "-F"@)) + flag_if(a.unmounted, "-u"@)) + flag_if(a.discard_first_component, "-d"@)) + flag_if(a.discard_except_last_component, "-e"@)) + flag_if(a.resumable, "-s"@)) + override_args(a.properties_override@)) + inherit_args(views(a.properties_inherit@))) + seq![a.target@]);
    }
    assert(one_word_more(
        recv_args(RecvArgs { unmounted: true, ..a }),
        recv_args(RecvArgs { unmounted: false, ..a }),
        "-u"@,
    )) by {
        let h = seq!["recv"@] + flag_if(a.force_rollback, "-F"@);
        lemma_flag_word(h, "-u"@);
        lemma_one_word_then(h + flag_if(true, "-u"@), h + flag_if(false, "-u"@), "-u"@, flag_if(a.discard_first_component, "-d"@));
        lemma_one_word_then((h + flag_if(true, "-u"@)) + flag_if(a.discard_first_component, "-d"@), (h + flag_if(false, "-u"@)) + flag_if(a.discard_first_component, "-d"@), "-u"@, flag_if(a.discard_except_last_component, "-e"@));
        lemma_one_word_then(((h + flag_if(true, "-u"@)) + flag_if(a.discard_first_component, "-d"@)) + flag_if(a.discard_except_last_component, "-e"@), ((h + flag_if(false, "-u"@)) + flag_if(a.discard_first_component, "-d"@)) + flag_if(a.discard_except_last_component, "-e"@), "-u"@, flag_if(a.resumable, "-s"@));
        lemma_one_word_then((((h + flag_if(true, "-u"@)) + flag_if(a.discard_first_component, "-d"@)) + flag_if(a.discard_except_last_component, "-e"@)) + flag_if(a.resumable, "-s"@), (((h + flag_if(false, "-u"@)) + flag_if(a.discard_first_component, "-d"@)) + flag_if(a.discard_except_last_component, "-e"@)) + flag_if(a.resumable, "-s"@), "-u"@, override_args(a.properties_override@));
        lemma_one_word_then(((((h + flag_if(true, "-u"@)) + flag_if(a.discard_first_component, "-d"@)) + flag_if(a.discard_except_last_component, "-e"@)) + flag_if(a.resumable, "-s"@)) + override_args(a.properties_override@), ((((h + flag_if(false, "-u"@)) + flag_if(a.discard_first_component, "-d"@)) + flag_if(a.discard_except_last_component, "-e"@)) + flag_if(a.resumable, "-s"@)) + override_args(a.properties_override@), "-u"@, inherit_args(views(a.properties_inherit@)));
        lemma_one_word_then((((((h + flag_if(true, "-u"@)) + flag_if(a.discard_first_component, "-d"@)) + flag_if(a.discard_except_last_component, "-e"@)) + flag_if(a.resumable, "-s"@)) + override_args(a.properties_override@)) + inherit_args(views(a.properties_inherit@)), (((((h + flag_if(false, "-u"@)) + flag_if(a.discard_first_component, "-d"@)) + flag_if(a.discard_except_last_component, "-e"@)) + flag_if(a.resumable, "-s"@)) + override_args(a.properties_override@)) + inherit_args(views(a.properties_inherit@)), "-u"@, seq![a.target@]);
        assert(recv_args(RecvArgs { unmounted: true, ..a }) == ((((((h + flag_if(true, "-u"@)) + flag_if(a.discard_first_component, "-d"@)) + flag_if(a.discard_except_last_component, "-e"@)) + flag_if(a.resumable, "-s"@)) + override_args(a.properties_override@)) + inherit_args(views(a.properties_inherit@))) + seq![a.target@]);
        assert(recv_args(RecvArgs { unmounted: false, ..a }) == ((((((h + flag_if(false, "-u"@)) + flag_if(a.discard_first_component, "-d"@)) + flag_if(a.discard_except_last_component, "-e"@)) + flag_if(a.resumable, "-s"@)) + override_args(a.properties_override@)) + inherit_args(views(a.properties_inherit@))) + seq![a.target@]);
    }
    assert(one_word_more(
        recv_args(RecvArgs { discard_first_component: true, ..a }),
        recv_args(RecvArgs { discard_first_component: false, ..a }),
        "-d"@,
    )) by {
        let h = seq!["recv"@] + flag_if(a.force_rollback, "-F"@) + flag_if(a.unmounted, "-u"@);
        lemma_flag_word(h, "-d"@);
        lemma_one_word_then(h + flag_if(true, "-d"@), h + flag_if(false, "-d"@), "-d"@, flag_if(a.discard_except_last_component, "-e"@));
        lemma_one_word_then((h + flag_if(true, "-d"@)) + flag_if(a.discard_except_last_component, "-e"@), (h + flag_if(false, "-d"@)) + flag_if(a.discard_except_last_component, "-e"@), "-d"@, flag_if(a.resumable, "-s"@));
        lemma_one_word_then(((h + flag_if(true, "-d"@)) + flag_if(a.discard_except_last_component, "-e"@)) + flag_if(a.resumable, "-s"@), ((h + flag_if(false, "-d"@)) + flag_if(a.discard_except_last_component, "-e"@)) + flag_if(a.resumable, "-s"@), "-d"@, override_args(a.properties_override@));
        lemma_one_word_then((((h + flag_if(true, "-d"@)) + flag_if(a.discard_except_last_component, "-e"@)) + flag_if(a.resumable, "-s"@)) + override_args(a.properties_override@), (((h + flag_if(false, "-d"@)) + flag_if(a.discard_except_last_component, "-e"@)) + flag_if(a.resumable, "-s"@)) + override_args(a.properties_override@), "-d"@, inherit_args(views(a.properties_inherit@)));
        lemma_one_word_then(((((h + flag_if(true, "-d"@)) + flag_if(a.discard_except_last_component, "-e"@)) + flag_if(a.resumable, "-s"@)) + override_args(a.properties_override@)) + inherit_args(views(a.properties_inherit@)), ((((h + flag_if(false, "-d"@)) + flag_if(a.discard_except_last_component, "-e"@)) + flag_if(a.resumable, "-s"@)) + override_args(a.properties_override@)) + inherit_args(views(a.properties_inherit@)), "-d"@, seq![a.target@]);
        assert(recv_args(RecvArgs { discard_first_component: true, ..a }) == (((((h + flag_if(true, "-d"@)) + flag_if(a.discard_except_last_component, "-e"@)) + flag_if(a.resumable, "-s"@)) + override_args(a.properties_override@)) + inherit_args(views(a.properties_inherit@))) + seq![a.target@]);
        assert(recv_args(RecvArgs { discard_first_component: false, ..a }) == (((((h + flag_if(false, "-d"@)) + flag_if(a.discard_except_last_component, "-e"@)) + flag_if(a.resumable, "-s"@)) + override_args(a.properties_override@)) + inherit_args(views(a.properties_inherit@))) + seq![a.target@]);
    }
    assert(one_word_more(
        recv_args(RecvArgs { discard_except_last_component: true, ..a }),
        recv_args(RecvArgs { discard_except_last_component: false, ..a }),
        "-e"@,
    )) by {
        let h = seq!["recv"@] + flag_if(a.force_rollback, "-F"@) + flag_if(a.unmounted, "-u"@) + flag_if(a.discard_first_component, "-d"@);
        lemma_flag_word(h, "-e"@);
        lemma_one_word_then(h + flag_if(true, "-e"@), h + flag_if(false, "-e"@), "-e"@, flag_if(a.resumable, "-s"@));
        lemma_one_word_then((h + flag_if(true, "-e"@)) + flag_if(a.resumable, "-s"@), (h + flag_if(false, "-e"@)) + flag_if(a.resumable, "-s"@), "-e"@, override_args(a.properties_override@));
        lemma_one_word_then(((h + flag_if(true, "-e"@)) + flag_if(a.resumable, "-s"@)) + override_args(a.properties_override@), ((h + flag_if(false, "-e"@)) + flag_if(a.resumable, "-s"@)) + override_args(a.properties_override@), "-e"@, inherit_args(views(a.properties_inherit@)));
        lemma_one_word_then((((h + flag_if(true, "-e"@)) + flag_if(a.resumable, "-s"@)) + override_args(a.properties_override@)) + inherit_args(views(a.properties_inherit@)), (((h + flag_if(false, "-e"@)) + flag_if(a.resumable, "-s"@)) + override_args(a.properties_override@)) + inherit_args(views(a.properties_inherit@)), "-e"@, seq![a.target@]);
        assert(recv_args(RecvArgs { discard_except_last_component: true, ..a }) == ((((h + flag_if(true, "-e"@)) + flag_if(a.resumable, "-s"@)) + override_args(a.properties_override@)) + inherit_args(views(a.properties_inherit@))) + seq![a.target@]);
        assert(recv_args(RecvArgs { discard_except_last_component: false, ..a }) == ((((h + flag_if(false, "-e"@)) + flag_if(a.resumable, "-s"@)) + override_args(a.properties_override@)) + inherit_args(views(a.properties_inherit@))) + seq![a.target@]);
    }
    assert(one_word_more(
        recv_args(RecvArgs { resumable: true, ..a }),
        recv_args(RecvArgs { resumable: false, ..a }),
        "-s"@,
    )) by {
        let h = seq!["recv"@] + flag_if(a.force_rollback, "-F"@) + flag_if(a.unmounted, "-u"@) + flag_if(a.discard_first_component, "-d"@) + flag_if(a.discard_except_last_component, "-e"@);
        lemma_flag_word(h, "-s"@);
        lemma_one_word_then(h + flag_if(true, "-s"@), h + flag_if(false, "-s"@), "-s"@, override_args(a.properties_override@));
        lemma_one_word_then((h + flag_if(true, "-s"@)) + override_args(a.properties_override@), (h + flag_if(false, "-s"@)) + override_args(a.properties_override@), "-s"@, inherit_args(views(a.properties_inherit@)));
        lemma_one_word_then(((h + flag_if(true, "-s"@)) + override_args(a.properties_override@)) + inherit_args(views(a.properties_inherit@)), ((h + flag_if(false, "-s"@)) + override_args(a.properties_override@)) + inherit_args(views(a.properties_inherit@)), "-s"@, seq![a.target@]);
        assert(recv_args(RecvArgs { resumable: true, ..a }) == (((h + flag_if(true, "-s"@)) + override_args(a.properties_override@)) + inherit_args(views(a.properties_inherit@))) + seq![a.target@]);
        assert(recv_args(RecvArgs { resumable: false, ..a }) == (((h + flag_if(false, "-s"@)) + override_args(a.properties_override@)) + inherit_args(views(a.properties_inherit@))) + seq![a.target@]);
    }
}

/// The index of the first entry of `v` equal to an earlier one.
#[verifier::loop_isolation(false)]
fn find_repeat(v: &Vec<String>) -> (r: Option<usize>)
    ensures
        match r {
            Some(j) => first_repeat(views(v@)) == Some(j as int) && j < v@.len(),
            None => first_repeat(views(v@)) is None,
        },
{
    let mut j: usize = 0;
    assert(views(v@).take(0) =~= Seq::<Seq<char>>::empty());
    while j < v.len()
        invariant
            j <= v@.len(),
            first_repeat(views(v@).take(j as int)) is None,
        decreases v@.len() - j,
    {
        let ghost s = views(v@).take(j + 1);
        assert(s.drop_last() =~= views(v@).take(j as int));
        assert(s.last() == v@[j as int]@);
        let mut i: usize = 0;
        while i < j
            invariant
                i <= j < v@.len(),
                s == views(v@).take(j + 1),
                first_repeat(views(v@).take(j as int)) is None,
                forall|k: int| 0 <= k < i ==> v@[k]@ != v@[j as int]@,
            decreases j - i,
        {
            if str_eq(v[i].as_str(), v[j].as_str()) {
                proof {
                    assert(views(v@)[i as int] == v@[i as int]@);
                    assert(s.drop_last()[i as int] == views(v@)[i as int]);
                    assert(s.drop_last()[i as int] == s.last());
                    assert(s.drop_last().contains(s.last()));
                    lemma_first_repeat_extends(views(v@), j + 1);
                }
                return Some(j);
            }
            i = i + 1;
        }
        proof {
            if s.drop_last().contains(s.last()) {
                let k = choose|k: int| 0 <= k < s.drop_last().len() && s.drop_last()[k] == s.last();
                assert(v@[k]@ == views(v@).take(j as int)[k]);
            }
        }
        j = j + 1;
    }
    assert(views(v@).take(j as int) =~= views(v@));
    None
}

/// Once a prefix holds a repeat, the whole has the same first repeat.
pub proof fn lemma_first_repeat_extends(s: Seq<Seq<char>>, k: int)
    requires
        0 <= k <= s.len(),
        first_repeat(s.take(k)) is Some,
    ensures
        first_repeat(s) == first_repeat(s.take(k)),
    decreases s.len() - k,
{
    if k < s.len() {
        assert(s.drop_last().take(k) =~= s.take(k));
        lemma_first_repeat_extends(s.drop_last(), k);
    } else {
        assert(s.take(k) =~= s);
    }
}

/// Once a prefix holds an overridden property, the whole has the same first.
pub proof fn lemma_first_overridden_extends(s: Seq<Seq<char>>, m: Seq<(Seq<char>, String)>, k: int)
    requires
        0 <= k <= s.len(),
        first_overridden(s.take(k), m) is Some,
    ensures
        first_overridden(s, m) == first_overridden(s.take(k), m),
    decreases s.len() - k,
{
    if k < s.len() {
        assert(s.drop_last().take(k) =~= s.take(k));
        lemma_first_overridden_extends(s.drop_last(), m, k);
    } else {
        assert(s.take(k) =~= s);
    }
}

impl RecvArgs {
    /// A receive into `target` with no flags.
    pub fn new(target: &str) -> (r: RecvArgs)
        ensures
            r.target@ == target@,
            !r.force_rollback && !r.unmounted && !r.discard_first_component
                && !r.discard_except_last_component && !r.resumable,
            r.properties_override@ == Seq::<(Seq<char>, String)>::empty(),
            r.properties_inherit@ == Seq::<String>::empty(),
    {
        RecvArgs {
            target: target.to_owned(),
            force_rollback: false,
            unmounted: false,
            discard_first_component: false,
            discard_except_last_component: false,
            properties_override: StrMap::new(),
            properties_inherit: Vec::new(),
            resumable: false,
        }
    }

    /// `-s`.
    pub fn resumable(self) -> (r: RecvArgs)
        ensures
            r == (RecvArgs { resumable: true, ..self }),
    {
        RecvArgs { resumable: true, ..self }
    }

    /// `-F`.
    pub fn force_rollback(self) -> (r: RecvArgs)
        ensures
            r == (RecvArgs { force_rollback: true, ..self }),
    {
        RecvArgs { force_rollback: true, ..self }
    }

    /// `-u`.
    pub fn unmounted(self) -> (r: RecvArgs)
        ensures
            r == (RecvArgs { unmounted: true, ..self }),
    {
        RecvArgs { unmounted: true, ..self }
    }

    /// `-d`.
    pub fn discard_first_component(self) -> (r: RecvArgs)
        ensures
            r == (RecvArgs { discard_first_component: true, ..self }),
    {
        RecvArgs { discard_first_component: true, ..self }
    }

    /// `-e`.
    pub fn discard_except_last_component(self) -> (r: RecvArgs)
        ensures
            r == (RecvArgs { discard_except_last_component: true, ..self }),
    {
        RecvArgs { discard_except_last_component: true, ..self }
    }

    /// `-o key=value`; a later override of the same key replaces it.
    pub fn property_override(self, key: &str, value: &str) -> (r: RecvArgs)
        ensures
            crate::strmap::keys_increase(r.properties_override@),
            exists|v: String| v@ == value@ && #[trigger] crate::strmap::has_entry(
                r.properties_override@,
                key@,
                v,
            ),
            forall|k2: Seq<char>, v2: String|
                k2 != key@ ==> (crate::strmap::has_entry(r.properties_override@, k2, v2)
                    == crate::strmap::has_entry(self.properties_override@, k2, v2)),
            r.target == self.target && r.properties_inherit == self.properties_inherit,
            r.force_rollback == self.force_rollback && r.unmounted == self.unmounted
                && r.discard_first_component == self.discard_first_component
                && r.discard_except_last_component == self.discard_except_last_component
                && r.resumable == self.resumable,
    {
        let mut r = self;
        let v = value.to_owned();
        let ghost vv = v;
        r.properties_override.insert(key.to_owned(), v);
        assert(crate::strmap::has_entry(r.properties_override@, key@, vv));
        r
    }

    /// `-x key`.
    pub fn property_inherit(self, key: &str) -> (r: RecvArgs)
        ensures
            views(r.properties_inherit@) == views(self.properties_inherit@).push(key@),
            r.target == self.target,
            r.properties_override == self.properties_override,
            r.force_rollback == self.force_rollback && r.unmounted == self.unmounted
                && r.discard_first_component == self.discard_first_component
                && r.discard_except_last_component == self.discard_except_last_component
                && r.resumable == self.resumable,
    {
        let mut r = self;
        push_str(&mut r.properties_inherit, key);
        r
    }

    /// Checks the target and the flags.
    #[verifier::loop_isolation(false)]
    fn check(&self) -> (r: Result<(), ZfsError>)
        ensures
            match r {
                Ok(()) => recv_fault(*self) is None,
                Err(e) => recv_fault(*self) == Some(e@),
            },
    {
        proof {
            lemma_contains_char(self.target@, '@');
            reveal_strlit("@");
            assert("@"@ =~= seq!['@']);
        }
        let is_snapshot = contains_str(self.target.as_str(), "@");
        if is_snapshot {
            if let Err(e) = SnapshotName::parse(self.target.as_str()) {
                return Err(ZfsError::InvalidName(e));
            }
        } else {
            if let Err(e) = DatasetName::parse(self.target.as_str()) {
                return Err(ZfsError::InvalidName(e));
            }
        }
        if self.discard_first_component && self.discard_except_last_component {
            return Err(
                ZfsError::InvalidInput { message: "RecvArgs cannot enable both -d and -e".to_owned() },
            );
        }
        if is_snapshot && (self.discard_first_component || self.discard_except_last_component) {
            return Err(
                ZfsError::InvalidInput {
                    message: "zfs recv -d/-e requires a filesystem target, not a snapshot".to_owned(),
                },
            );
        }
        let inh = &self.properties_inherit;
        if let Some(j) = find_repeat(inh) {
            let message = concat3(
                "receive property ",
                debug_quoted(inh[j].as_str()).as_str(),
                " is inherited more than once",
            );
            assert(views(inh@)[j as int] == inh@[j as int]@);
            return Err(ZfsError::InvalidInput { message });
        }
        let mut i: usize = 0;
        assert(views(inh@).take(0) =~= Seq::<Seq<char>>::empty());
        while i < inh.len()
            invariant
                i <= inh@.len(),
                first_overridden(views(inh@).take(i as int), self.properties_override@) is None,
            decreases inh@.len() - i,
        {
            let ghost s = views(inh@).take(i + 1);
            assert(s.drop_last() =~= views(inh@).take(i as int));
            assert(s.last() == inh@[i as int]@);
            if self.properties_override.contains_key(inh[i].as_str()) {
                proof {
                    assert(crate::strmap::has_key(self.properties_override@, s.last()));
                    assert(first_overridden(s, self.properties_override@) == Some(i as int));
                    lemma_first_overridden_extends(views(inh@), self.properties_override@, i + 1);
                    assert(first_overridden(views(inh@), self.properties_override@) == Some(i as int));
                }
                let message = concat3(
                    "receive property ",
                    debug_quoted(inh[i].as_str()).as_str(),
                    " cannot be both overridden and inherited",
                );
                assert(views(inh@)[i as int] == inh@[i as int]@);
                return Err(ZfsError::InvalidInput { message });
            }
            i = i + 1;
        }
        assert(views(inh@).take(i as int) =~= views(inh@));
        Ok(())
    }

    /// The `-o key=value` arguments.
    fn override_list(&self) -> (r: Vec<String>)
        ensures
            views(r@) == override_args(self.properties_override@),
    {
        let entries = self.properties_override.entries();
        let mut r: Vec<String> = Vec::new();
        let mut i: usize = 0;
        assert(crate::strmap::entry_views(entries@).take(0) =~= Seq::<(Seq<char>, String)>::empty());
        while i < entries.len()
            invariant
                i <= entries@.len(),
                crate::strmap::entry_views(entries@) == self.properties_override@,
                views(r@) == override_args(crate::strmap::entry_views(entries@).take(i as int)),
            decreases entries@.len() - i,
        {
            let ghost t = crate::strmap::entry_views(entries@).take(i + 1);
            assert(t.drop_last() =~= crate::strmap::entry_views(entries@).take(i as int));
            assert(t.last() == (entries@[i as int].0@, entries@[i as int].1));
            push_str(&mut r, "-o");
            let kv = concat3(entries[i].0.as_str(), "=", entries[i].1.as_str());
            push_str(&mut r, kv.as_str());
            i = i + 1;
        }
        assert(crate::strmap::entry_views(entries@).take(i as int) =~= crate::strmap::entry_views(entries@));
        r
    }

    /// The `-x key` arguments.
    fn inherit_list(&self) -> (r: Vec<String>)
        ensures
            views(r@) == inherit_args(views(self.properties_inherit@)),
    {
        let inh = &self.properties_inherit;
        let mut r: Vec<String> = Vec::new();
        let mut i: usize = 0;
        assert(views(inh@).take(0) =~= Seq::<Seq<char>>::empty());
        while i < inh.len()
            invariant
                i <= inh@.len(),
                views(r@) == inherit_args(views(inh@).take(i as int)),
            decreases inh@.len() - i,
        {
            let ghost t = views(inh@).take(i + 1);
            assert(t.drop_last() =~= views(inh@).take(i as int));
            assert(t.last() == inh@[i as int]@);
            push_str(&mut r, "-x");
            push_str(&mut r, inh[i].as_str());
            i = i + 1;
        }
        assert(views(inh@).take(i as int) =~= views(inh@));
        r
    }

    /// The `zfs recv` argument list.
    pub fn build_args(&self) -> (r: Result<Vec<String>, ZfsError>)
        ensures
            match recv_fault(*self) {
                Some(f) => r matches Err(e) && e@ == f,
                None => r matches Ok(v) && views(v@) == recv_args(*self),
            },
    {
        if let Err(e) = self.check() {
            return Err(e);
        }
        let mut args = single("recv");
        push_flag(&mut args, self.force_rollback, "-F");
        push_flag(&mut args, self.unmounted, "-u");
        push_flag(&mut args, self.discard_first_component, "-d");
        push_flag(&mut args, self.discard_except_last_component, "-e");
        push_flag(&mut args, self.resumable, "-s");
        let o = self.override_list();
        push_all(&mut args, &o);
        let x = self.inherit_list();
        push_all(&mut args, &x);
        push_str(&mut args, self.target.as_str());
        assert(views(args@) =~= recv_args(*self));
        Ok(args)
    }
}

/// The `-o` arguments depend only on which overrides are set, not on the
/// order in which they were added: two override maps holding the same
/// entries give the same arguments.
pub proof fn lemma_override_args_order_free(a: Seq<(Seq<char>, String)>, b: Seq<(Seq<char>, String)>)
    requires
        crate::strmap::keys_increase(a),
        crate::strmap::keys_increase(b),
        forall|k: Seq<char>, v: String|
            crate::strmap::has_entry(a, k, v) == crate::strmap::has_entry(b, k, v),
    ensures
        override_args(a) == override_args(b),
{
    crate::strmap::lemma_same_entries_same_order(a, b);
}

/// The hint line that carries a resume token.
pub open spec fn resume_hint() -> Seq<char> {
    "    zfs send -t "@
}

/// The token of the first hint line whose trimmed rest is not empty.
pub open spec fn first_hint_token(ls: Seq<Seq<char>>) -> Option<Seq<char>>
    decreases ls.len(),
{
    if ls.len() == 0 {
        None
    } else if has_prefix(ls[0], resume_hint()) && trim_of(ls[0].skip(resume_hint().len() as int)).len() > 0 {
        Some(trim_of(ls[0].skip(resume_hint().len() as int)))
    } else {
        first_hint_token(ls.drop_first())
    }
}

/// The resume token in the stderr of an interrupted `zfs recv`: present
/// only where the stream was reported incomplete, taken from the first
/// `    zfs send -t <token>` line.
pub open spec fn resume_token_in(stderr: Seq<char>) -> Option<Seq<char>> {
    if !is_infix("checksum mismatch or incomplete stream"@, stderr) {
        None
    } else {
        first_hint_token(lines_of(stderr))
    }
}

/// The resume token that the stderr of an interrupted `zfs recv` offers.
#[verifier::loop_isolation(false)]
pub fn resume_token_from_stderr(stderr: &str) -> (r: Option<String>)
    ensures
        crate::error::opt_view(r) == resume_token_in(stderr@),
{
    if !contains_str(stderr, "checksum mismatch or incomplete stream") {
        return None;
    }
    let ls = lines(stderr);
    let mut i: usize = 0;
    assert(views(ls@).skip(0) =~= views(ls@));
    while i < ls.len()
        invariant
            i <= ls@.len(),
            views(ls@) == lines_of(stderr@),
            first_hint_token(views(ls@)) == first_hint_token(views(ls@).skip(i as int)),
        decreases ls@.len() - i,
    {
        assert(views(ls@).skip(i as int)[0] == ls@[i as int]@);
        assert(views(ls@).skip(i as int).drop_first() =~= views(ls@).skip(i + 1));
        if let Some(rest) = strip_prefix_str(ls[i].as_str(), "    zfs send -t ") {
            let token = trim_str(rest.as_str());
            if crate::text::chars_of(token.as_str()).len() > 0 {
                assert(has_prefix(views(ls@).skip(i as int)[0], resume_hint()));
                assert(first_hint_token(views(ls@).skip(i as int)) == Some(token@));
                assert(is_infix("checksum mismatch or incomplete stream"@, stderr@));
                assert(resume_token_in(stderr@) == Some(token@));
                return Some(token);
            }
        }
        i = i + 1;
    }
    assert(views(ls@).skip(i as int) =~= Seq::<Seq<char>>::empty());
    None
}

/// How a finished `zfs recv` is judged: success, an interruption that
/// offers a resume token, or the classified stderr.
pub open spec fn recv_outcome(success: bool, exit_code: Option<i32>, stderr: Seq<char>) -> Option<
    RecvFault,
> {
    if success {
        None
    } else if resume_token_in(stderr) is Some {
        Some(RecvFault::NeedsResumeToken(resume_token_in(stderr)->0))
    } else {
        Some(RecvFault::Zfs(classification(stderr, exit_code)))
    }
}

/// Judges a finished `zfs recv` from its exit and its stderr.
pub fn finish_receive(success: bool, exit_code: Option<i32>, stderr: &str) -> (r: Result<(), RecvError>)
    ensures
        match recv_outcome(success, exit_code, stderr@) {
            None => r is Ok,
            Some(f) => r matches Err(e) && e@ == f,
        },
{
    if success {
        return Ok(());
    }
    if let Some(token) = resume_token_from_stderr(stderr) {
        return Err(RecvError::NeedsResumeToken { token });
    }
    Err(RecvError::Zfs(classify_stderr(stderr, exit_code)))
}

/// How `zfs recv -A` is judged: success, or nothing to abort (either
/// wording), or the classified stderr.
pub open spec fn abort_outcome(success: bool, exit_code: Option<i32>, stderr: Seq<char>) -> Option<
    ErrorView,
> {
    if success || is_infix("no partial"@, stderr) || is_infix(
        "does not have any resumable"@,
        stderr,
    ) {
        None
    } else {
        Some(classification(stderr, exit_code))
    }
}

/// Judges `zfs recv -A`: having no partial state to discard is success.
pub fn finish_abort_partial(success: bool, exit_code: Option<i32>, stderr: &str) -> (r: Result<
    (),
    ZfsError,
>)
    ensures
        match abort_outcome(success, exit_code, stderr@) {
            None => r is Ok,
            Some(f) => r matches Err(e) && e@ == f,
        },
{
    if success || contains_str(stderr, "no partial") || contains_str(
        stderr,
        "does not have any resumable",
    ) {
        return Ok(());
    }
    Err(classify_stderr(stderr, exit_code))
}

/// The resume token a `receive_resume_token` property value holds: none
/// for `-` or an empty value.
pub open spec fn token_of_property(value: Seq<char>) -> Option<Seq<char>> {
    if value == "-"@ || value.len() == 0 {
        None
    } else {
        Some(value)
    }
}

/// Reads the `receive_resume_token` property value.
pub fn resume_token_of_property(value: String) -> (r: Option<String>)
    ensures
        crate::error::opt_view(r) == token_of_property(value@),
{
    if str_eq(value.as_str(), "-") || crate::text::chars_of(value.as_str()).len() == 0 {
        None
    } else {
        Some(value)
    }
}

/// The argument list of `zfs recv -A <dataset>`.
pub fn abort_partial_args(dataset: &str) -> (r: Vec<String>)
    ensures
        views(r@) == seq!["recv"@, "-A"@, dataset@],
{
    let mut r = single("recv");
    push_str(&mut r, "-A");
    push_str(&mut r, dataset);
    assert(views(r@) =~= seq!["recv"@, "-A"@, dataset@]);
    r
}

impl From<ZfsError> for RecvError {
    fn from(e: ZfsError) -> (r: RecvError)
        ensures
            r == RecvError::Zfs(e),
    {
        RecvError::Zfs(e)
    }
}

impl vstd::std_specs::convert::FromSpecImpl<ZfsError> for RecvError {
    open spec fn obeys_from_spec() -> bool {
        true
    }

    open spec fn from_spec(e: ZfsError) -> RecvError {
        RecvError::Zfs(e)
    }
}

} // verus!
