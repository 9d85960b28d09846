//! Records of completed package actions, and the order in which history shows them.
use vstd::prelude::*;

use crate::name::Name;

verus! {

/// The model of a history record.
pub ghost struct RecordView {
    pub date_time: Option<i64>,
    pub group: Seq<char>,
    pub set: Seq<char>,
    pub package: Seq<char>,
    pub installer: Seq<char>,
}

/// One completed package action: when (seconds since the Unix epoch, once written), the
/// group, set and package, and the installer that acted.
#[derive(Debug)]
pub struct InstalledPackage {
    date_time: Option<i64>,
    package_set_group_name: Name,
    package_set_name: Name,
    package_name: Name,
    installer_name: Name,
}

impl View for InstalledPackage {
    type V = RecordView;

    closed spec fn view(&self) -> RecordView {
        RecordView {
            date_time: self.date_time,
            group: self.package_set_group_name@,
            set: self.package_set_name@,
            package: self.package_name@,
            installer: self.installer_name@,
        }
    }
}

impl Clone for InstalledPackage {
    fn clone(&self) -> (r: Self)
        ensures
            r@ == self@,
    {
        InstalledPackage {
            date_time: self.date_time,
            package_set_group_name: self.package_set_group_name.clone(),
            package_set_name: self.package_set_name.clone(),
            package_name: self.package_name.clone(),
            installer_name: self.installer_name.clone(),
        }
    }
}

impl InstalledPackage {
    /// A record not yet written, so without a time.
    pub fn new(
        package_set_group_name: Name,
        package_set_name: Name,
        package_name: Name,
        installer_name: Name,
    ) -> (r: Self)
        ensures
            r@ == (RecordView {
                date_time: None,
                group: package_set_group_name@,
                set: package_set_name@,
                package: package_name@,
                installer: installer_name@,
            }),
    {
        InstalledPackage {
            date_time: None,
            package_set_group_name,
            package_set_name,
            package_name,
            installer_name,
        }
    }

    /// A record as read back from the log, with the time it was written.
    pub fn written_at(
        date_time: i64,
        package_set_group_name: Name,
        package_set_name: Name,
        package_name: Name,
        installer_name: Name,
    ) -> (r: Self)
        ensures
            r@ == (RecordView {
                date_time: Some(date_time),
                group: package_set_group_name@,
                set: package_set_name@,
                package: package_name@,
                installer: installer_name@,
            }),
    {
        InstalledPackage {
            date_time: Some(date_time),
            package_set_group_name,
            package_set_name,
            package_name,
            installer_name,
        }
    }

    /// When the record was written, if it has been.
    pub fn date_time(&self) -> (r: &Option<i64>)
        ensures
            *r == self@.date_time,
    {
        &self.date_time
    }

    /// The group of the set.
    pub fn package_set_group_name(&self) -> (r: &Name)
        ensures
            r@ == self@.group,
    {
        &self.package_set_group_name
    }

    /// The set of the package.
    pub fn package_set_name(&self) -> (r: &Name)
        ensures
            r@ == self@.set,
    {
        &self.package_set_name
    }

    /// The package acted on.
    pub fn package_name(&self) -> (r: &Name)
        ensures
            r@ == self@.package,
    {
        &self.package_name
    }

    /// The installer that acted.
    pub fn installer_name(&self) -> (r: &Name)
        ensures
            r@ == self@.installer,
    {
        &self.installer_name
    }
}

/// The time a record sorts by; a record not yet written sorts last.
pub open spec fn sort_time(r: RecordView) -> int {
    match r.date_time {
        Some(t) => t as int,
        None => i64::MIN as int - 1,
    }
}

/// The position before the first record of `s` that is not more recent than `x`.
pub open spec fn newest_position(s: Seq<RecordView>, x: RecordView) -> int
    decreases s.len(),
{
    if s.len() == 0 {
        0
    } else if sort_time(s[0]) > sort_time(x) {
        1 + newest_position(s.drop_first(), x)
    } else {
        0
    }
}

/// The records, most recent first; of records with the same time, the one written later
/// comes first.
pub open spec fn newest_first(s: Seq<RecordView>) -> Seq<RecordView>
    decreases s.len(),
{
    if s.len() == 0 {
        Seq::empty()
    } else {
        let p = newest_first(s.drop_last());
        p.insert(newest_position(p, s.last()), s.last())
    }
}

/// The records are in order of time, most recent first.
pub open spec fn is_newest_first(s: Seq<RecordView>) -> bool {
    forall|i: int, j: int| 0 <= i < j < s.len() ==> sort_time(#[trigger] s[i]) >= sort_time(#[trigger] s[j])
}

proof fn lemma_newest_position(s: Seq<RecordView>, x: RecordView, j: int)
    requires
        0 <= j <= s.len(),
        forall|k: int| 0 <= k < j ==> sort_time(#[trigger] s[k]) > sort_time(x),
        j == s.len() || sort_time(s[j]) <= sort_time(x),
    ensures
        newest_position(s, x) == j,
    decreases j,
{
    if j > 0 {
        lemma_newest_position(s.drop_first(), x, j - 1);
    }
}

proof fn lemma_insert_keeps_order(s: Seq<RecordView>, x: RecordView, j: int)
    requires
        is_newest_first(s),
        0 <= j <= s.len(),
        forall|k: int| 0 <= k < j ==> sort_time(#[trigger] s[k]) > sort_time(x),
        j == s.len() || sort_time(s[j]) <= sort_time(x),
    ensures
        is_newest_first(s.insert(j, x)),
{
    let t = s.insert(j, x);
    assert forall|a: int, b: int| 0 <= a < b < t.len() implies sort_time(#[trigger] t[a])
        >= sort_time(#[trigger] t[b]) by {
        if b < j {
            assert(t[a] == s[a] && t[b] == s[b]);
        } else if b == j {
            assert(t[a] == s[a]);
        } else if a == j {
            assert(t[b] == s[b - 1]);
            if b - 1 > j {
                assert(sort_time(s[j]) >= sort_time(s[b - 1]));
            }
        } else if a < j {
            assert(t[a] == s[a] && t[b] == s[b - 1]);
        } else {
            assert(t[a] == s[a - 1] && t[b] == s[b - 1]);
        }
    }
}

proof fn lemma_newest_first_sorted(s: Seq<RecordView>)
    ensures
        is_newest_first(newest_first(s)),
        newest_first(s).len() == s.len(),
    decreases s.len(),
{
    if s.len() > 0 {
        lemma_newest_first_sorted(s.drop_last());
        let p = newest_first(s.drop_last());
        let x = s.last();
        let j = newest_position_exists(p, x);
        lemma_newest_position(p, x, j);
        lemma_insert_keeps_order(p, x, j);
    }
}

proof fn newest_position_exists(s: Seq<RecordView>, x: RecordView) -> (j: int)
    ensures
        0 <= j <= s.len(),
        forall|k: int| 0 <= k < j ==> sort_time(#[trigger] s[k]) > sort_time(x),
        j == s.len() || sort_time(s[j]) <= sort_time(x),
    decreases s.len(),
{
    if s.len() == 0 {
        0
    } else if sort_time(s[0]) > sort_time(x) {
        let j = newest_position_exists(s.drop_first(), x);
        assert forall|k: int| 0 <= k < j + 1 implies sort_time(#[trigger] s[k]) > sort_time(x) by {
            if k > 0 {
                assert(s[k] == s.drop_first()[k - 1]);
            }
        }
        if j < s.len() - 1 {
            assert(s[j + 1] == s.drop_first()[j]);
        }
        j + 1
    } else {
        0
    }
}

pub open spec fn record_views(s: Seq<InstalledPackage>) -> Seq<RecordView> {
    s.map_values(|r: InstalledPackage| r@)
}

/// How many records a history query returns: all of them when `limit` is zero.
pub open spec fn history_count(total: nat, limit: u32) -> nat {
    if limit == 0 || total <= limit as nat {
        total
    } else {
        limit as nat
    }
}

/// The rows of a history from the records in the order they were written: most recent
/// first by time (of two with the same time, the later written first), at most `limit` of
/// them, or all when `limit` is zero.
pub fn history(written: &Vec<InstalledPackage>, limit: u32) -> (r: Vec<InstalledPackage>)
    ensures
        r@.len() == history_count(written@.len(), limit),
        record_views(r@) == newest_first(record_views(written@)).subrange(0, r@.len() as int),
        is_newest_first(record_views(r@)),
{
    let n = written.len();
    let mut sorted: Vec<InstalledPackage> = Vec::new();
    let mut i: usize = 0;
    proof {
        assert(record_views(written@).subrange(0, 0) =~= Seq::<RecordView>::empty());
        assert(record_views(sorted@) =~= Seq::<RecordView>::empty());
    }
    while i < n
        invariant
            n == written@.len(),
            i <= n,
            record_views(sorted@) == newest_first(record_views(written@).subrange(0, i as int)),
        decreases n - i,
    {
        let x = written[i].clone();
        let ghost p = record_views(sorted@);
        let mut j: usize = 0;
        while j < sorted.len() && later(&sorted[j], &x)
            invariant
                j <= sorted@.len(),
                p == record_views(sorted@),
                forall|k: int| 0 <= k < j ==> sort_time(#[trigger] p[k]) > sort_time(x@),
            decreases sorted@.len() - j,
        {
            j += 1;
        }
        proof {
            lemma_newest_position(p, x@, j as int);
            let w = record_views(written@).subrange(0, i + 1);
            assert(w.drop_last() =~= record_views(written@).subrange(0, i as int));
            assert(w.last() == x@);
        }
        sorted.insert(j, x);
        assert(record_views(sorted@) =~= p.insert(j as int, x@));
        i += 1;
    }
    proof {
        assert(record_views(written@).subrange(0, n as int) =~= record_views(written@));
        lemma_newest_first_sorted(record_views(written@));
    }
    let count: usize = if limit == 0 || n <= limit as usize {
        n
    } else {
        limit as usize
    };
    let ghost all = record_views(sorted@);
    sorted.truncate(count);
    proof {
        assert(record_views(sorted@) =~= all.subrange(0, count as int));
    }
    sorted
}

/// Whether `a` is more recent than `b`.
fn later(a: &InstalledPackage, b: &InstalledPackage) -> (r: bool)
    ensures
        r == (sort_time(a@) > sort_time(b@)),
{
    match (a.date_time, b.date_time) {
        (Some(x), Some(y)) => x > y,
        (Some(_), None) => true,
        (None, _) => false,
    }
}

} // verus!
