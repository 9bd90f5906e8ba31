//! The mounts of a process, as `/proc/<pid>/mountinfo` lists them, and the
//! search for the mount that covers a path.

use crate::err::{Error, ErrorView};
use crate::text::{
    chars_of, decimal, fields, lines, parse_decimal, parse_u64, push_decimal, span_is,
    spans_cover, split_fields, split_lines, split_words, words, Span,
};
use vstd::prelude::*;
use vstd::slice::slice_subrange;

verus! {

/// Mount read-only.
pub const MS_RDONLY: u64 = 0x1;

/// Ignore set-user-ID and set-group-ID bits.
pub const MS_NOSUID: u64 = 0x2;

/// Do not interpret device files.
pub const MS_NODEV: u64 = 0x4;

/// Do not allow programs to be executed.
pub const MS_NOEXEC: u64 = 0x8;

/// Change the flags of an existing mount.
pub const MS_REMOUNT: u64 = 0x20;

/// Do not update access times.
pub const MS_NOATIME: u64 = 0x400;

/// Do not update the access times of directories.
pub const MS_NODIRATIME: u64 = 0x800;

/// Make a subtree visible at a second place.
pub const MS_BIND: u64 = 0x1000;

/// Move a mount to another place.
pub const MS_MOVE: u64 = 0x2000;

/// Apply to the whole subtree.
pub const MS_REC: u64 = 0x4000;

/// Let no mount event pass in either direction.
pub const MS_PRIVATE: u64 = 0x40000;

/// Receive mount events and pass none on.
pub const MS_SLAVE: u64 = 0x80000;

/// Update access times relative to modification.
pub const MS_RELATIME: u64 = 0x200000;

/// Always update access times.
pub const MS_STRICTATIME: u64 = 0x1000000;

/// One mount, as a line of `mountinfo` describes it.
#[derive(Debug)]
pub struct MountInfo {
    /// The mount's ID.
    pub id: u64,
    /// The directory of the file system that is the root of this mount.
    pub root: String,
    /// Where the mount is attached.
    pub mount_point: String,
    /// The mount's options, as `MS_*` bits.
    pub options: u64,
    /// The type of the file system.
    pub fstype: String,
    /// The device or other source of the mount.
    pub source: String,
}

/// A [`MountInfo`] with its strings as sequences of characters.
pub struct MountInfoView {
    pub id: u64,
    pub root: Seq<char>,
    pub mount_point: Seq<char>,
    pub options: u64,
    pub fstype: Seq<char>,
    pub source: Seq<char>,
}

impl View for MountInfo {
    type V = MountInfoView;

    open spec fn view(&self) -> MountInfoView {
        MountInfoView {
            id: self.id,
            root: self.root@,
            mount_point: self.mount_point@,
            options: self.options,
            fstype: self.fstype@,
            source: self.source@,
        }
    }
}

/// `flag` where `on` holds, else no bit.
pub open spec fn flag_if(on: bool, flag: u64) -> u64 {
    if on {
        flag
    } else {
        0
    }
}

/// Whether the comma-separated list `opts` names the option `name`.
pub open spec fn lists_option(opts: Seq<char>, name: Seq<char>) -> bool {
    fields(opts, ',').contains(name)
}

/// The `MS_*` bits of a comma-separated option list. `rw` and every option
/// that is not known add nothing.
pub open spec fn option_flags(opts: Seq<char>) -> u64 {
    flag_if(lists_option(opts, "ro"@), MS_RDONLY) | flag_if(
        lists_option(opts, "noexec"@),
        MS_NOEXEC,
    ) | flag_if(lists_option(opts, "nosuid"@), MS_NOSUID) | flag_if(
        lists_option(opts, "nodev"@),
        MS_NODEV,
    ) | flag_if(lists_option(opts, "noatime"@), MS_NOATIME) | flag_if(
        lists_option(opts, "nodiratime"@),
        MS_NODIRATIME,
    ) | flag_if(lists_option(opts, "relatime"@), MS_RELATIME) | flag_if(
        lists_option(opts, "strictatime"@),
        MS_STRICTATIME,
    )
}

/// The index, from `from` on, of the first word that is the separator `-`,
/// or the number of words where none is.
pub open spec fn separator(w: Seq<Seq<char>>, from: int) -> int
    decreases w.len() - from,
{
    if from >= w.len() || w[from] == "-"@ {
        from
    } else {
        separator(w, from + 1)
    }
}

/// What a line of `mountinfo` says:
/// `id parent major:minor root mount_point options [tag ...] - fstype source super_options`.
/// `None` where the line has fewer than six words, an ID that is no number,
/// no separator after the options, or fewer than three words after it.
pub open spec fn parse_line(line: Seq<char>) -> Option<MountInfoView> {
    let w = words(line);
    let sep = separator(w, 6);
    if w.len() >= 6 && parse_decimal(w[0]) is Some && sep + 3 < w.len() {
        Some(
            MountInfoView {
                id: parse_decimal(w[0]).unwrap(),
                root: w[3],
                mount_point: w[4],
                options: option_flags(w[5]),
                fstype: w[sep + 1],
                source: w[sep + 2],
            },
        )
    } else {
        None
    }
}

/// The characters that `span` covers, as a string.
fn text_of(v: &Vec<char>, src: &str, span: Span) -> (r: String)
    requires
        v@ == src@,
        span.within(v@),
    ensures
        r@ == span.of(v@),
{
    String::from_str(src.substring_char(span.start, span.end))
}

/// The `MS_*` bits of the option list that `span` covers.
fn read_options(v: &Vec<char>, span: Span) -> (r: u64)
    requires
        span.within(v@),
    ensures
        r == option_flags(span.of(v@)),
{
    let ghost opts = span.of(v@);
    let parts = split_fields(v, span, ',');
    let ghost all = fields(opts, ',');
    let mut ro = false;
    let mut noexec = false;
    let mut nosuid = false;
    let mut nodev = false;
    let mut noatime = false;
    let mut nodiratime = false;
    let mut relatime = false;
    let mut strictatime = false;
    let mut i: usize = 0;
    while i < parts.len()
        invariant
            i <= parts.len(),
            spans_cover(parts@, v@, all),
            ro == all.take(i as int).contains("ro"@),
            noexec == all.take(i as int).contains("noexec"@),
            nosuid == all.take(i as int).contains("nosuid"@),
            nodev == all.take(i as int).contains("nodev"@),
            noatime == all.take(i as int).contains("noatime"@),
            nodiratime == all.take(i as int).contains("nodiratime"@),
            relatime == all.take(i as int).contains("relatime"@),
            strictatime == all.take(i as int).contains("strictatime"@),
        decreases parts.len() - i,
    {
        let part = parts[i];
        proof {
            lemma_take_contains(all, i as int, "ro"@);
            lemma_take_contains(all, i as int, "noexec"@);
            lemma_take_contains(all, i as int, "nosuid"@);
            lemma_take_contains(all, i as int, "nodev"@);
            lemma_take_contains(all, i as int, "noatime"@);
            lemma_take_contains(all, i as int, "nodiratime"@);
            lemma_take_contains(all, i as int, "relatime"@);
            lemma_take_contains(all, i as int, "strictatime"@);
        }
        ro = ro || span_is(v, part, "ro");
        noexec = noexec || span_is(v, part, "noexec");
        nosuid = nosuid || span_is(v, part, "nosuid");
        nodev = nodev || span_is(v, part, "nodev");
        noatime = noatime || span_is(v, part, "noatime");
        nodiratime = nodiratime || span_is(v, part, "nodiratime");
        relatime = relatime || span_is(v, part, "relatime");
        strictatime = strictatime || span_is(v, part, "strictatime");
        i = i + 1;
    }
    assert(all.take(parts.len() as int) =~= all);
    let a: u64 = if ro { MS_RDONLY } else { 0 };
    let b: u64 = if noexec { MS_NOEXEC } else { 0 };
    let c: u64 = if nosuid { MS_NOSUID } else { 0 };
    let d: u64 = if nodev { MS_NODEV } else { 0 };
    let e: u64 = if noatime { MS_NOATIME } else { 0 };
    let f: u64 = if nodiratime { MS_NODIRATIME } else { 0 };
    let g: u64 = if relatime { MS_RELATIME } else { 0 };
    let h: u64 = if strictatime { MS_STRICTATIME } else { 0 };
    a | b | c | d | e | f | g | h
}

/// A longer prefix holds a value if the shorter one does or the new element
/// is the value.
proof fn lemma_take_contains(s: Seq<Seq<char>>, i: int, x: Seq<char>)
    requires
        0 <= i < s.len(),
    ensures
        s.take(i + 1).contains(x) == (s.take(i).contains(x) || s[i] == x),
{
    if s.take(i).contains(x) {
        let t = s.take(i);
        let j = choose|j: int| 0 <= j < t.len() && #[trigger] t[j] == x;
        assert(s.take(i + 1)[j] == x);
    }
    if s[i] == x {
        assert(s.take(i + 1)[i] == x);
    }
    if s.take(i + 1).contains(x) {
        let t = s.take(i + 1);
        let j = choose|j: int| 0 <= j < t.len() && #[trigger] t[j] == x;
        if j < i {
            assert(s.take(i)[j] == x);
        }
    }
}

impl MountInfo {
    /// Whether the mount has one of the option bits of `opt`.
    pub fn has_option(&self, opt: u64) -> (r: bool)
        ensures
            r == (self.options & opt != 0),
    {
        0 != (self.options & opt)
    }

    /// How the mount reads in a log line.
    pub open spec fn summary(self) -> Seq<char> {
        "mount="@ + self.mount_point@ + " fstype="@ + self.fstype@ + " source="@ + self.source@
    }

    /// How the mount reads in a log line.
    pub fn describe(&self) -> (r: String)
        ensures
            r@ == self.summary(),
    {
        let mut out = String::from_str("mount=");
        out.append(self.mount_point.as_str());
        out.append(" fstype=");
        out.append(self.fstype.as_str());
        out.append(" source=");
        out.append(self.source.as_str());
        assert(out@ =~= self.summary());
        out
    }

    /// Reads the line of `mountinfo` that `span` covers.
    fn read_line(v: &Vec<char>, src: &str, span: Span) -> (r: Option<MountInfo>)
        requires
            v@ == src@,
            span.within(v@),
        ensures
            r.is_some() == parse_line(span.of(v@)).is_some(),
            r matches Some(info) ==> info@ == parse_line(span.of(v@)).unwrap(),
    {
        let ghost w = words(span.of(v@));
        let ws = split_words(v, span);
        if ws.len() < 6 {
            return None;
        }
        let first = ws[0];
        let id = match parse_u64(slice_subrange(v.as_slice(), first.start, first.end)) {
            Some(id) => id,
            None => {
                return None;
            },
        };
        let mut sep: usize = 6;
        while sep < ws.len() && !span_is(v, ws[sep], "-")
            invariant
                6 <= sep <= ws.len(),
                spans_cover(ws@, v@, w),
                separator(w, 6) == separator(w, sep as int),
            decreases ws.len() - sep,
        {
            sep = sep + 1;
        }
        if sep >= ws.len() || ws.len() - sep <= 3 {
            return None;
        }
        let options = read_options(v, ws[5]);
        Some(
            MountInfo {
                id,
                root: text_of(v, src, ws[3]),
                mount_point: text_of(v, src, ws[4]),
                options,
                fstype: text_of(v, src, ws[sep + 1]),
                source: text_of(v, src, ws[sep + 2]),
            },
        )
    }
}

/// A directory on the way from a path up to the root, with the device and
/// the inode that the system reports for it.
#[derive(Debug)]
pub struct PathNode {
    pub path: String,
    pub dev: u64,
    pub ino: u64,
}

/// Whether a mount boundary lies between a directory and its parent: the
/// parent is on another device, or it has the directory's own inode.
pub open spec fn crosses(child: PathNode, parent: PathNode) -> bool {
    parent.dev != child.dev || parent.ino == child.ino
}

/// The index of the first directory of the chain, from `from` on, that is a
/// mount point: the first with a boundary above it, or the last one, which
/// has no parent.
pub open spec fn mount_index(chain: Seq<PathNode>, from: int) -> int
    decreases chain.len() - from,
{
    if from + 1 >= chain.len() || crosses(chain[from], chain[from + 1]) {
        from
    } else {
        mount_index(chain, from + 1)
    }
}

/// Where the mount point lies in a chain: within the chain, at a directory
/// with a boundary above it or at the last one, and after directories
/// that have none.
pub proof fn lemma_mount_index(chain: Seq<PathNode>, from: int)
    requires
        0 <= from < chain.len(),
    ensures
        from <= mount_index(chain, from) < chain.len(),
        mount_index(chain, from) + 1 == chain.len() || crosses(
            chain[mount_index(chain, from)],
            chain[mount_index(chain, from) + 1],
        ),
        forall|j: int|
            from <= j < mount_index(chain, from) ==> !#[trigger] crosses(chain[j], chain[j + 1]),
    decreases chain.len() - from,
{
    if from + 1 < chain.len() && !crosses(chain[from], chain[from + 1]) {
        lemma_mount_index(chain, from + 1);
    }
}

/// The mount point of a mount point is the mount point itself: the search
/// that starts at the directory that a search found ends there. So does
/// the search from the root, which has no parent.
pub proof fn lemma_mount_point_is_fixed(chain: Seq<PathNode>)
    requires
        chain.len() > 0,
    ensures
        mount_index(chain.skip(mount_index(chain, 0)), 0) == 0,
        chain.len() == 1 ==> mount_index(chain, 0) == 0,
{
    lemma_mount_index(chain, 0);
    let k = mount_index(chain, 0);
    let rest = chain.skip(k);
    if k + 1 < chain.len() {
        assert(rest[0] == chain[k]);
        assert(rest[1] == chain[k + 1]);
    }
}

/// The mount point of a path. `chain` starts with the path itself if it is a
/// directory, else with the directory that holds it; each further element
/// is the parent of the one before, and the last is the root. The result is
/// the first directory of the chain with a mount boundary above it, or the
/// root. Only an empty chain has no mount point.
pub fn find_mount_point(chain: &Vec<PathNode>) -> (r: Result<String, Error>)
    ensures
        match r {
            Ok(p) => chain@.len() > 0 && p@ == chain@[mount_index(chain@, 0)].path@,
            Err(e) => chain@.len() == 0 && e@ == ErrorView::MissingMount,
        },
{
    if chain.len() == 0 {
        return Err(Error::MissingMount);
    }
    let last: usize = chain.len() - 1;
    let mut i: usize = 0;
    while i < last && !(chain[i + 1].dev != chain[i].dev || chain[i + 1].ino == chain[i].ino)
        invariant
            last + 1 == chain@.len(),
            i <= last,
            mount_index(chain@, 0) == mount_index(chain@, i as int),
        decreases chain@.len() - i,
    {
        i = i + 1;
    }
    Ok(chain[i].path.clone())
}

/// The index, from `from` on, of the first entry that is mounted at `mp`, or
/// the number of entries where none is.
pub open spec fn position(s: Seq<MountInfoView>, mp: Seq<char>, from: int) -> int
    decreases s.len() - from,
{
    if from >= s.len() || s[from].mount_point == mp {
        from
    } else {
        position(s, mp, from + 1)
    }
}

/// `s` with the entry `x`: in the place of the entry with the same mount
/// point where there is one, else at the end.
pub open spec fn put(s: Seq<MountInfoView>, x: MountInfoView) -> Seq<MountInfoView> {
    let i = position(s, x.mount_point, 0);
    if 0 <= i < s.len() {
        s.update(i, x)
    } else {
        s.push(x)
    }
}

/// The entries of an index that is filled with `infos` one after the other.
pub open spec fn collect(infos: Seq<MountInfoView>) -> Seq<MountInfoView>
    decreases infos.len(),
{
    if infos.len() == 0 {
        Seq::empty()
    } else {
        put(collect(infos.drop_last()), infos.last())
    }
}

/// The map from mount point to mount that `infos` gives when, of two mounts
/// at one place, the later counts.
pub open spec fn index_of(infos: Seq<MountInfoView>) -> Map<Seq<char>, MountInfoView>
    decreases infos.len(),
{
    if infos.len() == 0 {
        Map::empty()
    } else {
        index_of(infos.drop_last()).insert(infos.last().mount_point, infos.last())
    }
}

/// Whether no two entries have the same mount point.
pub open spec fn distinct(s: Seq<MountInfoView>) -> bool {
    forall|i: int, j: int|
        0 <= i < j < s.len() ==> (#[trigger] s[i]).mount_point != (#[trigger] s[j]).mount_point
}

/// The index, from `from` on, of the first line that does not parse, or the
/// number of lines where all do.
pub open spec fn first_bad_line(ls: Seq<Seq<char>>, from: int) -> int
    decreases ls.len() - from,
{
    if from >= ls.len() || parse_line(ls[from]) is None {
        from
    } else {
        first_bad_line(ls, from + 1)
    }
}

/// What the lines say, one mount for each.
pub open spec fn parsed(ls: Seq<Seq<char>>) -> Seq<MountInfoView> {
    Seq::new(ls.len(), |i: int| parse_line(ls[i]).unwrap())
}

/// The complaint about line number `lino` (the first line has number 0).
pub open spec fn parse_message(lino: nat, line: Seq<char>) -> Seq<char> {
    "Error parsing line "@ + decimal(lino) + " : "@ + line
}

/// Where an entry with a mount point stands: at the first entry that is
/// mounted there, after entries that are not; past the end if none is.
pub proof fn lemma_position(s: Seq<MountInfoView>, mp: Seq<char>, from: int)
    requires
        0 <= from <= s.len(),
    ensures
        from <= position(s, mp, from) <= s.len(),
        position(s, mp, from) < s.len() ==> s[position(s, mp, from)].mount_point == mp,
        forall|j: int| from <= j < position(s, mp, from) ==> s[j].mount_point != mp,
    decreases s.len() - from,
{
    if from < s.len() && s[from].mount_point != mp {
        lemma_position(s, mp, from + 1);
    }
}

/// Putting an entry keeps the mount points distinct, and does to the map
/// what an insertion does.
pub proof fn lemma_put(s: Seq<MountInfoView>, x: MountInfoView)
    requires
        distinct(s),
    ensures
        distinct(put(s, x)),
        index_of(put(s, x)) == index_of(s).insert(x.mount_point, x),
    decreases s.len(),
{
    lemma_position(s, x.mount_point, 0);
    let i = position(s, x.mount_point, 0);
    if i < s.len() {
        lemma_update(s, i, x);
    } else {
        assert(s.push(x).drop_last() =~= s);
    }
}

/// Replacing an entry by one with the same mount point does to the map what
/// an insertion does.
proof fn lemma_update(s: Seq<MountInfoView>, i: int, x: MountInfoView)
    requires
        distinct(s),
        0 <= i < s.len(),
        s[i].mount_point == x.mount_point,
    ensures
        distinct(s.update(i, x)),
        index_of(s.update(i, x)) == index_of(s).insert(x.mount_point, x),
    decreases s.len(),
{
    let t = s.update(i, x);
    assert(distinct(t)) by {
        assert forall|a: int, b: int| 0 <= a < b < t.len() implies (#[trigger] t[a]).mount_point
            != (#[trigger] t[b]).mount_point by {
            assert(s[a].mount_point != s[b].mount_point);
        }
    }
    if i == s.len() - 1 {
        assert(t.drop_last() =~= s.drop_last());
        assert(index_of(t) =~= index_of(s).insert(x.mount_point, x));
    } else {
        assert(t.drop_last() =~= s.drop_last().update(i, x));
        assert(distinct(s.drop_last())) by {
            assert forall|a: int, b: int| 0 <= a < b < s.drop_last().len() implies (
            #[trigger] s.drop_last()[a]).mount_point != (#[trigger] s.drop_last()[b]).mount_point by {
                assert(s[a].mount_point != s[b].mount_point);
            }
        }
        lemma_update(s.drop_last(), i, x);
        assert(s[i].mount_point != s[s.len() - 1].mount_point);
        assert(index_of(t) =~= index_of(s).insert(x.mount_point, x));
    }
}

/// The entries that are collected from `infos` have distinct mount points
/// and give the same map as `infos`.
pub proof fn lemma_collect(infos: Seq<MountInfoView>)
    ensures
        distinct(collect(infos)),
        index_of(collect(infos)) == index_of(infos),
    decreases infos.len(),
{
    if infos.len() > 0 {
        lemma_collect(infos.drop_last());
        lemma_put(collect(infos.drop_last()), infos.last());
    }
}

/// The map of entries with distinct mount points holds each entry under its
/// mount point, and nothing else.
pub proof fn lemma_index_of(s: Seq<MountInfoView>)
    requires
        distinct(s),
    ensures
        forall|i: int|
            0 <= i < s.len() ==> index_of(s).contains_key((#[trigger] s[i]).mount_point)
                && index_of(s)[s[i].mount_point] == s[i],
        forall|mp: Seq<char>| #[trigger]
            index_of(s).contains_key(mp) ==> position(s, mp, 0) < s.len(),
    decreases s.len(),
{
    if s.len() > 0 {
        let t = s.drop_last();
        assert(distinct(t)) by {
            assert forall|a: int, b: int| 0 <= a < b < t.len() implies (#[trigger] t[a]).mount_point
                != (#[trigger] t[b]).mount_point by {
                assert(s[a].mount_point != s[b].mount_point);
            }
        }
        lemma_index_of(t);
        assert forall|i: int| 0 <= i < s.len() implies index_of(s).contains_key(
            (#[trigger] s[i]).mount_point,
        ) && index_of(s)[s[i].mount_point] == s[i] by {
            if i < s.len() - 1 {
                assert(t[i] == s[i]);
                assert(s[i].mount_point != s[s.len() - 1].mount_point);
            }
        }
        assert forall|mp: Seq<char>| #[trigger] index_of(s).contains_key(mp) implies position(
            s,
            mp,
            0,
        ) < s.len() by {
            lemma_position(s, mp, 0);
            if mp != s.last().mount_point {
                assert(index_of(t).contains_key(mp));
                lemma_position(t, mp, 0);
                assert(t[position(t, mp, 0)] == s[position(t, mp, 0)]);
            }
        }
    }
}

/// The mounts of a process, by mount point.
#[derive(Debug)]
pub struct Mounts {
    points: Vec<MountInfo>,
}

impl View for Mounts {
    type V = Map<Seq<char>, MountInfoView>;

    /// The mount at each mount point.
    open spec fn view(&self) -> Map<Seq<char>, MountInfoView> {
        index_of(self.entries())
    }
}

impl Mounts {
    /// The mounts in the order in which the index hands them out.
    pub closed spec fn entries(&self) -> Seq<MountInfoView> {
        self.points@.map_values(|m: MountInfo| m@)
    }

    /// What holds of every index: no two entries share a mount point.
    pub open spec fn wf(&self) -> bool {
        distinct(self.entries())
    }

    #[verifier::type_invariant]
    spec fn no_mount_point_twice(self) -> bool {
        distinct(self.points@.map_values(|m: MountInfo| m@))
    }

    /// An index without mounts.
    pub fn new() -> (r: Mounts)
        ensures
            r.wf(),
            r.entries() == Seq::<MountInfoView>::empty(),
    {
        let r = Mounts { points: Vec::new() };
        assert(r.entries() =~= Seq::<MountInfoView>::empty());
        r
    }

    /// The number of mounts.
    pub fn len(&self) -> (r: usize)
        ensures
            r == self.entries().len(),
    {
        self.points.len()
    }

    /// The mount at place `i` of `entries`.
    pub fn at(&self, i: usize) -> (r: &MountInfo)
        requires
            i < self.entries().len(),
        ensures
            r@ == self.entries()[i as int],
    {
        &self.points[i]
    }

    /// The place of the mount at `mount_point` among the entries.
    fn find(&self, mount_point: &str) -> (r: usize)
        ensures
            r == position(self.entries(), mount_point@, 0),
    {
        let mut i: usize = 0;
        while i < self.points.len()
            invariant
                i <= self.points@.len(),
                position(self.entries(), mount_point@, 0) == position(
                    self.entries(),
                    mount_point@,
                    i as int,
                ),
            decreases self.points@.len() - i,
        {
            let same = {
                let here = self.points[i].mount_point.as_str();
                let a = chars_of(here);
                let span = Span { start: 0, end: a.len() };
                assert(span.of(a@) =~= a@);
                span_is(&a, span, mount_point)
            };
            assert(self.entries()[i as int].mount_point == self.points@[i as int].mount_point@);
            if same {
                return i;
            }
            i = i + 1;
        }
        i
    }

    /// The index with one more mount. It takes the place of the mount at the
    /// same mount point where there is one.
    pub fn insert(self, info: MountInfo) -> (r: Mounts)
        ensures
            r.wf(),
            r.entries() == put(self.entries(), info@),
            r@ == self@.insert(info@.mount_point, info@),
    {
        proof {
            use_type_invariant(&self);
            lemma_put(self.entries(), info@);
            lemma_position(self.entries(), info@.mount_point, 0);
        }
        let i = self.find(info.mount_point.as_str());
        let ghost before = self.entries();
        let ghost x = info@;
        let mut points = self.points;
        if i < points.len() {
            points.set(i, info);
            assert(points@.map_values(|m: MountInfo| m@) =~= before.update(i as int, x));
        } else {
            points.push(info);
            assert(points@.map_values(|m: MountInfo| m@) =~= before.push(x));
        }
        Mounts { points }
    }

    /// The mount at exactly `mount_point`.
    pub fn get(&self, mount_point: &str) -> (r: Option<&MountInfo>)
        ensures
            self.wf(),
            r.is_some() == self@.contains_key(mount_point@),
            r matches Some(info) ==> info@ == self@[mount_point@],
    {
        proof {
            use_type_invariant(self);
            lemma_index_of(self.entries());
            lemma_position(self.entries(), mount_point@, 0);
        }
        let i = self.find(mount_point);
        if i < self.points.len() {
            assert(self.entries()[i as int] == self.points@[i as int]@);
            Some(&self.points[i])
        } else {
            None
        }
    }

    /// Reads one line of `mountinfo`. A line that does not parse gives
    /// `Error::BadStr`.
    pub fn parse_line(line: &str) -> (r: Result<MountInfo, Error>)
        ensures
            match r {
                Ok(info) => parse_line(line@) == Some(info@),
                Err(e) => parse_line(line@) is None && e@ == ErrorView::BadStr,
            },
    {
        let v = chars_of(line);
        let span = Span { start: 0, end: v.len() };
        assert(span.of(v@) =~= v@);
        match MountInfo::read_line(&v, line, span) {
            Some(info) => Ok(info),
            None => Err(Error::BadStr),
        }
    }

    /// Reads the contents of a `mountinfo` file. `fname` names the file in
    /// errors. Of two lines with the same mount point the later counts. The
    /// first line that does not parse gives `Error::ParseError` with its
    /// number; contents without any line give `Error::MissingMount`.
    pub fn parse(contents: &str, fname: &str) -> (r: Result<Mounts, Error>)
        ensures
            match r {
                Ok(m) => {
                    &&& lines(contents@).len() > 0
                    &&& first_bad_line(lines(contents@), 0) == lines(contents@).len()
                    &&& m.wf()
                    &&& m.entries() == collect(parsed(lines(contents@)))
                    &&& m@ == index_of(parsed(lines(contents@)))
                },
                Err(e) => {
                    let bad = first_bad_line(lines(contents@), 0);
                    if bad < lines(contents@).len() {
                        e@ == (ErrorView::ParseError {
                            msg: parse_message(bad as nat, lines(contents@)[bad]),
                            name: fname@,
                        })
                    } else {
                        lines(contents@).len() == 0 && e@ == ErrorView::MissingMount
                    }
                },
            },
    {
        let v = chars_of(contents);
        let ghost ls = lines(contents@);
        let spans = split_lines(&v);
        let mut infos = Mounts::new();
        let mut lino: usize = 0;
        while lino < spans.len()
            invariant
                v@ == contents@,
                ls == lines(contents@),
                spans_cover(spans@, v@, ls),
                lino <= spans@.len(),
                first_bad_line(ls, 0) == first_bad_line(ls, lino as int),
                infos.wf(),
                infos.entries() == collect(parsed(ls).take(lino as int)),
            decreases spans@.len() - lino,
        {
            let span = spans[lino];
            match MountInfo::read_line(&v, contents, span) {
                Some(info) => {
                    proof {
                        let sofar = parsed(ls).take(lino as int);
                        let next = parsed(ls).take(lino + 1);
                        assert(next.drop_last() =~= sofar);
                        assert(next.last() == info@);
                    }
                    infos = infos.insert(info);
                },
                None => {
                    let mut msg = String::from_str("Error parsing line ");
                    push_decimal(&mut msg, lino as u64);
                    msg.append(" : ");
                    msg.append(contents.substring_char(span.start, span.end));
                    assert(msg@ =~= parse_message(lino as nat, ls[lino as int]));
                    return Err(Error::parse(msg.as_str(), fname));
                },
            }
            lino = lino + 1;
        }
        if infos.len() == 0 {
            proof {
                if ls.len() > 0 {
                    let all = parsed(ls).take(ls.len() as int);
                    lemma_put(collect(all.drop_last()), all.last());
                    lemma_position(collect(all.drop_last()), all.last().mount_point, 0);
                }
            }
            return Err(Error::MissingMount);
        }
        proof {
            assert(parsed(ls).take(ls.len() as int) =~= parsed(ls));
            lemma_collect(parsed(ls));
        }
        Ok(infos)
    }

    /// The mount that covers a path, which need not be a mount point.
    /// `chain` holds the path's directories up to the root, as
    /// [`find_mount_point`] takes them. `Error::MissingMount` where the chain
    /// is empty or the index has no mount at the mount point found.
    pub fn lookup(&self, chain: &Vec<PathNode>) -> (r: Result<&MountInfo, Error>)
        ensures
            match r {
                Ok(info) => {
                    let mp = chain@[mount_index(chain@, 0)].path@;
                    chain@.len() > 0 && self@.contains_key(mp) && info@ == self@[mp]
                },
                Err(e) => {
                    &&& e@ == ErrorView::MissingMount
                    &&& chain@.len() == 0 || !self@.contains_key(
                        chain@[mount_index(chain@, 0)].path@,
                    )
                },
            },
    {
        let mp = match find_mount_point(chain) {
            Ok(mp) => mp,
            Err(e) => {
                return Err(e);
            },
        };
        match self.get(mp.as_str()) {
            Some(info) => Ok(info),
            None => Err(Error::MissingMount),
        }
    }
}

} // verus!
