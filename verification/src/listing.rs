//! How a directory listing is filtered, rendered and arranged.
//!
//! Hidden entries are left out, except the parent entry `..`. The parent
//! entry comes first, then directories, then files; inside a group the
//! entries are ordered by their lower-cased names, and entries whose
//! lower-cased names are equal keep the order in which they were read.

use vstd::prelude::*;
use vstd::string::*;
use crate::types::FileInfo;

verus! {

/// What the transport reports of one directory entry.
pub struct RemoteEntry {
    pub path: String,
    pub name: String,
    pub is_dir: bool,
    pub size: Option<u64>,
    pub mtime: Option<u64>,
    pub perm: Option<u32>,
}

/// A reported entry with its texts as sequences of characters.
pub struct RemoteEntryView {
    pub path: Seq<char>,
    pub name: Seq<char>,
    pub is_dir: bool,
    pub size: Option<u64>,
    pub mtime: Option<u64>,
    pub perm: Option<u32>,
}

impl View for RemoteEntry {
    type V = RemoteEntryView;

    open spec fn view(&self) -> RemoteEntryView {
        RemoteEntryView {
            path: self.path@,
            name: self.name@,
            is_dir: self.is_dir,
            size: self.size,
            mtime: self.mtime,
            perm: self.perm,
        }
    }
}

/// A listing entry with its texts as sequences of characters.
pub struct FileInfoView {
    pub name: Seq<char>,
    pub path: Seq<char>,
    pub size: u64,
    pub is_dir: bool,
    pub modified: u64,
    pub permissions: Seq<char>,
}

impl View for FileInfo {
    type V = FileInfoView;

    open spec fn view(&self) -> FileInfoView {
        FileInfoView {
            name: self.name@,
            path: self.path@,
            size: self.size,
            is_dir: self.is_dir,
            modified: self.modified,
            permissions: self.permissions@,
        }
    }
}

/// The views of a sequence of listing entries, position by position.
pub open spec fn info_views(files: Seq<FileInfo>) -> Seq<FileInfoView> {
    files.map_values(|f: FileInfo| f@)
}

/// The views of a sequence of reported entries, position by position.
pub open spec fn entry_views(entries: Seq<RemoteEntry>) -> Seq<RemoteEntryView> {
    entries.map_values(|e: RemoteEntry| e@)
}

/// The name of the parent entry.
pub open spec fn parent_name() -> Seq<char> {
    seq!['.', '.']
}

/// A name that starts with a dot and is not the parent entry's.
pub open spec fn is_hidden(name: Seq<char>) -> bool {
    name.len() > 0 && name[0] == '.' && name != parent_name()
}

/// Whether `name` is the parent entry's name.
pub fn is_parent_name(name: &str) -> (b: bool)
    ensures
        b == (name@ == parent_name()),
{
    let n = name.unicode_len();
    if n != 2 {
        return false;
    }
    let b = name.get_char(0) == '.' && name.get_char(1) == '.';
    assert(b ==> name@ =~= parent_name());
    b
}

/// Whether a listing leaves `name` out.
pub fn is_hidden_name(name: &str) -> (b: bool)
    ensures
        b == is_hidden(name@),
{
    let n = name.unicode_len();
    if n == 0 {
        return false;
    }
    name.get_char(0) == '.' && !is_parent_name(name)
}

/// The mark of one permission bit: `mark` where the bit is set, else `-`.
pub open spec fn bit_mark(perm: u32, bit: u32, mark: char) -> char {
    if perm & bit != 0 {
        mark
    } else {
        '-'
    }
}

/// The nine marks of the owner, group and other permission bits.
pub open spec fn permission_text(perm: u32) -> Seq<char> {
    seq![
        bit_mark(perm, 0o400, 'r'),
        bit_mark(perm, 0o200, 'w'),
        bit_mark(perm, 0o100, 'x'),
        bit_mark(perm, 0o040, 'r'),
        bit_mark(perm, 0o020, 'w'),
        bit_mark(perm, 0o010, 'x'),
        bit_mark(perm, 0o004, 'r'),
        bit_mark(perm, 0o002, 'w'),
        bit_mark(perm, 0o001, 'x'),
    ]
}

fn push_mark(text: &mut String, perm: u32, bit: u32, mark: &str)
    requires
        mark@.len() == 1,
    ensures
        final(text)@ == old(text)@.push(bit_mark(perm, bit, mark@[0])),
{
    proof {
        reveal_strlit("-");
    }
    if perm & bit != 0 {
        text.append(mark);
        assert(text@ =~= old(text)@.push(mark@[0]));
    } else {
        text.append("-");
        assert(text@ =~= old(text)@.push('-'));
    }
}

/// Renders permission bits as `rwxrwxrwx`, with `-` for a bit that is not
/// set.
pub fn format_permissions(perm: u32) -> (text: String)
    ensures
        text@ == permission_text(perm),
{
    proof {
        reveal_strlit("r");
        reveal_strlit("w");
        reveal_strlit("x");
    }
    let mut text = String::new();
    push_mark(&mut text, perm, 0o400, "r");
    push_mark(&mut text, perm, 0o200, "w");
    push_mark(&mut text, perm, 0o100, "x");
    push_mark(&mut text, perm, 0o040, "r");
    push_mark(&mut text, perm, 0o020, "w");
    push_mark(&mut text, perm, 0o010, "x");
    push_mark(&mut text, perm, 0o004, "r");
    push_mark(&mut text, perm, 0o002, "w");
    push_mark(&mut text, perm, 0o001, "x");
    assert(text@ =~= permission_text(perm));
    text
}

/// The lower-cased form of a text, as the standard library computes it.
pub uninterp spec fn lowercase_of(text: Seq<char>) -> Seq<char>;

/// `str::to_lowercase`, handed back as characters: the result is the
/// lower-cased form of `name`, which depends on `name` alone.
#[verifier::external_body]
fn folded_chars(name: &str) -> (folded: Vec<char>)
    ensures
        folded@ == lowercase_of(name@),
{
    name.to_lowercase().chars().collect()
}

/// `text` with every occurrence of `from` turned into `to`.
pub open spec fn with_replaced(text: Seq<char>, from: char, to: char) -> Seq<char> {
    text.map_values(
        |c: char|
            if c == from {
                to
            } else {
                c
            },
    )
}

/// Turns every occurrence of `from` in `text` into the one character of
/// `to`.
fn replace_char(text: &str, from: char, to: &str) -> (replaced: String)
    requires
        to@.len() == 1,
    ensures
        replaced@ == with_replaced(text@, from, to@[0]),
{
    let n = text.unicode_len();
    let mut replaced = String::new();
    let mut i: usize = 0;
    while i < n
        invariant
            i <= n,
            n == text@.len(),
            to@.len() == 1,
            replaced@ == with_replaced(text@.take(i as int), from, to@[0]),
        decreases n - i,
    {
        let ghost before = replaced@;
        if text.get_char(i) == from {
            replaced.append(to);
            assert(replaced@ =~= before.push(to@[0]));
        } else {
            replaced.append(text.substring_char(i, i + 1));
            assert(replaced@ =~= before.push(text@[i as int]));
        }
        assert(replaced@ =~= with_replaced(text@.take(i as int + 1), from, to@[0]));
        i += 1;
    }
    assert(text@.take(n as int) =~= text@);
    replaced
}

/// Whether `a` comes before `b` from position `i` on, character by
/// character, a proper prefix before what extends it.
pub open spec fn lex_lt_at(a: Seq<char>, b: Seq<char>, i: int) -> bool
    decreases a.len() - i,
{
    if i < 0 || i >= b.len() {
        false
    } else if i >= a.len() {
        true
    } else if a[i] != b[i] {
        (a[i] as u32) < (b[i] as u32)
    } else {
        lex_lt_at(a, b, i + 1)
    }
}

/// Whether `a` comes before `b` in lexicographic order.
pub open spec fn lex_lt(a: Seq<char>, b: Seq<char>) -> bool {
    lex_lt_at(a, b, 0)
}

/// Whether `a` comes before `b` in lexicographic order.
pub fn lex_less(a: &Vec<char>, b: &Vec<char>) -> (less: bool)
    ensures
        less == lex_lt(a@, b@),
{
    let mut i: usize = 0;
    while i < a.len() && i < b.len()
        invariant
            i <= a@.len(),
            i <= b@.len(),
            lex_lt(a@, b@) == lex_lt_at(a@, b@, i as int),
        decreases a@.len() - i,
    {
        let x = a[i];
        let y = b[i];
        if x != y {
            return (x as u32) < (y as u32);
        }
        i += 1;
    }
    i < b.len()
}

/// The group of an entry: 0 for the parent entry, 1 for a directory, 2 for
/// a file.
pub open spec fn rank(e: FileInfoView) -> int {
    if e.name == parent_name() {
        0
    } else if e.is_dir {
        1
    } else {
        2
    }
}

/// Whether `a` must stand before `b` in a listing.
pub open spec fn precedes(a: FileInfoView, b: FileInfoView) -> bool {
    rank(a) < rank(b) || (rank(a) == rank(b) && rank(a) != 0 && lex_lt(
        lowercase_of(a.name),
        lowercase_of(b.name),
    ))
}

fn entry_rank(e: &FileInfo) -> (r: u8)
    ensures
        r as int == rank(e@),
{
    if is_parent_name(e.name.as_str()) {
        0
    } else if e.is_dir {
        1
    } else {
        2
    }
}

/// Whether `a` must stand before `b` in a listing.
pub fn entry_precedes(a: &FileInfo, b: &FileInfo) -> (before: bool)
    ensures
        before == precedes(a@, b@),
{
    let ra = entry_rank(a);
    let rb = entry_rank(b);
    if ra != rb {
        ra < rb
    } else if ra == 0 {
        false
    } else {
        let fa = folded_chars(a.name.as_str());
        let fb = folded_chars(b.name.as_str());
        lex_less(&fa, &fb)
    }
}

/// No entry stands behind one that it must precede.
pub open spec fn ordered(s: Seq<FileInfoView>) -> bool {
    forall|i: int, j: int| 0 <= i < j < s.len() ==> !precedes(#[trigger] s[j], #[trigger] s[i])
}

/// The first position from `j` on whose entry `e` must precede, or the
/// length where there is none.
pub open spec fn slot_from(s: Seq<FileInfoView>, e: FileInfoView, j: int) -> int
    decreases s.len() - j,
{
    if j < 0 || j >= s.len() {
        s.len() as int
    } else if precedes(e, s[j]) {
        j
    } else {
        slot_from(s, e, j + 1)
    }
}

/// `s` with `e` put in before the first entry that `e` must precede.
pub open spec fn place(s: Seq<FileInfoView>, e: FileInfoView) -> Seq<FileInfoView> {
    s.insert(slot_from(s, e, 0), e)
}

/// The entries of `s` placed one after another, first to last.
pub open spec fn arrange(s: Seq<FileInfoView>) -> Seq<FileInfoView>
    decreases s.len(),
{
    if s.len() == 0 {
        Seq::empty()
    } else {
        place(arrange(s.drop_last()), s.last())
    }
}

/// The listing entry that stands for a reported entry: a missing size,
/// time or permission counts as 0, and backslashes in the path become
/// slashes.
pub open spec fn info_of(e: RemoteEntryView) -> FileInfoView {
    FileInfoView {
        name: e.name,
        path: with_replaced(e.path, '\\', '/'),
        size: match e.size {
            Some(n) => n,
            None => 0,
        },
        is_dir: e.is_dir,
        modified: match e.mtime {
            Some(t) => t,
            None => 0,
        },
        permissions: permission_text(
            match e.perm {
                Some(p) => p,
                None => 0,
            },
        ),
    }
}

/// The entries that a listing shows, in the order in which they were
/// reported.
pub open spec fn shown(entries: Seq<RemoteEntryView>) -> Seq<FileInfoView>
    decreases entries.len(),
{
    if entries.len() == 0 {
        Seq::empty()
    } else if is_hidden(entries.last().name) {
        shown(entries.drop_last())
    } else {
        shown(entries.drop_last()).push(info_of(entries.last()))
    }
}

/// The listing of a directory whose entries were reported as `entries`.
pub open spec fn listing_of(entries: Seq<RemoteEntryView>) -> Seq<FileInfoView> {
    arrange(shown(entries))
}

/// Builds the listing entry that stands for a reported entry.
pub fn file_info(e: &RemoteEntry) -> (info: FileInfo)
    ensures
        info@ == info_of(e@),
{
    proof {
        reveal_strlit("/");
    }
    FileInfo {
        name: e.name.clone(),
        path: replace_char(e.path.as_str(), '\\', "/"),
        size: match e.size {
            Some(n) => n,
            None => 0,
        },
        is_dir: e.is_dir,
        modified: match e.mtime {
            Some(t) => t,
            None => 0,
        },
        permissions: format_permissions(
            match e.perm {
                Some(p) => p,
                None => 0,
            },
        ),
    }
}

/// Puts `info` into an arranged listing, before the first entry that it
/// must precede.
pub fn place_entry(files: &mut Vec<FileInfo>, info: FileInfo)
    ensures
        info_views(final(files)@) == place(info_views(old(files)@), info@),
{
    let ghost before = info_views(files@);
    let mut j: usize = 0;
    while j < files.len() && !entry_precedes(&info, &files[j])
        invariant
            j <= files@.len(),
            files@ == old(files)@,
            before == info_views(files@),
            slot_from(before, info@, 0) == slot_from(before, info@, j as int),
        decreases files@.len() - j,
    {
        assert(before[j as int] == files@[j as int]@);
        j += 1;
    }
    proof {
        if j < files@.len() {
            assert(before[j as int] == files@[j as int]@);
        }
        assert(slot_from(before, info@, 0) == j);
    }
    files.insert(j, info);
    assert(info_views(files@) =~= before.insert(j as int, info@));
}

/// The listing of a directory: hidden entries left out, the rest rendered
/// and arranged.
pub fn arrange_listing(entries: &Vec<RemoteEntry>) -> (files: Vec<FileInfo>)
    ensures
        info_views(files@) == listing_of(entry_views(entries@)),
        ordered(info_views(files@)),
        forall|i: int| 0 <= i < files@.len() ==> !is_hidden(#[trigger] files@[i].name@),
{
    let ghost raw = entry_views(entries@);
    let mut files: Vec<FileInfo> = Vec::new();
    let mut i: usize = 0;
    while i < entries.len()
        invariant
            i <= entries@.len(),
            raw == entry_views(entries@),
            info_views(files@) == arrange(shown(raw.take(i as int))),
        decreases entries@.len() - i,
    {
        let e = &entries[i];
        proof {
            let next = raw.take(i as int + 1);
            assert(next.drop_last() =~= raw.take(i as int));
            assert(next.last() == e@);
        }
        if !is_hidden_name(e.name.as_str()) {
            let info = file_info(e);
            proof {
                let prior = shown(raw.take(i as int));
                assert(prior.push(info@).drop_last() =~= prior);
            }
            place_entry(&mut files, info);
        }
        i += 1;
    }
    proof {
        assert(raw.take(i as int) =~= raw);
        lemma_arrange_ordered(shown(raw));
        lemma_shown_visible(raw);
        lemma_arrange_keeps(shown(raw));
        assert forall|k: int| 0 <= k < files@.len() implies !is_hidden(
            #[trigger] files@[k].name@,
        ) by {
            let v = info_views(files@);
            assert(v[k] == files@[k]@);
            assert(v.contains(v[k]));
            assert(shown(raw).contains(v[k]));
        }
    }
    files
}

/// The lexicographic order is transitive.
pub proof fn lemma_lex_transitive(a: Seq<char>, b: Seq<char>, c: Seq<char>, i: int)
    requires
        lex_lt_at(a, b, i),
        lex_lt_at(b, c, i),
    ensures
        lex_lt_at(a, c, i),
    decreases a.len() - i,
{
    if i < a.len() && a[i] == b[i] && b[i] == c[i] {
        lemma_lex_transitive(a, b, c, i + 1);
    }
}

/// Of two texts, at most one comes before the other.
pub proof fn lemma_lex_asymmetric(a: Seq<char>, b: Seq<char>, i: int)
    requires
        lex_lt_at(a, b, i),
    ensures
        !lex_lt_at(b, a, i),
    decreases a.len() - i,
{
    if i < a.len() && a[i] == b[i] {
        lemma_lex_asymmetric(a, b, i + 1);
    }
}

/// The listing order is transitive.
pub proof fn lemma_precedes_transitive(a: FileInfoView, b: FileInfoView, c: FileInfoView)
    requires
        precedes(a, b),
        precedes(b, c),
    ensures
        precedes(a, c),
{
    if rank(a) == rank(b) && rank(b) == rank(c) {
        lemma_lex_transitive(lowercase_of(a.name), lowercase_of(b.name), lowercase_of(c.name), 0);
    }
}

/// Of two entries, at most one must precede the other.
pub proof fn lemma_precedes_asymmetric(a: FileInfoView, b: FileInfoView)
    requires
        precedes(a, b),
    ensures
        !precedes(b, a),
{
    if rank(a) == rank(b) {
        lemma_lex_asymmetric(lowercase_of(a.name), lowercase_of(b.name), 0);
    }
}

/// Where `slot_from` lands: behind entries that `e` need not precede, and
/// on one that it must, unless it lands at the end.
pub proof fn lemma_slot(s: Seq<FileInfoView>, e: FileInfoView, j: int)
    requires
        0 <= j <= s.len(),
    ensures
        j <= slot_from(s, e, j) <= s.len(),
        forall|k: int| j <= k < slot_from(s, e, j) ==> !precedes(e, #[trigger] s[k]),
        slot_from(s, e, j) < s.len() ==> precedes(e, s[slot_from(s, e, j)]),
    decreases s.len() - j,
{
    if j < s.len() && !precedes(e, s[j]) {
        lemma_slot(s, e, j + 1);
    }
}

/// Placing an entry into an ordered listing leaves it ordered.
pub proof fn lemma_place_ordered(s: Seq<FileInfoView>, e: FileInfoView)
    requires
        ordered(s),
    ensures
        ordered(place(s, e)),
{
    let p = slot_from(s, e, 0);
    lemma_slot(s, e, 0);
    let t = place(s, e);
    assert forall|i: int, j: int| 0 <= i < j < t.len() implies !precedes(
        #[trigger] t[j],
        #[trigger] t[i],
    ) by {
        if j == p {
            assert(t[i] == s[i]);
        } else if i == p {
            assert(t[j] == s[j - 1]);
            if precedes(t[j], e) {
                if j - 1 == p {
                    lemma_precedes_asymmetric(e, s[p]);
                } else {
                    lemma_precedes_transitive(s[j - 1], e, s[p]);
                }
            }
        } else {
            let i0 = if i < p { i } else { i - 1 };
            let j0 = if j < p { j } else { j - 1 };
            assert(t[i] == s[i0]);
            assert(t[j] == s[j0]);
        }
    }
}

/// An arranged listing is ordered: the parent entry first, directories
/// before files, and each group by lower-cased name.
pub proof fn lemma_arrange_ordered(s: Seq<FileInfoView>)
    ensures
        ordered(arrange(s)),
        arrange(s).len() == s.len(),
    decreases s.len(),
{
    if s.len() > 0 {
        lemma_arrange_ordered(s.drop_last());
        lemma_slot(arrange(s.drop_last()), s.last(), 0);
        lemma_place_ordered(arrange(s.drop_last()), s.last());
    }
}

/// Arranging neither adds nor loses an entry.
pub proof fn lemma_arrange_keeps(s: Seq<FileInfoView>)
    ensures
        forall|e: FileInfoView| arrange(s).contains(e) <==> s.contains(e),
        arrange(s).to_multiset() == s.to_multiset(),
    decreases s.len(),
{
    broadcast use vstd::seq_lib::group_to_multiset_ensures;

    if s.len() > 0 {
        let front = s.drop_last();
        let e = s.last();
        lemma_arrange_keeps(front);
        let a = arrange(front);
        lemma_slot(a, e, 0);
        let p = slot_from(a, e, 0);
        let t = a.insert(p, e);
        assert(s =~= front.push(e));
        vstd::seq_lib::to_multiset_insert(a, p, e);
        assert(t.to_multiset() =~= s.to_multiset());
        assert forall|x: FileInfoView| t.contains(x) <==> s.contains(x) by {
            assert(t.contains(x) <==> t.to_multiset().count(x) > 0);
            assert(s.contains(x) <==> s.to_multiset().count(x) > 0);
        }
    } else {
        assert(arrange(s) =~= s);
    }
}

/// No shown entry is hidden.
pub proof fn lemma_shown_visible(entries: Seq<RemoteEntryView>)
    ensures
        forall|e: FileInfoView| shown(entries).contains(e) ==> !is_hidden(e.name),
    decreases entries.len(),
{
    if entries.len() > 0 {
        lemma_shown_visible(entries.drop_last());
        let front = shown(entries.drop_last());
        assert forall|e: FileInfoView| shown(entries).contains(e) implies !is_hidden(e.name) by {
            let k = choose|k: int| 0 <= k < shown(entries).len() && shown(entries)[k] == e;
            if k < front.len() {
                assert(front[k] == e);
                assert(front.contains(e));
            }
        }
    }
}

/// Arranging a listing that is already ordered changes nothing, so
/// arranging twice gives what arranging once gives.
pub proof fn lemma_arrange_idempotent(s: Seq<FileInfoView>)
    ensures
        ordered(s) ==> arrange(s) == s,
        arrange(arrange(s)) == arrange(s),
{
    if ordered(s) {
        lemma_ordered_fixed(s);
    }
    lemma_arrange_ordered(s);
    lemma_ordered_fixed(arrange(s));
}

/// Arranging an ordered listing gives it back.
pub proof fn lemma_ordered_fixed(s: Seq<FileInfoView>)
    requires
        ordered(s),
    ensures
        arrange(s) == s,
    decreases s.len(),
{
    if s.len() > 0 {
        let front = s.drop_last();
        let e = s.last();
        assert forall|i: int, j: int| 0 <= i < j < front.len() implies !precedes(
            #[trigger] front[j],
            #[trigger] front[i],
        ) by {
            assert(front[i] == s[i] && front[j] == s[j]);
        }
        lemma_ordered_fixed(front);
        lemma_slot(front, e, 0);
        let p = slot_from(front, e, 0);
        if p < front.len() {
            assert(front[p] == s[p]);
            assert(e == s[s.len() - 1]);
            assert(!precedes(s[s.len() - 1], s[p]));
        }
        assert(front.insert(p, e) =~= s);
    } else {
        assert(arrange(s) =~= s);
    }
}

/// What being ordered comes to for two entries of a listing: the earlier
/// one is of the same or an earlier group, so the parent entry stands
/// before directories and directories before files; and inside a group of
/// directories or of files the lower-cased name of the later one does not
/// come before that of the earlier one.
pub proof fn law_ordered_groups(s: Seq<FileInfoView>, i: int, j: int)
    requires
        ordered(s),
        0 <= i < j < s.len(),
    ensures
        rank(s[i]) <= rank(s[j]),
        rank(s[i]) == rank(s[j]) && rank(s[i]) != 0 ==> !lex_lt(
            lowercase_of(s[j].name),
            lowercase_of(s[i].name),
        ),
{
    assert(!precedes(s[j], s[i]));
}

/// A listing is ordered, shows no hidden entry, holds each entry that is
/// to be shown as often as it was reported, and is what arranging it once
/// more gives.
pub proof fn law_listing(entries: Seq<RemoteEntryView>)
    ensures
        ordered(listing_of(entries)),
        forall|i: int|
            0 <= i < listing_of(entries).len() ==> !is_hidden(
                (#[trigger] listing_of(entries)[i]).name,
            ),
        listing_of(entries).to_multiset() == shown(entries).to_multiset(),
        arrange(listing_of(entries)) == listing_of(entries),
{
    let l = listing_of(entries);
    lemma_arrange_ordered(shown(entries));
    lemma_shown_visible(entries);
    lemma_arrange_keeps(shown(entries));
    lemma_arrange_idempotent(shown(entries));
    assert forall|i: int| 0 <= i < l.len() implies !is_hidden((#[trigger] l[i]).name) by {
        assert(l.contains(l[i]));
        assert(shown(entries).contains(l[i]));
    }
}

} // verus!
