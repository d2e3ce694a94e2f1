//! Working directories: which reports to believe and whose directory a pane
//! shows. The rules on paths are those of Unix, where paths are byte strings: a
//! daemon is reached over a Unix socket, so there are no panes anywhere else.

use vstd::prelude::*;

verus! {

/// Whether a path is absolute, by the Unix rules: it starts at the root.
pub open spec fn is_absolute(p: Seq<u8>) -> bool {
    p.len() > 0 && p[0] == 0x2f
}

/// A component that says nothing: an empty one, or a lone dot.
pub open spec fn is_void(c: Seq<u8>) -> bool {
    c.len() == 0 || c == seq![0x2eu8]
}

/// The components of an absolute path, and the piece that is being read at its
/// end.
pub open spec fn pieces(p: Seq<u8>) -> (Seq<Seq<u8>>, Seq<u8>)
    decreases p.len(),
{
    if p.len() == 0 {
        (Seq::empty(), Seq::empty())
    } else {
        let (done, current) = pieces(p.drop_last());
        if p.last() != 0x2f {
            (done, current.push(p.last()))
        } else if is_void(current) {
            (done, Seq::empty())
        } else {
            (done.push(current), Seq::empty())
        }
    }
}

/// The components of an absolute path, void ones left out.
pub open spec fn components(p: Seq<u8>) -> Seq<Seq<u8>> {
    let (done, current) = pieces(p);
    if is_void(current) {
        done
    } else {
        done.push(current)
    }
}

/// Whether two paths are absolute and name the same place by the Unix rules,
/// without asking the file system: repeated and trailing separators and lone dots
/// do not count.
pub open spec fn same_path(a: Seq<u8>, b: Seq<u8>) -> bool {
    is_absolute(a) && is_absolute(b) && components(a) == components(b)
}

/// What an optional path holds.
pub open spec fn path_view(p: Option<Vec<u8>>) -> Option<Seq<u8>> {
    match p {
        Some(p) => Some(p@),
        None => None,
    }
}

/// Whether two optional absolute paths are both missing or name the same place.
pub open spec fn same_place(a: Option<Seq<u8>>, b: Option<Seq<u8>>) -> bool {
    match (a, b) {
        (Some(a), Some(b)) => same_path(a, b),
        (None, None) => true,
        _ => false,
    }
}

fn starts_at_root(p: &Vec<u8>) -> (r: bool)
    ensures
        r == is_absolute(p@),
{
    p.len() > 0 && p[0] == 0x2f
}

fn is_void_piece(c: &Vec<u8>) -> (r: bool)
    ensures
        r == is_void(c@),
{
    if c.len() == 1 && c[0] == 0x2e {
        assert(c@ =~= seq![0x2eu8]);
        return true;
    }
    c.len() == 0
}

/// What a list of byte strings holds.
pub open spec fn parts_view(v: Seq<Vec<u8>>) -> Seq<Seq<u8>> {
    v.map_values(|c: Vec<u8>| c@)
}

fn split_components(p: &Vec<u8>) -> (r: Vec<Vec<u8>>)
    ensures
        parts_view(r@) == components(p@),
{
    let mut done: Vec<Vec<u8>> = Vec::new();
    let mut current: Vec<u8> = Vec::new();
    let mut i: usize = 0;
    assert(p@.take(0) =~= Seq::<u8>::empty());
    assert(parts_view(done@) =~= Seq::<Seq<u8>>::empty());
    while i < p.len()
        invariant
            i <= p.len(),
            (parts_view(done@), current@) == pieces(p@.take(i as int)),
        decreases p.len() - i,
    {
        assert(p@.take(i + 1).drop_last() =~= p@.take(i as int));
        let ghost before = done@;
        if p[i] != 0x2f {
            current.push(p[i]);
        } else if is_void_piece(&current) {
            current = Vec::new();
        } else {
            done.push(current);
            assert(parts_view(done@) =~= parts_view(before).push(current@));
            current = Vec::new();
        }
        i += 1;
    }
    assert(p@.take(i as int) =~= p@);
    if !is_void_piece(&current) {
        let ghost before = done@;
        done.push(current);
        assert(parts_view(done@) =~= parts_view(before).push(current@));
    }
    done
}

fn same_bytes(a: &Vec<u8>, b: &Vec<u8>) -> (r: bool)
    ensures
        r == (a@ == b@),
{
    if a.len() != b.len() {
        return false;
    }
    let mut i: usize = 0;
    while i < a.len()
        invariant
            i <= a.len(),
            a.len() == b.len(),
            forall|j: int| 0 <= j < i ==> a@[j] == b@[j],
        decreases a.len() - i,
    {
        if a[i] != b[i] {
            return false;
        }
        i += 1;
    }
    assert(a@ =~= b@);
    true
}

/// Whether two paths are absolute and name the same place.
pub fn is_same_path(a: &Vec<u8>, b: &Vec<u8>) -> (r: bool)
    ensures
        r == same_path(a@, b@),
{
    if !starts_at_root(a) || !starts_at_root(b) {
        return false;
    }
    let x = split_components(a);
    let y = split_components(b);
    if x.len() != y.len() {
        assert(components(a@).len() != components(b@).len());
        return false;
    }
    let mut i: usize = 0;
    while i < x.len()
        invariant
            i <= x.len(),
            x.len() == y.len(),
            parts_view(x@) == components(a@),
            parts_view(y@) == components(b@),
            forall|j: int| 0 <= j < i ==> (#[trigger] x@[j])@ == y@[j]@,
        decreases x.len() - i,
    {
        if !same_bytes(&x[i], &y[i]) {
            assert(parts_view(x@)[i as int] != parts_view(y@)[i as int]);
            return false;
        }
        i += 1;
    }
    assert(parts_view(x@) =~= parts_view(y@));
    true
}

fn is_same_place(a: &Option<Vec<u8>>, b: &Option<Vec<u8>>) -> (r: bool)
    ensures
        r == same_place(path_view(*a), path_view(*b)),
{
    match (a, b) {
        (Some(a), Some(b)) => is_same_path(a, b),
        (None, None) => true,
        _ => false,
    }
}

/// A directory that can be used: an absolute path to an existing directory.
pub open spec fn usable(cwd: Option<Seq<u8>>, is_dir: bool) -> Option<Seq<u8>> {
    match cwd {
        Some(p) => if is_absolute(p) && is_dir {
            Some(p)
        } else {
            None
        },
        None => None,
    }
}

/// Keeps a reported directory if it can be used.
pub fn usable_reported_cwd(cwd: Vec<u8>, is_dir: bool) -> (r: Option<Vec<u8>>)
    ensures
        r == (if is_absolute(cwd@) && is_dir {
            Some(cwd)
        } else {
            None
        }),
{
    if starts_at_root(&cwd) && is_dir {
        Some(cwd)
    } else {
        None
    }
}

/// Keeps a process's directory if it can be used.
pub fn usable_process_cwd(cwd: Option<Vec<u8>>, is_dir: bool) -> (r: Option<Vec<u8>>)
    ensures
        path_view(r) == usable(path_view(cwd), is_dir),
{
    match cwd {
        Some(cwd) => usable_reported_cwd(cwd, is_dir),
        None => None,
    }
}

/// Whether a report is news: it can be used, and differs from the last one.
pub open spec fn is_news(current: Option<Seq<u8>>, cwd: Seq<u8>, is_dir: bool) -> bool {
    is_absolute(cwd) && is_dir && !(current matches Some(c) && same_path(c, cwd))
}

/// Takes in a reported directory. `true` if it is news and has become the
/// current one.
pub fn publish_reported_cwd(current: &mut Option<Vec<u8>>, cwd: Vec<u8>, is_dir: bool) -> (r: bool)
    ensures
        r == is_news(path_view(*old(current)), cwd@, is_dir),
        *final(current) == (if r {
            Some(cwd)
        } else {
            *old(current)
        }),
{
    let cwd = match usable_reported_cwd(cwd, is_dir) {
        Some(cwd) => cwd,
        None => {
            return false;
        },
    };
    if let Some(known) = &*current {
        if is_same_path(known, &cwd) {
            return false;
        }
    }
    *current = Some(cwd);
    true
}

/// A member of the foreground job, with its usable directory.
#[derive(Debug)]
pub struct JobMember {
    pub pid: u32,
    pub cwd: Option<Vec<u8>>,
}

/// Whether a member shows a directory of its own.
pub open spec fn stands_apart(m: JobMember, shell_pid: u32, shell_cwd: Option<Seq<u8>>) -> bool {
    m.pid != shell_pid && m.cwd is Some && !same_place(shell_cwd, path_view(m.cwd))
}

/// The directory of the first member that shows one of its own.
pub open spec fn apart(members: Seq<JobMember>, shell_pid: u32, shell_cwd: Option<Seq<u8>>) -> Option<
    Seq<u8>,
>
    decreases members.len(),
{
    if members.len() == 0 {
        None
    } else if stands_apart(members[0], shell_pid, shell_cwd) {
        path_view(members[0].cwd)
    } else {
        apart(members.skip(1), shell_pid, shell_cwd)
    }
}

fn copy_path(p: &Vec<u8>) -> (r: Vec<u8>)
    ensures
        r@ == p@,
{
    vstd::slice::slice_to_vec(p.as_slice())
}

/// The directory of the first foreground process other than the shell that is
/// not in the shell's directory.
pub fn foreground_member_cwd_different_from_shell(
    shell_pid: u32,
    shell_cwd: &Option<Vec<u8>>,
    members: &Vec<JobMember>,
) -> (r: Option<Vec<u8>>)
    ensures
        path_view(r) == apart(members@, shell_pid, path_view(*shell_cwd)),
{
    let mut i: usize = 0;
    assert(members@.skip(0) =~= members@);
    while i < members.len()
        invariant
            i <= members.len(),
            apart(members@, shell_pid, path_view(*shell_cwd)) == apart(
                members@.skip(i as int),
                shell_pid,
                path_view(*shell_cwd),
            ),
        decreases members.len() - i,
    {
        assert(members@.skip(i as int)[0] == members@[i as int]);
        if members[i].pid != shell_pid && !is_same_place(shell_cwd, &members[i].cwd) {
            if let Some(cwd) = &members[i].cwd {
                return Some(copy_path(cwd));
            }
        }
        assert(members@.skip(i as int).skip(1) =~= members@.skip(i + 1));
        i += 1;
    }
    None
}

/// The first of two optional paths that is there.
pub open spec fn first_of(a: Option<Seq<u8>>, b: Option<Seq<u8>>) -> Option<Seq<u8>> {
    if a is Some {
        a
    } else {
        b
    }
}

/// The directory of whatever has the foreground: the leader's, unless that is
/// just the shell's and a member of the job stands apart.
pub open spec fn foreground(
    shell_pid: u32,
    shell_cwd: Option<Seq<u8>>,
    leader_cwd: Option<Seq<u8>>,
    members: Seq<JobMember>,
) -> Option<Seq<u8>> {
    let member = apart(members, shell_pid, shell_cwd);
    if same_place(leader_cwd, shell_cwd) {
        first_of(member, leader_cwd)
    } else {
        first_of(leader_cwd, member)
    }
}

/// Picks the directory of whatever has the foreground.
pub fn foreground_cwd(
    shell_pid: u32,
    shell_cwd: Option<Vec<u8>>,
    leader_cwd: Option<Vec<u8>>,
    members: &Vec<JobMember>,
) -> (r: Option<Vec<u8>>)
    ensures
        path_view(r) == foreground(shell_pid, path_view(shell_cwd), path_view(leader_cwd), members@),
{
    let same = is_same_place(&leader_cwd, &shell_cwd);
    let member = foreground_member_cwd_different_from_shell(shell_pid, &shell_cwd, members);
    if same {
        if member.is_some() {
            member
        } else {
            leader_cwd
        }
    } else if leader_cwd.is_some() {
        leader_cwd
    } else {
        member
    }
}

/// A report repeated is no news.
pub proof fn repeated_reports_are_no_news(current: Option<Seq<u8>>, cwd: Seq<u8>, is_dir: bool)
    requires
        is_news(current, cwd, is_dir),
    ensures
        !is_news(Some(cwd), cwd, is_dir),
{
}

/// A separator at the end of a path, or a lone dot after one, does not make it
/// another place.
pub proof fn void_components_do_not_count(p: Seq<u8>)
    requires
        is_absolute(p),
    ensures
        same_path(p, p.push(0x2f)),
        same_path(p, p.push(0x2f).push(0x2e)),
        same_path(p.push(0x2f), p),
{
    let q = p.push(0x2f);
    assert(q.drop_last() =~= p);
    let d = q.push(0x2e);
    assert(d.drop_last() =~= q);
    assert(pieces(d) == (pieces(q).0, pieces(q).1.push(0x2e)));
    assert(pieces(d).1 =~= seq![0x2eu8]);
}

proof fn pieces_go_on(a: Seq<u8>, b: Seq<u8>)
    ensures
        pieces(a.push(0x2f) + b).0 == components(a) + pieces(b).0,
        pieces(a.push(0x2f) + b).1 == pieces(b).1,
    decreases b.len(),
{
    let p = a.push(0x2f) + b;
    if b.len() == 0 {
        assert(p =~= a.push(0x2f));
        assert(p.drop_last() =~= a);
        assert(components(a) + pieces(b).0 =~= components(a));
    } else {
        pieces_go_on(a, b.drop_last());
        assert(p.drop_last() =~= a.push(0x2f) + b.drop_last());
        assert(p.last() == b.last());
        assert(pieces(p).0 =~= components(a) + pieces(b).0);
    }
}

proof fn plain_pieces(c: Seq<u8>)
    requires
        !c.contains(0x2f),
    ensures
        pieces(c).0.len() == 0,
        pieces(c).1 == c,
    decreases c.len(),
{
    if c.len() > 0 {
        assert(c.contains(c.last()));
        assert forall|x: u8| c.drop_last().contains(x) implies c.contains(x) by {
            let i = c.drop_last().index_of(x);
            assert(c[i] == x);
        }
        plain_pieces(c.drop_last());
        assert(pieces(c).1 =~= c);
    }
}

/// A path is cut at its slashes: the components of what stands before one and of
/// what stands behind it follow one another. A name is its own component, nothing
/// and a lone dot are none.
pub proof fn paths_are_cut_at_slashes(a: Seq<u8>, b: Seq<u8>, name: Seq<u8>)
    requires
        !name.contains('/' as u8),
    ensures
        components(a + seq!['/' as u8] + b) == components(a) + components(b),
        name.len() > 0 && name != seq!['.' as u8] ==> components(name) == seq![name],
        name.len() == 0 || name == seq!['.' as u8] ==> components(name).len() == 0,
{
    pieces_go_on(a, b);
    plain_pieces(name);
    assert(a + seq!['/' as u8] + b =~= a.push(0x2f) + b);
    assert(components(a.push(0x2f) + b) =~= components(a) + components(b));
    assert(pieces(name).0 =~= Seq::<Seq<u8>>::empty());
    if name.len() > 0 && name != seq!['.' as u8] {
        assert(components(name) =~= seq![name]);
    }
}

/// Two paths are the same only if both start at the root and have the same
/// components; the comparison does not depend on the order.
pub proof fn same_paths_start_at_the_root(a: Vec<u8>, b: Vec<u8>, r: bool, s: bool)
    requires
        call_ensures(is_same_path, (&a, &b), r),
        call_ensures(is_same_path, (&b, &a), s),
    ensures
        r == s,
        r ==> a@.len() > 0 && a@[0] == '/' as u8 && b@.len() > 0 && b@[0] == '/' as u8,
        r ==> components(a@) == components(b@),
        a@.len() > 0 && a@[0] == '/' as u8 && a@ == b@ ==> r,
{
}

/// A directory is usable if it starts at the root and is one; then it is used as it
/// is.
pub proof fn usable_directories_are_absolute(
    cwd: Vec<u8>,
    is_dir: bool,
    reported: Option<Vec<u8>>,
    found: Option<Vec<u8>>,
    missing: Option<Vec<u8>>,
)
    requires
        call_ensures(usable_reported_cwd, (cwd, is_dir), reported),
        call_ensures(usable_process_cwd, (Some(cwd), is_dir), found),
        call_ensures(usable_process_cwd, (None::<Vec<u8>>, is_dir), missing),
    ensures
        reported is Some <==> is_dir && cwd@.len() > 0 && cwd@[0] == '/' as u8,
        reported matches Some(p) ==> p@ == cwd@,
        found is Some <==> is_dir && cwd@.len() > 0 && cwd@[0] == '/' as u8,
        found matches Some(p) ==> p@ == cwd@,
        missing is None,
{
}

/// A reported directory is published if it is usable and not the place already
/// known; then it is what is known, otherwise nothing changes.
pub proof fn news_replace_what_was_known(
    current: &mut Option<Vec<u8>>,
    cwd: Vec<u8>,
    is_dir: bool,
    r: bool,
)
    requires
        call_ensures(publish_reported_cwd, (current, cwd, is_dir), r),
    ensures
        !is_dir || cwd@.len() == 0 || cwd@[0] != '/' as u8 ==> !r,
        is_dir && cwd@.len() > 0 && cwd@[0] == '/' as u8 && *old(current) is None ==> r,
        is_dir && cwd@.len() > 0 && cwd@[0] == '/' as u8 ==> (*old(current) matches Some(c)
            ==> (r <==> c@.len() == 0 || c@[0] != '/' as u8 || components(c@) != components(cwd@))),
        r ==> *final(current) == Some(cwd),
        !r ==> *final(current) == *old(current),
{
}

/// The member that stands apart is the first that is not the shell itself, has a
/// directory, and is elsewhere than the shell.
pub proof fn the_first_member_elsewhere_counts(
    members: Seq<JobMember>,
    shell_pid: u32,
    shell_cwd: Option<Seq<u8>>,
    k: int,
)
    requires
        0 <= k < members.len(),
    ensures
        ({
            let own = path_view(members[k].cwd);
            let elsewhere = members[k].pid != shell_pid && own is Some && !(shell_cwd is Some
                && same_path(shell_cwd->0, own->0));
            let r = apart(members, shell_pid, shell_cwd);
            &&& elsewhere ==> r is Some
            &&& elsewhere && apart(members.take(k), shell_pid, shell_cwd) is None ==> r == own
            &&& apart(members.take(k), shell_pid, shell_cwd) is Some ==> r == apart(
                members.take(k),
                shell_pid,
                shell_cwd,
            )
            &&& !elsewhere && k == members.len() - 1 && apart(
                members.take(k),
                shell_pid,
                shell_cwd,
            ) is None ==> r is None
            &&& apart(Seq::empty(), shell_pid, shell_cwd) is None
        }),
    decreases members.len(),
{
    if k == 0 {
        assert(members.take(0) =~= Seq::<JobMember>::empty());
        if members.len() == 1 {
            assert(members.skip(1) =~= Seq::<JobMember>::empty());
        }
    } else {
        the_first_member_elsewhere_counts(members.skip(1), shell_pid, shell_cwd, k - 1);
        assert(members.skip(1)[k - 1] == members[k]);
        assert(members.take(k).skip(1) =~= members.skip(1).take(k - 1));
    }
}

/// A job's leader that is elsewhere than the shell says where the job is. If it is
/// not, a member that stands apart does; only without one it is the leader.
pub proof fn leaders_elsewhere_come_first(
    shell_pid: u32,
    shell_cwd: Option<Seq<u8>>,
    leader_cwd: Option<Seq<u8>>,
    members: Seq<JobMember>,
)
    ensures
        ({
            let r = foreground(shell_pid, shell_cwd, leader_cwd, members);
            let member = apart(members, shell_pid, shell_cwd);
            let elsewhere = leader_cwd is Some && !(shell_cwd is Some && same_path(
                leader_cwd->0,
                shell_cwd->0,
            ));
            &&& elsewhere ==> r == leader_cwd
            &&& !elsewhere && member is Some ==> r == member
            &&& !elsewhere && member is None ==> r == leader_cwd
        }),
{
}

} // verus!
