use vstd::prelude::*;

use crate::paths::file_name;

verus! {

/// Whether `name` ends in `.mkv` or `.mp4`, letter case included.
pub open spec fn has_video_extension(name: Seq<char>) -> bool {
    let n = name.len() as int;
    n >= 4 && name[n - 4] == '.' && name[n - 3] == 'm' && ((name[n - 2] == 'k' && name[n - 1]
        == 'v') || (name[n - 2] == 'p' && name[n - 1] == '4'))
}

/// The paths among `ps` whose file name has a video extension, in their order.
pub open spec fn videos_of(ps: Seq<Seq<char>>) -> Seq<Seq<char>>
    decreases ps.len(),
{
    if ps.len() == 0 {
        ps
    } else if has_video_extension(file_name(ps.last())) {
        videos_of(ps.drop_last()).push(ps.last())
    } else {
        videos_of(ps.drop_last())
    }
}

/// The last component of `path`.
pub fn file_name_of(path: &str) -> (r: &str)
    ensures
        r@ == file_name(path@),
{
    let n = path.unicode_len();
    let mut j: usize = n;
    assert(path@.take(n as int) =~= path@);
    assert(file_name(path@) + Seq::<char>::empty() =~= file_name(path@));
    assert(path@.subrange(n as int, n as int) =~= Seq::<char>::empty());
    while j > 0 && path.get_char(j - 1) != '/'
        invariant
            j <= n,
            n == path@.len(),
            file_name(path@) == file_name(path@.take(j as int)) + path@.subrange(j as int, n as int),
        decreases j,
    {
        proof {
            let t = path@.take(j as int);
            assert(t.drop_last() =~= path@.take(j - 1));
            assert(file_name(t) == file_name(path@.take(j - 1)).push(path@[j - 1]));
            assert(file_name(t) + path@.subrange(j as int, n as int) =~= file_name(path@.take(j - 1))
                + path@.subrange(j - 1, n as int));
        }
        j = j - 1;
    }
    proof {
        assert(path@.take(n as int) =~= path@);
        assert(file_name(path@.take(j as int)) =~= Seq::<char>::empty());
    }
    let r = path.substring_char(j, n);
    assert(r@ =~= file_name(path@));
    r
}

/// Whether `path` names a video candidate: its file name ends in `.mkv` or
/// `.mp4`, matched exactly, case included.
pub fn is_video_file(path: &str) -> (r: bool)
    ensures
        r == has_video_extension(file_name(path@)),
{
    let name = file_name_of(path);
    let n = name.unicode_len();
    if n < 4 {
        return false;
    }
    name.get_char(n - 4) == '.' && name.get_char(n - 3) == 'm' && ((name.get_char(n - 2) == 'k'
        && name.get_char(n - 1) == 'v') || (name.get_char(n - 2) == 'p' && name.get_char(n - 1)
        == '4'))
}

/// The entries of a walked tree that are video candidates, in the order given.
pub fn select_videos(paths: &Vec<String>) -> (r: Vec<String>)
    ensures
        r.deep_view() == videos_of(paths.deep_view()),
{
    let mut r: Vec<String> = Vec::new();
    let mut i: usize = 0;
    while i < paths.len()
        invariant
            i <= paths.len(),
            r.deep_view() == videos_of(paths.deep_view().take(i as int)),
        decreases paths.len() - i,
    {
        let p = &paths[i];
        let keep = is_video_file(p.as_str());
        proof {
            let t = paths.deep_view().take(i + 1);
            assert(t.drop_last() =~= paths.deep_view().take(i as int));
            assert(t.last() == p@);
        }
        if keep {
            r.push(p.clone());
            assert(r.deep_view() =~= videos_of(paths.deep_view().take(i + 1)));
        }
        i = i + 1;
    }
    assert(paths.deep_view().take(paths.len() as int) =~= paths.deep_view());
    r
}

/// Selection keeps exactly the entries whose file name ends in `.mkv` or
/// `.mp4`, whatever the walked root: no other entry comes out, and no such
/// entry is lost.
pub proof fn lemma_videos_of_exact(ps: Seq<Seq<char>>)
    ensures
        forall|x: Seq<char>| #[trigger]
            videos_of(ps).contains(x) <==> (ps.contains(x) && has_video_extension(file_name(x))),
    decreases ps.len(),
{
    if ps.len() > 0 {
        let d = ps.drop_last();
        lemma_videos_of_exact(d);
        assert(ps =~= d.push(ps.last()));
        assert forall|x: Seq<char>| #[trigger]
            videos_of(ps).contains(x) <==> (ps.contains(x) && has_video_extension(
                file_name(x),
            )) by {
            if ps.contains(x) {
                let i = choose|i: int| 0 <= i < ps.len() && ps[i] == x;
                if i < d.len() {
                    assert(d[i] == x);
                }
            }
            if d.contains(x) {
                let i = choose|i: int| 0 <= i < d.len() && d[i] == x;
                assert(ps[i] == x);
            }
            let v = videos_of(d);
            if has_video_extension(file_name(ps.last())) {
                assert(videos_of(ps) == v.push(ps.last()));
                if v.contains(x) {
                    let i = choose|i: int| 0 <= i < v.len() && v[i] == x;
                    assert(v.push(ps.last())[i] == x);
                }
                if videos_of(ps).contains(x) && x != ps.last() {
                    let i = choose|i: int| 0 <= i < v.len() + 1 && v.push(ps.last())[i] == x;
                    assert(v[i] == x);
                }
                assert(v.push(ps.last())[v.len() as int] == ps.last());
            }
        }
    }
}

} // verus!
