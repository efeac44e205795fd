//! Paths are written as text with `/` between components, and compared by
//! components: empty components (repeated or trailing separators) and `.`
//! components are not counted, and a path starts at the root directory, at
//! the current directory (`.` first), or at neither. A path lies under a root
//! when both start alike and the root's components begin the path's.
use vstd::prelude::*;

verus! {

/// Why a file could not be given a place in the output tree.
#[derive(Debug, Clone, Copy, PartialEq, Eq, Structural)]
pub enum MappingError {
    /// The file does not lie under the input root.
    NotUnderRoot,
}

/// The pieces of `s` between separators, empty ones included.
pub open spec fn segments(s: Seq<char>) -> Seq<Seq<char>>
    decreases s.len(),
{
    if s.len() == 0 {
        seq![Seq::empty()]
    } else {
        let r = segments(s.drop_last());
        if s.last() == '/' {
            r.push(Seq::empty())
        } else {
            r.update(r.len() - 1, r.last().push(s.last()))
        }
    }
}

/// Whether a piece counts as a component: it is neither empty nor `.`.
pub open spec fn is_component(seg: Seq<char>) -> bool {
    seg.len() > 0 && seg != seq!['.']
}

/// The pieces of `ss` that count as components, in their order.
pub open spec fn kept(ss: Seq<Seq<char>>) -> Seq<Seq<char>>
    decreases ss.len(),
{
    if ss.len() == 0 {
        ss
    } else if is_component(ss.last()) {
        kept(ss.drop_last()).push(ss.last())
    } else {
        kept(ss.drop_last())
    }
}

/// The components of the path `s`.
pub open spec fn parts(s: Seq<char>) -> Seq<Seq<char>> {
    kept(segments(s))
}

/// How the path `s` starts: 1 at the root directory, 2 at the current
/// directory, 0 otherwise.
pub open spec fn start_kind(s: Seq<char>) -> u8 {
    if s.len() > 0 && s[0] == '/' {
        1
    } else if s.len() > 0 && s[0] == '.' && (s.len() == 1 || s[1] == '/') {
        2
    } else {
        0
    }
}

/// Whether the path `p` is `root` itself or lies below it.
pub open spec fn is_under(root: Seq<char>, p: Seq<char>) -> bool {
    &&& start_kind(root) == start_kind(p)
    &&& parts(root).len() <= parts(p).len()
    &&& parts(p).take(parts(root).len() as int) == parts(root)
}

/// The components of `p` below `root`.
pub open spec fn relative(root: Seq<char>, p: Seq<char>) -> Seq<Seq<char>> {
    parts(p).skip(parts(root).len() as int)
}

/// The components `ps` written with a separator between each two.
pub open spec fn join_parts(ps: Seq<Seq<char>>) -> Seq<char>
    decreases ps.len(),
{
    if ps.len() == 0 {
        Seq::empty()
    } else if ps.len() == 1 {
        ps[0]
    } else {
        join_parts(ps.drop_last()).push('/') + ps.last()
    }
}

/// The relative path `rel` placed under `base`.
pub open spec fn join(base: Seq<char>, rel: Seq<char>) -> Seq<char> {
    if rel.len() == 0 {
        base
    } else if base.len() == 0 || base.last() == '/' {
        base + rel
    } else {
        base.push('/') + rel
    }
}

/// The last piece of `p`: what follows its last separator.
pub open spec fn file_name(p: Seq<char>) -> Seq<char>
    decreases p.len(),
{
    if p.len() == 0 || p.last() == '/' {
        Seq::empty()
    } else {
        file_name(p.drop_last()).push(p.last())
    }
}

/// Where the file `p` under `input_root` goes under `output_root`: the
/// output root joined with the components of `p` below the input root.
pub open spec fn output_path(input_root: Seq<char>, output_root: Seq<char>, p: Seq<char>) -> Result<
    Seq<char>,
    MappingError,
> {
    if is_under(input_root, p) {
        Ok(join(output_root, join_parts(relative(input_root, p))))
    } else {
        Err(MappingError::NotUnderRoot)
    }
}

/// How the path `s` starts, as `start_kind` says.
fn start_kind_of(s: &str) -> (r: u8)
    ensures
        r == start_kind(s@),
{
    let n = s.unicode_len();
    if n > 0 && s.get_char(0) == '/' {
        1
    } else if n > 0 && s.get_char(0) == '.' && (n == 1 || s.get_char(1) == '/') {
        2
    } else {
        0
    }
}

/// Whether the text `seg` counts as a component.
fn is_component_text(seg: &str) -> (r: bool)
    ensures
        r == is_component(seg@),
{
    let n = seg.unicode_len();
    if n == 0 {
        return false;
    }
    if n == 1 && seg.get_char(0) == '.' {
        assert(seg@ =~= seq!['.']);
        return false;
    }
    assert(seg@ != seq!['.'] ) by {
        if n == 1 {
            assert(seg@[0] != seq!['.'][0]);
        }
    }
    true
}

/// The components of the path `s`.
pub fn split_parts(s: &str) -> (r: Vec<String>)
    ensures
        r.deep_view() == parts(s@),
{
    let n = s.unicode_len();
    let mut done: Vec<String> = Vec::new();
    let mut start: usize = 0;
    let mut i: usize = 0;
    proof {
        assert(s@.take(0) =~= Seq::<char>::empty());
        assert(s@.subrange(0, 0) =~= Seq::<char>::empty());
        assert(segments(s@.take(0)).drop_last() =~= Seq::<Seq<char>>::empty());
    }
    while i < n
        invariant
            n == s@.len(),
            start <= i <= n,
            segments(s@.take(i as int)).len() >= 1,
            segments(s@.take(i as int)).last() == s@.subrange(start as int, i as int),
            done.deep_view() == kept(segments(s@.take(i as int)).drop_last()),
        decreases n - i,
    {
        let c = s.get_char(i);
        let ghost t = s@.take(i + 1);
        proof {
            assert(t.drop_last() =~= s@.take(i as int));
            assert(t.last() == c);
        }
        if c == '/' {
            let seg = s.substring_char(start, i);
            let keep = is_component_text(seg);
            proof {
                let r = segments(s@.take(i as int));
                assert(segments(t) == r.push(Seq::empty()));
                assert(r.push(Seq::<char>::empty()).drop_last() =~= r);
                assert(r == r.drop_last().push(r.last()));
            }
            if keep {
                done.push(String::from_str(seg));
                assert(done.deep_view() =~= kept(segments(s@.take(i as int))));
            }
            start = i + 1;
            proof {
                assert(s@.subrange(start as int, i + 1) =~= Seq::<char>::empty());
            }
        } else {
            proof {
                let r = segments(s@.take(i as int));
                assert(segments(t) == r.update(r.len() - 1, r.last().push(c)));
                assert(r.update(r.len() - 1, r.last().push(c)).drop_last() =~= r.drop_last());
                assert(s@.subrange(start as int, i + 1) =~= s@.subrange(start as int, i as int).push(
                    c,
                ));
            }
        }
        i = i + 1;
    }
    let seg = s.substring_char(start, n);
    let keep = is_component_text(seg);
    proof {
        assert(s@.take(n as int) =~= s@);
        let r = segments(s@);
        assert(r == r.drop_last().push(r.last()));
    }
    if keep {
        done.push(String::from_str(seg));
        assert(done.deep_view() =~= parts(s@));
    }
    done
}

/// The path of the file `path` under `src`, re-rooted onto `dst`: the
/// components between the two are kept, the file name too.
pub fn get_output_path(src: &str, dst: &str, path: &str) -> (r: Result<String, MappingError>)
    ensures
        r is Ok <==> is_under(src@, path@),
        r matches Ok(o) ==> output_path(src@, dst@, path@) == Ok::<Seq<char>, MappingError>(o@),
        r matches Err(e) ==> output_path(src@, dst@, path@) == Err::<Seq<char>, MappingError>(e),
{
    let rp = split_parts(src);
    let pp = split_parts(path);
    if start_kind_of(src) != start_kind_of(path) || rp.len() > pp.len() {
        return Err(MappingError::NotUnderRoot);
    }
    let rl = rp.len();
    let pl = pp.len();
    let mut k: usize = 0;
    while k < rl
        invariant
            rl == rp.len(),
            pl == pp.len(),
            rl <= pl,
            k <= rl,
            rp.deep_view() == parts(src@),
            pp.deep_view() == parts(path@),
            pp.deep_view().take(k as int) == rp.deep_view().take(k as int),
        decreases rl - k,
    {
        let same = rp[k].eq(&pp[k]);
        assert(rp.deep_view()[k as int] == rp[k as int]@);
        assert(pp.deep_view()[k as int] == pp[k as int]@);
        if !same {
            assert(rp[k as int]@ != pp[k as int]@);
            assert(pp.deep_view().take(rl as int)[k as int] != rp.deep_view()[k as int]);
            assert(pp.deep_view().take(rl as int) != rp.deep_view());
            return Err(MappingError::NotUnderRoot);
        }
        assert(pp.deep_view().take(k + 1) =~= pp.deep_view().take(k as int).push(pp[k as int]@));
        assert(rp.deep_view().take(k + 1) =~= rp.deep_view().take(k as int).push(rp[k as int]@));
        k = k + 1;
    }
    assert(rp.deep_view().take(rl as int) =~= rp.deep_view());
    let ghost rel = relative(src@, path@);
    let mut text = String::new();
    let mut j: usize = rl;
    proof {
        assert(rel.take(0) =~= Seq::<Seq<char>>::empty());
    }
    while j < pl
        invariant
            rl <= j <= pl,
            pl == pp.len(),
            rl == rp.len(),
            rel == pp.deep_view().skip(rl as int),
            rp.deep_view() == parts(src@),
            pp.deep_view() == parts(path@),
            text@ == join_parts(rel.take(j - rl)),
        decreases pl - j,
    {
        let ghost prev = rel.take(j - rl);
        let ghost next = rel.take(j - rl + 1);
        proof {
            assert(next.drop_last() =~= prev);
            assert(next.last() == pp[j as int]@);
        }
        if j > rl {
            text.append("/");
            proof {
                reveal_strlit("/");
            }
        }
        text.append(pp[j].as_str());
        proof {
            if j == rl {
                assert(prev =~= Seq::<Seq<char>>::empty());
                assert(text@ =~= join_parts(next));
            } else {
                assert(text@ =~= join_parts(next));
            }
        }
        j = j + 1;
    }
    assert(rel.take(pl - rl) =~= rel);
    let mut out = String::from_str(dst);
    if text.unicode_len() > 0 {
        let dl = dst.unicode_len();
        if dl > 0 && dst.get_char(dl - 1) != '/' {
            out.append("/");
            proof {
                reveal_strlit("/");
                assert(out@ =~= dst@.push('/'));
            }
        }
        out.append(text.as_str());
    }
    Ok(out)
}

proof fn lemma_segments_no_separator(s: Seq<char>)
    ensures
        segments(s).len() >= 1,
        forall|i: int, j: int|
            0 <= i < segments(s).len() && 0 <= j < segments(s)[i].len() ==> #[trigger] segments(
                s,
            )[i][j] != '/',
    decreases s.len(),
{
    if s.len() > 0 {
        lemma_segments_no_separator(s.drop_last());
        let r = segments(s.drop_last());
        if s.last() != '/' {
            let u = r.update(r.len() - 1, r.last().push(s.last()));
            assert forall|i: int, j: int| 0 <= i < u.len() && 0 <= j < u[i].len() implies u[i][j]
                != '/' by {
                if i == r.len() - 1 && j == r.last().len() {
                } else if i == r.len() - 1 {
                    assert(r[i][j] != '/');
                } else {
                    assert(r[i][j] != '/');
                }
            }
        } else {
            let u = r.push(Seq::<char>::empty());
            assert forall|i: int, j: int| 0 <= i < u.len() && 0 <= j < u[i].len() implies u[i][j]
                != '/' by {
                assert(r[i][j] != '/');
            }
        }
    }
}

proof fn lemma_kept_components(ss: Seq<Seq<char>>)
    requires
        forall|i: int, j: int| 0 <= i < ss.len() && 0 <= j < ss[i].len() ==> #[trigger] ss[i][j] != '/',
    ensures
        forall|i: int| 0 <= i < kept(ss).len() ==> is_component(#[trigger] kept(ss)[i]),
        forall|i: int, j: int|
            0 <= i < kept(ss).len() && 0 <= j < kept(ss)[i].len() ==> #[trigger] kept(ss)[i][j] != '/',
    decreases ss.len(),
{
    if ss.len() > 0 {
        let d = ss.drop_last();
        assert forall|i: int, j: int| 0 <= i < d.len() && 0 <= j < d[i].len() implies d[i][j] != '/' by {
            assert(ss[i][j] != '/');
        }
        lemma_kept_components(d);
        if is_component(ss.last()) {
            let k = kept(d).push(ss.last());
            assert forall|i: int, j: int| 0 <= i < k.len() && 0 <= j < k[i].len() implies k[i][j]
                != '/' by {
                if i < kept(d).len() {
                    assert(kept(d)[i][j] != '/');
                } else {
                    assert(ss[ss.len() - 1][j] != '/');
                }
            }
        }
    }
}

proof fn lemma_file_name_after_separator(a: Seq<char>, b: Seq<char>)
    requires
        a.len() == 0 || a.last() == '/',
    ensures
        file_name(a + b) == file_name(b),
    decreases b.len(),
{
    if b.len() == 0 {
        assert(a + b =~= a);
    } else {
        lemma_file_name_after_separator(a, b.drop_last());
        assert((a + b).drop_last() =~= a + b.drop_last());
    }
}

proof fn lemma_file_name_plain(x: Seq<char>)
    requires
        forall|j: int| 0 <= j < x.len() ==> x[j] != '/',
    ensures
        file_name(x) == x,
    decreases x.len(),
{
    if x.len() > 0 {
        lemma_file_name_plain(x.drop_last());
        assert(x.drop_last().push(x.last()) =~= x);
    }
}

proof fn lemma_file_name_join_parts(ps: Seq<Seq<char>>)
    requires
        ps.len() > 0,
        forall|j: int| 0 <= j < ps.last().len() ==> ps.last()[j] != '/',
    ensures
        file_name(join_parts(ps)) == ps.last(),
    decreases ps.len(),
{
    lemma_file_name_plain(ps.last());
    if ps.len() > 1 {
        lemma_file_name_after_separator(join_parts(ps.drop_last()).push('/'), ps.last());
    }
}

/// A file strictly below the input root maps to the output root joined with
/// its components below the input root, and its file name (so its
/// extension too) is the last component of the input path.
pub proof fn lemma_output_keeps_file_name(
    input_root: Seq<char>,
    output_root: Seq<char>,
    p: Seq<char>,
)
    requires
        is_under(input_root, p),
        relative(input_root, p).len() > 0,
    ensures
        output_path(input_root, output_root, p) == Ok::<Seq<char>, MappingError>(
            join(output_root, join_parts(relative(input_root, p))),
        ),
        file_name(join(output_root, join_parts(relative(input_root, p)))) == parts(p).last(),
{
    let rel = relative(input_root, p);
    lemma_segments_no_separator(p);
    lemma_kept_components(segments(p));
    let last = parts(p).last();
    assert(rel.last() == last);
    assert(is_component(last));
    assert forall|j: int| 0 <= j < rel.last().len() implies rel.last()[j] != '/' by {
        assert(parts(p)[parts(p).len() - 1][j] != '/');
    }
    lemma_file_name_join_parts(rel);
    let t = join_parts(rel);
    assert(t.len() > 0) by {
        if t.len() == 0 {
            assert(file_name(t) =~= Seq::<char>::empty());
        }
    }
    if output_root.len() == 0 || output_root.last() == '/' {
        lemma_file_name_after_separator(output_root, t);
    } else {
        lemma_file_name_after_separator(output_root.push('/'), t);
    }
}

/// The input root itself, written in any form with the same components,
/// maps to the output root.
pub proof fn lemma_root_maps_to_output_root(
    input_root: Seq<char>,
    output_root: Seq<char>,
    p: Seq<char>,
)
    requires
        start_kind(p) == start_kind(input_root),
        parts(p) == parts(input_root),
    ensures
        output_path(input_root, output_root, p) == Ok::<Seq<char>, MappingError>(output_root),
{
    assert(parts(p).take(parts(input_root).len() as int) =~= parts(input_root));
    assert(relative(input_root, p) =~= Seq::<Seq<char>>::empty());
}

/// A file that does not lie under the input root gets no output path.
pub proof fn lemma_outside_root_fails(input_root: Seq<char>, output_root: Seq<char>, p: Seq<char>)
    requires
        !is_under(input_root, p),
    ensures
        output_path(input_root, output_root, p) == Err::<Seq<char>, MappingError>(
            MappingError::NotUnderRoot,
        ),
{
}

} // verus!
