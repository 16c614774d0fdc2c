//! Path and media-URL helpers.
//!
//! Stored task records hold paths relative to the configured media root
//! (for example `media/image.png`); these functions convert between such
//! relative paths, absolute file-system paths, and the public URLs served
//! to clients. Paths are plain strings whose components are separated by
//! `/`; joining follows the usual rule that pushing an absolute path
//! replaces the base.

use vstd::prelude::*;

verus! {

/// Joining a path onto a base, as a path builder does: an absolute `p`
/// replaces `base`; otherwise a single separator stands between them.
pub open spec fn path_push(base: Seq<char>, p: Seq<char>) -> Seq<char> {
    if p.len() > 0 && p[0] == '/' {
        p
    } else if base.len() > 0 && base[base.len() - 1] == '/' {
        base + p
    } else if base.len() == 0 {
        p
    } else {
        base + seq!['/'] + p
    }
}

/// Appends `p` onto `base` following `path_push`.
pub fn push_path(base: &mut String, p: &str)
    ensures
        final(base)@ == path_push(old(base)@, p@),
{
    let pn = p.unicode_len();
    let starts_abs = if pn > 0 {
        let c = p.get_char(0);
        c == '/'
    } else {
        false
    };
    if starts_abs {
        let mut out = String::new();
        out.append(p);
        *base = out;
        return ;
    }
    let n = base.unicode_len();
    if n > 0 {
        let last = base.as_str().get_char(n - 1);
        if last != '/' {
            base.append("/");
        }
    } else {
        // an empty base takes `p` unchanged
    }
    base.append(p);
    proof {
        reveal_strlit("/");
        assert(base@ =~= path_push(old(base)@, p@));
    }
}

/// Returns `{scheme}://{host}/{relative_url}`: the public URL of a file
/// stored under a path relative to the media root.
pub fn full_media_url_from_relative_path(scheme: &str, host: &str, relative_url: &str) -> (r:
    String)
    ensures
        r@ == scheme@ + "://"@ + host@ + "/"@ + relative_url@,
{
    let mut out = String::new();
    out.append(scheme);
    out.append("://");
    out.append(host);
    out.append("/");
    out.append(relative_url);
    out
}

/// Prefixes `relative_path` with the media URL base: `images/a.png` with
/// media URL `media` becomes `/media/images/a.png`.
pub fn path_to_relative_media_url(media_url: &str, relative_path: &str) -> (r: String)
    ensures
        r@ == path_push(path_push("/"@, media_url@), relative_path@),
{
    let mut out = String::new();
    out.append("/");
    proof {
        reveal_strlit("/");
    }
    push_path(&mut out, media_url);
    push_path(&mut out, relative_path);
    out
}

/// The relative media URL of `relative_path` prefixed with the serving
/// host: `images/a.png` becomes `https://example.com/media/images/a.png`
/// when the host is `https://example.com` and the media URL is `media`.
pub fn path_to_full_media_url(media_url: &str, media_serve_host: &str, relative_path: &str) -> (r:
    String)
    ensures
        r@ == media_serve_host@ + path_push(path_push("/"@, media_url@), relative_path@),
{
    let rel = path_to_relative_media_url(media_url, relative_path);
    let mut out = String::new();
    out.append(media_serve_host);
    out.append(rel.as_str());
    out
}

/// As `path_to_full_media_url`, mapped through an optional path: `None`
/// stays `None`.
pub fn path_to_absolute_media_url_optional(
    media_url: &str,
    media_serve_host: &str,
    path: &Option<String>,
) -> (r: Option<String>)
    ensures
        match path {
            Some(p) => r is Some && r->0@ == media_serve_host@ + path_push(
                path_push("/"@, media_url@),
                p@,
            ),
            None => r is None,
        },
{
    match path {
        Some(p) => Some(path_to_full_media_url(media_url, media_serve_host, p.as_str())),
        None => None,
    }
}

/// The length of the leading run of non-separator characters.
pub open spec fn seg_len(s: Seq<char>) -> nat
    decreases s.len(),
{
    if s.len() == 0 || s[0] == '/' {
        0
    } else {
        (1 + seg_len(s.skip(1))) as nat
    }
}

pub proof fn lemma_seg_len_bounds(s: Seq<char>)
    ensures
        seg_len(s) <= s.len(),
        s.len() > 0 && s[0] != '/' ==> seg_len(s) >= 1,
    decreases s.len(),
{
    if s.len() > 0 && s[0] != '/' {
        lemma_seg_len_bounds(s.skip(1));
    }
}

pub proof fn lemma_seg_len_run(s: Seq<char>, n: int)
    requires
        0 <= n <= s.len(),
        forall|i: int| 0 <= i < n ==> s[i] != '/',
        n == s.len() || s[n] == '/',
    ensures
        seg_len(s) == n,
    decreases n,
{
    if n > 0 {
        let t = s.skip(1);
        assert(forall|i: int| 0 <= i < n - 1 ==> t[i] == s[i + 1]);
        if n - 1 < t.len() {
            assert(t[n - 1] == s[n]);
        }
        lemma_seg_len_run(t, n - 1);
    }
}

/// The non-empty components of a path body, leading and repeated
/// separators skipped.
pub open spec fn body_segs(s: Seq<char>) -> Seq<Seq<char>>
    decreases s.len(),
    via body_segs_dec
{
    if s.len() == 0 {
        Seq::empty()
    } else if s[0] == '/' {
        body_segs(s.skip(1))
    } else {
        seq![s.take(seg_len(s) as int)] + body_segs(s.skip(seg_len(s) as int))
    }
}

#[via_fn]
proof fn body_segs_dec(s: Seq<char>) {
    lemma_seg_len_bounds(s);
}

/// The components of a path as a path builder iterates them: a leading
/// `/` stands as a root marker component, then the non-empty segments.
pub open spec fn comps(s: Seq<char>) -> Seq<Seq<char>> {
    if s.len() > 0 && s[0] == '/' {
        seq![seq!['/']] + body_segs(s)
    } else {
        body_segs(s)
    }
}

/// Components joined with single separators, no leading one.
pub open spec fn join_rest(cs: Seq<Seq<char>>) -> Seq<char>
    decreases cs.len(),
{
    if cs.len() == 0 {
        Seq::empty()
    } else if cs.len() == 1 {
        cs[0]
    } else {
        cs[0] + seq!['/'] + join_rest(cs.skip(1))
    }
}

/// Components joined back into a path: a root marker in front makes the
/// result absolute.
pub open spec fn join_comps(cs: Seq<Seq<char>>) -> Seq<char> {
    if cs.len() > 0 && cs[0] == seq!['/'] {
        seq!['/'] + join_rest(cs.skip(1))
    } else {
        join_rest(cs)
    }
}

proof fn lemma_join_rest_push(cs: Seq<Seq<char>>, x: Seq<char>)
    ensures
        join_rest(cs.push(x)) == if cs.len() == 0 {
            x
        } else {
            join_rest(cs) + seq!['/'] + x
        },
    decreases cs.len(),
{
    let e = cs.push(x);
    if cs.len() == 0 {
        assert(e.len() == 1);
        assert(join_rest(e) == e[0]);
    } else {
        assert(e.len() >= 2);
        assert(e[0] == cs[0]);
        assert(e.skip(1) =~~= cs.skip(1).push(x));
        lemma_join_rest_push(cs.skip(1), x);
        if cs.len() == 1 {
            assert(join_rest(cs) == cs[0]);
        }
    }
}

/// How many leading components two component lists share.
pub open spec fn match_count(a: Seq<Seq<char>>, b: Seq<Seq<char>>) -> nat
    decreases a.len(),
{
    if a.len() == 0 || b.len() == 0 || a[0] != b[0] {
        0
    } else {
        (1 + match_count(a.skip(1), b.skip(1))) as nat
    }
}

proof fn lemma_match_count_exact(a: Seq<Seq<char>>, b: Seq<Seq<char>>, m: int)
    requires
        0 <= m <= a.len(),
        m <= b.len(),
        forall|i: int| 0 <= i < m ==> a[i] == b[i],
        m == a.len() || m == b.len() || a[m] != b[m],
    ensures
        match_count(a, b) == m,
    decreases m,
{
    if m > 0 {
        let a1 = a.skip(1);
        let b1 = b.skip(1);
        assert(forall|i: int| 0 <= i < m - 1 ==> a1[i] == a[i + 1] && b1[i] == b[i + 1]);
        if m - 1 < a1.len() && m - 1 < b1.len() {
            assert(a1[m - 1] == a[m]);
            assert(b1[m - 1] == b[m]);
        }
        lemma_match_count_exact(a1, b1, m - 1);
    }
}

/// Splits a path into its components: a root marker `/` first when the
/// path is absolute, then each non-empty segment.
pub fn split_components(s: &str) -> (r: Vec<String>)
    ensures
        r.deep_view() == comps(s@),
{
    let n = s.unicode_len();
    let mut out: Vec<String> = Vec::new();
    if n > 0 {
        let c0 = s.get_char(0);
        if c0 == '/' {
            out.push(String::from_str("/"));
        }
    }
    proof {
        reveal_strlit("/");
        assert(s@.skip(0) =~= s@);
        assert(comps(s@) =~~= out.deep_view() + body_segs(s@.skip(0)));
    }
    let mut i: usize = 0;
    while i < n
        invariant
            i <= n,
            n == s@.len(),
            comps(s@) == out.deep_view() + body_segs(s@.skip(i as int)),
        decreases n - i,
    {
        let ghost pre = out.deep_view();
        let c = s.get_char(i);
        if c == '/' {
            proof {
                assert(s@.skip(i as int).skip(1) =~= s@.skip(i as int + 1));
            }
            i = i + 1;
        } else {
            let mut j = i;
            let mut stop = false;
            while !stop
                invariant
                    i <= j <= n,
                    n == s@.len(),
                    forall|k: int| i <= k < j ==> s@[k] != '/',
                    stop ==> (j == n || s@[j as int] == '/'),
                decreases n - j + (if stop {
                    0int
                } else {
                    1int
                }),
            {
                if j < n {
                    let cj = s.get_char(j);
                    if cj == '/' {
                        stop = true;
                    } else {
                        j = j + 1;
                    }
                } else {
                    stop = true;
                }
            }
            assert(j > i);
            let seg = s.substring_char(i, j);
            out.push(String::from_str(seg));
            proof {
                let t = s@.skip(i as int);
                assert(forall|k: int| 0 <= k < j - i ==> t[k] == s@[i + k] && s@[i + k] != '/');
                if (j - i) < t.len() {
                    assert(t[j - i] == s@[j as int]);
                }
                lemma_seg_len_run(t, j - i);
                assert(t.take(j - i) =~= s@.subrange(i as int, j as int));
                assert(t.skip(j - i) =~= s@.skip(j as int));
                assert(body_segs(t) == seq![seg@] + body_segs(s@.skip(j as int)));
                assert(out.deep_view() =~~= pre.push(seg@));
                assert(pre + body_segs(t) =~~= out.deep_view() + body_segs(s@.skip(j as int)));
            }
            i = j;
        }
    }
    proof {
        assert(s@.skip(n as int) =~= Seq::<char>::empty());
        assert(comps(s@) =~~= out.deep_view());
    }
    out
}

/// Joins the component range `[from, to)` of `v` back into a path.
pub fn join_components_range(v: &Vec<String>, from: usize, to: usize) -> (r: String)
    requires
        from <= to <= v@.len(),
    ensures
        r@ == join_comps(v.deep_view().subrange(from as int, to as int)),
{
    let mut out = String::new();
    let mut need_sep = false;
    let mut k = from;
    proof {
        reveal_strlit("/");
        assert(v.deep_view().subrange(from as int, from as int) =~~= Seq::<Seq<char>>::empty());
    }
    while k < to
        invariant
            from <= k <= to <= v@.len(),
            v.deep_view().len() == v@.len(),
            out@ == join_comps(v.deep_view().subrange(from as int, k as int)),
            need_sep == {
                let y = v.deep_view().subrange(from as int, k as int);
                y.len() > 0 && !(y.len() == 1 && y[0] == seq!['/'])
            },
        decreases to - k,
    {
        let ghost y = v.deep_view().subrange(from as int, k as int);
        let comp = &v[k];
        let is_marker_pos = k == from;
        let cn = comp.unicode_len();
        let is_marker = is_marker_pos && cn == 1 && comp.as_str().get_char(0) == '/';
        proof {
            reveal_strlit("/");
            assert(v.deep_view()[k as int] == v@[k as int]@);
            if is_marker {
                assert(comp@ =~= seq!['/']);
            }
        }
        if is_marker {
            out.append("/");
            need_sep = false;
        } else {
            if need_sep {
                out.append("/");
            }
            out.append(comp.as_str());
            need_sep = true;
        }
        proof {
            let y2 = v.deep_view().subrange(from as int, k as int + 1);
            assert(y2 =~~= y.push(v@[k as int]@));
            lemma_join_rest_push(y, v@[k as int]@);
            if y.len() > 0 && y[0] == seq!['/'] {
                lemma_join_rest_push(y.skip(1), v@[k as int]@);
                assert(y2.skip(1) =~~= y.skip(1).push(v@[k as int]@));
            }
            assert(out@ =~= join_comps(y2));
        }
        k = k + 1;
    }
    out
}

/// The absolute file-system path of a file stored under a path relative
/// to the media root.
pub fn media_file_path(media_root: &str, relative_media_path: &str) -> (r: String)
    ensures
        r@ == path_push(media_root@, relative_media_path@),
{
    let mut out = String::new();
    out.append(media_root);
    push_path(&mut out, relative_media_path);
    out
}

/// What `file_path_from_relative_url` returns: when the last component
/// of `base` equals the first of `rel`, that component is dropped from
/// `base` before `rel` is appended, so that a base ending in the served
/// directory and a relative URL starting with it overlap cleanly.
pub open spec fn spec_resolved_file_path(base: Seq<char>, rel: Seq<char>) -> Seq<char> {
    let bc = comps(base);
    let rc = comps(rel);
    let kept = if bc.len() > 0 && rc.len() > 0 && bc.last() == rc.first() {
        bc.drop_last()
    } else {
        bc
    };
    path_push(join_comps(kept), rel)
}

/// Resolves a base-relative URL such as `media/example.txt` against the
/// directory it is served from, for reading or writing the file itself.
pub fn file_path_from_relative_url(path: &str, base_relative_url: &str) -> (r: String)
    ensures
        r@ == spec_resolved_file_path(path@, base_relative_url@),
{
    let bc = split_components(path);
    let rc = split_components(base_relative_url);
    let overlap = bc.len() > 0 && rc.len() > 0 && bc[bc.len() - 1] == rc[0];
    let keep_to = if overlap {
        bc.len() - 1
    } else {
        bc.len()
    };
    let mut out = join_components_range(&bc, 0, keep_to);
    proof {
        if bc@.len() > 0 && rc@.len() > 0 {
            assert(bc.deep_view()[bc@.len() - 1] == bc@[bc@.len() - 1]@);
            assert(rc.deep_view()[0int] == rc@[0int]@);
        }
        if overlap {
            assert(bc.deep_view().subrange(0, keep_to as int) =~~= bc.deep_view().drop_last());
        } else {
            assert(bc.deep_view().subrange(0, keep_to as int) =~~= bc.deep_view());
        }
    }
    push_path(&mut out, base_relative_url);
    out
}

/// What `relative_media_url_from_full_path` returns: the components of
/// `full` from the last one that still matches `root`, joined back into
/// a path.
pub open spec fn spec_relative_media_url(root: Seq<char>, full: Seq<char>) -> Seq<char> {
    let a = comps(root);
    let b = comps(full);
    let m = match_count(a, b);
    let last_matched = if m == 0 {
        0int
    } else {
        m - 1
    };
    join_comps(b.skip(last_matched))
}

/// Strips the media root from an absolute media file path, keeping the
/// last matching component: `/srv/media` against `/srv/media/a.png`
/// yields `media/a.png`.
pub fn relative_media_url_from_full_path(media_root: &str, full_path: &str) -> (r: String)
    ensures
        r@ == spec_relative_media_url(media_root@, full_path@),
{
    let a = split_components(media_root);
    let b = split_components(full_path);
    let scan = if a.len() < b.len() {
        a.len()
    } else {
        b.len()
    };
    let mut m: usize = 0;
    while m < scan && a[m] == b[m]
        invariant
            0 <= m <= scan,
            scan == vstd::math::min(a@.len() as int, b@.len() as int),
            a.deep_view().len() == a@.len(),
            b.deep_view().len() == b@.len(),
            forall|i: int| 0 <= i < m ==> a.deep_view()[i] == b.deep_view()[i],
        decreases scan - m,
    {
        proof {
            assert(a.deep_view()[m as int] == a@[m as int]@);
            assert(b.deep_view()[m as int] == b@[m as int]@);
        }
        m = m + 1;
    }
    proof {
        if m < scan {
            assert(a.deep_view()[m as int] == a@[m as int]@);
            assert(b.deep_view()[m as int] == b@[m as int]@);
        }
        lemma_match_count_exact(a.deep_view(), b.deep_view(), m as int);
    }
    let last_matched = if m == 0 {
        0
    } else {
        m - 1
    };
    let r = join_components_range(&b, last_matched, b.len());
    proof {
        assert(b.deep_view().subrange(last_matched as int, b.deep_view().len() as int)
            =~~= b.deep_view().skip(last_matched as int));
    }
    r
}

#[derive(Debug, Clone, Copy, PartialEq, Eq, Structural)]
pub enum PathError {
    NotUnderMediaRoot,
}

/// What `media_root_relative` returns: the remainder of `path` after the
/// `root` prefix and the component boundary following it, or nothing
/// when `root` is no prefix of `path`.
pub open spec fn spec_strip_media_root(root: Seq<char>, path: Seq<char>) -> Option<Seq<char>> {
    if path.len() >= root.len() && path.take(root.len() as int) == root {
        let rest = path.skip(root.len() as int);
        if root.len() == 0 || root[root.len() - 1] == '/' || rest.len() == 0 {
            Some(rest)
        } else if rest[0] == '/' {
            Some(rest.skip(1))
        } else {
            None
        }
    } else {
        None
    }
}

/// Strips the media root prefix from an absolute path, leaving the path
/// relative to it; fails when the path does not lie under the root.
pub fn media_root_relative(media_root: &str, path: &str) -> (r: Result<String, PathError>)
    ensures
        match spec_strip_media_root(media_root@, path@) {
            Some(rest) => r is Ok && r->Ok_0@ == rest,
            None => r is Err && r->Err_0 == PathError::NotUnderMediaRoot,
        },
{
    let nr = media_root.unicode_len();
    let np = path.unicode_len();
    if np < nr {
        return Err(PathError::NotUnderMediaRoot);
    }
    let mut i: usize = 0;
    while i < nr
        invariant
            0 <= i <= nr,
            nr == media_root@.len(),
            np == path@.len(),
            nr <= np,
            forall|k: int| 0 <= k < i ==> media_root@[k] == path@[k],
        decreases nr - i,
    {
        if media_root.get_char(i) != path.get_char(i) {
            return Err(PathError::NotUnderMediaRoot);
        }
        i = i + 1;
    }
    proof {
        assert(path@.take(nr as int) =~= media_root@);
    }
    let ghost rest = path@.skip(nr as int);
    if nr == 0 || media_root.get_char(nr - 1) == '/' || np == nr {
        let r = path.substring_char(nr, np);
        proof {
            assert(r@ =~= rest);
        }
        Ok(r.to_owned())
    } else if path.get_char(nr) == '/' {
        let r = path.substring_char(nr + 1, np);
        proof {
            assert(r@ =~= rest.skip(1));
        }
        Ok(r.to_owned())
    } else {
        Err(PathError::NotUnderMediaRoot)
    }
}

/// The index of the last occurrence of `c` in `s`, or `-1`.
pub open spec fn last_index_of(s: Seq<char>, c: char) -> int
    decreases s.len(),
{
    if s.len() == 0 {
        -1
    } else if s.last() == c {
        s.len() - 1
    } else {
        last_index_of(s.drop_last(), c)
    }
}

/// The filename a processed result is stored under: the original
/// filename with its extension replaced by `.png`, or with `.png`
/// appended when it has none. A dot in first position, as in a
/// dotfile's name, marks no extension.
pub fn png_target_filename(original_filename: &str) -> (r: String)
    ensures
        r@ == {
            let i = last_index_of(original_filename@, '.');
            if i >= 1 {
                original_filename@.take(i) + ".png"@
            } else {
                original_filename@ + ".png"@
            }
        },
{
    let n = original_filename.unicode_len();
    let mut j = n;
    let mut found = false;
    proof {
        assert(original_filename@.take(n as int) =~= original_filename@);
    }
    while j > 1 && !found
        invariant
            0 <= j <= n,
            n == original_filename@.len(),
            found ==> j >= 2 && last_index_of(original_filename@, '.') == j - 1,
            !found ==> last_index_of(original_filename@, '.') == last_index_of(
                original_filename@.take(j as int),
                '.',
            ),
        decreases j + (if found {
            0int
        } else {
            1int
        }),
    {
        if original_filename.get_char(j - 1) == '.' {
            proof {
                let t = original_filename@.take(j as int);
                assert(t.last() == original_filename@[j as int - 1]);
                assert(last_index_of(t, '.') == j - 1);
            }
            found = true;
        } else {
            proof {
                let t = original_filename@.take(j as int);
                assert(t.last() == original_filename@[j as int - 1]);
                assert(t.drop_last() =~= original_filename@.take(j as int - 1));
            }
            j = j - 1;
        }
    }
    proof {
        if !found {
            // what is left is at most one character, so the last dot,
            // if any, sits in first position and marks no extension
            if j == 0 {
                assert(original_filename@.take(0) =~= Seq::<char>::empty());
                assert(last_index_of(original_filename@, '.') == -1);
            } else {
                let t = original_filename@.take(1);
                assert(t.len() == 1);
                assert(t.drop_last() =~= Seq::<char>::empty());
                assert(last_index_of(Seq::<char>::empty(), '.') == -1);
                assert(last_index_of(t, '.') <= 0);
                assert(last_index_of(original_filename@, '.') <= 0);
            }
        }
    }
    let stem = if found {
        original_filename.substring_char(0, j - 1)
    } else {
        original_filename
    };
    let mut out = stem.to_owned();
    out.append(".png");
    out
}

/// The image roles a save path can be generated for; each carries the
/// task key and the filename to store.
pub enum ForImage {
    OriginalImage(String, String),
    PreviewOriginalImage(String, String),
    MaskImage(String, String),
    TransparentImage(String, String),
    PreviewTransparentImage(String, String),
}

/// The subdirectory each image role is stored under.
pub open spec fn spec_image_subdir(f: ForImage) -> Seq<char> {
    match f {
        ForImage::OriginalImage(_, _) => "original"@,
        ForImage::PreviewOriginalImage(_, _) => "preview-original"@,
        ForImage::MaskImage(_, _) => "mask"@,
        ForImage::TransparentImage(_, _) => "transparent"@,
        ForImage::PreviewTransparentImage(_, _) => "preview-transparent"@,
    }
}

pub open spec fn spec_image_key(f: ForImage) -> Seq<char> {
    match f {
        ForImage::OriginalImage(k, _) => k@,
        ForImage::PreviewOriginalImage(k, _) => k@,
        ForImage::MaskImage(k, _) => k@,
        ForImage::TransparentImage(k, _) => k@,
        ForImage::PreviewTransparentImage(k, _) => k@,
    }
}

pub open spec fn spec_image_filename(f: ForImage) -> Seq<char> {
    match f {
        ForImage::OriginalImage(_, n) => n@,
        ForImage::PreviewOriginalImage(_, n) => n@,
        ForImage::MaskImage(_, n) => n@,
        ForImage::TransparentImage(_, n) => n@,
        ForImage::PreviewTransparentImage(_, n) => n@,
    }
}

/// What `generate_save_path` returns: the media-root-relative location
/// `{media_root}/background-remover/{key}/{subdir}/{filename}` resolved
/// against the media root.
pub open spec fn spec_generate_save_path(media_root: Seq<char>, f: ForImage) -> Seq<char> {
    let rel = path_push(
        path_push(
            path_push(path_push(media_root, "background-remover"@), spec_image_key(f)),
            spec_image_subdir(f),
        ),
        spec_image_filename(f),
    );
    spec_resolved_file_path(media_root, rel)
}

fn build_save_path(media_root: &str, key: &str, subdir: &str, filename: &str) -> (r: String)
    ensures
        r@ == spec_resolved_file_path(
            media_root@,
            path_push(
                path_push(path_push(path_push(media_root@, "background-remover"@), key@), subdir@),
                filename@,
            ),
        ),
{
    let mut rel = String::new();
    rel.append(media_root);
    push_path(&mut rel, "background-remover");
    push_path(&mut rel, key);
    push_path(&mut rel, subdir);
    push_path(&mut rel, filename);
    file_path_from_relative_url(media_root, rel.as_str())
}

/// The full save path for one of a task's images, under the media root.
/// Creating the directories and writing the file are the caller's side.
pub fn generate_save_path(media_root: &str, for_image: &ForImage) -> (r: String)
    ensures
        r@ == spec_generate_save_path(media_root@, *for_image),
{
    match for_image {
        ForImage::OriginalImage(key, filename) => build_save_path(
            media_root,
            key.as_str(),
            "original",
            filename.as_str(),
        ),
        ForImage::PreviewOriginalImage(key, filename) => build_save_path(
            media_root,
            key.as_str(),
            "preview-original",
            filename.as_str(),
        ),
        ForImage::MaskImage(key, filename) => build_save_path(
            media_root,
            key.as_str(),
            "mask",
            filename.as_str(),
        ),
        ForImage::TransparentImage(key, filename) => build_save_path(
            media_root,
            key.as_str(),
            "transparent",
            filename.as_str(),
        ),
        ForImage::PreviewTransparentImage(key, filename) => build_save_path(
            media_root,
            key.as_str(),
            "preview-transparent",
            filename.as_str(),
        ),
    }
}

} // verus!
