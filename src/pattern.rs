//! Route templates and request paths: splitting on `/`, compiling a template,
//! and matching a path against it.

use vstd::prelude::*;

verus! {

/// The character that separates path segments.
pub const SEPARATOR: char = '/';

/// The character that opens a named capture in a route template.
pub const CAPTURE_MARK: char = ':';

/// The pieces of `s` between occurrences of `sep`, in order, empty pieces
/// included: `"/a/b"` gives `["", "a", "b"]` and `""` gives `[""]`.
pub open spec fn split_spec(s: Seq<char>, sep: char) -> Seq<Seq<char>>
    decreases s.len(),
{
    if s.len() == 0 {
        seq![Seq::empty()]
    } else {
        let rest = split_spec(s.drop_last(), sep);
        if s.last() == sep {
            rest.push(Seq::empty())
        } else {
            rest.update(rest.len() - 1, rest.last().push(s.last()))
        }
    }
}

/// The segments of a template or a path.
pub open spec fn segments_of(s: Seq<char>) -> Seq<Seq<char>> {
    split_spec(s, SEPARATOR)
}

/// A template segment that captures a value: it starts with `:`.
pub open spec fn is_capture(seg: Seq<char>) -> bool {
    seg.len() > 0 && seg[0] == CAPTURE_MARK
}

/// The name bound by a capture segment: what follows the `:`.
pub open spec fn capture_name(seg: Seq<char>) -> Seq<char> {
    seg.drop_first()
}

/// One template segment accepts one path segment: a literal only itself, a
/// capture any non-empty value.
pub open spec fn segment_accepts(pat: Seq<char>, seg: Seq<char>) -> bool {
    if is_capture(pat) {
        seg.len() > 0
    } else {
        pat == seg
    }
}

/// Template segments accept path segments: equal counts, and pairwise
/// acceptance.
pub open spec fn segments_accept(pat: Seq<Seq<char>>, path: Seq<Seq<char>>) -> bool {
    &&& pat.len() == path.len()
    &&& forall|i: int| 0 <= i < pat.len() ==> segment_accepts(#[trigger] pat[i], path[i])
}

/// The bindings made by the first `n` segments: one (name, value) pair per
/// capture, in template order.
pub open spec fn bindings_upto(pat: Seq<Seq<char>>, path: Seq<Seq<char>>, n: nat) -> Seq<
    (Seq<char>, Seq<char>),
>
    decreases n,
{
    if n == 0 {
        seq![]
    } else {
        let rest = bindings_upto(pat, path, (n - 1) as nat);
        if is_capture(pat[n - 1]) {
            rest.push((capture_name(pat[n - 1]), path[n - 1]))
        } else {
            rest
        }
    }
}

/// The bindings made by all segments of a template against a path.
pub open spec fn bindings(pat: Seq<Seq<char>>, path: Seq<Seq<char>>) -> Seq<
    (Seq<char>, Seq<char>),
> {
    bindings_upto(pat, path, pat.len())
}

/// What matching a template against a path yields: the bindings when the
/// segments accept the path, nothing otherwise.
pub open spec fn match_spec(template: Seq<char>, path: Seq<char>) -> Option<
    Seq<(Seq<char>, Seq<char>)>,
> {
    let pat = segments_of(template);
    let segs = segments_of(path);
    if segments_accept(pat, segs) {
        Some(bindings(pat, segs))
    } else {
        None
    }
}

/// The value of the last binding of `name`, as a map that is filled in
/// binding order holds it.
pub open spec fn lookup(b: Seq<(Seq<char>, Seq<char>)>, name: Seq<char>) -> Option<Seq<char>>
    decreases b.len(),
{
    if b.len() == 0 {
        None
    } else if b.last().0 == name {
        Some(b.last().1)
    } else {
        lookup(b.drop_last(), name)
    }
}

/// Splits `s` on `sep`, keeping empty pieces.
pub fn split(s: &str, sep: char) -> (r: Vec<String>)
    ensures
        r@.map_values(|p: String| p@) == split_spec(s@, sep),
{
    let n = s.unicode_len();
    let mut parts: Vec<String> = Vec::new();
    let mut start: usize = 0;
    let mut i: usize = 0;
    assert(s@.subrange(0, 0) =~= Seq::<char>::empty());
    assert(parts@.map_values(|p: String| p@) =~= Seq::<Seq<char>>::empty());
    assert(split_spec(s@.subrange(0, 0), sep) == seq![Seq::<char>::empty()]);
    assert(parts@.map_values(|p: String| p@).push(s@.subrange(0, 0)) =~= split_spec(
        s@.subrange(0, 0),
        sep,
    ));
    while i < n
        invariant
            n == s@.len(),
            start <= i <= n,
            parts@.map_values(|p: String| p@).push(s@.subrange(start as int, i as int))
                == split_spec(s@.subrange(0, i as int), sep),
        decreases n - i,
    {
        let c = s.get_char(i);
        let ghost prev = parts@.map_values(|p: String| p@);
        let ghost head = s@.subrange(0, i + 1);
        assert(head.drop_last() =~= s@.subrange(0, i as int));
        assert(head.last() == c);
        if c == sep {
            let piece = s.substring_char(start, i).to_owned();
            parts.push(piece);
            start = i + 1;
            assert(parts@.map_values(|p: String| p@) =~= prev.push(piece@));
            assert(s@.subrange(start as int, i + 1) =~= Seq::<char>::empty());
        } else {
            assert(s@.subrange(start as int, i + 1) =~= s@.subrange(start as int, i as int).push(
                c,
            ));
            assert(prev.push(s@.subrange(start as int, i + 1)) =~= prev.push(
                s@.subrange(start as int, i as int),
            ).update(prev.len() as int, s@.subrange(start as int, i as int).push(c)));
        }
        i = i + 1;
    }
    let last = s.substring_char(start, n).to_owned();
    let ghost prev = parts@.map_values(|p: String| p@);
    parts.push(last);
    assert(s@.subrange(0, n as int) =~= s@);
    assert(parts@.map_values(|p: String| p@) =~= prev.push(last@));
    parts
}


/// The names bound by the first `n` segments of a template.
pub open spec fn capture_names_upto(pat: Seq<Seq<char>>, n: nat) -> Seq<Seq<char>>
    decreases n,
{
    if n == 0 {
        seq![]
    } else {
        let rest = capture_names_upto(pat, (n - 1) as nat);
        if is_capture(pat[n - 1]) {
            rest.push(capture_name(pat[n - 1]))
        } else {
            rest
        }
    }
}

/// A template is well formed when every capture name is non-empty and no
/// name is captured twice.
pub open spec fn template_ok(pat: Seq<Seq<char>>) -> bool {
    &&& forall|i: int| 0 <= i < pat.len() && is_capture(#[trigger] pat[i]) ==> capture_name(pat[i]).len() > 0
    &&& forall|i: int, j: int|
        0 <= i < j < pat.len() && is_capture(#[trigger] pat[i]) && is_capture(#[trigger] pat[j])
            ==> capture_name(pat[i]) != capture_name(pat[j])
}

/// A name is among those bound by the first `n` segments exactly when one
/// of those segments captures it.
proof fn lemma_capture_names(pat: Seq<Seq<char>>, n: nat, x: Seq<char>)
    requires
        n <= pat.len(),
    ensures
        capture_names_upto(pat, n).contains(x) <==> exists|k: int|
            0 <= k < n && is_capture(pat[k]) && capture_name(pat[k]) == x,
    decreases n,
{
    if n > 0 {
        lemma_capture_names(pat, (n - 1) as nat, x);
        let rest = capture_names_upto(pat, (n - 1) as nat);
        let last = (n - 1) as int;
        if is_capture(pat[last]) {
            let all = rest.push(capture_name(pat[last]));
            assert(all[rest.len() as int] == capture_name(pat[last]));
            if all.contains(x) {
                let m = choose|m: int| 0 <= m < all.len() && all[m] == x;
                if m < rest.len() {
                    assert(rest[m] == x);
                    assert(rest.contains(x));
                }
            }
            if rest.contains(x) {
                let m = choose|m: int| 0 <= m < rest.len() && rest[m] == x;
                assert(all[m] == x);
            }
            if capture_name(pat[last]) == x {
                assert(all.contains(x));
            }
        }
    }
}

/// In a well-formed template the bindings of the first `n` segments map the
/// name of a capture at position `i < n` to the path segment at `i`.
proof fn lemma_bindings_lookup(pat: Seq<Seq<char>>, path: Seq<Seq<char>>, n: nat, i: int)
    requires
        template_ok(pat),
        n <= pat.len(),
        0 <= i < n,
        is_capture(pat[i]),
    ensures
        lookup(bindings_upto(pat, path, n), capture_name(pat[i])) == Some(path[i]),
    decreases n,
{
    let rest = bindings_upto(pat, path, (n - 1) as nat);
    let last = (n - 1) as int;
    if i < last {
        lemma_bindings_lookup(pat, path, (n - 1) as nat, i);
        if is_capture(pat[last]) {
            assert(capture_name(pat[i]) != capture_name(pat[last]));
            let b = rest.push((capture_name(pat[last]), path[last]));
            assert(b.drop_last() =~= rest);
        }
    } else {
        let b = rest.push((capture_name(pat[last]), path[last]));
        assert(b.last() == (capture_name(pat[last]), path[last]));
    }
}

/// Matching a path against a well-formed template binds each capture to the
/// path segment at the same position, and a path with another number of
/// segments does not match at all.
pub proof fn lemma_match_binds_captures(template: Seq<char>, path: Seq<char>, i: int)
    requires
        template_ok(segments_of(template)),
        0 <= i < segments_of(template).len(),
        is_capture(segments_of(template)[i]),
    ensures
        segments_accept(segments_of(template), segments_of(path)) ==> (match_spec(template, path)
            matches Some(b) && lookup(b, capture_name(segments_of(template)[i])) == Some(
            segments_of(path)[i],
        )),
        segments_of(template).len() != segments_of(path).len() ==> match_spec(template, path) is None,
{
    let pat = segments_of(template);
    let segs = segments_of(path);
    if segments_accept(pat, segs) {
        lemma_bindings_lookup(pat, segs, pat.len(), i);
    }
}

/// The values captured from a request path, by name, in template order.
pub struct PathParams {
    entries: Vec<(String, String)>,
}

impl View for PathParams {
    type V = Seq<(Seq<char>, Seq<char>)>;

    closed spec fn view(&self) -> Seq<(Seq<char>, Seq<char>)> {
        self.entries@.map_values(|e: (String, String)| (e.0@, e.1@))
    }
}

impl PathParams {
    /// No bindings.
    pub fn new() -> (r: PathParams)
        ensures
            r@ == Seq::<(Seq<char>, Seq<char>)>::empty(),
    {
        let r = PathParams { entries: Vec::new() };
        assert(r@ =~= Seq::<(Seq<char>, Seq<char>)>::empty());
        r
    }

    /// Adds a binding after the others.
    pub fn insert(&mut self, name: String, value: String)
        ensures
            final(self)@ == old(self)@.push((name@, value@)),
    {
        let ghost before = self@;
        self.entries.push((name, value));
        assert(self@ =~= before.push((name@, value@)));
    }

    /// The number of bindings.
    pub fn len(&self) -> (r: usize)
        ensures
            r == self@.len(),
    {
        self.entries.len()
    }

    /// The value bound to `name`; where a name was bound twice, the later
    /// value.
    pub fn get(&self, name: &str) -> (r: Option<String>)
        ensures
            match r {
                Some(v) => lookup(self@, name@) == Some(v@),
                None => lookup(self@, name@) is None,
            },
    {
        let key = name.to_owned();
        let mut i: usize = self.entries.len();
        assert(self@.subrange(0, i as int) =~= self@);
        while i > 0
            invariant
                i <= self.entries.len(),
                key@ == name@,
                lookup(self@, name@) == lookup(self@.subrange(0, i as int), name@),
            decreases i,
        {
            let ghost sub = self@.subrange(0, i as int);
            assert(sub.drop_last() =~= self@.subrange(0, i - 1));
            if self.entries[i - 1].0 == key {
                return Some(self.entries[i - 1].1.clone());
            }
            i = i - 1;
        }
        assert(self@.subrange(0, 0) =~= Seq::<(Seq<char>, Seq<char>)>::empty());
        None
    }
}

/// Matches a request path against a route template: `Some` with one binding
/// per capture, in template order, exactly when the segment counts are equal,
/// every literal segment equals its path segment and every capture meets a
/// non-empty path segment.
pub fn extract_path_params(pattern: &str, path: &str) -> (r: Option<PathParams>)
    ensures
        match r {
            Some(p) => match_spec(pattern@, path@) == Some(p@),
            None => match_spec(pattern@, path@) is None,
        },
        segments_of(pattern@).len() != segments_of(path@).len() ==> r is None,
{
    let pattern_parts = split(pattern, SEPARATOR);
    let path_parts = split(path, SEPARATOR);
    let ghost pat = segments_of(pattern@);
    let ghost segs = segments_of(path@);
    proof {
        assert(pattern_parts@.len() == pat.len());
        assert(path_parts@.len() == segs.len());
    }
    if pattern_parts.len() != path_parts.len() {
        return None;
    }
    let mut params = PathParams::new();
    let mut i: usize = 0;
    while i < pattern_parts.len()
        invariant
            pattern_parts@.map_values(|p: String| p@) == pat,
            path_parts@.map_values(|p: String| p@) == segs,
            pat == segments_of(pattern@),
            segs == segments_of(path@),
            pat.len() == segs.len(),
            i <= pat.len(),
            forall|k: int| 0 <= k < i ==> segment_accepts(#[trigger] pat[k], segs[k]),
            params@ == bindings_upto(pat, segs, i as nat),
        decreases pat.len() - i,
    {
        let pat_part = &pattern_parts[i];
        let path_part = &path_parts[i];
        assert(pat[i as int] == pat_part@);
        assert(segs[i as int] == path_part@);
        let plen = pat_part.as_str().unicode_len();
        if plen > 0 && pat_part.as_str().get_char(0) == CAPTURE_MARK {
            if path_part.as_str().unicode_len() == 0 {
                assert(is_capture(pat[i as int]) && !segment_accepts(pat[i as int], segs[i as int]));
                assert(!segments_accept(pat, segs));
                assert(match_spec(pattern@, path@) is None);
                return None;
            }
            let name = pat_part.as_str().substring_char(1, plen).to_owned();
            assert(name@ =~= capture_name(pat_part@));
            params.insert(name, path_part.clone());
        } else if *pat_part != *path_part {
            assert(!is_capture(pat[i as int]) && !segment_accepts(pat[i as int], segs[i as int]));
            assert(!segments_accept(pat, segs));
            assert(match_spec(pattern@, path@) is None);
            return None;
        }
        i = i + 1;
    }
    Some(params)
}

/// Why a route template was refused.
#[derive(Debug)]
pub enum PatternError {
    /// A capture with no name, or a name captured twice; the segment is
    /// given.
    InvalidPattern(String),
}

/// A compiled route template: its text and its segments.
pub struct RoutePattern {
    template: String,
    segments: Vec<String>,
}

impl RoutePattern {
    /// The template's segments.
    pub closed spec fn segments_spec(&self) -> Seq<Seq<char>> {
        self.segments@.map_values(|p: String| p@)
    }

    /// The template as written.
    pub closed spec fn template_spec(&self) -> Seq<char> {
        self.template@
    }

    /// Segments agree with the template, and the template is well formed.
    pub open spec fn wf(&self) -> bool {
        &&& self.segments_spec() == segments_of(self.template_spec())
        &&& template_ok(self.segments_spec())
    }

    /// Compiles a template, refusing one with an empty or repeated capture
    /// name.
    pub fn compile(template: &str) -> (r: Result<RoutePattern, PatternError>)
        ensures
            match r {
                Ok(p) => p.wf() && p.template_spec() == template@,
                Err(_) => !template_ok(segments_of(template@)),
            },
    {
        let segments = split(template, SEPARATOR);
        let ghost pat = segments_of(template@);
        let mut names: Vec<String> = Vec::new();
        let mut i: usize = 0;
        assert(names@.map_values(|p: String| p@) =~= capture_names_upto(pat, 0));
        while i < segments.len()
            invariant
                segments@.map_values(|p: String| p@) == pat,
                pat == segments_of(template@),
                i <= pat.len(),
                names@.map_values(|p: String| p@) == capture_names_upto(pat, i as nat),
                template_ok(pat.subrange(0, i as int)),
            decreases pat.len() - i,
        {
            let seg = &segments[i];
            assert(pat[i as int] == seg@);
            let slen = seg.as_str().unicode_len();
            let ghost sub = pat.subrange(0, i + 1);
            assert(sub.subrange(0, i as int) =~= pat.subrange(0, i as int));
            if slen > 0 && seg.as_str().get_char(0) == CAPTURE_MARK {
                let name = seg.as_str().substring_char(1, slen).to_owned();
                assert(name@ =~= capture_name(seg@));
                assert(is_capture(pat[i as int]));
                if slen == 1 {
                    assert(capture_name(pat[i as int]).len() == 0);
                    assert(!template_ok(pat));
                    return Err(PatternError::InvalidPattern(seg.clone()));
                }
                let ghost prev = names@.map_values(|p: String| p@);
                let mut j: usize = 0;
                while j < names.len()
                    invariant
                        j <= names@.len(),
                        prev == names@.map_values(|p: String| p@),
                        prev == capture_names_upto(pat, i as nat),
                        pat == segments_of(template@),
                        i < pat.len(),
                        is_capture(pat[i as int]),
                        name@ == capture_name(pat[i as int]),
                        forall|m: int| 0 <= m < j ==> prev[m] != name@,
                    decreases names@.len() - j,
                {
                    if names[j] == name {
                        proof {
                            assert(prev[j as int] == name@);
                            lemma_capture_names(pat, i as nat, name@);
                            let k = choose|k: int|
                                0 <= k < i && is_capture(pat[k]) && capture_name(pat[k]) == name@;
                            assert(0 <= k < i < pat.len() && is_capture(pat[k]) && is_capture(
                                pat[i as int],
                            ) && capture_name(pat[k]) == capture_name(pat[i as int]));
                        }
                        return Err(PatternError::InvalidPattern(seg.clone()));
                    }
                    j = j + 1;
                }
                proof {
                    lemma_capture_names(pat, i as nat, name@);
                    assert(!prev.contains(name@));
                    assert forall|k: int|
                        0 <= k < i && is_capture(#[trigger] pat[k]) implies capture_name(pat[k])
                        != name@ by {}
                    assert forall|a: int, b: int|
                        0 <= a < b < sub.len() && is_capture(#[trigger] sub[a]) && is_capture(
                            #[trigger] sub[b],
                        ) implies capture_name(sub[a]) != capture_name(sub[b]) by {
                        if b < i {
                            assert(pat.subrange(0, i as int)[a] == sub[a]);
                            assert(pat.subrange(0, i as int)[b] == sub[b]);
                        }
                    }
                    assert forall|a: int|
                        0 <= a < sub.len() && is_capture(#[trigger] sub[a]) implies capture_name(
                        sub[a],
                    ).len() > 0 by {
                        if a < i {
                            assert(pat.subrange(0, i as int)[a] == sub[a]);
                        }
                    }
                }
                names.push(name);
                assert(names@.map_values(|p: String| p@) =~= prev.push(
                    capture_name(pat[i as int]),
                ));
            } else {
                proof {
                    assert(!is_capture(pat[i as int]));
                    assert forall|a: int, b: int|
                        0 <= a < b < sub.len() && is_capture(#[trigger] sub[a]) && is_capture(
                            #[trigger] sub[b],
                        ) implies capture_name(sub[a]) != capture_name(sub[b]) by {
                        assert(pat.subrange(0, i as int)[a] == sub[a]);
                        assert(pat.subrange(0, i as int)[b] == sub[b]);
                    }
                    assert forall|a: int|
                        0 <= a < sub.len() && is_capture(#[trigger] sub[a]) implies capture_name(
                        sub[a],
                    ).len() > 0 by {
                        assert(pat.subrange(0, i as int)[a] == sub[a]);
                    }
                }
            }
            i = i + 1;
        }
        assert(pat.subrange(0, pat.len() as int) =~= pat);
        Ok(RoutePattern { template: template.to_owned(), segments })
    }

    /// Matches a request path against this template.
    pub fn matches(&self, path: &str) -> (r: Option<PathParams>)
        requires
            self.wf(),
        ensures
            match r {
                Some(p) => match_spec(self.template_spec(), path@) == Some(p@),
                None => match_spec(self.template_spec(), path@) is None,
            },
    {
        extract_path_params(self.template.as_str(), path)
    }
}

} // verus!
