//! HTTP request recognition and extraction from a single TCP payload.
//!
//! Recognition checks the fixed method-token prefixes. Extraction decodes
//! the payload as text, splits it on CRLF, reads the request line, collects
//! the headers up to the first empty line and takes the rest as the body.
use vstd::prelude::*;

use crate::text::chars_to_string;
use crate::text::copy_range;
use crate::text::decode_lossy;
use crate::text::eq_ignore_ascii_case;
use crate::text::eq_ignore_ascii_case_exec;
use crate::text::is_ws;
use crate::text::is_ws_char;
use crate::text::lossy_of;

verus! {

/// One reconstructed HTTP request. The network provenance fields (`id`,
/// `timestamp`, addresses and ports) are filled in by the capture engine
/// after extraction, never by the extractor itself.
#[derive(Debug, Clone)]
pub struct HttpRequest {
    pub id: u64,
    pub timestamp: u64,
    pub src_ip: String,
    pub src_port: u16,
    pub dst_ip: String,
    pub dst_port: u16,
    pub method: String,
    pub path: String,
    pub version: String,
    pub host: String,
    pub content_type: String,
    pub headers: Vec<(String, String)>,
    pub body: String,
}

/// A payload is a candidate HTTP request iff its first bytes are exactly
/// `GET `, `POST `, `PUT ` or `DELETE `.
pub open spec fn spec_is_http_request(d: Seq<u8>) -> bool {
    d.len() >= 4 && ((d[0] == 71 && d[1] == 69 && d[2] == 84 && d[3] == 32) || (d.len() >= 5
        && d[0] == 80 && d[1] == 79 && d[2] == 83 && d[3] == 84 && d[4] == 32) || (d[0] == 80
        && d[1] == 85 && d[2] == 84 && d[3] == 32) || (d.len() >= 7 && d[0] == 68 && d[1] == 69
        && d[2] == 76 && d[3] == 69 && d[4] == 84 && d[5] == 69 && d[6] == 32))
}

/// Recognition of an HTTP request start, byte for byte as the capture loop
/// applies it: a payload shorter than four bytes is never recognized.
pub fn is_http_request(data: &[u8]) -> (r: bool)
    ensures
        r == spec_is_http_request(data@),
{
    if data.len() < 4 {
        return false;
    }
    (data[0] == 71 && data[1] == 69 && data[2] == 84 && data[3] == 32) || (data.len() >= 5
        && data[0] == 80 && data[1] == 79 && data[2] == 83 && data[3] == 84 && data[4] == 32) || (
    data[0] == 80 && data[1] == 85 && data[2] == 84 && data[3] == 32) || (data.len() >= 7
        && data[0] == 68 && data[1] == 69 && data[2] == 76 && data[3] == 69 && data[4] == 84
        && data[5] == 69 && data[6] == 32)
}

// ---------------------------------------------------------------------------
// Specification model of extraction, over the decoded character sequence.
// ---------------------------------------------------------------------------

/// The pieces of `t` split on CRLF, as `str::split` produces them: n
/// separators yield n + 1 pieces, empty pieces included.
pub open spec fn split_crlf(t: Seq<char>) -> Seq<Seq<char>>
    decreases t.len(),
{
    if t.len() == 0 {
        seq![Seq::<char>::empty()]
    } else if t.len() >= 2 && t[0] == '\r' && t[1] == '\n' {
        seq![Seq::<char>::empty()] + split_crlf(t.subrange(2, t.len() as int))
    } else {
        let rest = split_crlf(t.drop_first());
        seq![seq![t[0]] + rest[0]] + rest.drop_first()
    }
}

pub proof fn lemma_split_crlf_nonempty(t: Seq<char>)
    ensures
        split_crlf(t).len() >= 1,
    decreases t.len(),
{
    if t.len() == 0 {
    } else if t.len() >= 2 && t[0] == '\r' && t[1] == '\n' {
    } else {
        lemma_split_crlf_nonempty(t.drop_first());
    }
}

/// The whitespace-separated tokens of `t`, in order, with no empty tokens,
/// as `str::split_whitespace` produces them.
pub open spec fn tokens_of(t: Seq<char>) -> Seq<Seq<char>>
    decreases t.len(),
{
    if t.len() == 0 {
        Seq::empty()
    } else if is_ws(t[0]) {
        tokens_of(t.drop_first())
    } else {
        let rest = tokens_of(t.drop_first());
        if 1 < t.len() && !is_ws(t[1]) {
            seq![seq![t[0]] + rest[0]] + rest.drop_first()
        } else {
            seq![seq![t[0]]] + rest
        }
    }
}

/// Index of the first `": "` occurrence in `l`, or -1 if there is none.
pub open spec fn first_colon_sp(l: Seq<char>) -> int
    decreases l.len(),
{
    if l.len() < 2 {
        -1
    } else if l[0] == ':' && l[1] == ' ' {
        0
    } else {
        let r = first_colon_sp(l.drop_first());
        if r < 0 {
            -1
        } else {
            r + 1
        }
    }
}

/// The header name/value pair a line yields: the part before the first
/// `": "` and everything after it. A line without `": "` yields none.
pub open spec fn header_pair(l: Seq<char>) -> Option<(Seq<char>, Seq<char>)> {
    let i = first_colon_sp(l);
    if i < 0 {
        None
    } else {
        Some((l.subrange(0, i), l.subrange(i + 2, l.len() as int)))
    }
}

/// The header pairs of a region of lines, in original order, duplicates
/// kept; lines without `": "` contribute nothing.
pub open spec fn headers_of_lines(ls: Seq<Seq<char>>) -> Seq<(Seq<char>, Seq<char>)>
    decreases ls.len(),
{
    if ls.len() == 0 {
        Seq::empty()
    } else {
        let rest = headers_of_lines(ls.drop_first());
        match header_pair(ls[0]) {
            Some(p) => seq![p] + rest,
            None => rest,
        }
    }
}

/// The value of the last header whose name equals `name` up to ASCII case,
/// or the empty sequence if there is none.
pub open spec fn captured_field(hs: Seq<(Seq<char>, Seq<char>)>, name: Seq<char>) -> Seq<char>
    decreases hs.len(),
{
    if hs.len() == 0 {
        Seq::empty()
    } else if eq_ignore_ascii_case(hs.last().0, name) {
        hs.last().1
    } else {
        captured_field(hs.drop_last(), name)
    }
}

/// Index of the first empty line, or -1 if every line is non-empty.
pub open spec fn first_empty_line(ls: Seq<Seq<char>>) -> int
    decreases ls.len(),
{
    if ls.len() == 0 {
        -1
    } else if ls[0].len() == 0 {
        0
    } else {
        let r = first_empty_line(ls.drop_first());
        if r < 0 {
            -1
        } else {
            r + 1
        }
    }
}

/// The lines rejoined with CRLF, inverse of `split_crlf` on its result.
pub open spec fn join_crlf(ls: Seq<Seq<char>>) -> Seq<char>
    decreases ls.len(),
{
    if ls.len() == 0 {
        Seq::empty()
    } else if ls.len() == 1 {
        ls[0]
    } else {
        ls[0] + seq!['\r', '\n'] + join_crlf(ls.drop_first())
    }
}

// ---------------------------------------------------------------------------
// Executable splitting, proved against the model.
// ---------------------------------------------------------------------------

/// The element views of a vector of character vectors.
pub open spec fn views_of(ls: Seq<Vec<char>>) -> Seq<Seq<char>> {
    ls.map_values(|v: Vec<char>| v@)
}

fn split_crlf_exec(t: &Vec<char>) -> (r: Vec<Vec<char>>)
    ensures
        views_of(r@) == split_crlf(t@),
{
    let ghost full = t@;
    let mut done: Vec<Vec<char>> = Vec::new();
    let mut cur: Vec<char> = Vec::new();
    let mut j: usize = 0;
    proof {
        assert(full.subrange(0, full.len() as int) =~= full);
        lemma_split_crlf_nonempty(full);
        assert(split_crlf(full) =~= seq![split_crlf(full)[0]] + split_crlf(full).drop_first());
    }
    while j < t.len()
        invariant
            j <= t@.len(),
            t@ == full,
            split_crlf(full) =~= views_of(done@) + seq![
                cur@ + split_crlf(full.subrange(j as int, full.len() as int))[0],
            ] + split_crlf(full.subrange(j as int, full.len() as int)).drop_first(),
        decreases t@.len() - j,
    {
        let ghost pre = full.subrange(j as int, full.len() as int);
        proof {
            lemma_split_crlf_nonempty(pre);
        }
        if j + 1 < t.len() && t[j] == '\r' && t[j + 1] == '\n' {
            let ghost post = full.subrange(j + 2, full.len() as int);
            proof {
                assert(pre.len() >= 2 && pre[0] == '\r' && pre[1] == '\n');
                assert(pre.subrange(2, pre.len() as int) =~= post);
                lemma_split_crlf_nonempty(post);
                assert(split_crlf(pre) =~= seq![Seq::<char>::empty()] + split_crlf(post));
                assert(split_crlf(pre).drop_first() =~= split_crlf(post));
                assert(split_crlf(post) =~= seq![split_crlf(post)[0]] + split_crlf(
                    post,
                ).drop_first());
            }
            done.push(cur);
            cur = Vec::new();
            proof {
                assert(views_of(done@) =~= views_of(done@.drop_last()).push(
                    done@.last()@,
                ));
                assert(split_crlf(full) =~= views_of(done@) + seq![
                    cur@ + split_crlf(post)[0],
                ] + split_crlf(post).drop_first());
            }
            j += 2;
        } else {
            let ghost post = full.subrange(j + 1, full.len() as int);
            let c = t[j];
            proof {
                assert(pre.len() > 0 && !(pre.len() >= 2 && pre[0] == '\r' && pre[1] == '\n'));
                assert(pre.drop_first() =~= post);
                lemma_split_crlf_nonempty(post);
                assert(split_crlf(pre) =~= seq![seq![pre[0]] + split_crlf(post)[0]] + split_crlf(
                    post,
                ).drop_first());
                assert(cur@ + split_crlf(pre)[0] =~= cur@.push(c) + split_crlf(post)[0]);
                assert(split_crlf(pre).drop_first() =~= split_crlf(post).drop_first());
            }
            cur.push(c);
            j += 1;
        }
    }
    proof {
        let tail = full.subrange(full.len() as int, full.len() as int);
        assert(tail =~= Seq::<char>::empty());
        assert(split_crlf(tail) =~= seq![Seq::<char>::empty()]);
        assert(split_crlf(full) =~= views_of(done@) + seq![cur@]);
    }
    done.push(cur);
    proof {
        assert(views_of(done@) =~= views_of(done@.drop_last()).push(done@.last()@));
        assert(views_of(done@) =~= split_crlf(full));
    }
    done
}

fn tokens_exec(t: &Vec<char>) -> (r: Vec<Vec<char>>)
    ensures
        views_of(r@) == tokens_of(t@),
{
    let ghost full = t@;
    let mut done: Vec<Vec<char>> = Vec::new();
    let mut cur: Vec<char> = Vec::new();
    let mut j: usize = 0;
    proof {
        assert(full.subrange(0, full.len() as int) =~= full);
    }
    while j < t.len()
        invariant
            j <= t@.len(),
            t@ == full,
            cur@.len() == 0 ==> tokens_of(full) =~= views_of(done@) + tokens_of(
                full.subrange(j as int, full.len() as int),
            ),
            cur@.len() > 0 && j < full.len() && !is_ws(full[j as int]) ==> tokens_of(full)
                =~= views_of(done@) + seq![
                cur@ + tokens_of(full.subrange(j as int, full.len() as int))[0],
            ] + tokens_of(full.subrange(j as int, full.len() as int)).drop_first(),
            cur@.len() > 0 && (j == full.len() || is_ws(full[j as int])) ==> tokens_of(full)
                =~= views_of(done@) + seq![cur@] + tokens_of(
                full.subrange(j as int, full.len() as int),
            ),
        decreases t@.len() - j,
    {
        let ghost pre = full.subrange(j as int, full.len() as int);
        let ghost post = full.subrange(j + 1, full.len() as int);
        proof {
            assert(pre.drop_first() =~= post);
        }
        let c = t[j];
        if is_ws_char(c) {
            proof {
                assert(tokens_of(pre) =~= tokens_of(post));
            }
            if cur.len() > 0 {
                done.push(cur);
                cur = Vec::new();
                proof {
                    assert(views_of(done@) =~= views_of(done@.drop_last()).push(done@.last()@));
                }
            }
            j += 1;
        } else {
            let ghost rest = tokens_of(post);
            if j + 1 < t.len() && !is_ws_char(t[j + 1]) {
                proof {
                    assert(tokens_of(pre) =~= seq![seq![pre[0]] + rest[0]] + rest.drop_first());
                    assert(cur@ + tokens_of(pre)[0] =~= cur@.push(c) + rest[0]);
                    assert(tokens_of(pre).drop_first() =~= rest.drop_first());
                }
                cur.push(c);
                j += 1;
            } else {
                proof {
                    assert(tokens_of(pre) =~= seq![seq![pre[0]]] + rest);
                    assert(cur@ + tokens_of(pre)[0] =~= cur@.push(c));
                    assert(tokens_of(pre).drop_first() =~= rest);
                }
                cur.push(c);
                j += 1;
            }
        }
    }
    proof {
        let tail = full.subrange(full.len() as int, full.len() as int);
        assert(tail =~= Seq::<char>::empty());
        assert(tokens_of(tail) =~= Seq::<Seq<char>>::empty());
    }
    if cur.len() > 0 {
        done.push(cur);
        proof {
            assert(views_of(done@) =~= views_of(done@.drop_last()).push(done@.last()@));
        }
    }
    proof {
        assert(views_of(done@) =~= tokens_of(full));
    }
    done
}

pub open spec fn host_name() -> Seq<char> {
    seq!['H', 'o', 's', 't']
}

pub open spec fn content_type_name() -> Seq<char> {
    seq!['C', 'o', 'n', 't', 'e', 'n', 't', '-', 'T', 'y', 'p', 'e']
}

/// The whitespace-separated tokens of the request line.
pub open spec fn request_tokens(t: Seq<char>) -> Seq<Seq<char>> {
    tokens_of(split_crlf(t)[0])
}

/// Extraction succeeds iff the request line holds at least three tokens.
pub open spec fn spec_parse_ok(t: Seq<char>) -> bool {
    request_tokens(t).len() >= 3
}

/// End of the header region: the first empty line, or all lines when there
/// is none; never before line 1, since line 0 is the request line.
pub open spec fn header_region_end(ls: Seq<Seq<char>>) -> int {
    let e = first_empty_line(ls);
    let end = if e < 0 {
        ls.len() as int
    } else {
        e
    };
    if end < 1 {
        1
    } else {
        end
    }
}

/// The header pairs of the decoded payload.
pub open spec fn spec_headers(t: Seq<char>) -> Seq<(Seq<char>, Seq<char>)> {
    headers_of_lines(split_crlf(t).subrange(1, header_region_end(split_crlf(t))))
}

pub open spec fn spec_host(t: Seq<char>) -> Seq<char> {
    captured_field(spec_headers(t), host_name())
}

pub open spec fn spec_content_type(t: Seq<char>) -> Seq<char> {
    captured_field(spec_headers(t), content_type_name())
}

/// The body: everything after the first empty line, rejoined with CRLF; a
/// payload with no blank-line separator yields an empty body.
pub open spec fn spec_body(t: Seq<char>) -> Seq<char> {
    let ls = split_crlf(t);
    let e = first_empty_line(ls);
    if e < 0 {
        Seq::empty()
    } else {
        join_crlf(ls.subrange(e + 1, ls.len() as int))
    }
}

/// The element views of a sequence of header pairs.
pub open spec fn pair_views(hs: Seq<(String, String)>) -> Seq<(Seq<char>, Seq<char>)> {
    hs.map_values(|p: (String, String)| (p.0@, p.1@))
}

// ---------------------------------------------------------------------------
// Scan lemmas: a pointwise search matches the recursive first-index model.
// ---------------------------------------------------------------------------

proof fn lemma_first_colon_sp_found(l: Seq<char>, k: int)
    requires
        0 <= k,
        k + 2 <= l.len(),
        l[k] == ':' && l[k + 1] == ' ',
        forall|j: int| 0 <= j < k ==> !(#[trigger] l[j] == ':' && l[j + 1] == ' '),
    ensures
        first_colon_sp(l) == k,
    decreases k,
{
    if k == 0 {
    } else {
        let d = l.drop_first();
        assert forall|j: int| 0 <= j < k - 1 implies !(#[trigger] d[j] == ':' && d[j + 1] == ' ') by {
            assert(d[j] == l[j + 1]);
            assert(d[j + 1] == l[j + 2]);
        }
        lemma_first_colon_sp_found(d, k - 1);
    }
}

proof fn lemma_first_colon_sp_none(l: Seq<char>)
    requires
        forall|j: int| 0 <= j && j + 2 <= l.len() ==> !(#[trigger] l[j] == ':' && l[j + 1] == ' '),
    ensures
        first_colon_sp(l) == -1,
    decreases l.len(),
{
    if l.len() < 2 {
    } else {
        let d = l.drop_first();
        assert forall|j: int| 0 <= j && j + 2 <= d.len() implies !(#[trigger] d[j] == ':' && d[j + 1]
            == ' ') by {
            assert(d[j] == l[j + 1]);
            assert(d[j + 1] == l[j + 2]);
        }
        lemma_first_colon_sp_none(d);
    }
}

proof fn lemma_first_empty_found(ls: Seq<Seq<char>>, k: int)
    requires
        0 <= k < ls.len(),
        ls[k].len() == 0,
        forall|j: int| 0 <= j < k ==> ls[j].len() != 0,
    ensures
        first_empty_line(ls) == k,
    decreases k,
{
    if k == 0 {
    } else {
        lemma_first_empty_found(ls.drop_first(), k - 1);
    }
}

proof fn lemma_first_empty_none(ls: Seq<Seq<char>>)
    requires
        forall|j: int| 0 <= j < ls.len() ==> ls[j].len() != 0,
    ensures
        first_empty_line(ls) == -1,
    decreases ls.len(),
{
    if ls.len() == 0 {
    } else {
        lemma_first_empty_none(ls.drop_first());
    }
}

// ---------------------------------------------------------------------------
// Push lemmas: extending a region at the back.
// ---------------------------------------------------------------------------

proof fn lemma_headers_push(ls: Seq<Seq<char>>, x: Seq<char>)
    ensures
        headers_of_lines(ls.push(x)) == headers_of_lines(ls) + (match header_pair(x) {
            Some(p) => seq![p],
            None => Seq::<(Seq<char>, Seq<char>)>::empty(),
        }),
    decreases ls.len(),
{
    let px = ls.push(x);
    if ls.len() == 0 {
        assert(px[0] == x);
        assert(px.drop_first() =~= Seq::<Seq<char>>::empty());
        assert(headers_of_lines(Seq::<Seq<char>>::empty()) =~= Seq::<(
            Seq<char>,
            Seq<char>,
        )>::empty());
        match header_pair(x) {
            Some(p) => {
                assert(headers_of_lines(px) =~= seq![p]);
                assert(headers_of_lines(ls) + seq![p] =~= seq![p]);
            },
            None => {
                assert(headers_of_lines(px) =~= Seq::<(Seq<char>, Seq<char>)>::empty());
            },
        }
    } else {
        assert(px[0] == ls[0]);
        assert(px.drop_first() =~= ls.drop_first().push(x));
        lemma_headers_push(ls.drop_first(), x);
        match header_pair(x) {
            Some(p) => {
                assert(headers_of_lines(px) =~= headers_of_lines(ls) + seq![p]);
            },
            None => {
                assert(headers_of_lines(px) =~= headers_of_lines(ls));
            },
        }
    }
}

proof fn lemma_join_push(ls: Seq<Seq<char>>, x: Seq<char>)
    ensures
        ls.len() == 0 ==> join_crlf(ls.push(x)) == x,
        ls.len() > 0 ==> join_crlf(ls.push(x)) == join_crlf(ls) + seq!['\r', '\n'] + x,
    decreases ls.len(),
{
    let px = ls.push(x);
    if ls.len() == 0 {
        assert(px.len() == 1);
        assert(px[0] == x);
    } else {
        assert(px[0] == ls[0]);
        assert(px.drop_first() =~= ls.drop_first().push(x));
        lemma_join_push(ls.drop_first(), x);
        if ls.len() == 1 {
            assert(join_crlf(px) =~= ls[0] + seq!['\r', '\n'] + x);
            assert(join_crlf(ls) == ls[0]);
        } else {
            assert(join_crlf(px) =~= ls[0] + seq!['\r', '\n'] + (join_crlf(ls.drop_first())
                + seq!['\r', '\n'] + x));
            assert(join_crlf(px) =~= join_crlf(ls) + seq!['\r', '\n'] + x);
        }
    }
}

/// A payload with no blank-line separator still extracts: its body is
/// empty, and every line after the request line contributes its header pair
/// up to payload end.
pub proof fn lemma_no_separator_empty_body(t: Seq<char>)
    requires
        forall|j: int| 0 <= j < split_crlf(t).len() ==> #[trigger] split_crlf(t)[j].len() != 0,
    ensures
        spec_body(t) == Seq::<char>::empty(),
        spec_headers(t) == headers_of_lines(
            split_crlf(t).subrange(1, split_crlf(t).len() as int),
        ),
{
    lemma_first_empty_none(split_crlf(t));
    lemma_split_crlf_nonempty(t);
}

// ---------------------------------------------------------------------------
// Executable scanning helpers.
// ---------------------------------------------------------------------------

fn find_colon_sp(l: &Vec<char>) -> (r: Option<usize>)
    ensures
        r is Some ==> first_colon_sp(l@) == r->Some_0 as int && r->Some_0 + 2 <= l@.len(),
        r is None ==> first_colon_sp(l@) == -1,
{
    if l.len() < 2 {
        proof {
            lemma_first_colon_sp_none(l@);
        }
        return None;
    }
    let mut p: usize = 0;
    while p < l.len() - 1
        invariant
            l@.len() >= 2,
            p <= l@.len() - 1,
            forall|j: int| 0 <= j < p ==> !(#[trigger] l@[j] == ':' && l@[j + 1] == ' '),
        decreases l@.len() - p,
    {
        if l[p] == ':' && l[p + 1] == ' ' {
            proof {
                lemma_first_colon_sp_found(l@, p as int);
            }
            return Some(p);
        }
        p += 1;
    }
    proof {
        lemma_first_colon_sp_none(l@);
    }
    None
}

fn find_empty_line(lines: &Vec<Vec<char>>) -> (r: Option<usize>)
    ensures
        r is Some ==> first_empty_line(views_of(lines@)) == r->Some_0 as int && r->Some_0
            < lines@.len(),
        r is None ==> first_empty_line(views_of(lines@)) == -1,
{
    let mut k: usize = 0;
    while k < lines.len()
        invariant
            k <= lines@.len(),
            forall|j: int| 0 <= j < k ==> #[trigger] views_of(lines@)[j].len() != 0,
        decreases lines@.len() - k,
    {
        if lines[k].len() == 0 {
            proof {
                assert(views_of(lines@)[k as int] == lines@[k as int]@);
                lemma_first_empty_found(views_of(lines@), k as int);
            }
            return Some(k);
        }
        proof {
            assert(views_of(lines@)[k as int] == lines@[k as int]@);
        }
        k += 1;
    }
    proof {
        lemma_first_empty_none(views_of(lines@));
    }
    None
}

fn join_crlf_exec(lines: &Vec<Vec<char>>, from: usize) -> (r: Vec<char>)
    requires
        from <= lines@.len(),
    ensures
        r@ == join_crlf(views_of(lines@).subrange(from as int, lines@.len() as int)),
{
    let ghost v = views_of(lines@);
    let mut acc: Vec<char> = Vec::new();
    let mut i: usize = from;
    proof {
        assert(v.subrange(from as int, from as int) =~= Seq::<Seq<char>>::empty());
    }
    while i < lines.len()
        invariant
            from <= i <= lines@.len(),
            v == views_of(lines@),
            acc@ == join_crlf(v.subrange(from as int, i as int)),
        decreases lines@.len() - i,
    {
        proof {
            assert(v[i as int] == lines@[i as int]@);
        }
        if i > from {
            acc.push('\r');
            acc.push('\n');
        }
        let ghost base = acc@;
        let line = &lines[i];
        let mut k: usize = 0;
        while k < line.len()
            invariant
                k <= line@.len(),
                acc@ == base + line@.subrange(0, k as int),
            decreases line@.len() - k,
        {
            acc.push(line[k]);
            proof {
                assert(base + line@.subrange(0, k as int + 1) =~= (base + line@.subrange(
                    0,
                    k as int,
                )).push(line@[k as int]));
            }
            k += 1;
        }
        proof {
            assert(line@.subrange(0, line@.len() as int) =~= line@);
            lemma_join_push(v.subrange(from as int, i as int), v[i as int]);
            assert(v.subrange(from as int, i as int).push(v[i as int]) =~= v.subrange(
                from as int,
                i as int + 1,
            ));
            if i > from {
                assert(acc@ =~= join_crlf(v.subrange(from as int, i as int)) + seq!['\r', '\n']
                    + v[i as int]);
            } else {
                assert(v.subrange(from as int, i as int).len() == 0);
                assert(acc@ =~= v[i as int]);
            }
        }
        i += 1;
    }
    acc
}

fn host_target() -> (r: Vec<char>)
    ensures
        r@ == host_name(),
{
    let mut v: Vec<char> = Vec::new();
    v.push('H');
    v.push('o');
    v.push('s');
    v.push('t');
    proof {
        assert(v@ =~= host_name());
    }
    v
}

fn content_type_target() -> (r: Vec<char>)
    ensures
        r@ == content_type_name(),
{
    let mut v: Vec<char> = Vec::new();
    v.push('C');
    v.push('o');
    v.push('n');
    v.push('t');
    v.push('e');
    v.push('n');
    v.push('t');
    v.push('-');
    v.push('T');
    v.push('y');
    v.push('p');
    v.push('e');
    proof {
        assert(v@ =~= content_type_name());
    }
    v
}

/// Extraction of one HTTP request from a TCP payload. It succeeds iff the
/// request line of the decoded text holds at least three tokens; the
/// provenance fields of the result are left zeroed for the caller to fill.
pub fn parse_http_request(data: &[u8]) -> (r: Option<HttpRequest>)
    ensures
        (r is Some) == spec_parse_ok(lossy_of(data@)),
        r is Some ==> r->Some_0.method@ == request_tokens(lossy_of(data@))[0],
        r is Some ==> r->Some_0.path@ == request_tokens(lossy_of(data@))[1],
        r is Some ==> r->Some_0.version@ == request_tokens(lossy_of(data@))[2],
        r is Some ==> r->Some_0.host@ == spec_host(lossy_of(data@)),
        r is Some ==> r->Some_0.content_type@ == spec_content_type(lossy_of(data@)),
        r is Some ==> r->Some_0.body@ == spec_body(lossy_of(data@)),
        r is Some ==> pair_views(r->Some_0.headers@) == spec_headers(lossy_of(data@)),
        r is Some ==> r->Some_0.id == 0 && r->Some_0.timestamp == 0 && r->Some_0.src_port == 0
            && r->Some_0.dst_port == 0 && r->Some_0.src_ip@.len() == 0
            && r->Some_0.dst_ip@.len() == 0,
{
    let chars = decode_lossy(data);
    let ghost t = lossy_of(data@);
    let lines = split_crlf_exec(&chars);
    let ghost ls = split_crlf(t);
    proof {
        lemma_split_crlf_nonempty(t);
        assert(views_of(lines@).len() == lines@.len());
        assert(views_of(lines@)[0] == lines@[0]@);
    }
    let toks = tokens_exec(&lines[0]);
    proof {
        assert(views_of(toks@).len() == toks@.len());
    }
    if toks.len() < 3 {
        return None;
    }
    proof {
        assert(views_of(toks@)[0] == toks@[0]@);
        assert(views_of(toks@)[1] == toks@[1]@);
        assert(views_of(toks@)[2] == toks@[2]@);
        assert(ls[0].len() > 0) by {
            if ls[0].len() == 0 {
                assert(tokens_of(ls[0]).len() == 0);
            }
        };
    }
    let method = chars_to_string(&toks[0]);
    let path = chars_to_string(&toks[1]);
    let version = chars_to_string(&toks[2]);
    let nlines = lines.len();
    let sep = find_empty_line(&lines);
    let hdr_end: usize = match sep {
        Some(e) => e,
        None => nlines,
    };
    proof {
        assert(hdr_end as int == header_region_end(ls));
    }
    let htarget = host_target();
    let ctarget = content_type_target();
    let mut headers: Vec<(String, String)> = Vec::new();
    let mut host = String::new();
    let mut content_type = String::new();
    let mut i: usize = 1;
    proof {
        assert(ls.subrange(1, 1) =~= Seq::<Seq<char>>::empty());
        assert(headers_of_lines(Seq::<Seq<char>>::empty()) =~= Seq::<(
            Seq<char>,
            Seq<char>,
        )>::empty());
        assert(pair_views(headers@) =~= Seq::<(Seq<char>, Seq<char>)>::empty());
    }
    while i < hdr_end
        invariant
            1 <= i <= hdr_end,
            hdr_end <= lines@.len(),
            ls == split_crlf(t),
            views_of(lines@) == ls,
            htarget@ == host_name(),
            ctarget@ == content_type_name(),
            pair_views(headers@) =~= headers_of_lines(ls.subrange(1, i as int)),
            host@ == captured_field(headers_of_lines(ls.subrange(1, i as int)), host_name()),
            content_type@ == captured_field(
                headers_of_lines(ls.subrange(1, i as int)),
                content_type_name(),
            ),
        decreases hdr_end - i,
    {
        proof {
            assert(views_of(lines@)[i as int] == lines@[i as int]@);
        }
        let line = &lines[i];
        let found = find_colon_sp(line);
        let ghost hs = headers_of_lines(ls.subrange(1, i as int));
        proof {
            lemma_headers_push(ls.subrange(1, i as int), ls[i as int]);
            assert(ls.subrange(1, i as int).push(ls[i as int]) =~= ls.subrange(1, i as int + 1));
        }
        match found {
            Some(p) => {
                let llen = line.len();
                let name = copy_range(line, 0, p);
                let value = copy_range(line, p + 2, llen);
                proof {
                    assert(header_pair(ls[i as int]) == Some((name@, value@)));
                    assert(headers_of_lines(ls.subrange(1, i as int + 1)) =~= hs.push(
                        (name@, value@),
                    ));
                    assert(hs.push((name@, value@)).drop_last() =~= hs);
                }
                if eq_ignore_ascii_case_exec(&name, &htarget) {
                    host = chars_to_string(&value);
                }
                if eq_ignore_ascii_case_exec(&name, &ctarget) {
                    content_type = chars_to_string(&value);
                }
                let ns = chars_to_string(&name);
                let vs = chars_to_string(&value);
                headers.push((ns, vs));
                proof {
                    assert(pair_views(headers@) =~= pair_views(headers@.drop_last()).push(
                        (headers@.last().0@, headers@.last().1@),
                    ));
                }
            },
            None => {
                proof {
                    assert(header_pair(ls[i as int]) is None);
                    assert(headers_of_lines(ls.subrange(1, i as int + 1)) =~= hs);
                }
            },
        }
        i += 1;
    }
    let body_chars: Vec<char> = match sep {
        Some(e) => join_crlf_exec(&lines, e + 1),
        None => Vec::new(),
    };
    let body = chars_to_string(&body_chars);
    proof {
        assert(ls.subrange(1, hdr_end as int) == ls.subrange(1, header_region_end(ls)));
    }
    Some(
        HttpRequest {
            id: 0,
            timestamp: 0,
            src_ip: String::new(),
            src_port: 0,
            dst_ip: String::new(),
            dst_port: 0,
            method,
            path,
            version,
            host,
            content_type,
            headers,
            body,
        },
    )
}

} // verus!
