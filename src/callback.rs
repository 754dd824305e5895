use vstd::prelude::*;
use crate::params::{LaunchParams, login_params_of, parse_login_params};
use crate::text::{chars_of, matches_at, occurs_at};

verus! {

/// The characters that `char::is_whitespace` accepts.
pub open spec fn is_white(c: char) -> bool {
    ('\t' <= c <= '\r') || c == ' ' || c == '\u{85}' || c == '\u{A0}' || c == '\u{1680}'
        || ('\u{2000}' <= c <= '\u{200A}') || c == '\u{2028}' || c == '\u{2029}'
        || c == '\u{202F}' || c == '\u{205F}' || c == '\u{3000}'
}

pub fn is_white_char(c: char) -> (r: bool)
    ensures
        r == is_white(c),
{
    ('\t' <= c && c <= '\r') || c == ' ' || c == '\u{85}' || c == '\u{A0}' || c == '\u{1680}'
        || ('\u{2000}' <= c && c <= '\u{200A}') || c == '\u{2028}' || c == '\u{2029}'
        || c == '\u{202F}' || c == '\u{205F}' || c == '\u{3000}'
}

/// `s` without its leading whitespace.
pub open spec fn trim_start(s: Seq<char>) -> Seq<char>
    decreases s.len(),
{
    if s.len() > 0 && is_white(s[0]) {
        trim_start(s.skip(1))
    } else {
        s
    }
}

/// The last position below `k` at which `pat` occurs in `t`.
pub open spec fn last_before(t: Seq<char>, pat: Seq<char>, k: int) -> Option<int>
    decreases k,
{
    if k <= 0 {
        None
    } else if occurs_at(t, pat, k - 1) {
        Some(k - 1)
    } else {
        last_before(t, pat, k - 1)
    }
}

/// The last position at which `pat` occurs in `t`.
pub open spec fn last_occurrence(t: Seq<char>, pat: Seq<char>) -> Option<int> {
    last_before(t, pat, t.len() as int)
}

/// The first position from `k` on at which `pat` occurs in `t`.
pub open spec fn first_from(t: Seq<char>, pat: Seq<char>, k: int) -> Option<int>
    decreases t.len() + 1 - k,
{
    if k < 0 || k + pat.len() > t.len() {
        None
    } else if occurs_at(t, pat, k) {
        Some(k)
    } else {
        first_from(t, pat, k + 1)
    }
}

pub open spec fn line_comment_mark() -> Seq<char> {
    seq!['/', '/']
}

pub open spec fn block_open_mark() -> Seq<char> {
    seq!['/', '*']
}

pub open spec fn block_close_mark() -> Seq<char> {
    seq!['*', '/']
}

/// Whether position `p` of `s` lies in a comment: the text of its line before
/// it starts, after whitespace, with `//`; or a `/*` before it is not closed by
/// a later `*/` before it.
pub open spec fn in_comment(s: Seq<char>, p: int) -> bool {
    let before = s.take(p);
    let line = match last_occurrence(before, seq!['\n']) {
        Some(n) => before.skip(n + 1),
        None => before,
    };
    let t = trim_start(line);
    if t.len() >= 2 && t.take(2) == line_comment_mark() {
        true
    } else {
        match (last_occurrence(before, block_open_mark()), last_occurrence(before, block_close_mark())) {
            (Some(a), Some(b)) => a > b,
            (Some(_), None) => true,
            _ => false,
        }
    }
}

fn last_index_before(s: &Vec<char>, pat: &Vec<char>, p: usize) -> (r: Option<usize>)
    requires
        p <= s@.len(),
    ensures
        r is Some <==> last_occurrence(s@.take(p as int), pat@) is Some,
        r is Some ==> r->Some_0 as int == last_occurrence(s@.take(p as int), pat@)->Some_0,
        r is Some ==> r->Some_0 < p,
{
    let ghost t = s@.take(p as int);
    let mut k: usize = p;
    while k > 0
        invariant
            k <= p <= s@.len(),
            t == s@.take(p as int),
            last_occurrence(t, pat@) == last_before(t, pat@, k as int),
        decreases k,
    {
        let hit = pat.len() <= p - (k - 1) && matches_at(s, pat, k - 1);
        assert(hit == occurs_at(t, pat@, k - 1)) by {
            if k - 1 + pat@.len() <= p {
                assert(s@.subrange(k - 1, k - 1 + pat@.len()) =~= t.subrange(k - 1, k - 1 + pat@.len()));
            }
        }
        if hit {
            return Some(k - 1);
        }
        k = k - 1;
    }
    None
}

/// Whether position `position` of `html` lies inside a `//` line comment or an
/// unclosed `/*` block comment.
pub fn is_in_comment(html: &Vec<char>, position: usize) -> (r: bool)
    requires
        position <= html@.len(),
    ensures
        r == in_comment(html@, position as int),
{
    let ghost before = html@.take(position as int);
    let newline: Vec<char> = vec!['\n'];
    let line_start: usize = match last_index_before(html, &newline, position) {
        Some(n) => n + 1,
        None => 0,
    };
    assert(newline@ =~= seq!['\n']);
    let ghost line = before.skip(line_start as int);
    assert(line_start == 0 ==> line =~= before);
    let mut j: usize = line_start;
    while j < position && is_white_char(html[j])
        invariant
            line_start <= j <= position <= html@.len(),
            before == html@.take(position as int),
            trim_start(line) == trim_start(before.skip(j as int)),
        decreases position - j,
    {
        assert(before.skip(j as int).skip(1) =~= before.skip(j + 1));
        j = j + 1;
    }
    let ghost t = before.skip(j as int);
    assert(trim_start(t) == t);
    if position > 0 && j < position - 1 && html[j] == '/' && html[j + 1] == '/' {
        assert(t.take(2) =~= line_comment_mark());
        return true;
    }
    assert(!(t.len() >= 2 && t.take(2) == line_comment_mark())) by {
        if t.len() >= 2 && t.take(2) == line_comment_mark() {
            assert(t.take(2)[0] == html@[j as int]);
            assert(t.take(2)[1] == html@[j + 1]);
        }
    }
    let open: Vec<char> = vec!['/', '*'];
    let close: Vec<char> = vec!['*', '/'];
    assert(open@ =~= block_open_mark());
    assert(close@ =~= block_close_mark());
    match (last_index_before(html, &open, position), last_index_before(html, &close, position)) {
        (Some(a), Some(b)) => a > b,
        (Some(_), None) => true,
        _ => false,
    }
}

pub open spec fn callback_open() -> Seq<char> {
    "window.external.user(\""@
}

pub open spec fn callback_close() -> Seq<char> {
    "\");"@
}

pub open spec fn login_prefix() -> Seq<char> {
    "login="@
}

/// The first position from `k` on where the callback opens outside a comment.
pub open spec fn first_live_callback(h: Seq<char>, k: int) -> Option<int>
    decreases h.len() + 1 - k,
{
    if k < 0 || k + callback_open().len() > h.len() {
        None
    } else if occurs_at(h, callback_open(), k) && !in_comment(h, k) {
        Some(k)
    } else {
        first_live_callback(h, k + 1)
    }
}

/// The text between the first live callback opening and the next closing.
pub open spec fn callback_payload(h: Seq<char>) -> Option<Seq<char>> {
    match first_live_callback(h, 0) {
        Some(i) => {
            let ps = i + callback_open().len();
            match first_from(h.skip(ps), callback_close(), 0) {
                Some(e) => Some(h.subrange(ps, ps + e)),
                None => None,
            }
        },
        None => None,
    }
}

/// The decoded callback of a response page, if it has one that carries a
/// login payload.
pub open spec fn launch_params_of(h: Seq<char>) -> Option<Map<Seq<char>, Seq<char>>> {
    match callback_payload(h) {
        Some(p) => if p.len() >= login_prefix().len() && p.take(login_prefix().len() as int) == login_prefix() {
            Some(login_params_of(p.skip(login_prefix().len() as int)))
        } else {
            None
        },
        None => None,
    }
}

fn first_callback(h: &Vec<char>, open: &Vec<char>) -> (r: Option<usize>)
    requires
        open@ == callback_open(),
        open@.len() > 0,
    ensures
        r is Some <==> first_live_callback(h@, 0) is Some,
        r is Some ==> r->Some_0 as int == first_live_callback(h@, 0)->Some_0,
        r is Some ==> r->Some_0 + open@.len() <= h@.len(),
{
    let mut i: usize = 0;
    while i < h.len()
        invariant
            open@ == callback_open(),
            open@.len() > 0,
            i <= h@.len(),
            first_live_callback(h@, 0) == first_live_callback(h@, i as int),
        decreases h@.len() - i,
    {
        if matches_at(h, open, i) && !is_in_comment(h, i) {
            return Some(i);
        }
        i = i + 1;
    }
    None
}

fn first_close(h: &Vec<char>, close: &Vec<char>, ps: usize) -> (r: Option<usize>)
    requires
        close@ == callback_close(),
        close@.len() > 0,
        ps <= h@.len(),
    ensures
        r is Some <==> first_from(h@.skip(ps as int), callback_close(), 0) is Some,
        r is Some ==> r->Some_0 as int == first_from(h@.skip(ps as int), callback_close(), 0)->Some_0,
        r is Some ==> ps + r->Some_0 <= h@.len(),
{
    let ghost t = h@.skip(ps as int);
    let mut j: usize = 0;
    while j < h.len() - ps
        invariant
            close@ == callback_close(),
            close@.len() > 0,
            j <= h@.len() - ps,
            ps <= h@.len(),
            t == h@.skip(ps as int),
            first_from(t, close@, 0) == first_from(t, close@, j as int),
        decreases h@.len() - ps + 1 - j,
    {
        let hit = matches_at(h, close, ps + j);
        assert(hit == occurs_at(t, close@, j as int)) by {
            if hit || occurs_at(t, close@, j as int) {
                assert(h@.subrange(ps + j, ps + j + close@.len()) =~= t.subrange(j as int, j + close@.len()));
            }
        }
        if hit {
            return Some(j);
        }
        j = j + 1;
    }
    None
}

/// Finds the first callback invocation of `html` outside comments and decodes
/// its payload when that starts with `login=`.
pub fn extract_launch_params(html: &str) -> (r: Option<LaunchParams>)
    ensures
        r is Some <==> launch_params_of(html@) is Some,
        r is Some ==> r->Some_0.view() == launch_params_of(html@)->Some_0,
{
    let h = chars_of(html);
    let open = chars_of("window.external.user(\"");
    let close = chars_of("\");");
    let prefix = chars_of("login=");
    proof {
        reveal_strlit("window.external.user(\"");
        reveal_strlit("\");");
    }
    let i = match first_callback(&h, &open) {
        Some(i) => i,
        None => {
            return None;
        },
    };
    let total: usize = h.len();
    assert(i + open@.len() <= total);
    let ps = i + open.len();
    let e = match first_close(&h, &close, ps) {
        Some(e) => e,
        None => {
            return None;
        },
    };
    let payload_slice = vstd::slice::slice_subrange(h.as_slice(), ps, ps + e);
    let payload = vstd::slice::slice_to_vec(payload_slice);
    assert(payload@ == callback_payload(h@)->Some_0);
    if !matches_at(&payload, &prefix, 0) {
        assert(!(payload@.len() >= login_prefix().len() && payload@.take(login_prefix().len() as int) == login_prefix())) by {
            if payload@.len() >= login_prefix().len() && payload@.take(login_prefix().len() as int) == login_prefix() {
                assert(payload@.subrange(0, prefix@.len() as int) =~= payload@.take(prefix@.len() as int));
            }
        }
        return None;
    }
    assert(payload@.subrange(0, prefix@.len() as int) =~= payload@.take(prefix@.len() as int));
    let rest = vstd::slice::slice_to_vec(vstd::slice::slice_subrange(payload.as_slice(), prefix.len(), payload.len()));
    assert(rest@ =~= payload@.skip(login_prefix().len() as int));
    parse_login_params(&rest)
}

} // verus!
