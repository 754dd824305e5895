use vstd::prelude::*;
use crate::text::string_of;

verus! {

/// `s` cut into pieces of `n` characters, the last one possibly shorter.
pub open spec fn chunks(s: Seq<char>, n: nat) -> Seq<Seq<char>>
    decreases s.len(),
{
    if s.len() == 0 || n == 0 {
        Seq::empty()
    } else if s.len() <= n {
        seq![s]
    } else {
        seq![s.take(n as int)] + chunks(s.skip(n as int), n)
    }
}

/// The pieces written one after another with a comma between each two.
pub open spec fn join_commas(parts: Seq<Seq<char>>) -> Seq<char>
    decreases parts.len(),
{
    if parts.len() == 0 {
        Seq::empty()
    } else if parts.len() == 1 {
        parts[0]
    } else {
        parts[0] + seq![','] + join_commas(parts.skip(1))
    }
}

pub open spec fn views(v: Seq<String>) -> Seq<Seq<char>> {
    v.map_values(|x: String| x@)
}

proof fn lemma_join_push(parts: Seq<Seq<char>>, k: int)
    requires
        1 <= k < parts.len(),
    ensures
        join_commas(parts.take(k + 1)) == join_commas(parts.take(k)) + seq![','] + parts[k],
    decreases k,
{
    if k == 1 {
        let two = parts.take(2);
        assert(two.skip(1) =~= seq![parts[1]]);
        assert(parts.take(1) =~= seq![parts[0]]);
        assert(join_commas(seq![parts[1]]) == parts[1]);
        assert(join_commas(seq![parts[0]]) == parts[0]);
        assert(join_commas(two) == two[0] + seq![','] + join_commas(two.skip(1)));
    } else {
        let tail = parts.skip(1);
        lemma_join_push(tail, k - 1);
        assert(parts.take(k + 1).skip(1) =~= tail.take(k));
        assert(parts.take(k).skip(1) =~= tail.take(k - 1));
        assert(tail[k - 1] == parts[k]);
        assert(join_commas(parts.take(k + 1)) == parts[0] + seq![','] + join_commas(tail.take(k)));
        assert(join_commas(parts.take(k)) == parts[0] + seq![','] + join_commas(tail.take(k - 1)));
        assert(join_commas(parts.take(k + 1)) =~= join_commas(parts.take(k)) + seq![','] + parts[k]);
    }
}

/// Cuts `s` into consecutive pieces of `chunk_size` characters; the last piece
/// holds what is left.
pub fn chunks_upto(s: &Vec<char>, chunk_size: usize) -> (r: Vec<String>)
    requires
        chunk_size > 0,
    ensures
        views(r@) == chunks(s@, chunk_size as nat),
{
    let mut out: Vec<String> = Vec::new();
    let mut i: usize = 0;
    assert(s@.skip(0) =~= s@);
    assert(views(out@) =~= Seq::<Seq<char>>::empty());
    while i < s.len()
        invariant
            chunk_size > 0,
            i <= s@.len(),
            views(out@) + chunks(s@.skip(i as int), chunk_size as nat) == chunks(s@, chunk_size as nat),
        decreases s@.len() - i,
    {
        let rest = s.len() - i;
        let end: usize = if rest <= chunk_size { s.len() } else { i + chunk_size };
        let piece = string_of(vstd::slice::slice_subrange(s.as_slice(), i, end));
        let ghost old_views = views(out@);
        let ghost tail = s@.skip(i as int);
        out.push(piece);
        assert(views(out@) =~= old_views.push(piece@));
        if rest <= chunk_size {
            assert(tail =~= piece@);
            assert(s@.skip(end as int) =~= Seq::<char>::empty());
        } else {
            assert(tail.take(chunk_size as int) =~= piece@);
            assert(tail.skip(chunk_size as int) =~= s@.skip(end as int));
        }
        assert(views(out@) + chunks(s@.skip(end as int), chunk_size as nat)
            =~= old_views + chunks(tail, chunk_size as nat));
        i = end;
    }
    assert(chunks(s@.skip(i as int), chunk_size as nat) =~= Seq::<Seq<char>>::empty());
    assert(views(out@) =~= views(out@) + Seq::<Seq<char>>::empty());
    out
}

/// The pieces joined with commas.
pub fn join_with_commas(parts: &Vec<String>) -> (r: Vec<char>)
    ensures
        r@ == join_commas(views(parts@)),
{
    let ghost p = views(parts@);
    let mut r: Vec<char> = Vec::new();
    let mut k: usize = 0;
    while k < parts.len()
        invariant
            k <= parts@.len(),
            p == views(parts@),
            r@ == join_commas(p.take(k as int)),
        decreases parts@.len() - k,
    {
        let cs = crate::text::chars_of(parts[k].as_str());
        if k == 0 {
            assert(p.take(1) =~= seq![p[0]]);
            assert(cs@ == p[0]);
        } else {
            proof { lemma_join_push(p, k as int); }
            r.push(',');
        }
        let ghost before = r@;
        let mut j: usize = 0;
        while j < cs.len()
            invariant
                j <= cs@.len(),
                r@ == before + cs@.take(j as int),
            decreases cs@.len() - j,
        {
            r.push(cs[j]);
            j = j + 1;
            assert(r@ =~= before + cs@.take(j as int));
        }
        assert(cs@.take(j as int) =~= cs@);
        assert(cs@ == p[k as int]);
        k = k + 1;
        assert(r@ =~= join_commas(p.take(k as int))) by {
            if k == 1 {
                assert(p.take(1) =~= seq![p[0]]);
                assert(before =~= Seq::<char>::empty());
            }
        }
    }
    assert(p.take(k as int) =~= p);
    r
}

/// A comma-joined text of pieces is as long as the text that was cut, plus
/// one comma between each two pieces.
pub proof fn lemma_join_chunks_len(s: Seq<char>, n: nat)
    requires
        n > 0,
        s.len() > 0,
    ensures
        join_commas(chunks(s, n)).len() == s.len() + chunks(s, n).len() - 1,
        chunks(s, n).len() >= 1,
    decreases s.len(),
{
    if s.len() > n {
        let rest = s.skip(n as int);
        lemma_join_chunks_len(rest, n);
        let c = chunks(s, n);
        assert(c.skip(1) =~= chunks(rest, n));
        assert(c.len() >= 2);
    }
}

} // verus!
