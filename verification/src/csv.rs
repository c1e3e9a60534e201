use vstd::prelude::*;

verus! {

/// Splits `b` at every occurrence of `sep`. Reading left to right, a separator
/// closes the current piece and opens a new, empty one; any other byte extends
/// the current piece. There is always at least one piece, and no piece holds
/// a separator.
pub open spec fn split_on(b: Seq<u8>, sep: u8) -> Seq<Seq<u8>>
    decreases b.len(),
{
    if b.len() == 0 {
        seq![Seq::empty()]
    } else {
        let p = split_on(b.drop_last(), sep);
        if b.last() == sep {
            p.push(Seq::empty())
        } else {
            p.update(p.len() - 1, p.last().push(b.last()))
        }
    }
}

/// Splitting always gives at least one piece.
pub proof fn lemma_split_on_nonempty(b: Seq<u8>, sep: u8)
    ensures
        split_on(b, sep).len() >= 1,
    decreases b.len(),
{
    if b.len() > 0 {
        lemma_split_on_nonempty(b.drop_last(), sep);
    }
}

/// `p` without a final carriage return, if it has one.
pub open spec fn strip_cr(p: Seq<u8>) -> Seq<u8> {
    if p.len() > 0 && p.last() == 13u8 { p.drop_last() } else { p }
}

/// The lines of a text: pieces between line feeds, where a line closed by a
/// line feed loses a final carriage return, and a last piece that is empty
/// (a text ending in a line feed, or an empty text) is no line.
pub open spec fn lines_of(b: Seq<u8>) -> Seq<Seq<u8>> {
    let pieces = split_on(b, 10u8);
    let kept = if pieces.last().len() == 0 { pieces.drop_last() } else { pieces };
    Seq::new(kept.len(), |i: int| if i < pieces.len() - 1 { strip_cr(kept[i]) } else { kept[i] })
}

/// The non-empty comma-separated fields of a line.
pub open spec fn fields_of(line: Seq<u8>) -> Seq<Seq<u8>> {
    split_on(line, 44u8).filter(|f: Seq<u8>| f.len() > 0)
}

/// The contents of a sequence of byte vectors.
pub open spec fn views(v: Seq<Vec<u8>>) -> Seq<Seq<u8>> {
    v.map_values(|x: Vec<u8>| x@)
}

/// Splits `b` at every occurrence of `sep`.
pub fn split_bytes(b: &[u8], sep: u8) -> (r: Vec<Vec<u8>>)
    ensures
        views(r@) == split_on(b@, sep),
{
    let mut pieces: Vec<Vec<u8>> = Vec::new();
    let mut cur: Vec<u8> = Vec::new();
    let n = b.len();
    assert(b@.take(0) =~= Seq::<u8>::empty());
    for i in 0..n
        invariant
            n == b@.len(),
            views(pieces@).push(cur@) == split_on(b@.take(i as int), sep),
    {
        let ghost before = b@.take(i as int);
        assert(b@.take(i + 1).drop_last() =~= before);
        assert(b@.take(i + 1).last() == b@[i as int]);
        proof { lemma_split_on_nonempty(before, sep); }
        let ghost old_pieces = views(pieces@);
        let ghost old_cur = cur@;
        if b[i] == sep {
            pieces.push(cur);
            cur = Vec::new();
            assert(views(pieces@) =~= old_pieces.push(old_cur));
            assert(views(pieces@).push(cur@) =~= split_on(b@.take(i + 1), sep));
        } else {
            cur.push(b[i]);
            assert(views(pieces@) =~= old_pieces);
            assert(views(pieces@).push(cur@) =~= split_on(b@.take(i + 1), sep));
        }
    }
    assert(b@.take(n as int) =~= b@);
    let ghost before_push = views(pieces@);
    pieces.push(cur);
    assert(views(pieces@) =~= before_push.push(cur@));
    pieces
}

/// `p` without a final carriage return, if it has one.
pub fn strip_cr_exec(p: &Vec<u8>) -> (r: Vec<u8>)
    ensures
        r@ == strip_cr(p@),
{
    let mut r: Vec<u8> = Vec::new();
    let n = p.len();
    let keep = if n > 0 && p[n - 1] == 13u8 { n - 1 } else { n };
    for i in 0..keep
        invariant
            keep <= n == p@.len(),
            r@ =~= p@.take(i as int),
    {
        r.push(p[i]);
        assert(r@ =~= p@.take(i + 1));
    }
    assert(r@ =~= strip_cr(p@));
    r
}

/// The lines of a text, as `lines_of` defines them.
pub fn lines_exec(b: &[u8]) -> (r: Vec<Vec<u8>>)
    ensures
        views(r@) == lines_of(b@),
{
    let pieces = split_bytes(b, 10u8);
    proof { lemma_split_on_nonempty(b@, 10u8); }
    let np = pieces.len();
    let ghost ps = views(pieces@);
    assert(ps[np - 1] == pieces[np - 1 as int]@);
    let kept = if pieces[np - 1].len() == 0 { np - 1 } else { np };
    let mut r: Vec<Vec<u8>> = Vec::new();
    for i in 0..kept
        invariant
            kept <= np == pieces@.len(),
            ps == views(pieces@),
            np >= 1,
            kept == (if ps.last().len() == 0 { np - 1 } else { np as int }),
            views(r@).len() == i,
            forall|j: int| 0 <= j < i ==> #[trigger] views(r@)[j] == (
                if j < np - 1 { strip_cr(ps[j]) } else { ps[j] }),
    {
        assert(ps[i as int] == pieces[i as int]@);
        let ghost old_r = views(r@);
        if i < np - 1 {
            let line = strip_cr_exec(&pieces[i]);
            r.push(line);
        } else {
            let mut line: Vec<u8> = Vec::new();
            let m = pieces[i].len();
            for k in 0..m
                invariant
                    i < np == pieces@.len(),
                    m == pieces[i as int]@.len(),
                    line@ =~= pieces[i as int]@.take(k as int),
            {
                line.push(pieces[i][k]);
                assert(line@ =~= pieces[i as int]@.take(k + 1));
            }
            assert(line@ =~= pieces[i as int]@);
            r.push(line);
        }
        assert(views(r@) =~= old_r.push(r@[i as int]@));
    }
    assert(views(r@) =~= lines_of(b@));
    r
}

/// The non-empty comma-separated fields of a line, as `fields_of` defines them.
pub fn fields_exec(line: &Vec<u8>) -> (r: Vec<Vec<u8>>)
    ensures
        views(r@) == fields_of(line@),
{
    let pieces = split_bytes(line.as_slice(), 44u8);
    let ghost ps = views(pieces@);
    let ghost pred = |f: Seq<u8>| f.len() > 0;
    let mut r: Vec<Vec<u8>> = Vec::new();
    let n = pieces.len();
    assert(ps.take(0).filter(pred) =~= Seq::<Seq<u8>>::empty()) by { reveal(Seq::filter); }
    for i in 0..n
        invariant
            n == pieces@.len(),
            ps == views(pieces@),
            pred == (|f: Seq<u8>| f.len() > 0),
            views(r@) == ps.take(i as int).filter(pred),
    {
        let ghost next = ps.take(i + 1);
        assert(next.drop_last() =~= ps.take(i as int));
        assert(next.last() == ps[i as int]);
        assert(ps[i as int] == pieces[i as int]@);
        let ghost old_r = views(r@);
        assert(next.filter(pred) == (if pred(ps[i as int]) {
            ps.take(i as int).filter(pred).push(ps[i as int])
        } else {
            ps.take(i as int).filter(pred)
        })) by { reveal(Seq::filter); }
        if pieces[i].len() > 0 {
            let mut f: Vec<u8> = Vec::new();
            let m = pieces[i].len();
            for k in 0..m
                invariant
                    i < n == pieces@.len(),
                    m == pieces[i as int]@.len(),
                    f@ =~= pieces[i as int]@.take(k as int),
            {
                f.push(pieces[i][k]);
                assert(f@ =~= pieces[i as int]@.take(k + 1));
            }
            assert(f@ =~= pieces[i as int]@);
            r.push(f);
            assert(views(r@) =~= old_r.push(ps[i as int]));
        } else {
            assert(views(r@) =~= old_r);
        }
    }
    assert(ps.take(n as int) =~= ps);
    r
}

} // verus!
