//! Line structure of decoded text, and the stripped and markup forms built on it.
use vstd::prelude::*;

verus! {

/// Lines completed so far, and the line still open, after reading `s` from the left.
/// A line ends at each `'\n'`, which belongs to no line.
pub open spec fn scan_lines(s: Seq<char>) -> (Seq<Seq<char>>, Seq<char>)
    decreases s.len(),
{
    if s.len() == 0 {
        (Seq::empty(), Seq::empty())
    } else {
        let prev = scan_lines(s.drop_last());
        if s.last() == '\n' {
            (prev.0.push(prev.1), Seq::empty())
        } else {
            (prev.0, prev.1.push(s.last()))
        }
    }
}

/// The lines of a text: the pieces between line feeds. A final line feed
/// closes the last line and opens no empty one.
pub open spec fn lines(s: Seq<char>) -> Seq<Seq<char>> {
    let sc = scan_lines(s);
    if sc.1.len() == 0 {
        sc.0
    } else {
        sc.0.push(sc.1)
    }
}

/// No line feed occurs in `l`.
pub open spec fn no_newline(l: Seq<char>) -> bool {
    forall|j: int| 0 <= j < l.len() ==> l[j] != '\n'
}

/// No line of `ls` holds a line feed.
pub open spec fn all_no_newline(ls: Seq<Seq<char>>) -> bool {
    forall|i: int| 0 <= i < ls.len() ==> no_newline(#[trigger] ls[i])
}

/// Splits a text into its lines.
pub fn split_lines(s: &Vec<char>) -> (r: Vec<Vec<char>>)
    ensures
        r@.len() == lines(s@).len(),
        forall|i: int| 0 <= i < r@.len() ==> (#[trigger] r@[i])@ == lines(s@)[i],
{
    let mut done: Vec<Vec<char>> = Vec::new();
    let mut cur: Vec<char> = Vec::new();
    let n = s.len();
    for i in 0..n
        invariant
            n == s@.len(),
            done@.len() == scan_lines(s@.take(i as int)).0.len(),
            forall|j: int| 0 <= j < done@.len() ==> (#[trigger] done@[j])@ == scan_lines(s@.take(i as int)).0[j],
            cur@ == scan_lines(s@.take(i as int)).1,
    {
        assert(s@.take(i + 1).drop_last() =~= s@.take(i as int));
        let c = s[i];
        if c == '\n' {
            done.push(cur);
            cur = Vec::new();
        } else {
            cur.push(c);
        }
    }
    assert(s@.take(n as int) =~= s@);
    if cur.len() > 0 {
        done.push(cur);
    }
    done
}

proof fn lemma_scan_no_newline(s: Seq<char>)
    ensures
        all_no_newline(scan_lines(s).0),
        no_newline(scan_lines(s).1),
    decreases s.len(),
{
    if s.len() > 0 {
        lemma_scan_no_newline(s.drop_last());
    }
}

/// No line of a text holds a line feed.
pub proof fn lemma_lines_no_newline(s: Seq<char>)
    ensures
        all_no_newline(lines(s)),
{
    lemma_scan_no_newline(s);
}

/// A decorative glyph: box drawing, block shading or the small square
/// (U+2500 to U+25A0, the art glyphs of CP 437's upper half).
pub open spec fn is_deco(c: char) -> bool {
    0x2500 <= c as u32 <= 0x25A0
}

/// Tests for a decorative glyph.
pub fn deco_glyph(c: char) -> (r: bool)
    ensures
        r == is_deco(c),
{
    let v = c as u32;
    0x2500 <= v && v <= 0x25A0
}

/// Whitespace that may stand beside decoration on a decorative line.
pub open spec fn is_blank(c: char) -> bool {
    c == ' ' || c == '\t' || c == '\r'
}

/// A line of whitespace only (the empty line included).
pub open spec fn is_blank_line(l: Seq<char>) -> bool {
    forall|j: int| 0 <= j < l.len() ==> is_blank(#[trigger] l[j])
}

/// A line of decoration: at least one decorative glyph, and nothing but
/// decorative glyphs and whitespace.
pub open spec fn is_deco_line(l: Seq<char>) -> bool {
    &&& exists|j: int| 0 <= j < l.len() && is_deco(#[trigger] l[j])
    &&& forall|j: int| 0 <= j < l.len() ==> is_deco(#[trigger] l[j]) || is_blank(l[j])
}

/// Classifies a line as blank.
fn blank_line(l: &Vec<char>) -> (r: bool)
    ensures
        r == is_blank_line(l@),
{
    let n = l.len();
    for j in 0..n
        invariant
            n == l@.len(),
            forall|k: int| 0 <= k < j ==> is_blank(#[trigger] l@[k]),
    {
        let c = l[j];
        if !(c == ' ' || c == '\t' || c == '\r') {
            return false;
        }
    }
    true
}

/// Classifies a line as decorative.
pub fn deco_line(l: &Vec<char>) -> (r: bool)
    ensures
        r == is_deco_line(l@),
{
    let n = l.len();
    let mut seen = false;
    for j in 0..n
        invariant
            n == l@.len(),
            forall|k: int| 0 <= k < j ==> is_deco(#[trigger] l@[k]) || is_blank(l@[k]),
            seen <==> exists|k: int| 0 <= k < j && is_deco(#[trigger] l@[k]),
    {
        let c = l[j];
        let d = deco_glyph(c);
        if d {
            seen = true;
        } else if !(c == ' ' || c == '\t' || c == '\r') {
            return false;
        }
    }
    seen
}

/// Pieces completed so far, and the piece still open, after reading `s` from
/// the left. A piece is a line together with the line feed that ends it.
pub open spec fn scan_pieces(s: Seq<char>) -> (Seq<Seq<char>>, Seq<char>)
    decreases s.len(),
{
    if s.len() == 0 {
        (Seq::empty(), Seq::empty())
    } else {
        let prev = scan_pieces(s.drop_last());
        if s.last() == '\n' {
            (prev.0.push(prev.1.push('\n')), Seq::empty())
        } else {
            (prev.0, prev.1.push(s.last()))
        }
    }
}

/// The pieces of a text: its lines, each with its line feed where it has one.
pub open spec fn pieces(s: Seq<char>) -> Seq<Seq<char>> {
    let sc = scan_pieces(s);
    if sc.1.len() == 0 {
        sc.0
    } else {
        sc.0.push(sc.1)
    }
}

/// The line of a piece: the piece without its line feed.
pub open spec fn content(p: Seq<char>) -> Seq<char> {
    if p.len() > 0 && p.last() == '\n' {
        p.drop_last()
    } else {
        p
    }
}

/// The text made of the given pieces, one after the other.
pub open spec fn join_pieces(ps: Seq<Seq<char>>) -> Seq<char>
    decreases ps.len(),
{
    if ps.len() == 0 {
        Seq::empty()
    } else {
        join_pieces(ps.drop_last()) + ps.last()
    }
}

/// The pieces that stripping keeps, and whether a decorative line was removed
/// since the last kept piece. Decorative lines go; a blank line goes when a
/// removal separates it from a kept blank line, so that the blank lines a
/// removal brings together merge into one.
pub open spec fn strip_scan(ps: Seq<Seq<char>>) -> (Seq<Seq<char>>, bool)
    decreases ps.len(),
{
    if ps.len() == 0 {
        (Seq::empty(), false)
    } else {
        let prev = strip_scan(ps.drop_last());
        let p = ps.last();
        if is_deco_line(content(p)) {
            (prev.0, true)
        } else if prev.1 && is_blank_line(content(p)) && prev.0.len() > 0 && is_blank_line(
            content(prev.0.last()),
        ) {
            prev
        } else {
            (prev.0.push(p), false)
        }
    }
}

/// The stripped form of a text: its kept pieces, as they stood.
pub open spec fn stripped(s: Seq<char>) -> Seq<char> {
    join_pieces(strip_scan(pieces(s)).0)
}

/// A piece that is not empty and holds a line feed at most at its end.
pub open spec fn piece_ok(p: Seq<char>) -> bool {
    p.len() > 0 && forall|j: int| 0 <= j < p.len() - 1 ==> p[j] != '\n'
}

/// A piece that ends with a line feed.
pub open spec fn ends_nl(p: Seq<char>) -> bool {
    p.len() > 0 && p.last() == '\n'
}

/// Pieces as a text splits into: each well formed, all but the last ended.
pub open spec fn wf_pieces(ps: Seq<Seq<char>>) -> bool {
    &&& forall|i: int| 0 <= i < ps.len() ==> piece_ok(#[trigger] ps[i])
    &&& forall|i: int| 0 <= i < ps.len() - 1 ==> ends_nl(#[trigger] ps[i])
}

proof fn lemma_scan_pieces_lines(s: Seq<char>)
    ensures
        scan_pieces(s).0.len() == scan_lines(s).0.len(),
        forall|i: int| 0 <= i < scan_pieces(s).0.len() ==>
            (#[trigger] scan_pieces(s).0[i]) == scan_lines(s).0[i].push('\n'),
        scan_pieces(s).1 == scan_lines(s).1,
        scan_lines(s).1.len() == 0 <==> (s.len() == 0 || s.last() == '\n'),
    decreases s.len(),
{
    if s.len() > 0 {
        lemma_scan_pieces_lines(s.drop_last());
    }
}

/// The pieces of a text are its lines, each followed by a line feed but for
/// a last line that the text does not end.
pub proof fn lemma_pieces_lines(s: Seq<char>)
    ensures
        pieces(s).len() == lines(s).len(),
        forall|i: int| 0 <= i < pieces(s).len() ==> (#[trigger] pieces(s)[i]) == (if i < lines(s).len() - 1
            || (s.len() > 0 && s.last() == '\n') {
            lines(s)[i].push('\n')
        } else {
            lines(s)[i]
        }),
{
    lemma_scan_pieces_lines(s);
}

proof fn lemma_join_scan(s: Seq<char>)
    ensures
        join_pieces(scan_pieces(s).0) + scan_pieces(s).1 == s,
    decreases s.len(),
{
    if s.len() > 0 {
        let p = s.drop_last();
        lemma_join_scan(p);
        let prev = scan_pieces(p);
        if s.last() == '\n' {
            assert(prev.0.push(prev.1.push('\n')).drop_last() =~= prev.0);
        }
        assert(p.push(s.last()) =~= s);
    }
}

/// A text is the join of its pieces.
pub proof fn lemma_join_pieces(s: Seq<char>)
    ensures
        join_pieces(pieces(s)) == s,
{
    lemma_join_scan(s);
    let sc = scan_pieces(s);
    if sc.1.len() == 0 {
        assert(join_pieces(sc.0) + sc.1 =~= join_pieces(sc.0));
    } else {
        assert(sc.0.push(sc.1).drop_last() =~= sc.0);
    }
}

proof fn lemma_scan_pieces_wf(s: Seq<char>)
    ensures
        forall|i: int| 0 <= i < scan_pieces(s).0.len() ==> piece_ok(#[trigger] scan_pieces(s).0[i])
            && ends_nl(scan_pieces(s).0[i]),
        no_newline(scan_pieces(s).1),
    decreases s.len(),
{
    if s.len() > 0 {
        lemma_scan_pieces_wf(s.drop_last());
        let prev = scan_pieces(s.drop_last());
        if s.last() == '\n' {
            let q = prev.1.push('\n');
            assert(piece_ok(q)) by {
                assert forall|j: int| 0 <= j < q.len() - 1 implies q[j] != '\n' by {
                    assert(q[j] == prev.1[j]);
                }
            }
        }
    }
}

/// A text splits into well-formed pieces.
pub proof fn lemma_pieces_wf(s: Seq<char>)
    ensures
        wf_pieces(pieces(s)),
{
    lemma_scan_pieces_wf(s);
}

proof fn lemma_scan_pieces_append(p: Seq<char>, q: Seq<char>)
    requires
        no_newline(q),
    ensures
        scan_pieces(p + q) == (scan_pieces(p).0, scan_pieces(p).1 + q),
    decreases q.len(),
{
    if q.len() == 0 {
        assert(p + q =~= p);
        assert(scan_pieces(p).1 + q =~= scan_pieces(p).1);
    } else {
        assert((p + q).drop_last() =~= p + q.drop_last());
        lemma_scan_pieces_append(p, q.drop_last());
        assert(scan_pieces(p).1 + q.drop_last() + seq![q.last()] =~= scan_pieces(p).1 + q);
    }
}

proof fn lemma_scan_join_ended(ps: Seq<Seq<char>>)
    requires
        forall|i: int| 0 <= i < ps.len() ==> piece_ok(#[trigger] ps[i]) && ends_nl(ps[i]),
    ensures
        scan_pieces(join_pieces(ps)) == (ps, Seq::<char>::empty()),
    decreases ps.len(),
{
    if ps.len() > 0 {
        let prev = ps.drop_last();
        assert forall|i: int| 0 <= i < prev.len() implies piece_ok(#[trigger] prev[i]) && ends_nl(
            prev[i],
        ) by {
            assert(prev[i] == ps[i]);
        }
        lemma_scan_join_ended(prev);
        let p = ps.last();
        assert(piece_ok(ps[ps.len() - 1]) && ends_nl(ps[ps.len() - 1]));
        let body = p.drop_last();
        assert(no_newline(body)) by {
            assert forall|j: int| 0 <= j < body.len() implies body[j] != '\n' by {
                assert(body[j] == p[j]);
            }
        }
        lemma_scan_pieces_append(join_pieces(prev), body);
        let t = join_pieces(prev) + body;
        assert(join_pieces(ps) =~= t + seq!['\n']);
        assert((t + seq!['\n']).drop_last() =~= t);
        assert(Seq::<char>::empty() + body =~= body);
        assert(body.push('\n') =~= p);
        assert(prev.push(p) =~= ps);
    }
}

/// Splitting joined well-formed pieces gives the pieces back.
pub proof fn lemma_pieces_of_join(ps: Seq<Seq<char>>)
    requires
        wf_pieces(ps),
    ensures
        pieces(join_pieces(ps)) == ps,
{
    if ps.len() == 0 {
        assert(join_pieces(ps) =~= Seq::<char>::empty());
    } else if ends_nl(ps[ps.len() - 1]) {
        lemma_scan_join_ended(ps);
    } else {
        let prev = ps.drop_last();
        assert forall|i: int| 0 <= i < prev.len() implies piece_ok(#[trigger] prev[i]) && ends_nl(
            prev[i],
        ) by {
            assert(prev[i] == ps[i]);
        }
        lemma_scan_join_ended(prev);
        let p = ps.last();
        assert(piece_ok(ps[ps.len() - 1]));
        assert(no_newline(p)) by {
            assert forall|j: int| 0 <= j < p.len() implies p[j] != '\n' by {
                if j == p.len() - 1 {
                    assert(!ends_nl(p));
                }
            }
        }
        lemma_scan_pieces_append(join_pieces(prev), p);
        assert(Seq::<char>::empty() + p =~= p);
        assert(prev.push(p) =~= ps);
    }
}

proof fn lemma_strip_scan_kept(ps: Seq<Seq<char>>)
    requires
        forall|i: int| 0 <= i < ps.len() ==> piece_ok(#[trigger] ps[i]),
    ensures
        forall|i: int| 0 <= i < strip_scan(ps).0.len() ==> piece_ok(#[trigger] strip_scan(ps).0[i])
            && !is_deco_line(content(strip_scan(ps).0[i])),
        (forall|i: int| 0 <= i < ps.len() ==> ends_nl(#[trigger] ps[i])) ==> (forall|i: int|
            0 <= i < strip_scan(ps).0.len() ==> ends_nl(#[trigger] strip_scan(ps).0[i])),
    decreases ps.len(),
{
    if ps.len() > 0 {
        let prev = ps.drop_last();
        assert forall|i: int| 0 <= i < prev.len() implies piece_ok(#[trigger] prev[i]) by {
            assert(prev[i] == ps[i]);
        }
        lemma_strip_scan_kept(prev);
        assert(piece_ok(ps[ps.len() - 1]));
        let k = strip_scan(prev).0;
        assert(forall|i: int| 0 <= i < k.len() ==> k.push(ps.last())[i] == k[i]);
        if forall|i: int| 0 <= i < ps.len() ==> ends_nl(#[trigger] ps[i]) {
            assert forall|i: int| 0 <= i < prev.len() implies ends_nl(#[trigger] prev[i]) by {
                assert(prev[i] == ps[i]);
            }
            assert(ends_nl(ps[ps.len() - 1]));
        }
    }
}

proof fn lemma_strip_scan_wf(ps: Seq<Seq<char>>)
    requires
        wf_pieces(ps),
    ensures
        wf_pieces(strip_scan(ps).0),
        forall|i: int| 0 <= i < strip_scan(ps).0.len() ==> !is_deco_line(
            content(#[trigger] strip_scan(ps).0[i]),
        ),
{
    lemma_strip_scan_kept(ps);
    if ps.len() > 0 {
        let prev = ps.drop_last();
        assert forall|i: int| 0 <= i < prev.len() implies piece_ok(#[trigger] prev[i]) && ends_nl(
            prev[i],
        ) by {
            assert(prev[i] == ps[i]);
        }
        lemma_strip_scan_kept(prev);
        let k = strip_scan(prev).0;
        assert(forall|i: int| 0 <= i < k.len() ==> k.push(ps.last())[i] == k[i]);
    }
}

proof fn lemma_strip_scan_no_deco(ps: Seq<Seq<char>>)
    requires
        forall|i: int| 0 <= i < ps.len() ==> !is_deco_line(content(#[trigger] ps[i])),
    ensures
        strip_scan(ps) == (ps, false),
    decreases ps.len(),
{
    if ps.len() > 0 {
        let prev = ps.drop_last();
        assert forall|i: int| 0 <= i < prev.len() implies !is_deco_line(content(#[trigger] prev[i])) by {
            assert(prev[i] == ps[i]);
        }
        lemma_strip_scan_no_deco(prev);
        assert(!is_deco_line(content(ps[ps.len() - 1])));
        assert(prev.push(ps.last()) =~= ps);
    }
}

/// A text in which no line is decorative is its own stripped form.
pub proof fn lemma_strip_prose_unchanged(s: Seq<char>)
    requires
        forall|i: int| 0 <= i < lines(s).len() ==> !is_deco_line(#[trigger] lines(s)[i]),
    ensures
        stripped(s) == s,
{
    lemma_pieces_lines(s);
    lemma_lines_no_newline(s);
    let ps = pieces(s);
    assert forall|i: int| 0 <= i < ps.len() implies !is_deco_line(content(#[trigger] ps[i])) by {
        let l = lines(s)[i];
        assert(no_newline(l));
        if ps[i] == l.push('\n') {
            assert(l.push('\n').drop_last() =~= l);
        } else if l.len() > 0 {
            assert(l[l.len() - 1] != '\n');
        }
        assert(content(ps[i]) == l);
    }
    lemma_strip_scan_no_deco(ps);
    lemma_join_pieces(s);
}

/// Stripping an already stripped text changes nothing.
pub proof fn lemma_strip_idempotent(s: Seq<char>)
    ensures
        stripped(stripped(s)) == stripped(s),
{
    let kept = strip_scan(pieces(s)).0;
    lemma_pieces_wf(s);
    lemma_strip_scan_wf(pieces(s));
    lemma_pieces_of_join(kept);
    lemma_strip_scan_no_deco(kept);
}

/// Appends the glyphs of `l` to `out`.
fn push_chars(out: &mut Vec<char>, l: &Vec<char>)
    ensures
        final(out)@ == old(out)@ + l@,
{
    let n = l.len();
    for j in 0..n
        invariant
            n == l@.len(),
            out@ == old(out)@ + l@.take(j as int),
    {
        out.push(l[j]);
        assert(l@.take(j + 1) =~= l@.take(j as int).push(l@[j as int]));
    }
    assert(l@.take(n as int) =~= l@);
}

/// Removes the decorative lines of a text and keeps every other line as it
/// stood, in order; blank lines that a removal brings together merge into one.
pub fn strip(s: &Vec<char>) -> (r: Vec<char>)
    ensures
        r@ == stripped(s@),
{
    let ls = split_lines(s);
    let ghost ps = pieces(s@);
    proof {
        lemma_pieces_lines(s@);
        lemma_lines_no_newline(s@);
    }
    let len = s.len();
    let ends = len > 0 && s[len - 1] == '\n';
    let n = ls.len();
    assert forall|k: int| 0 <= k < n implies content(#[trigger] ps[k]) == ls@[k]@ by {
        let l = lines(s@)[k];
        assert(no_newline(l));
        if ps[k] == l.push('\n') {
            assert(l.push('\n').drop_last() =~= l);
        } else if l.len() > 0 {
            assert(l[l.len() - 1] != '\n');
        }
    }
    let mut out: Vec<char> = Vec::new();
    let mut removed = false;
    let mut has_last = false;
    let mut last_blank = false;
    for i in 0..n
        invariant
            n == ls@.len(),
            n == ps.len(),
            ends == (s@.len() > 0 && s@.last() == '\n'),
            forall|k: int| 0 <= k < n ==> (#[trigger] ps[k]) == (if k < n - 1 || ends {
                ls@[k]@.push('\n')
            } else {
                ls@[k]@
            }),
            forall|k: int| 0 <= k < n ==> content(#[trigger] ps[k]) == ls@[k]@,
            out@ == join_pieces(strip_scan(ps.take(i as int)).0),
            removed == strip_scan(ps.take(i as int)).1,
            has_last == (strip_scan(ps.take(i as int)).0.len() > 0),
            has_last ==> last_blank == is_blank_line(content(strip_scan(ps.take(i as int)).0.last())),
    {
        assert(ps.take(i + 1).drop_last() =~= ps.take(i as int));
        assert(ps.take(i + 1).last() == ps[i as int]);
        let l = &ls[i];
        let term = i + 1 < n || ends;
        if deco_line(l) {
            removed = true;
        } else {
            let b = blank_line(l);
            if removed && b && has_last && last_blank {
            } else {
                push_chars(&mut out, l);
                if term {
                    out.push('\n');
                }
                proof {
                    let kept = strip_scan(ps.take(i as int)).0;
                    assert(kept.push(ps[i as int]).drop_last() =~= kept);
                }
                has_last = true;
                last_blank = b;
                removed = false;
            }
        }
    }
    assert(ps.take(n as int) =~= ps);
    out
}

/// The markup for one glyph: the characters that markup reserves become
/// entities, every other glyph stands for itself.
pub open spec fn escape(c: char) -> Seq<char> {
    if c == '&' {
        seq!['&', 'a', 'm', 'p', ';']
    } else if c == '<' {
        seq!['&', 'l', 't', ';']
    } else if c == '>' {
        seq!['&', 'g', 't', ';']
    } else if c == '"' {
        seq!['&', 'q', 'u', 'o', 't', ';']
    } else {
        seq![c]
    }
}

/// The markup rendering of a text, glyph by glyph; line feeds are kept.
pub open spec fn markup(s: Seq<char>) -> Seq<char>
    decreases s.len(),
{
    if s.len() == 0 {
        Seq::empty()
    } else {
        markup(s.drop_last()) + escape(s.last())
    }
}

/// Renders a text as markup.
pub fn to_markup(s: &Vec<char>) -> (r: Vec<char>)
    ensures
        r@ == markup(s@),
{
    let mut out: Vec<char> = Vec::new();
    let n = s.len();
    for i in 0..n
        invariant
            n == s@.len(),
            out@ == markup(s@.take(i as int)),
    {
        assert(s@.take(i + 1).drop_last() =~= s@.take(i as int));
        let c = s[i];
        if c == '&' {
            out.push('&');
            out.push('a');
            out.push('m');
            out.push('p');
            out.push(';');
        } else if c == '<' {
            out.push('&');
            out.push('l');
            out.push('t');
            out.push(';');
        } else if c == '>' {
            out.push('&');
            out.push('g');
            out.push('t');
            out.push(';');
        } else if c == '"' {
            out.push('&');
            out.push('q');
            out.push('u');
            out.push('o');
            out.push('t');
            out.push(';');
        } else {
            out.push(c);
        }
        assert(out@ =~= markup(s@.take(i + 1)));
    }
    assert(s@.take(n as int) =~= s@);
    out
}

} // verus!
