//! Character-sequence helpers behind the task editor: trimming,
//! comma-splitting and joining of tag lists.
//!
//! Every executable function here is specified against a small recursive
//! spec function over `Seq<char>`, so the editor's conversion contracts
//! can be stated, and the round trip proved, purely mathematically.

use vstd::prelude::*;
use vstd::string::StrSliceExecFns;

verus! {

/// Whitespace as the editor understands it when trimming fields.
pub open spec fn is_space(c: char) -> bool {
    c == ' ' || c == '\t' || c == '\n' || c == '\r'
}

pub open spec fn all_space(s: Seq<char>) -> bool {
    forall|i: int| 0 <= i < s.len() ==> is_space(s[i])
}

pub open spec fn comma_free(s: Seq<char>) -> bool {
    forall|i: int| 0 <= i < s.len() ==> s[i] != ','
}

/// A tag in the shape the editor writes and reads back unchanged:
/// non-empty, no commas, and no whitespace at either end.
pub open spec fn canonical_tag(s: Seq<char>) -> bool {
    &&& s.len() > 0
    &&& !is_space(s[0])
    &&& !is_space(s[s.len() - 1])
    &&& comma_free(s)
}

pub open spec fn trim_start_rec(s: Seq<char>) -> Seq<char>
    decreases s.len(),
{
    if s.len() > 0 && is_space(s[0]) {
        trim_start_rec(s.drop_first())
    } else {
        s
    }
}

pub open spec fn trim_end_rec(s: Seq<char>) -> Seq<char>
    decreases s.len(),
{
    if s.len() > 0 && is_space(s[s.len() - 1]) {
        trim_end_rec(s.drop_last())
    } else {
        s
    }
}

/// What `trim` means: drop whitespace from both ends.
pub open spec fn spec_trim(s: Seq<char>) -> Seq<char> {
    trim_end_rec(trim_start_rec(s))
}

/// Splitting on commas, with `cur` the piece collected so far.
pub open spec fn split_commas_rec(s: Seq<char>, cur: Seq<char>) -> Seq<Seq<char>>
    decreases s.len(),
{
    if s.len() == 0 {
        seq![cur]
    } else if s[0] == ',' {
        seq![cur] + split_commas_rec(s.drop_first(), Seq::empty())
    } else {
        split_commas_rec(s.drop_first(), cur.push(s[0]))
    }
}

pub open spec fn spec_split_commas(s: Seq<char>) -> Seq<Seq<char>> {
    split_commas_rec(s, Seq::empty())
}

/// Trim every piece and drop the pieces that were whitespace only.
pub open spec fn spec_trim_pieces(ps: Seq<Seq<char>>) -> Seq<Seq<char>>
    decreases ps.len(),
{
    if ps.len() == 0 {
        Seq::empty()
    } else {
        let h = spec_trim(ps[0]);
        let rest = spec_trim_pieces(ps.drop_first());
        if h.len() > 0 {
            seq![h] + rest
        } else {
            rest
        }
    }
}

/// How the tags buffer is read back: split on commas, trim each piece,
/// and collapse whitespace-only pieces away.
pub open spec fn spec_parse_tags(s: Seq<char>) -> Seq<Seq<char>> {
    spec_trim_pieces(spec_split_commas(s))
}

/// How the tags buffer is written: the tags joined with ", ".
pub open spec fn spec_join_tags(tags: Seq<Seq<char>>) -> Seq<char>
    decreases tags.len(),
{
    if tags.len() == 0 {
        Seq::empty()
    } else if tags.len() == 1 {
        tags[0]
    } else {
        tags[0] + seq![',', ' '] + spec_join_tags(tags.drop_first())
    }
}

pub fn is_space_char(c: char) -> (r: bool)
    ensures
        r == is_space(c),
{
    c == ' ' || c == '\t' || c == '\n' || c == '\r'
}

/// Drop whitespace from both ends of a character buffer.
pub fn trim_chars(s: &Vec<char>) -> (r: Vec<char>)
    ensures
        r@ == spec_trim(s@),
{
    let len = s.len();
    proof {
        assert(s@.subrange(0, len as int) =~= s@);
    }
    let mut start: usize = 0;
    while start < len && is_space_char(s[start])
        invariant
            start <= len,
            len == s@.len(),
            trim_start_rec(s@) == trim_start_rec(s@.subrange(start as int, len as int)),
        decreases len - start,
    {
        proof {
            let sub = s@.subrange(start as int, len as int);
            assert(sub.drop_first() =~= s@.subrange(start as int + 1, len as int));
        }
        start += 1;
    }
    proof {
        assert(trim_start_rec(s@) == s@.subrange(start as int, len as int));
    }
    let mut end: usize = len;
    while end > start && is_space_char(s[end - 1])
        invariant
            start <= end <= len,
            len == s@.len(),
            trim_start_rec(s@) == s@.subrange(start as int, len as int),
            trim_end_rec(s@.subrange(start as int, len as int)) == trim_end_rec(
                s@.subrange(start as int, end as int),
            ),
        decreases end,
    {
        proof {
            let sub = s@.subrange(start as int, end as int);
            assert(sub.drop_last() =~= s@.subrange(start as int, end as int - 1));
        }
        end -= 1;
    }
    proof {
        assert(spec_trim(s@) == s@.subrange(start as int, end as int));
    }
    let mut r: Vec<char> = Vec::new();
    let mut i: usize = start;
    while i < end
        invariant
            start <= i <= end <= len,
            len == s@.len(),
            r@ == s@.subrange(start as int, i as int),
        decreases end - i,
    {
        r.push(s[i]);
        i += 1;
        proof {
            assert(r@ =~= s@.subrange(start as int, i as int));
        }
    }
    r
}

/// Cut a character buffer into the pieces between commas.
pub fn split_commas_chars(s: &Vec<char>) -> (r: Vec<Vec<char>>)
    ensures
        r.deep_view() == spec_split_commas(s@),
{
    let mut pieces: Vec<Vec<char>> = Vec::new();
    let mut cur: Vec<char> = Vec::new();
    let mut i: usize = 0;
    proof {
        assert(s@.skip(0) =~= s@);
        assert(pieces.deep_view() =~~= Seq::<Seq<char>>::empty());
        assert(Seq::<Seq<char>>::empty() + split_commas_rec(s@, cur@) =~= split_commas_rec(
            s@,
            cur@,
        ));
    }
    while i < s.len()
        invariant
            i <= s@.len(),
            spec_split_commas(s@) == pieces.deep_view() + split_commas_rec(
                s@.skip(i as int),
                cur@,
            ),
        decreases s@.len() - i,
    {
        proof {
            assert(s@.skip(i as int).drop_first() =~= s@.skip(i as int + 1));
            assert(s@.skip(i as int)[0] == s@[i as int]);
        }
        if s[i] == ',' {
            let ghost old_pieces = pieces.deep_view();
            let ghost old_cur = cur@;
            pieces.push(cur);
            cur = Vec::new();
            proof {
                assert(pieces.deep_view() =~~= old_pieces.push(old_cur));
                assert(old_pieces + (seq![old_cur] + split_commas_rec(
                    s@.skip(i as int + 1),
                    Seq::empty(),
                )) =~= pieces.deep_view() + split_commas_rec(s@.skip(i as int + 1), Seq::empty()));
            }
        } else {
            cur.push(s[i]);
        }
        i += 1;
    }
    proof {
        assert(s@.skip(s@.len() as int) =~= Seq::<char>::empty());
    }
    let ghost old_pieces = pieces.deep_view();
    let ghost last = cur@;
    pieces.push(cur);
    proof {
        assert(pieces.deep_view() =~~= old_pieces.push(last));
        assert(old_pieces + seq![last] =~= old_pieces.push(last));
    }
    pieces
}

/// The characters of a string, in order.
pub fn str_chars(s: &str) -> (r: Vec<char>)
    ensures
        r@ == s@,
{
    let n = s.unicode_len();
    let mut r: Vec<char> = Vec::new();
    let mut i: usize = 0;
    while i < n
        invariant
            i <= n,
            n == s@.len(),
            r@ == s@.take(i as int),
        decreases n - i,
    {
        r.push(s.get_char(i));
        i += 1;
        proof {
            assert(r@ =~= s@.take(i as int));
        }
    }
    proof {
        assert(s@.take(n as int) =~= s@);
    }
    r
}

/// Relies on `String: FromIterator<char>`: collecting characters yields
/// the string of exactly those characters, in order.
#[verifier::external_body]
pub(crate) fn string_from_chars(v: &Vec<char>) -> (r: String)
    ensures
        r@ == v@,
{
    v.iter().collect()
}

/// Read a tags buffer back into the tag list it denotes.
pub fn parse_tags(s: &Vec<char>) -> (r: Vec<String>)
    ensures
        r.deep_view() == spec_parse_tags(s@),
{
    let pieces = split_commas_chars(s);
    let ghost ps = pieces.deep_view();
    let mut r: Vec<String> = Vec::new();
    let mut i: usize = 0;
    proof {
        assert(ps.skip(0) =~= ps);
        assert(r.deep_view() =~~= Seq::<Seq<char>>::empty());
        assert(Seq::<Seq<char>>::empty() + spec_trim_pieces(ps) =~= spec_trim_pieces(ps));
    }
    while i < pieces.len()
        invariant
            i <= pieces@.len(),
            ps == pieces.deep_view(),
            ps.len() == pieces@.len(),
            spec_trim_pieces(ps) == r.deep_view() + spec_trim_pieces(ps.skip(i as int)),
        decreases pieces@.len() - i,
    {
        proof {
            assert(ps.skip(i as int)[0] == ps[i as int]);
            assert(ps.skip(i as int).drop_first() =~= ps.skip(i as int + 1));
            assert(pieces@[i as int]@ == ps[i as int]);
        }
        let t = trim_chars(&pieces[i]);
        if t.len() > 0 {
            let ghost old_r = r.deep_view();
            r.push(string_from_chars(&t));
            proof {
                assert(r.deep_view() =~~= old_r.push(t@));
                assert(old_r + (seq![t@] + spec_trim_pieces(ps.skip(i as int + 1))) =~= r.deep_view()
                    + spec_trim_pieces(ps.skip(i as int + 1)));
            }
        }
        i += 1;
    }
    proof {
        assert(ps.skip(ps.len() as int) =~= Seq::<Seq<char>>::empty());
        assert(r.deep_view() =~= spec_trim_pieces(ps));
    }
    r
}

/// Splitting consumes a comma-free prefix into the piece under construction.
proof fn lemma_split_comma_free_prefix(p: Seq<char>, s: Seq<char>, cur: Seq<char>)
    requires
        comma_free(p),
    ensures
        split_commas_rec(p + s, cur) == split_commas_rec(s, cur + p),
    decreases p.len(),
{
    if p.len() == 0 {
        assert(p + s =~= s);
        assert(cur + p =~= cur);
    } else {
        assert((p + s)[0] == p[0]);
        assert((p + s).drop_first() =~= p.drop_first() + s);
        lemma_split_comma_free_prefix(p.drop_first(), s, cur.push(p[0]));
        assert(cur.push(p[0]) + p.drop_first() =~= cur + p);
    }
}

/// Trimming ignores a whitespace-only prefix.
proof fn lemma_trim_start_space_prefix(sp: Seq<char>, t: Seq<char>)
    requires
        all_space(sp),
    ensures
        trim_start_rec(sp + t) == trim_start_rec(t),
    decreases sp.len(),
{
    if sp.len() == 0 {
        assert(sp + t =~= t);
    } else {
        assert((sp + t)[0] == sp[0]);
        assert((sp + t).drop_first() =~= sp.drop_first() + t);
        lemma_trim_start_space_prefix(sp.drop_first(), t);
    }
}

/// A whitespace-only prefix glued onto a canonical tag trims back to the tag;
/// a whitespace-only piece trims to nothing.
proof fn lemma_trim_space_prefix(sp: Seq<char>, t: Seq<char>)
    requires
        all_space(sp),
        t.len() == 0 || canonical_tag(t),
    ensures
        spec_trim(sp + t) == t,
{
    lemma_trim_start_space_prefix(sp, t);
    if t.len() == 0 {
        assert(trim_start_rec(t) == t);
        assert(trim_end_rec(t) == t);
    } else {
        assert(trim_start_rec(t) == t);
        assert(trim_end_rec(t) == t);
    }
}

/// The inductive core of the round trip: splitting the joined canonical
/// tags back apart, with any whitespace-only residue `prefix` in front,
/// recovers exactly the tags.
proof fn lemma_parse_join_rec(tags: Seq<Seq<char>>, prefix: Seq<char>)
    requires
        forall|i: int| 0 <= i < tags.len() ==> canonical_tag(#[trigger] tags[i]),
        all_space(prefix),
    ensures
        spec_trim_pieces(split_commas_rec(spec_join_tags(tags), prefix)) == tags,
    decreases tags.len(),
{
    let sep = seq![',', ' '];
    if tags.len() == 0 {
        assert(split_commas_rec(Seq::<char>::empty(), prefix) == seq![prefix]);
        lemma_trim_space_prefix(prefix, Seq::<char>::empty());
        assert(prefix + Seq::<char>::empty() =~= prefix);
        assert(spec_trim(prefix) == Seq::<char>::empty());
        assert(seq![prefix][0] == prefix);
        assert(seq![prefix].drop_first() =~= Seq::<Seq<char>>::empty());
        assert(spec_trim_pieces(Seq::<Seq<char>>::empty()) == Seq::<Seq<char>>::empty());
        assert(spec_trim_pieces(seq![prefix]) == Seq::<Seq<char>>::empty());
        assert(tags =~= Seq::<Seq<char>>::empty());
    } else if tags.len() == 1 {
        let t0 = tags[0];
        assert(spec_join_tags(tags) == t0);
        assert(t0 + Seq::<char>::empty() =~= t0);
        lemma_split_comma_free_prefix(t0, Seq::<char>::empty(), prefix);
        assert(split_commas_rec(spec_join_tags(tags), prefix) == seq![prefix + t0]);
        lemma_trim_space_prefix(prefix, t0);
        assert(seq![prefix + t0][0] == prefix + t0);
        assert(seq![prefix + t0].drop_first() =~= Seq::<Seq<char>>::empty());
        assert(spec_trim_pieces(Seq::<Seq<char>>::empty()) == Seq::<Seq<char>>::empty());
        assert(spec_trim_pieces(seq![prefix + t0]) == seq![t0] + Seq::<Seq<char>>::empty());
        assert(seq![t0] + Seq::<Seq<char>>::empty() =~= seq![t0]);
        assert(tags =~= seq![t0]);
    } else {
        let t0 = tags[0];
        let rest = tags.drop_first();
        let tail = spec_join_tags(rest);
        assert(spec_join_tags(tags) == t0 + sep + tail);
        assert(t0 + sep + tail =~= t0 + (sep + tail));
        lemma_split_comma_free_prefix(t0, sep + tail, prefix);
        // the separator: a comma, then one space attached to what follows
        assert((sep + tail)[0] == ',');
        assert((sep + tail).drop_first() =~= seq![' '] + tail);
        assert(split_commas_rec(sep + tail, prefix + t0) == seq![prefix + t0] + split_commas_rec(
            seq![' '] + tail,
            Seq::<char>::empty(),
        ));
        lemma_split_comma_free_prefix(seq![' '], tail, Seq::<char>::empty());
        assert(Seq::<char>::empty() + seq![' '] =~= seq![' ']);
        lemma_parse_join_rec(rest, seq![' ']);
        let split_rest = split_commas_rec(tail, seq![' ']);
        let whole = seq![prefix + t0] + split_rest;
        assert(whole[0] == prefix + t0);
        assert(whole.drop_first() =~= split_rest);
        lemma_trim_space_prefix(prefix, t0);
        assert(split_rest.len() > 0) by {
            lemma_split_nonempty(tail, seq![' ']);
        }
        assert(spec_trim_pieces(whole) == seq![t0] + rest);
        assert(seq![t0] + rest =~= tags);
    }
}

/// Splitting always yields at least one piece.
proof fn lemma_split_nonempty(s: Seq<char>, cur: Seq<char>)
    ensures
        split_commas_rec(s, cur).len() > 0,
    decreases s.len(),
{
    if s.len() == 0 {
    } else if s[0] == ',' {
    } else {
        lemma_split_nonempty(s.drop_first(), cur.push(s[0]));
    }
}

/// The editor's tag round trip: a list of canonical tags, written with
/// ", " between them and parsed back, is recovered exactly.
pub proof fn lemma_parse_join_tags(tags: Seq<Seq<char>>)
    requires
        forall|i: int| 0 <= i < tags.len() ==> canonical_tag(#[trigger] tags[i]),
    ensures
        spec_parse_tags(spec_join_tags(tags)) == tags,
{
    lemma_parse_join_rec(tags, Seq::<char>::empty());
}

/// A tag that trims to itself and is non-empty after a trim is exactly
/// what trimming leaves behind; conversely, trimming is idempotent.
pub proof fn lemma_trim_canonical(t: Seq<char>)
    requires
        t.len() == 0 || (!is_space(t[0]) && !is_space(t[t.len() - 1])),
    ensures
        spec_trim(t) == t,
{
    assert(trim_start_rec(t) == t);
    assert(trim_end_rec(t) == t);
}

proof fn lemma_trim_start_edge(s: Seq<char>)
    ensures
        trim_start_rec(s).len() > 0 ==> !is_space(trim_start_rec(s)[0]),
        trim_start_rec(s).len() > 0 ==> trim_start_rec(s)[trim_start_rec(s).len() - 1] == s[s.len()
            - 1],
    decreases s.len(),
{
    if s.len() > 0 && is_space(s[0]) {
        lemma_trim_start_edge(s.drop_first());
        if s.len() > 1 {
            assert(s.drop_first()[s.drop_first().len() - 1] == s[s.len() - 1]);
        }
    }
}

proof fn lemma_trim_end_edge(s: Seq<char>)
    ensures
        trim_end_rec(s).len() > 0 ==> !is_space(trim_end_rec(s)[trim_end_rec(s).len() - 1]),
        trim_end_rec(s).len() > 0 ==> trim_end_rec(s)[0] == s[0],
    decreases s.len(),
{
    if s.len() > 0 && is_space(s[s.len() - 1]) {
        lemma_trim_end_edge(s.drop_last());
    }
}

/// What a trim leaves behind has no whitespace at either end, so
/// trimming a second time changes nothing.
pub proof fn lemma_trim_idempotent(s: Seq<char>)
    ensures
        spec_trim(spec_trim(s)) == spec_trim(s),
        spec_trim(s).len() > 0 ==> !is_space(spec_trim(s)[0]) && !is_space(
            spec_trim(s)[spec_trim(s).len() - 1],
        ),
{
    let a = trim_start_rec(s);
    let b = trim_end_rec(a);
    lemma_trim_start_edge(s);
    lemma_trim_end_edge(a);
    lemma_trim_canonical(b);
}

proof fn lemma_trim_start_comma_free(s: Seq<char>)
    requires
        comma_free(s),
    ensures
        comma_free(trim_start_rec(s)),
    decreases s.len(),
{
    if s.len() > 0 && is_space(s[0]) {
        assert(comma_free(s.drop_first()));
        lemma_trim_start_comma_free(s.drop_first());
    }
}

proof fn lemma_trim_end_comma_free(s: Seq<char>)
    requires
        comma_free(s),
    ensures
        comma_free(trim_end_rec(s)),
    decreases s.len(),
{
    if s.len() > 0 && is_space(s[s.len() - 1]) {
        assert(comma_free(s.drop_last()));
        lemma_trim_end_comma_free(s.drop_last());
    }
}

proof fn lemma_split_pieces_comma_free(s: Seq<char>, cur: Seq<char>)
    requires
        comma_free(cur),
    ensures
        forall|i: int|
            0 <= i < split_commas_rec(s, cur).len() ==> comma_free(
                #[trigger] split_commas_rec(s, cur)[i],
            ),
    decreases s.len(),
{
    let r = split_commas_rec(s, cur);
    if s.len() == 0 {
        assert(r[0] == cur);
    } else if s[0] == ',' {
        lemma_split_pieces_comma_free(s.drop_first(), Seq::empty());
        let rest = split_commas_rec(s.drop_first(), Seq::empty());
        assert forall|i: int| 0 <= i < r.len() implies comma_free(#[trigger] r[i]) by {
            if i == 0 {
                assert(r[0] == cur);
            } else {
                assert(r[i] == rest[i - 1]);
            }
        }
    } else {
        assert(comma_free(cur.push(s[0]))) by {
            assert(forall|i: int|
                0 <= i < cur.len() ==> cur.push(s[0])[i] == #[trigger] cur[i]);
            assert(cur.push(s[0])[cur.len() as int] == s[0]);
        }
        lemma_split_pieces_comma_free(s.drop_first(), cur.push(s[0]));
        assert(r == split_commas_rec(s.drop_first(), cur.push(s[0])));
    }
}

proof fn lemma_trim_pieces_canonical(ps: Seq<Seq<char>>)
    requires
        forall|i: int| 0 <= i < ps.len() ==> comma_free(#[trigger] ps[i]),
    ensures
        forall|i: int|
            0 <= i < spec_trim_pieces(ps).len() ==> canonical_tag(#[trigger] spec_trim_pieces(ps)[i]),
    decreases ps.len(),
{
    if ps.len() > 0 {
        let h = spec_trim(ps[0]);
        let rest = spec_trim_pieces(ps.drop_first());
        assert(forall|i: int|
            0 <= i < ps.drop_first().len() ==> comma_free(#[trigger] ps.drop_first()[i]));
        lemma_trim_pieces_canonical(ps.drop_first());
        lemma_trim_idempotent(ps[0]);
        lemma_trim_start_comma_free(ps[0]);
        lemma_trim_end_comma_free(trim_start_rec(ps[0]));
        if h.len() > 0 {
            assert(canonical_tag(h));
            assert forall|i: int|
                0 <= i < spec_trim_pieces(ps).len() implies canonical_tag(
                #[trigger] spec_trim_pieces(ps)[i],
            ) by {
                if i == 0 {
                    assert(spec_trim_pieces(ps)[0] == h);
                } else {
                    assert(spec_trim_pieces(ps)[i] == rest[i - 1]);
                }
            }
        }
    }
}

/// Every tag a parse hands back is canonical: non-empty, comma-free,
/// and with no whitespace at either end.
pub proof fn lemma_parse_tags_canonical(s: Seq<char>)
    ensures
        forall|i: int|
            0 <= i < spec_parse_tags(s).len() ==> canonical_tag(#[trigger] spec_parse_tags(s)[i]),
{
    lemma_split_pieces_comma_free(s, Seq::empty());
    lemma_trim_pieces_canonical(spec_split_commas(s));
}

proof fn lemma_join_push(s: Seq<Seq<char>>, x: Seq<char>)
    ensures
        s.len() == 0 ==> spec_join_tags(s.push(x)) == x,
        s.len() > 0 ==> spec_join_tags(s.push(x)) == spec_join_tags(s) + seq![',', ' '] + x,
    decreases s.len(),
{
    if s.len() == 0 {
        assert(s.push(x) =~= seq![x]);
        assert(spec_join_tags(seq![x]) == x);
    } else if s.len() == 1 {
        assert(s.push(x).drop_first() =~= seq![x]);
        assert(s.push(x)[0] == s[0]);
        assert(spec_join_tags(seq![x]) == x);
        assert(spec_join_tags(s.push(x)) == s[0] + seq![',', ' '] + x);
        assert(spec_join_tags(s) == s[0]);
    } else {
        lemma_join_push(s.drop_first(), x);
        assert(s.push(x).drop_first() =~= s.drop_first().push(x));
        assert(spec_join_tags(s.push(x)) == s[0] + seq![',', ' '] + spec_join_tags(
            s.drop_first().push(x),
        ));
        assert(s[0] + seq![',', ' '] + (spec_join_tags(s.drop_first()) + seq![',', ' '] + x) =~= (s[0]
            + seq![',', ' '] + spec_join_tags(s.drop_first())) + seq![',', ' '] + x);
    }
}

/// Write a tag list into a single buffer, the tags joined with ", ".
pub fn join_tags(tags: &Vec<String>) -> (r: Vec<char>)
    ensures
        r@ == spec_join_tags(tags.deep_view()),
{
    let mut r: Vec<char> = Vec::new();
    let mut i: usize = 0;
    while i < tags.len()
        invariant
            i <= tags@.len(),
            r@ == spec_join_tags(tags.deep_view().take(i as int)),
        decreases tags@.len() - i,
    {
        if i > 0 {
            r.push(',');
            r.push(' ');
        }
        let ghost base = r@;
        let t = &tags[i];
        let n = t.as_str().unicode_len();
        let mut j: usize = 0;
        while j < n
            invariant
                j <= n,
                n == t@.len(),
                r@ == base + t@.take(j as int),
            decreases n - j,
        {
            r.push(t.as_str().get_char(j));
            j += 1;
            proof {
                assert(base + t@.take(j as int - 1) + seq![t@[j as int - 1]] =~= base + t@.take(
                    j as int,
                ));
            }
        }
        proof {
            assert(t@.take(n as int) =~= t@);
            assert(t@ == tags.deep_view()[i as int]);
            lemma_join_push(tags.deep_view().take(i as int), tags.deep_view()[i as int]);
            assert(tags.deep_view().take(i as int).push(tags.deep_view()[i as int]) =~= tags.deep_view()
                .take(i as int + 1));
        }
        i += 1;
    }
    proof {
        assert(tags.deep_view().take(tags@.len() as int) =~= tags.deep_view());
    }
    r
}

} // verus!
