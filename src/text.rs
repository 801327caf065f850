use vstd::prelude::*;

use crate::model::strings_view;

verus! {

/// The characters with Unicode's White_Space property.
pub open spec fn is_white_space(c: char) -> bool {
    let u = c as u32;
    (0x9 <= u <= 0xd) || u == 0x20 || u == 0x85 || u == 0xa0 || u == 0x1680 || (0x2000 <= u
        <= 0x200a) || u == 0x2028 || u == 0x2029 || u == 0x202f || u == 0x205f || u == 0x3000
}

/// Whether `c` has Unicode's White_Space property.
pub fn white_space(c: char) -> (r: bool)
    ensures
        r == is_white_space(c),
{
    let u = c as u32;
    (0x9 <= u && u <= 0xd) || u == 0x20 || u == 0x85 || u == 0xa0 || u == 0x1680 || (0x2000 <= u
        && u <= 0x200a) || u == 0x2028 || u == 0x2029 || u == 0x202f || u == 0x205f || u == 0x3000
}

/// The characters that the tokenizer removes from the end of a token.
pub open spec fn is_discard(c: char) -> bool {
    c == ' ' || c == '\t' || c == '\n' || c == '\r' || c == '\0' || c == '.' || c == ','
        || c == '!' || c == '?' || c == ';' || c == ':'
}

fn discard(c: char) -> (r: bool)
    ensures
        r == is_discard(c),
{
    c == ' ' || c == '\t' || c == '\n' || c == '\r' || c == '\0' || c == '.' || c == ','
        || c == '!' || c == '?' || c == ';' || c == ':'
}

/// `w` without the discard characters at its end.
pub open spec fn trim_end_discard(w: Seq<char>) -> Seq<char>
    decreases w.len(),
{
    if w.len() > 0 && is_discard(w.last()) {
        trim_end_discard(w.drop_last())
    } else {
        w
    }
}

/// `w` without the white space at its start.
pub open spec fn trim_start_ws(w: Seq<char>) -> Seq<char>
    decreases w.len(),
{
    if w.len() > 0 && is_white_space(w[0]) {
        trim_start_ws(w.drop_first())
    } else {
        w
    }
}

/// `w` without the white space at its end.
pub open spec fn trim_end_ws(w: Seq<char>) -> Seq<char>
    decreases w.len(),
{
    if w.len() > 0 && is_white_space(w.last()) {
        trim_end_ws(w.drop_last())
    } else {
        w
    }
}

/// `w` without the white space at either end.
pub open spec fn trim_ws(w: Seq<char>) -> Seq<char> {
    trim_end_ws(trim_start_ws(w))
}

/// Ends the current run `cur` of non-white-space characters: its trimmed form
/// joins the tokens unless it is empty.
pub open spec fn flush_token(done: Seq<Seq<char>>, cur: Seq<char>) -> Seq<Seq<char>> {
    if trim_end_discard(cur).len() > 0 {
        done.push(trim_end_discard(cur))
    } else {
        done
    }
}

/// The tokens completed after reading `s`, and the run of non-white-space
/// characters still open at its end.
pub open spec fn token_scan(s: Seq<char>) -> (Seq<Seq<char>>, Seq<char>)
    decreases s.len(),
{
    if s.len() == 0 {
        (Seq::empty(), Seq::empty())
    } else {
        let (done, cur) = token_scan(s.drop_last());
        if is_white_space(s.last()) {
            (flush_token(done, cur), Seq::empty())
        } else {
            (done, cur.push(s.last()))
        }
    }
}

/// The tokens of `s`: its maximal runs of non-white-space characters, in
/// order, each without its trailing discard characters, the empty ones left
/// out.
pub open spec fn tokens_of(s: Seq<char>) -> Seq<Seq<char>> {
    flush_token(token_scan(s).0, token_scan(s).1)
}

/// The pieces of `s` between its commas, in order, empty ones included.
pub open spec fn comma_scan(s: Seq<char>) -> (Seq<Seq<char>>, Seq<char>)
    decreases s.len(),
{
    if s.len() == 0 {
        (Seq::empty(), Seq::empty())
    } else {
        let (done, cur) = comma_scan(s.drop_last());
        if s.last() == ',' {
            (done.push(cur), Seq::empty())
        } else {
            (done, cur.push(s.last()))
        }
    }
}

pub open spec fn split_commas(s: Seq<char>) -> Seq<Seq<char>> {
    comma_scan(s).0.push(comma_scan(s).1)
}

/// The comma-separated items of `s`, each without white space at its ends.
pub open spec fn comma_items(s: Seq<char>) -> Seq<Seq<char>> {
    Seq::new(split_commas(s).len(), |i: int| trim_ws(split_commas(s)[i]))
}

/// Whether `s` holds a comma.
pub fn has_comma(s: &str) -> (r: bool)
    ensures
        r == s@.contains(','),
{
    let cs = chars_of(s);
    for i in 0..cs.len()
        invariant
            cs@ == s@,
            forall|k: int| 0 <= k < i ==> cs@[k] != ',',
    {
        if cs[i] == ',' {
            assert(s@[i as int] == ',');
            return true;
        }
    }
    false
}

/// The characters of `s`, one element each.
pub fn chars_of(s: &str) -> (r: Vec<char>)
    ensures
        r@ == s@,
{
    let mut r: Vec<char> = Vec::new();
    for c in it: s.chars()
        invariant
            it.seq() == s@,
            r@ == it.seq().take(it.index() as int),
    {
        r.push(c);
    }
    assert(r@ =~= s@);
    r
}

/// Appends the token of the run `cs[start..end]` of `s` to `out`, unless it
/// is empty once trimmed.
fn push_token(s: &str, cs: &Vec<char>, start: usize, end: usize, out: &mut Vec<String>)
    requires
        cs@ == s@,
        start <= end <= cs@.len(),
    ensures
        strings_view(final(out)@) == flush_token(strings_view(old(out)@), cs@.subrange(
            start as int,
            end as int,
        )),
{
    let mut j = end;
    while j > start && discard(cs[j - 1])
        invariant
            start <= j <= end <= cs@.len(),
            trim_end_discard(cs@.subrange(start as int, end as int)) == trim_end_discard(
                cs@.subrange(start as int, j as int),
            ),
        decreases j,
    {
        assert(cs@.subrange(start as int, j as int).drop_last() =~= cs@.subrange(
            start as int,
            (j - 1) as int,
        ));
        j = j - 1;
    }
    let ghost cur = cs@.subrange(start as int, end as int);
    assert(trim_end_discard(cur) == cs@.subrange(start as int, j as int));
    if j > start {
        let piece = s.substring_char(start, j);
        out.push(String::from_str(piece));
        assert(strings_view(out@) =~= strings_view(old(out)@).push(trim_end_discard(cur)));
    }
}

/// The tokens of `s`: runs of non-white-space characters, each without its
/// trailing discard characters, empty ones left out.
pub fn tokenize(s: &str) -> (r: Vec<String>)
    ensures
        strings_view(r@) == tokens_of(s@),
{
    let cs = chars_of(s);
    let mut out: Vec<String> = Vec::new();
    let mut start: usize = 0;
    let mut i: usize = 0;
    while i < cs.len()
        invariant
            cs@ == s@,
            start <= i <= cs@.len(),
            token_scan(cs@.take(i as int)) == (strings_view(out@), cs@.subrange(
                start as int,
                i as int,
            )),
        decreases cs@.len() - i,
    {
        assert(cs@.take(i + 1).drop_last() =~= cs@.take(i as int));
        if white_space(cs[i]) {
            push_token(s, &cs, start, i, &mut out);
            start = i + 1;
            assert(cs@.subrange(start as int, start as int) =~= Seq::<char>::empty());
        } else {
            assert(cs@.subrange(start as int, i as int).push(cs@[i as int]) =~= cs@.subrange(
                start as int,
                i + 1,
            ));
        }
        i = i + 1;
    }
    assert(cs@.take(i as int) =~= s@);
    push_token(s, &cs, start, i, &mut out);
    out
}

/// The characters `cs[lo..hi]` without white space at either end, as the
/// bounds of what is left.
fn trim_bounds(cs: &Vec<char>, lo: usize, hi: usize) -> (r: (usize, usize))
    requires
        lo <= hi <= cs@.len(),
    ensures
        lo <= r.0 <= r.1 <= hi,
        cs@.subrange(r.0 as int, r.1 as int) == trim_ws(cs@.subrange(lo as int, hi as int)),
{
    let mut a = lo;
    while a < hi && white_space(cs[a])
        invariant
            lo <= a <= hi <= cs@.len(),
            trim_start_ws(cs@.subrange(lo as int, hi as int)) == trim_start_ws(
                cs@.subrange(a as int, hi as int),
            ),
        decreases hi - a,
    {
        assert(cs@.subrange(a as int, hi as int).drop_first() =~= cs@.subrange(
            a + 1,
            hi as int,
        ));
        a = a + 1;
    }
    assert(trim_start_ws(cs@.subrange(a as int, hi as int)) == cs@.subrange(a as int, hi as int));
    let mut b = hi;
    while b > a && white_space(cs[b - 1])
        invariant
            lo <= a <= b <= hi <= cs@.len(),
            trim_end_ws(cs@.subrange(a as int, hi as int)) == trim_end_ws(
                cs@.subrange(a as int, b as int),
            ),
        decreases b,
    {
        assert(cs@.subrange(a as int, b as int).drop_last() =~= cs@.subrange(
            a as int,
            b - 1,
        ));
        b = b - 1;
    }
    assert(trim_end_ws(cs@.subrange(a as int, b as int)) == cs@.subrange(a as int, b as int));
    (a, b)
}

/// The comma-separated items of `s`, each without white space at its ends.
pub fn split_items(s: &str) -> (r: Vec<String>)
    ensures
        strings_view(r@) == comma_items(s@),
{
    let cs = chars_of(s);
    let mut out: Vec<String> = Vec::new();
    let ghost mut pieces: Seq<Seq<char>> = Seq::empty();
    let mut start: usize = 0;
    let mut i: usize = 0;
    while i < cs.len()
        invariant
            cs@ == s@,
            start <= i <= cs@.len(),
            comma_scan(cs@.take(i as int)) == (pieces, cs@.subrange(start as int, i as int)),
            out@.len() == pieces.len(),
            forall|k: int| 0 <= k < pieces.len() ==> #[trigger] out@[k]@ == trim_ws(pieces[k]),
        decreases cs@.len() - i,
    {
        assert(cs@.take(i + 1).drop_last() =~= cs@.take(i as int));
        if cs[i] == ',' {
            let (a, b) = trim_bounds(&cs, start, i);
            out.push(String::from_str(s.substring_char(a, b)));
            proof {
                pieces = pieces.push(cs@.subrange(start as int, i as int));
            }
            start = i + 1;
            assert(cs@.subrange(start as int, start as int) =~= Seq::<char>::empty());
        } else {
            assert(cs@.subrange(start as int, i as int).push(cs@[i as int]) =~= cs@.subrange(
                start as int,
                i + 1,
            ));
        }
        i = i + 1;
    }
    assert(cs@.take(i as int) =~= s@);
    let (a, b) = trim_bounds(&cs, start, i);
    out.push(String::from_str(s.substring_char(a, b)));
    proof {
        pieces = pieces.push(cs@.subrange(start as int, i as int));
    }
    assert(strings_view(out@) =~= comma_items(s@));
    out
}

} // verus!
